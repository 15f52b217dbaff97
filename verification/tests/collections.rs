use storage_poc::allocator::{NonAllocator, SpyAllocator};
use storage_poc::collections::{
    RawBox, RawLinkedList, RawLinkedListNode, RawLinkedListNodeStorage, RawVec,
};
use storage_poc::utils::{Layout, Metadata};

fn slice_of<E>(len: usize) -> Metadata {
    Metadata::Slice { element: Layout::new::<E>(), len }
}

fn object_of<T>() -> Metadata {
    Metadata::Dyn { vtable: 1, layout: Layout::new::<T>() }
}

//
//  RawBox, inline
//

#[test]
fn sized_storage() {
    let storage = storage_poc::inline::SingleElement::<u8, u8>::new();
    let mut boxed = RawBox::new(1u8, storage).ok().unwrap();

    assert_eq!(1u8, *boxed.get());

    boxed.set(2);

    assert_eq!(2u8, *boxed.get());
}

#[test]
fn slice_storage() {
    let storage = storage_poc::inline::SingleElement::<[u8; 4], [u8; 3]>::new();
    let mut boxed = RawBox::new([1u8, 2, 3], storage).ok().unwrap().coerce(slice_of::<u8>(3));

    assert_eq!([1u8, 2, 3], &boxed.get()[..]);
    assert_eq!(slice_of::<u8>(3), boxed.metadata());

    let mut value = *boxed.get();
    value[2] = 4;
    boxed.set(value);

    assert_eq!([1u8, 2, 4], &boxed.get()[..]);
}

#[test]
fn trait_storage() {
    let storage = storage_poc::inline::SingleElement::<[u8; 4], [u8; 3]>::new();
    let boxed = RawBox::new([1u8, 2, 3], storage).ok().unwrap().coerce(object_of::<[u8; 3]>());

    assert_eq!("RawBox{ [1, 2, 3] }", format!("RawBox{{ {:?} }}", boxed.get()));
}

//
//  RawBox, small
//

#[test]
fn sized_inline() {
    let storage = storage_poc::small::SingleElement::<u8, u8, _>::new(NonAllocator::new());
    let mut boxed = RawBox::new(1u8, storage).ok().unwrap();

    assert_eq!(1u8, *boxed.get());

    boxed.set(2);

    assert_eq!(2u8, *boxed.get());
}

#[test]
fn raw_box_sized_allocated() {
    let storage = storage_poc::small::SingleElement::<u8, u32, _>::new(SpyAllocator::default());
    let mut boxed = RawBox::new(1u32, storage).ok().unwrap();

    assert_eq!(1u32, *boxed.get());
    assert_eq!(1, boxed.storage().allocator().allocated());
    assert_eq!(0, boxed.storage().allocator().deallocated());

    boxed.set(2);

    assert_eq!(2u32, *boxed.get());

    let storage = boxed.into_storage();

    assert_eq!(1, storage.allocator().allocated());
    assert_eq!(1, storage.allocator().deallocated());

    let storage = storage_poc::allocator::SingleElement::new(SpyAllocator::default());
    let mut boxed = RawBox::new(1, storage).ok().unwrap();

    assert_eq!(1u32, *boxed.get());
    assert_eq!(1, boxed.storage().allocator().allocated());
    assert_eq!(0, boxed.storage().allocator().deallocated());

    boxed.set(2);

    assert_eq!(2u32, *boxed.get());

    let storage = boxed.into_storage();

    assert_eq!(1, storage.allocator().allocated());
    assert_eq!(1, storage.allocator().deallocated());
}

#[test]
fn raw_box_sized_failure() {
    let storage = storage_poc::small::SingleElement::<u8, i32, _>::new(NonAllocator::new());
    assert!(RawBox::new(1, storage).is_err());

    let storage = storage_poc::allocator::SingleElement::new(NonAllocator::new());
    assert!(RawBox::new(1, storage).is_err());
}

#[test]
fn slice_inline() {
    let storage = storage_poc::small::SingleElement::<[u8; 4], [u8; 3], _>::new(
        NonAllocator::new(),
    );
    let mut boxed = RawBox::new([1u8, 2, 3], storage).ok().unwrap().coerce(slice_of::<u8>(3));

    assert_eq!([1u8, 2, 3], &boxed.get()[..]);

    let mut value = *boxed.get();
    value[2] = 4;
    boxed.set(value);

    assert_eq!([1u8, 2, 4], &boxed.get()[..]);
}

#[test]
fn raw_box_slice_allocated() {
    let storage = storage_poc::small::SingleElement::<[u8; 2], [u8; 3], _>::new(
        SpyAllocator::default(),
    );
    let mut boxed = RawBox::new([1u8, 2, 3], storage).ok().unwrap().coerce(slice_of::<u8>(3));

    assert_eq!([1u8, 2, 3], &boxed.get()[..]);
    assert_eq!(1, boxed.storage().allocator().allocated());
    assert_eq!(0, boxed.storage().allocator().deallocated());

    let mut value = *boxed.get();
    value[2] = 4;
    boxed.set(value);

    assert_eq!([1u8, 2, 4], &boxed.get()[..]);

    let storage = boxed.into_storage();

    assert_eq!(1, storage.allocator().allocated());
    assert_eq!(1, storage.allocator().deallocated());

    let storage = storage_poc::allocator::SingleElement::new(SpyAllocator::default());
    let mut boxed = RawBox::new([1u8, 2, 3], storage).ok().unwrap().coerce(slice_of::<u8>(3));

    assert_eq!([1u8, 2, 3], &boxed.get()[..]);
    assert_eq!(1, boxed.storage().allocator().allocated());
    assert_eq!(0, boxed.storage().allocator().deallocated());

    let mut value = *boxed.get();
    value[2] = 4;
    boxed.set(value);

    assert_eq!([1u8, 2, 4], &boxed.get()[..]);

    let storage = boxed.into_storage();

    assert_eq!(1, storage.allocator().allocated());
    assert_eq!(1, storage.allocator().deallocated());
}

#[test]
fn raw_box_slice_failure() {
    let storage = storage_poc::small::SingleElement::<[u8; 2], [u8; 3], _>::new(
        NonAllocator::new(),
    );
    assert!(RawBox::new([1u8, 2, 3], storage).is_err());

    let storage = storage_poc::allocator::SingleElement::new(NonAllocator::new());
    assert!(RawBox::new([1u8, 2, 3], storage).is_err());
}

#[test]
fn trait_inline() {
    let storage = storage_poc::small::SingleElement::<[u8; 4], [u8; 3], _>::new(
        NonAllocator::new(),
    );
    let boxed = RawBox::new([1u8, 2, 3], storage).ok().unwrap().coerce(object_of::<[u8; 3]>());

    assert_eq!("RawBox{ [1, 2, 3] }", format!("RawBox{{ {:?} }}", boxed.get()));
}

#[test]
fn raw_box_trait_allocated() {
    let storage = storage_poc::small::SingleElement::<[u8; 2], [u8; 3], _>::new(
        SpyAllocator::default(),
    );
    let boxed = RawBox::new([1u8, 2, 3], storage).ok().unwrap().coerce(object_of::<[u8; 3]>());

    assert_eq!("RawBox{ [1, 2, 3] }", format!("RawBox{{ {:?} }}", boxed.get()));
    assert_eq!(1, boxed.storage().allocator().allocated());
    assert_eq!(0, boxed.storage().allocator().deallocated());

    let storage = boxed.into_storage();

    assert_eq!(1, storage.allocator().allocated());
    assert_eq!(1, storage.allocator().deallocated());

    let storage = storage_poc::allocator::SingleElement::new(SpyAllocator::default());
    let boxed = RawBox::new([1u8, 2, 3], storage).ok().unwrap().coerce(object_of::<[u8; 3]>());

    assert_eq!("RawBox{ [1, 2, 3] }", format!("RawBox{{ {:?} }}", boxed.get()));
    assert_eq!(1, boxed.storage().allocator().allocated());
    assert_eq!(0, boxed.storage().allocator().deallocated());

    let storage = boxed.into_storage();

    assert_eq!(1, storage.allocator().allocated());
    assert_eq!(1, storage.allocator().deallocated());
}

#[test]
fn raw_box_trait_failure() {
    let storage = storage_poc::small::SingleElement::<[u8; 2], [u8; 3], _>::new(
        NonAllocator::new(),
    );
    assert!(RawBox::new([1u8, 2, 3], storage).is_err());

    let storage = storage_poc::allocator::SingleElement::new(NonAllocator::new());
    assert!(RawBox::new([1u8, 2, 3], storage).is_err());
}

//
//  RawBox, allocator
//

#[test]
fn slice_coerce() {
    let storage = storage_poc::allocator::SingleElement::new(SpyAllocator::default());
    let boxed = RawBox::new([1u8, 2, 3], storage).ok().unwrap();

    assert_eq!([1u8, 2, 3], *boxed.get());
    assert_eq!(1, boxed.storage().allocator().allocated());
    assert_eq!(0, boxed.storage().allocator().deallocated());

    let coerced = boxed.coerce(slice_of::<u8>(3));

    assert_eq!([1u8, 2, 3], *coerced.get());

    let storage = coerced.into_storage();

    assert_eq!(1, storage.allocator().allocated());
    assert_eq!(1, storage.allocator().deallocated());
}

#[test]
fn trait_coerce() {
    let storage = storage_poc::allocator::SingleElement::new(SpyAllocator::default());
    let boxed = RawBox::new([1u8, 2, 3], storage).ok().unwrap();

    assert_eq!([1u8, 2, 3], *boxed.get());
    assert_eq!(1, boxed.storage().allocator().allocated());
    assert_eq!(0, boxed.storage().allocator().deallocated());

    let coerced = boxed.coerce(object_of::<[u8; 3]>());

    assert_eq!("RawBox{ [1, 2, 3] }", format!("RawBox{{ {:?} }}", coerced.get()));

    let storage = coerced.into_storage();

    assert_eq!(1, storage.allocator().allocated());
    assert_eq!(1, storage.allocator().deallocated());
}

#[test]
fn raw_box_moves_to_another_storage() {
    let storage = storage_poc::inline::SingleElement::<u64, u64>::new();
    let boxed = RawBox::new(42u64, storage).ok().unwrap();

    let refused = storage_poc::allocator::SingleElement::new(NonAllocator::new());
    let boxed = RawBox::try_in(boxed, refused).err().unwrap();
    assert_eq!(42, *boxed.get());

    let accepted = storage_poc::allocator::SingleElement::new(SpyAllocator::new());
    let boxed = RawBox::try_in(boxed, accepted).ok().unwrap();
    assert_eq!(42, *boxed.get());
    assert_eq!(1, boxed.storage().allocator().allocated());
    assert_eq!(Metadata::sized::<u64>(), boxed.metadata());
}

#[test]
fn raw_box_hands_back_what_it_cannot_store() {
    let storage = storage_poc::inline::SingleElement::<u8, u16>::new();
    let (value, _storage) = RawBox::new(300u16, storage).err().unwrap();
    assert_eq!(300, value);
}

//
//  RawLinkedList
//

#[test]
fn raw_linked_list_smoke_test() {
    type Handle = storage_poc::inline::MultiElementHandle;
    type Node = RawLinkedListNode<u8, Handle>;
    type NodeStorage = RawLinkedListNodeStorage<u8, Handle>;
    type Storage = storage_poc::inline::MultiElement<NodeStorage, Node, 4>;

    let mut list = RawLinkedList::<u8, Handle, Storage>::new(Storage::default());

    list.push(1).unwrap();
    list.push(2).unwrap();

    assert_eq!(Some(&2), list.front());

    list.replace_front(3);

    assert_eq!(Some(3), list.pop());
    assert_eq!(Some(&1), list.front());

    type Pointer = storage_poc::allocator::ElementPointer;
    type Heap = storage_poc::allocator::MultiElement<SpyAllocator, RawLinkedListNode<String, Pointer>>;

    let mut list = RawLinkedList::<String, Pointer, Heap>::new(Heap::new(SpyAllocator::default()));

    list.push("Hello".to_string()).unwrap();
    list.push("World".to_string()).unwrap();

    assert_eq!(2, list.storage().allocator().allocated());
    assert_eq!(0, list.storage().allocator().deallocated());

    assert_eq!(Some(&"World".to_string()), list.front());

    list.replace_front("All".to_string());

    assert_eq!(Some("All".to_string()), list.pop());
    assert_eq!(Some(&"Hello".to_string()), list.front());
    assert_eq!(2, list.storage().allocator().allocated());
    assert_eq!(1, list.storage().allocator().deallocated());
}

#[test]
fn allocation_failure() {
    type Pointer = storage_poc::allocator::ElementPointer;
    type Heap =
        storage_poc::allocator::MultiElement<NonAllocator, RawLinkedListNode<&'static str, Pointer>>;

    let mut list = RawLinkedList::<&'static str, Pointer, Heap>::new(Heap::default());

    list.push("Caramba").unwrap_err();
}

#[test]
fn raw_linked_list_is_last_in_first_out() {
    type Handle = storage_poc::inline::MultiElementHandle;
    type Node = RawLinkedListNode<u32, Handle>;
    type Storage = storage_poc::inline::MultiElement<Node, Node, 3>;

    let mut list = RawLinkedList::<u32, Handle, Storage>::new(Storage::new());
    assert!(list.is_empty());
    assert_eq!(None, list.front());
    assert_eq!(None, list.pop());
    assert_eq!(None, list.replace_front(9));

    list.push(1).unwrap();
    list.push(2).unwrap();
    list.push(3).unwrap();
    assert_eq!(Err(4), list.push(4));
    assert_eq!(vec![&3, &2, &1], list.elements());

    assert_eq!(Some(3), list.pop());
    list.push(5).unwrap();
    assert_eq!(vec![&5, &2, &1], list.elements());

    list.clear();
    assert!(list.is_empty());
    assert_eq!(Vec::<&u32>::new(), list.elements());

    let storage = list.into_storage();
    assert_eq!(3, storage.free_slots().len());
}

//
//  RawVec
//

#[test]
fn raw_vec_smoke_test() {
    type Storage = storage_poc::inline::SingleRange<u8, u8, u8, 31>;

    let mut vec = RawVec::<u8, Storage>::new(Storage::default());

    for i in 0..31 {
        vec.push(i);
    }

    assert_eq!(Some(&2), vec.get(2));

    assert_eq!(
        "[0, 1, 2, 3, 4, 5, 6, 7, 8, 9, 10, 11, 12, 13, 14, 15, 16, 17, 18, 19, 20, 21, 22, 23, 24, 25, 26, 27, 28, 29, 30]",
        format!("{:?}", vec.elements())
    );

    type Heap = storage_poc::allocator::SingleRange<SpyAllocator, u8>;

    let storage = Heap::new(SpyAllocator::default());
    let mut vec = RawVec::<u8, Heap>::new(storage);

    assert_eq!(0, vec.storage().allocator().allocated());
    assert_eq!(0, vec.storage().allocator().deallocated());

    for i in 0..31 {
        vec.push(i);

        assert_eq!(
            vec.storage().allocator().allocated() - 1,
            vec.storage().allocator().deallocated()
        );
    }

    assert_eq!(Some(&2), vec.get(2));

    assert_eq!(
        "[0, 1, 2, 3, 4, 5, 6, 7, 8, 9, 10, 11, 12, 13, 14, 15, 16, 17, 18, 19, 20, 21, 22, 23, 24, 25, 26, 27, 28, 29, 30]",
        format!("{:?}", vec.elements())
    );

    let storage = vec.into_storage();

    assert_eq!(6, storage.allocator().allocated());
    assert_eq!(6, storage.allocator().deallocated());
}

#[test]
fn raw_vec_try_push_failure() {
    type Storage = storage_poc::inline::SingleRange<u8, u8, u8, 1>;

    let mut vec = RawVec::<u8, Storage>::new(Storage::default());
    vec.push(0);

    assert_eq!(Err(42), vec.try_push(42));

    type Heap = storage_poc::allocator::SingleRange<NonAllocator, u8>;

    let mut vec = RawVec::<u8, Heap>::new(Heap::default());

    assert_eq!(Err(42), vec.try_push(42));
}

#[test]
fn raw_vec_pops_in_reverse_and_clears() {
    type Heap = storage_poc::allocator::SingleRange<SpyAllocator, String>;

    let mut vec = RawVec::<String, Heap>::new(Heap::new(SpyAllocator::new()));
    assert!(vec.is_empty());
    assert_eq!(None, vec.pop());
    assert_eq!(None, vec.get(0));

    vec.push("a".to_string());
    vec.push("b".to_string());
    vec.push("c".to_string());
    assert_eq!(3, vec.len());
    assert_eq!(None, vec.get(3));

    assert_eq!(Some("c".to_string()), vec.pop());
    assert_eq!(2, vec.len());
    assert_eq!(Some(&"b".to_string()), vec.get(1));

    assert_eq!("a".to_string(), vec.set(0, "z".to_string()));
    assert_eq!(vec![&"z".to_string(), &"b".to_string()], vec.elements());

    vec.clear();
    assert!(vec.is_empty());
    assert_eq!(0, vec.len());
    assert_eq!(None, vec.pop());
}

#[test]
fn raw_vec_on_a_small_storage_spills_to_the_allocator() {
    type Storage = storage_poc::small::SingleRange<[u8; 2], u8, SpyAllocator>;

    let mut vec = RawVec::<u8, Storage>::new(Storage::new(SpyAllocator::new()));
    vec.push(1);
    vec.push(2);
    assert!(vec.storage().is_first());
    assert_eq!(0, vec.storage().allocator().unwrap().allocated());

    vec.push(3);
    assert!(vec.storage().is_second());
    assert_eq!(vec![&1, &2, &3], vec.elements());
    assert_eq!(1, vec.storage().allocator().unwrap().allocated());
}

#[test]
fn raw_vec_stops_where_the_capacity_type_stops() {
    type Storage = storage_poc::inline::SingleRange<u8, u8, u8, 300>;

    let mut vec = RawVec::<u8, Storage>::new(Storage::new());
    for i in 0..255u8 {
        vec.push(i);
    }
    assert_eq!(255, vec.len());
    assert_eq!(Err(0), vec.try_push(0));
    assert_eq!(255, vec.len());
    assert_eq!(Some(254), vec.pop());
}
