use storage_poc::allocator::{
    MultiElement, NonAllocator, SingleElement, SingleRange, SpyAllocator,
};
use storage_poc::traits::{
    Allocator, ElementStorage, MultiElementStorage, RangeStorage, SingleElementStorage,
    SingleRangeStorage,
};
use storage_poc::utils::{Layout, Metadata};

fn slice_of<E>(len: usize) -> Metadata {
    Metadata::Slice { element: Layout::new::<E>(), len }
}

#[test]
fn multi_element_default_unconditional_success() {
    MultiElement::<NonAllocator, u8>::default();
}

#[test]
fn multi_element_new_unconditional_success() {
    MultiElement::<_, u8>::new(NonAllocator::new());
    storage_poc::inline::MultiElement::<u8, u8, 5>::new();
}

#[test]
fn multi_element_create_success() {
    let mut storage = MultiElement::new(SpyAllocator::default());
    let handle = storage.create(1u32).unwrap();

    assert_eq!(1, storage.allocator().allocated());
    assert_eq!(0, storage.allocator().deallocated());

    storage.destroy(handle);

    assert_eq!(1, storage.allocator().allocated());
    assert_eq!(1, storage.allocator().deallocated());

    let mut storage = storage_poc::inline::MultiElement::<u8, u8, 5>::new();
    let handle = storage.create(4u8).unwrap();
    let element = storage.get(handle);

    assert_eq!(Some(&4), element);
}

#[test]
fn multi_element_create_failure() {
    let mut storage = MultiElement::new(NonAllocator::new());
    storage.create(1u8).unwrap_err();
}

#[test]
fn coerce_success() {
    let mut storage = MultiElement::new(SpyAllocator::default());
    let handle = storage.create([1u32, 2, 3]).unwrap();
    let handle = storage.coerce(handle, slice_of::<u32>(3));

    assert_eq!(1, storage.allocator().allocated());
    assert_eq!(0, storage.allocator().deallocated());

    storage.destroy(handle);

    assert_eq!(1, storage.allocator().allocated());
    assert_eq!(1, storage.allocator().deallocated());
}

#[test]
fn single_element_default_unconditional_success() {
    SingleElement::<NonAllocator, u8>::default();
    storage_poc::small::SingleElement::<u8, u8, NonAllocator>::default();
}

#[test]
fn single_element_new_unconditional_success() {
    SingleElement::<_, u8>::new(NonAllocator::new());
    storage_poc::inline::SingleElement::<u8, u8>::new();
    storage_poc::small::SingleElement::<u8, u8, _>::new(NonAllocator::new());
}

#[test]
fn single_element_create_failure() {
    let mut storage = SingleElement::new(NonAllocator::new());
    storage.create(1u8).unwrap_err();
}

#[test]
fn single_element_coerce() {
    let mut storage = SingleElement::new(SpyAllocator::default());
    let handle = storage.create([1u8, 2]).unwrap();

    assert_eq!(1, storage.allocator().allocated());
    assert_eq!(0, storage.allocator().deallocated());

    let handle = storage.coerce(handle, slice_of::<u8>(2));

    assert_eq!(Some(&[1, 2]), storage.get(handle));

    storage.destroy(handle);

    assert_eq!(1, storage.allocator().allocated());
    assert_eq!(1, storage.allocator().deallocated());

    let mut storage = storage_poc::inline::SingleElement::<[u8; 32], [u8; 2]>::new();

    let handle = storage.create([1u8, 2u8]).unwrap();
    let handle = storage.coerce(handle, slice_of::<u8>(2));
    assert_eq!(Some(&[1, 2]), storage.get(handle));

    storage.destroy(handle);
}

#[test]
fn single_range_default_unconditional_success() {
    SingleRange::<NonAllocator, u8>::default();
    storage_poc::small::SingleRange::<u8, u8, NonAllocator>::default();
}

#[test]
fn single_range_new_unconditional_success() {
    SingleRange::<_, u8>::new(NonAllocator::new());
    storage_poc::inline::SingleRange::<u8, u8, u8, 42>::new();
    storage_poc::small::SingleRange::<u8, u8, _>::new(NonAllocator::new());
}

#[test]
fn single_range_allocate_zero_success() {
    let mut storage = SingleRange::<_, String>::new(NonAllocator::new());

    let slice = storage.allocate(0).unwrap();

    assert_eq!(0, slice.len);
    assert_eq!(0, storage.get(slice).len());

    let mut storage = storage_poc::small::SingleRange::<[u8; 2], String, _>::new(
        NonAllocator::new(),
    );

    let handle = storage.allocate(0).unwrap();

    assert_eq!(0, storage.get(handle).len());
}

#[test]
fn single_range_allocate_success() {
    let mut storage = SingleRange::<_, String>::new(SpyAllocator::default());
    let handle = storage.allocate(1).unwrap();

    assert_eq!(1, storage.allocator().allocated());
    assert_eq!(0, storage.allocator().deallocated());

    storage.deallocate(handle);

    assert_eq!(1, storage.allocator().allocated());
    assert_eq!(1, storage.allocator().deallocated());

    let mut storage = storage_poc::inline::SingleRange::<u8, u8, u8, 42>::new();
    storage.allocate(2).unwrap();

    let mut storage = storage_poc::small::SingleRange::<[u8; 2], String, _>::new(
        SpyAllocator::default(),
    );
    let handle = storage.allocate(1).unwrap();

    assert_eq!(1, storage.allocator().unwrap().allocated());
    assert_eq!(0, storage.allocator().unwrap().deallocated());

    storage.deallocate(handle);

    assert_eq!(1, storage.allocator().unwrap().allocated());
    assert_eq!(1, storage.allocator().unwrap().deallocated());
}

#[test]
fn single_range_allocate_failure() {
    let mut storage = SingleRange::<_, String>::new(NonAllocator::new());
    storage.allocate(1).unwrap_err();

    let mut storage = storage_poc::small::SingleRange::<[u8; 2], String, _>::new(
        NonAllocator::new(),
    );
    storage.allocate(1).unwrap_err();
}

#[test]
fn spy_allocator_counts_every_call() {
    let mut spy = SpyAllocator::new();
    let layout = Layout { size: 8, align: 8 };

    let first = spy.allocate(layout).unwrap();
    let second = spy.allocate(layout).unwrap();
    assert_eq!(8, first);
    assert_eq!(16, second);
    assert_eq!((2, 0), (spy.allocated(), spy.deallocated()));

    spy.deallocate(first, layout);
    assert_eq!((2, 1), (spy.allocated(), spy.deallocated()));

    let larger = Layout { size: 16, align: 8 };
    let moved = spy.grow(second, layout, larger).unwrap();
    assert_eq!(24, moved);
    assert_eq!((3, 2), (spy.allocated(), spy.deallocated()));

    let back = spy.shrink(moved, larger, layout).unwrap();
    assert_eq!(40, back);
    assert_eq!((4, 3), (spy.allocated(), spy.deallocated()));

    spy.allocate(Layout { size: usize::MAX, align: 1 }).unwrap_err();
    assert_eq!((5, 3), (spy.allocated(), spy.deallocated()));

    let empty = spy.allocate(Layout { size: 0, align: 1 }).unwrap();
    assert_eq!(48, empty);
    assert_eq!(49, spy.allocate(Layout { size: 0, align: 1 }).unwrap());
    assert_eq!(52, spy.allocate(Layout { size: 2, align: 4 }).unwrap());
    assert_eq!(54, spy.allocate(Layout { size: 1, align: 0 }).unwrap());
}

#[test]
fn non_allocator_refuses_everything() {
    let mut non = NonAllocator::new();
    let layout = Layout { size: 1, align: 1 };
    non.allocate(layout).unwrap_err();
    non.allocate(Layout { size: 0, align: 1 }).unwrap_err();
}

#[test]
fn allocator_single_counts_attempts_that_fail() {
    let mut storage = SingleElement::<_, u64>::new(SpyAllocator::new());
    let impossible = Metadata::Slice { element: Layout::new::<u64>(), len: usize::MAX };
    storage.allocate(impossible).unwrap_err();
    assert_eq!(0, storage.allocator().allocated());

    let handle = storage.create(3).unwrap();
    assert_eq!(1, storage.allocator().allocated());
    assert_eq!(Some(3), storage.take(handle));
    storage.deallocate(handle);
    assert_eq!(1, storage.allocator().deallocated());

    let huge = Metadata::Slice { element: Layout::new::<u64>(), len: usize::MAX / 16 };
    let handle = storage.allocate(huge).unwrap();
    assert_eq!(16, handle.address);
    assert_eq!(2, storage.allocator().allocated());
    storage.allocate(huge).unwrap_err();
    assert_eq!(3, storage.allocator().allocated());
    assert_eq!(1, storage.allocator().deallocated());
}

#[test]
fn allocator_multi_keeps_elements_apart() {
    let mut storage = MultiElement::new(SpyAllocator::new());
    let a = storage.create("a".to_string()).unwrap();
    let b = storage.create("b".to_string()).unwrap();
    let c = storage.create("c".to_string()).unwrap();
    assert_eq!(3, storage.allocator().allocated());

    storage.destroy(b);
    assert_eq!(Some(&"a".to_string()), storage.get(a));
    assert_eq!(Some(&"c".to_string()), storage.get(c));

    storage.write(a, "z".to_string());
    assert_eq!(Some("z".to_string()), storage.take(a));
    assert_eq!(None, storage.get(a));
    assert_eq!(Some(&"c".to_string()), storage.get(c));
    assert_eq!(1, storage.allocator().deallocated());
}

#[test]
fn allocator_range_grows_and_shrinks_keeping_the_prefix() {
    let mut storage = SingleRange::<_, u16>::new(SpyAllocator::new());
    assert_eq!(usize::MAX, storage.maximum_capacity());

    let handle = storage.allocate(2).unwrap();
    storage.write(handle, 0, 10);
    storage.write(handle, 1, 11);

    let handle = storage.try_grow(handle, 5).unwrap();
    assert_eq!(5, handle.len);
    assert_eq!(&[Some(10), Some(11), None, None, None], storage.get(handle));
    assert_eq!((2, 1), (storage.allocator().allocated(), storage.allocator().deallocated()));

    storage.write(handle, 2, 12);
    let handle = storage.try_shrink(handle, 3).unwrap();
    assert_eq!(&[Some(10), Some(11), Some(12)], storage.get(handle));

    let handle = storage.try_shrink(handle, 0).unwrap();
    assert_eq!(0, handle.len);
    assert_eq!(0, storage.get(handle).len());
    assert_eq!((3, 3), (storage.allocator().allocated(), storage.allocator().deallocated()));

    storage.deallocate(handle);
    assert_eq!((3, 3), (storage.allocator().allocated(), storage.allocator().deallocated()));
}

#[test]
fn allocator_range_refuses_a_capacity_beyond_any_block() {
    let mut storage = SingleRange::<_, u64>::new(SpyAllocator::new());
    storage.allocate(usize::MAX / 8 + 1).unwrap_err();
    assert_eq!(0, storage.allocator().allocated());

    let handle = storage.allocate(0).unwrap();
    assert_eq!(0, storage.allocator().allocated());
    let handle = storage.try_grow(handle, 1).unwrap();
    assert_eq!(1, storage.allocator().allocated());
    assert_eq!(1, storage.get(handle).len());
}

#[test]
fn allocator_range_resizes_only_in_the_direction_asked() {
    let mut storage = SingleRange::<_, u8>::new(SpyAllocator::new());
    let handle = storage.allocate(4).unwrap();
    storage.write(handle, 3, 9);

    storage.try_grow(handle, 4).unwrap_err();
    storage.try_grow(handle, 2).unwrap_err();
    storage.try_shrink(handle, 4).unwrap_err();
    storage.try_shrink(handle, 6).unwrap_err();
    assert_eq!((1, 0), (storage.allocator().allocated(), storage.allocator().deallocated()));
    assert_eq!(&[None, None, None, Some(9)], storage.get(handle));

    let empty = storage.allocate(0).unwrap();
    storage.try_shrink(empty, 0).unwrap_err();
    let still_empty = storage.try_grow(empty, 0).unwrap();
    assert_eq!(0, still_empty.len);
}
