use storage_poc::allocator::{NonAllocator, SpyAllocator};
use storage_poc::small::{SingleElement, SingleElementHandle, SingleRange};
use storage_poc::traits::{
    ElementStorage, RangeStorage, SingleElementStorage, SingleRangeStorage,
};
use storage_poc::utils::{Layout, Metadata};

fn slice_of<E>(len: usize) -> Metadata {
    Metadata::Slice { element: Layout::new::<E>(), len }
}

#[test]
fn create_inline_success() {
    let mut storage = SingleElement::<[u8; 2], u8, _>::new(NonAllocator::new());
    storage.create(1u8).unwrap();
}

#[test]
fn create_allocated_success() {
    let mut storage = SingleElement::<u8, u32, _>::new(SpyAllocator::default());
    let handle = storage.create(1u32).unwrap();

    assert_eq!(1, storage.allocator().allocated());
    assert_eq!(0, storage.allocator().deallocated());

    storage.destroy(handle);

    assert_eq!(1, storage.allocator().allocated());
    assert_eq!(1, storage.allocator().deallocated());
}

#[test]
fn single_element_create_insufficient_size() {
    let mut storage = SingleElement::<u8, [u8; 2], _>::new(NonAllocator::new());
    storage.create([1u8, 2]).unwrap_err();

    let mut storage = storage_poc::inline::SingleElement::<u8, [u8; 3]>::new();
    storage.create([1u8, 2, 3]).unwrap_err();
}

#[test]
fn single_element_create_insufficient_alignment() {
    let mut storage = SingleElement::<[u8; 32], u32, _>::new(NonAllocator::new());
    storage.create(1u32).unwrap_err();

    let mut storage = storage_poc::inline::SingleElement::<[u8; 32], [u32; 1]>::new();
    storage.create([1u32]).unwrap_err();
}

#[test]
fn coerce_allocated() {
    let mut storage = SingleElement::<u8, [u32; 3], _>::new(SpyAllocator::default());
    let handle = storage.create([1u32, 2, 3]).unwrap();

    assert_eq!(1, storage.allocator().allocated());
    assert_eq!(0, storage.allocator().deallocated());

    let handle = storage.coerce(handle, slice_of::<u32>(3));
    assert!(matches!(handle, SingleElementHandle::Allocated(_)));

    storage.destroy(handle);

    assert_eq!(1, storage.allocator().allocated());
    assert_eq!(1, storage.allocator().deallocated());
}

#[test]
fn small_element_goes_inline_again_after_an_allocated_one() {
    let mut storage = SingleElement::<u16, u16, _>::new(SpyAllocator::new());

    let handle = storage.create(7).unwrap();
    assert!(matches!(handle, SingleElementHandle::Inline(_)));
    assert_eq!(Some(&7), storage.get(handle));
    assert_eq!(0, storage.allocator().allocated());
    storage.destroy(handle);
    assert_eq!(0, storage.allocator().deallocated());

    let wide = Metadata::Slice { element: Layout::new::<u16>(), len: 4 };
    let handle = storage.allocate(wide).unwrap();
    assert!(matches!(handle, SingleElementHandle::Allocated(_)));
    assert_eq!(1, storage.allocator().allocated());
    storage.deallocate(handle);
    assert_eq!(1, storage.allocator().deallocated());

    let handle = storage.create(8).unwrap();
    assert!(matches!(handle, SingleElementHandle::Inline(_)));
    assert_eq!(Some(8), storage.take(handle));
    assert_eq!((1, 1), (storage.allocator().allocated(), storage.allocator().deallocated()));
}

#[test]
fn small_range_switches_to_the_allocator_and_keeps_the_elements() {
    let mut storage = SingleRange::<[u8; 4], u8, _>::new(SpyAllocator::new());
    assert!(storage.is_first());

    let handle = storage.allocate(4).unwrap();
    assert!(storage.is_first());
    assert_eq!(4, storage.get(handle).len());
    for index in 0..4 {
        storage.write(handle, index, 10 + index as u8);
    }
    assert_eq!(0, storage.allocator().unwrap().allocated());

    let handle = storage.try_grow(handle, 6).unwrap();
    assert!(storage.is_second());
    assert_eq!(1, storage.allocator().unwrap().allocated());
    assert_eq!(
        &[Some(10), Some(11), Some(12), Some(13), None, None],
        storage.get(handle)
    );

    let handle = storage.try_grow(handle, 8).unwrap();
    assert!(storage.is_second());
    assert_eq!(Some(13), storage.get(handle)[3]);
    assert_eq!(8, storage.get(handle).len());
}

#[test]
fn small_range_abandons_the_inline_side_even_if_the_allocator_refuses() {
    let mut storage = SingleRange::<[u8; 2], u8, _>::new(NonAllocator::new());
    let handle = storage.allocate(2).unwrap();
    storage.write(handle, 0, 1);
    assert!(storage.is_first());

    storage.try_grow(handle, 3).unwrap_err();
    assert!(storage.is_second());

    let handle = storage.allocate(0).unwrap();
    assert!(storage.is_second());
    assert_eq!(0, storage.get(handle).len());
}

#[test]
fn small_range_shrinks_back_inline() {
    let mut storage = SingleRange::<[u8; 2], u8, _>::new(SpyAllocator::new());
    let handle = storage.allocate(5).unwrap();
    assert!(storage.is_second());
    storage.write(handle, 0, 1);
    storage.write(handle, 1, 2);
    storage.write(handle, 2, 3);

    let handle = storage.try_shrink(handle, 3).unwrap();
    assert!(storage.is_second());
    assert_eq!(&[Some(1), Some(2), Some(3)], storage.get(handle));
    assert_eq!(2, storage.allocator().unwrap().allocated());
}
