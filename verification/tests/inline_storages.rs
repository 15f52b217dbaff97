use storage_poc::inline::{MultiElement, SingleElement, SingleRange};
use storage_poc::traits::{
    ElementStorage, MultiElementStorage, RangeStorage, SingleElementStorage, SingleRangeStorage,
};
use storage_poc::utils::{Layout, Metadata};

fn slice_of<E>(len: usize) -> Metadata {
    Metadata::Slice { element: Layout::new::<E>(), len }
}

#[test]
fn multi_element_create_insufficient_alignment() {
    let mut storage = MultiElement::<[u8; 4], [u16; 2], 5>::new();
    storage.create([1u16, 2]).unwrap_err();
}

#[test]
fn multi_element_create_insufficient_size() {
    let mut storage = MultiElement::<[u8; 2], [u8; 3], 5>::new();
    storage.create([1u8, 2, 3]).unwrap_err();
}

#[test]
fn create_insufficient_capacity() {
    let victim = "Hello, World".to_string();
    let mut storage = MultiElement::<String, String, 1>::new();

    for _ in 0..2 {
        let handle = storage.create(victim.clone()).unwrap();
        let element = storage.get(handle);
        assert_eq!(Some(&victim), element);

        storage.create(victim.clone()).unwrap_err();
        storage.destroy(handle);
    }
}

#[test]
fn resolve_accross_moves() {
    let mut storage = MultiElement::<u8, u8, 5>::new();

    let h1 = storage.create(1u8).unwrap();
    let h2 = storage.create(2u8).unwrap();
    let h3 = storage.create(3u8).unwrap();

    let storage = storage;

    assert_eq!(Some(&1), storage.get(h1));
    assert_eq!(Some(&2), storage.get(h2));
    assert_eq!(Some(&3), storage.get(h3));
}

#[test]
fn coerce_unsize() {
    let mut storage = MultiElement::<[u8; 2], [u8; 2], 5>::new();
    let handle = storage.create([1, 2]).unwrap();

    let handle = storage.coerce(handle, slice_of::<u8>(2));
    let element = storage.get(handle);

    assert_eq!(Some(&[1, 2]), element);
    assert_eq!(slice_of::<u8>(2), handle.meta);
}

#[test]
fn single_element_create_success() {
    let mut storage = SingleElement::<[u8; 2], u8>::new();
    let handle = storage.create(1u8).unwrap();
    assert_eq!(Some(&1), storage.get(handle));

    let mut storage = storage_poc::allocator::SingleElement::new(
        storage_poc::allocator::SpyAllocator::default(),
    );
    let handle = storage.create(1u32).unwrap();

    assert_eq!(1, storage.allocator().allocated());
    assert_eq!(0, storage.allocator().deallocated());

    storage.destroy(handle);

    assert_eq!(1, storage.allocator().allocated());
    assert_eq!(1, storage.allocator().deallocated());
}

#[test]
fn allocate_insufficient_size() {
    let mut storage = SingleRange::<u8, u8, u8, 2>::new();
    storage.allocate(3).unwrap_err();
}

#[test]
fn allocate_insufficient_alignment() {
    let mut storage = SingleRange::<u8, u8, u32, 42>::new();
    storage.allocate(1).unwrap_err();
}

#[test]
fn inline_single_failure_leaves_storage_untouched() {
    let mut storage = SingleElement::<u8, [u8; 3]>::new();
    assert_eq!(Err([1u8, 2, 3]), storage.create([1u8, 2, 3]).map(|_| ()));

    let mut storage = SingleElement::<[u8; 4], u32>::new();
    assert_eq!(Err(7u32), storage.create(7u32).map(|_| ()));
}

#[test]
fn inline_single_allocate_write_take() {
    let mut storage = SingleElement::<[u16; 2], u16>::new();
    let handle = storage.allocate(Metadata::sized::<u16>()).unwrap();
    assert_eq!(None, storage.get(handle));

    storage.write(handle, 9);
    assert_eq!(Some(&9), storage.get(handle));
    assert_eq!(Some(9), storage.take(handle));
    assert_eq!(None, storage.get(handle));
    storage.deallocate(handle);
}

#[test]
fn inline_single_allocate_refuses_what_cannot_exist() {
    let mut storage = SingleElement::<[u16; 2], u16>::new();
    let meta = Metadata::Slice { element: Layout::new::<u16>(), len: usize::MAX };
    storage.allocate(meta).unwrap_err();
    storage.allocate(slice_of::<u16>(3)).unwrap_err();
    storage.allocate(slice_of::<u16>(2)).unwrap();
}

#[test]
fn inline_multi_scenario_one_slot() {
    let mut storage = MultiElement::<u8, u8, 1>::new();

    let first = storage.create(4).unwrap();
    assert_eq!(Some(&4), storage.get(first));

    assert_eq!(Err(5), storage.create(5).map(|_| ()));

    storage.destroy(first);
    let second = storage.create(5).unwrap();
    assert_eq!(Some(&5), storage.get(second));
}

#[test]
fn inline_multi_fills_and_reuses_the_slot_released_last() {
    let mut storage = MultiElement::<u32, u32, 3>::new();
    assert_eq!(vec![0, 1, 2], storage.free_slots());

    let a = storage.create(10).unwrap();
    let b = storage.create(11).unwrap();
    let c = storage.create(12).unwrap();
    assert_eq!((0, 1, 2), (a.index, b.index, c.index));
    assert_eq!(Vec::<usize>::new(), storage.free_slots());

    assert_eq!(Err(13), storage.create(13).map(|_| ()));

    storage.destroy(b);
    assert_eq!(vec![1], storage.free_slots());
    storage.destroy(a);
    assert_eq!(vec![0, 1], storage.free_slots());

    let d = storage.create(14).unwrap();
    assert_eq!(0, d.index);
    let e = storage.create(15).unwrap();
    assert_eq!(1, e.index);

    assert_eq!(Some(&12), storage.get(c));
    assert_eq!(Some(&14), storage.get(d));
    assert_eq!(Some(&15), storage.get(e));
}

#[test]
fn inline_multi_without_slots_refuses() {
    let mut storage = MultiElement::<u8, u8, 0>::new();
    assert_eq!(0, storage.capacity());
    assert_eq!(Err(1), storage.create(1).map(|_| ()));
}

#[test]
fn inline_range_offers_as_many_slots_as_fit() {
    let mut storage = SingleRange::<u8, u32, u16, 3>::new();
    let handle = storage.allocate(6).unwrap();
    assert_eq!(6, storage.get(handle).len());
    storage.allocate(7).unwrap_err();

    storage.write(handle, 5, 77);
    assert_eq!(Some(77), storage.get(handle)[5]);
    assert_eq!(Some(77), storage.take(handle, 5));
    assert_eq!(None, storage.get(handle)[5]);

    storage.try_grow(handle, 7).unwrap_err();
    storage.try_shrink(handle, 1).unwrap_err();
    assert_eq!(6, storage.get(handle).len());
    storage.deallocate(handle);
}

#[test]
fn inline_range_zero_capacity_always_succeeds() {
    let mut storage = SingleRange::<u8, u8, u64, 4>::new();
    let handle = storage.allocate(0).unwrap();
    assert_eq!(0, storage.get(handle).len());
}

#[test]
fn inline_range_maximum_capacity() {
    let storage = SingleRange::<u8, u8, u8, 42>::new();
    assert_eq!(42, storage.maximum_capacity());

    let storage = SingleRange::<u8, u32, u8, 100>::new();
    assert_eq!(255, storage.maximum_capacity());

    let storage = SingleRange::<u8, u8, u32, 1000>::new();
    assert_eq!(0, storage.maximum_capacity());

    let storage = SingleRange::<u8, [u32; 250], u32, 1>::new();
    assert_eq!(250, storage.maximum_capacity());

    let storage = SingleRange::<u8, u32, u16, 42>::new();
    assert_eq!(84, storage.maximum_capacity());

    let storage = SingleRange::<u8, u32, u16, 0>::new();
    assert_eq!(0, storage.maximum_capacity());

    let storage = SingleRange::<u16, u32, u8, 100>::new();
    assert_eq!(400, storage.maximum_capacity());

    let storage = SingleRange::<usize, u64, u32, 1>::new();
    assert_eq!(2, storage.maximum_capacity());
}

#[test]
fn inline_range_hands_out_uninitialized_slots() {
    let mut storage = SingleRange::<u8, u8, u8, 3>::new();
    let handle = storage.allocate(3).unwrap();
    storage.write(handle, 0, 1);
    storage.write(handle, 2, 3);
    storage.deallocate(handle);

    let handle = storage.allocate(2).unwrap();
    assert_eq!(&[None, None, None], storage.get(handle));

    storage.write(handle, 1, 9);
    let handle = storage.allocate(1).unwrap();
    assert_eq!(&[None, None, None], storage.get(handle));
}

#[test]
fn inline_range_refuses_every_resize() {
    let mut storage = SingleRange::<u8, u8, u8, 2>::new();
    let handle = storage.allocate(1).unwrap();
    storage.write(handle, 0, 7);

    storage.try_grow(handle, 2).unwrap_err();
    storage.try_grow(handle, 1).unwrap_err();
    storage.try_grow(handle, 3).unwrap_err();
    storage.try_shrink(handle, 2).unwrap_err();
    storage.try_shrink(handle, 0).unwrap_err();
    assert_eq!(&[Some(7), None], storage.get(handle));
}
