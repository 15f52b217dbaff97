use storage_poc::allocator::{AllocatorBuilder, NonAllocator, SpyAllocator};
use storage_poc::alternative::single_range::{into_first, into_second};
use storage_poc::alternative::{DefaultBuilder, SingleElementHandle, SingleRangeHandle};
use storage_poc::fallback::{Fallback, FallbackHandle};
use storage_poc::traits::{
    transfer, Allocator, ElementStorage, MultiElementStorage, RangeStorage, SingleElementStorage,
    SingleRangeStorage,
};
use storage_poc::utils::{Layout, Metadata};

type InlineElement<S, T> = storage_poc::inline::SingleElement<S, T>;
type HeapElement<T> = storage_poc::allocator::SingleElement<SpyAllocator, T>;
type InlineRange<C, S, T, const N: usize> = storage_poc::inline::SingleRange<C, S, T, N>;
type HeapRange<T> = storage_poc::allocator::SingleRange<SpyAllocator, T>;

type SwitchingElement<S, T> = storage_poc::alternative::SingleElement<
    InlineElement<S, T>,
    HeapElement<T>,
    DefaultBuilder,
    AllocatorBuilder<SpyAllocator>,
>;

type SwitchingRange<C, S, T, const N: usize> = storage_poc::alternative::SingleRange<
    InlineRange<C, S, T, N>,
    HeapRange<T>,
    DefaultBuilder,
    AllocatorBuilder<SpyAllocator>,
>;

#[test]
fn fallback_single_routes_to_the_secondary_when_the_primary_refuses() {
    let primary = storage_poc::allocator::SingleElement::<_, u32>::new(NonAllocator::new());
    let secondary = InlineElement::<u32, u32>::new();
    let mut storage = Fallback::new(primary, secondary);

    for value in 0..3u32 {
        let handle = storage.create(value).unwrap();
        assert!(matches!(handle, FallbackHandle::Secondary(_)));
        assert_eq!(Some(&value), storage.get(handle));
        storage.destroy(handle);
    }

    let handle = storage.allocate(Metadata::sized::<u32>()).unwrap();
    assert!(matches!(handle, FallbackHandle::Secondary(_)));
    assert_eq!(None, storage.get(handle));
}

#[test]
fn fallback_single_prefers_the_primary() {
    let mut storage = Fallback::new(InlineElement::<u8, u8>::new(), HeapElement::<u8>::new(SpyAllocator::new()));

    let handle = storage.create(9).unwrap();
    assert!(matches!(handle, FallbackHandle::Primary(_)));
    assert_eq!(0, storage.secondary.allocator().allocated());
    assert_eq!(Some(9), storage.take(handle));
    storage.deallocate(handle);
}

#[test]
fn fallback_single_fails_when_both_refuse() {
    let primary = InlineElement::<u8, u32>::new();
    let secondary = storage_poc::allocator::SingleElement::<_, u32>::new(NonAllocator::new());
    let mut storage = Fallback::new(primary, secondary);

    assert_eq!(Err(5), storage.create(5).map(|_| ()));
}

#[test]
fn fallback_multi_spills_into_the_secondary() {
    let primary = storage_poc::inline::MultiElement::<u8, u8, 2>::new();
    let secondary = storage_poc::allocator::MultiElement::<_, u8>::new(SpyAllocator::new());
    let mut storage = Fallback::new(primary, secondary);

    let a = MultiElementStorage::create(&mut storage, 1).unwrap();
    let b = MultiElementStorage::create(&mut storage, 2).unwrap();
    let c = MultiElementStorage::create(&mut storage, 3).unwrap();
    assert!(matches!(a, FallbackHandle::Primary(_)));
    assert!(matches!(b, FallbackHandle::Primary(_)));
    assert!(matches!(c, FallbackHandle::Secondary(_)));
    assert_eq!(1, storage.secondary.allocator().allocated());

    assert_eq!(Some(&1), storage.get(a));
    assert_eq!(Some(&2), storage.get(b));
    assert_eq!(Some(&3), storage.get(c));

    storage.destroy(a);
    let d = MultiElementStorage::create(&mut storage, 4).unwrap();
    assert!(matches!(d, FallbackHandle::Primary(_)));
    assert_eq!(Some(&4), storage.get(d));
    assert_eq!(Some(&3), storage.get(c));
}

#[test]
fn fallback_range_moves_to_the_secondary_on_growth() {
    let mut storage = Fallback::new(InlineRange::<u8, u8, u8, 2>::new(), HeapRange::<u8>::new(SpyAllocator::new()));
    assert_eq!(usize::MAX, storage.maximum_capacity());

    let handle = storage.allocate(2).unwrap();
    assert!(matches!(handle, FallbackHandle::Primary(_)));
    storage.write(handle, 0, 5);
    storage.write(handle, 1, 6);

    let handle = storage.try_grow(handle, 4).unwrap();
    assert!(matches!(handle, FallbackHandle::Secondary(_)));
    assert_eq!(&[Some(5), Some(6), None, None], storage.get(handle));

    let handle = storage.try_shrink(handle, 1).unwrap();
    assert!(matches!(handle, FallbackHandle::Primary(_)));
    assert_eq!(&[Some(5), Some(6)], storage.get(handle));
    assert_eq!((1, 1), (storage.secondary.allocator().allocated(), storage.secondary.allocator().deallocated()));
}

#[test]
fn fallback_range_with_a_refusing_primary() {
    let primary = storage_poc::allocator::SingleRange::<_, u8>::new(NonAllocator::new());
    let mut storage = Fallback::new(primary, InlineRange::<u8, u8, u8, 3>::new());

    let handle = storage.allocate(3).unwrap();
    assert!(matches!(handle, FallbackHandle::Secondary(_)));
    storage.write(handle, 2, 7);
    assert_eq!(Some(7), storage.take(handle, 2));
    storage.try_grow(handle, 4).unwrap_err();
    assert_eq!(3, storage.get(handle).len());
    storage.deallocate(handle);

    let handle = storage.allocate(0).unwrap();
    assert!(matches!(handle, FallbackHandle::Primary(_)));
}

#[test]
fn fallback_range_capacity_beyond_the_primary_type() {
    let mut storage = Fallback::new(InlineRange::<u8, u8, u8, 2>::new(), HeapRange::<u8>::new(SpyAllocator::new()));
    let handle = storage.allocate(300).unwrap();
    assert!(matches!(handle, FallbackHandle::Secondary(_)));
    assert_eq!(300, storage.get(handle).len());
}

#[test]
fn alternative_element_switches_when_the_first_refuses() {
    let mut storage = SwitchingElement::<u8, u32>::first(
        InlineElement::new(),
        AllocatorBuilder(SpyAllocator::new()),
    );
    assert!(storage.is_first());

    let handle = storage.create(77).unwrap();
    assert!(storage.is_second());
    assert!(matches!(handle, SingleElementHandle::Second(_)));
    assert_eq!(Some(&77), storage.get(handle));
    assert_eq!(1, storage.second_storage().unwrap().allocator().allocated());

    storage.destroy(handle);
    assert!(storage.is_second());
    assert_eq!(1, storage.second_storage().unwrap().allocator().deallocated());
}

#[test]
fn alternative_element_stays_first_while_the_first_accepts() {
    let mut storage = SwitchingElement::<u32, u32>::first(
        InlineElement::new(),
        AllocatorBuilder(SpyAllocator::new()),
    );

    let handle = storage.create(3).unwrap();
    assert!(storage.is_first());
    assert!(matches!(handle, SingleElementHandle::First(_)));
    assert_eq!(Some(3), storage.take(handle));
    storage.write(handle, 4);
    assert_eq!(Some(&4), storage.get(handle));
    assert_eq!(0, storage.second_builder().unwrap().0.allocated());
}

#[test]
fn alternative_element_failed_switch_still_switches() {
    let mut storage = storage_poc::alternative::SingleElement::<
        InlineElement<u8, u64>,
        storage_poc::allocator::SingleElement<NonAllocator, u64>,
        DefaultBuilder,
        AllocatorBuilder<NonAllocator>,
    >::first(InlineElement::new(), AllocatorBuilder(NonAllocator::new()));

    assert_eq!(Err(1), storage.create(1).map(|_| ()));
    assert!(storage.is_second());
    assert_eq!(Err(2), storage.create(2).map(|_| ()));
    assert!(storage.is_second());
}

#[test]
fn alternative_element_created_on_the_second_side() {
    let mut storage = SwitchingElement::<u8, u8>::second(
        HeapElement::new(SpyAllocator::new()),
        DefaultBuilder::new(),
    );
    assert!(storage.is_second());
    let handle = storage.allocate(Metadata::sized::<u8>()).unwrap();
    assert!(matches!(handle, SingleElementHandle::Second(_)));
    let wide = storage.coerce(handle, Metadata::Dyn { vtable: 3, layout: Layout::new::<u8>() });
    assert!(matches!(wide, SingleElementHandle::Second(_)));
    storage.deallocate(wide);
}

#[test]
fn alternative_range_fills_the_first_side_then_switches() {
    let mut storage = SwitchingRange::<u8, u8, u8, 3>::first(
        InlineRange::new(),
        AllocatorBuilder(SpyAllocator::new()),
    );
    assert_eq!(3, storage.maximum_capacity());

    let handle = storage.allocate(3).unwrap();
    assert!(matches!(handle, SingleRangeHandle::First(_)));
    for index in 0..3 {
        storage.write(handle, index, index as u8 + 1);
    }
    assert!(storage.is_first());

    let handle = storage.try_grow(handle, 4).unwrap();
    assert!(storage.is_second());
    assert!(matches!(handle, SingleRangeHandle::Second(_)));
    assert_eq!(&[Some(1), Some(2), Some(3), None], storage.get(handle));
    assert_eq!(usize::MAX, storage.maximum_capacity());

    let handle = storage.try_shrink(handle, 2).unwrap();
    assert!(storage.is_second());
    assert_eq!(&[Some(1), Some(2)], storage.get(handle));

    storage.deallocate(handle);
    assert!(storage.is_second());
}

#[test]
fn alternative_range_failed_growth_abandons_the_first_side() {
    let mut storage = storage_poc::alternative::SingleRange::<
        InlineRange<u8, u8, u8, 2>,
        storage_poc::allocator::SingleRange<NonAllocator, u8>,
        DefaultBuilder,
        AllocatorBuilder<NonAllocator>,
    >::first(InlineRange::new(), AllocatorBuilder(NonAllocator::new()));

    let handle = storage.allocate(2).unwrap();
    storage.write(handle, 0, 9);
    storage.try_grow(handle, 3).unwrap_err();
    assert!(storage.is_second());
    storage.allocate(1).unwrap_err();
}

#[test]
fn alternative_range_shrinks_back_to_the_first_side() {
    let mut crowded = SpyAllocator::new();
    crowded.allocate(Layout { size: usize::MAX - 8, align: 1 }).unwrap();
    let mut storage =
        SwitchingRange::<u8, u8, u8, 4>::second(HeapRange::new(crowded), DefaultBuilder::new());

    let handle = storage.allocate(6).unwrap();
    assert!(storage.is_second());
    for index in 0..6 {
        storage.write(handle, index, index as u8);
    }

    let handle = storage.try_shrink(handle, 3).unwrap();
    assert!(storage.is_first());
    assert!(matches!(handle, SingleRangeHandle::First(_)));
    assert_eq!(&[Some(0), Some(1), Some(2), Some(3)], storage.get(handle));
    assert_eq!(1, storage.first_storage().map(|_| 1).unwrap());
}

#[test]
fn transfer_moves_as_far_as_both_ranges_go() {
    let mut from = InlineRange::<u8, u8, u8, 3>::new();
    let mut to = InlineRange::<u8, u8, u8, 2>::new();
    let source = from.allocate(3).unwrap();
    let target = to.allocate(2).unwrap();
    from.write(source, 0, 1);
    from.write(source, 2, 3);
    to.write(target, 1, 9);

    transfer(&mut from, source, &mut to, target);

    assert_eq!(&[Some(1), None], to.get(target));
    assert_eq!(&[None, None, Some(3)], from.get(source));
}

#[test]
fn capacities_cross_sides() {
    assert_eq!(Ok(200u8), into_first::<u8, usize>(200usize));
    assert_eq!(Err(storage_poc::utils::AllocError), into_first::<u8, usize>(256usize));
    assert_eq!(Ok(65535u16), into_first::<u16, u32>(65535u32));
    assert_eq!(Err(storage_poc::utils::AllocError), into_first::<u16, u32>(65536u32));
    assert_eq!(255usize, into_second::<u8, usize>(255u8));
    assert_eq!(7u32, into_second::<u16, u32>(7u16));
}

#[test]
fn fallback_range_maximum_capacity_is_that_of_the_larger_tier() {
    let storage = Fallback::new(InlineRange::<u8, u8, u8, 2>::new(), InlineRange::<u8, u8, u8, 5>::new());
    assert_eq!(5, storage.maximum_capacity());

    let storage = Fallback::new(InlineRange::<u8, u8, u8, 200>::new(), InlineRange::<u8, u8, u8, 100>::new());
    assert_eq!(200, storage.maximum_capacity());

    let storage = Fallback::new(InlineRange::<u16, u8, u8, 300>::new(), InlineRange::<u8, u8, u8, 100>::new());
    assert_eq!(100, storage.maximum_capacity());

    let storage = Fallback::new(HeapRange::<u8>::new(SpyAllocator::new()), InlineRange::<usize, u8, u8, 5>::new());
    assert_eq!(usize::MAX, storage.maximum_capacity());
}

#[test]
fn fallback_range_growth_across_tiers_counts_one_allocation() {
    let mut storage = Fallback::new(InlineRange::<u8, u8, u8, 2>::new(), HeapRange::<u8>::new(SpyAllocator::default()));
    let handle = storage.allocate(2).unwrap();
    storage.write(handle, 0, 10);
    storage.write(handle, 1, 20);

    let handle = storage.try_grow(handle, 4).unwrap();
    assert!(matches!(handle, FallbackHandle::Secondary(_)));
    assert_eq!(&[Some(10), Some(20), None, None], storage.get(handle));
    assert_eq!(1, storage.secondary.allocator().allocated());
    assert_eq!(0, storage.secondary.allocator().deallocated());
}

#[test]
fn fallback_range_failed_growth_keeps_the_primary_range() {
    let secondary = storage_poc::allocator::SingleRange::<_, u8>::new(NonAllocator::new());
    let mut storage = Fallback::new(InlineRange::<u8, u8, u8, 2>::new(), secondary);
    let handle = storage.allocate(2).unwrap();
    storage.write(handle, 0, 10);
    storage.write(handle, 1, 20);

    storage.try_grow(handle, 4).unwrap_err();
    assert_eq!(&[Some(10), Some(20)], storage.get(handle));
    storage.try_shrink(handle, 1).unwrap_err();
    assert_eq!(&[Some(10), Some(20)], storage.get(handle));
}
