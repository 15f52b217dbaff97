use storage_poc::traits::Capacity;
use storage_poc::utils::{
    layout_of, validate_array_layout, validate_layout, validate_layout_for, AllocError, Layout,
    Metadata,
};

#[test]
fn capacity_round_trips() {
    for n in [0usize, 1, 200, 255] {
        assert_eq!(n, <u8 as Capacity>::from_usize(n).unwrap().into_usize());
    }
    for n in [0usize, 256, 65535] {
        assert_eq!(n, <u16 as Capacity>::from_usize(n).unwrap().into_usize());
    }
    for n in [0usize, 65536, 4294967295] {
        assert_eq!(n, <u32 as Capacity>::from_usize(n).unwrap().into_usize());
    }
    for n in [0usize, 4294967296, usize::MAX] {
        assert_eq!(n, <usize as Capacity>::from_usize(n).unwrap().into_usize());
    }
}

#[test]
fn capacity_refuses_what_is_beyond_its_maximum() {
    assert_eq!(None, <u8 as Capacity>::from_usize(256));
    assert_eq!(None, <u16 as Capacity>::from_usize(65536));
    assert_eq!(None, <u32 as Capacity>::from_usize(4294967296));
    assert_eq!(None, <u8 as Capacity>::from_usize(usize::MAX));
}

#[test]
fn capacity_maximum() {
    assert_eq!(255, <u8 as Capacity>::max().into_usize());
    assert_eq!(65535, <u16 as Capacity>::max().into_usize());
    assert_eq!(4294967295, <u32 as Capacity>::max().into_usize());
    assert_eq!(usize::MAX, <usize as Capacity>::max().into_usize());
}

#[test]
fn layout_of_types_and_arrays() {
    assert_eq!(Layout { size: 4, align: 4 }, Layout::new::<u32>());
    assert_eq!(Layout { size: 3, align: 1 }, Layout::new::<[u8; 3]>());
    assert_eq!(Ok(Layout { size: 12, align: 4 }), Layout::array::<u32>(3));
    assert_eq!(Ok(Layout { size: 0, align: 4 }), Layout::array::<u32>(0));
    assert_eq!(Ok(Layout { size: 0, align: 1 }), Layout::array::<()>(usize::MAX));
    assert_eq!(Err(AllocError), Layout::array::<u32>(usize::MAX / 4));
    assert_eq!(
        Ok(Layout { size: isize::MAX as usize, align: 1 }),
        Layout::array::<u8>(isize::MAX as usize)
    );
    assert_eq!(Err(AllocError), Layout::array::<u8>(isize::MAX as usize + 1));
    assert_eq!(4, Layout::new::<u32>().size());
    assert_eq!(4, Layout::new::<u32>().align());
}

#[test]
fn layout_of_metadata() {
    let element = Layout::new::<u16>();
    assert_eq!(Ok(Layout::new::<u64>()), layout_of(Metadata::sized::<u64>()));
    assert_eq!(
        Ok(Layout { size: 10, align: 2 }),
        layout_of(Metadata::Slice { element, len: 5 })
    );
    assert_eq!(
        Ok(Layout { size: 7, align: 1 }),
        layout_of(Metadata::Dyn { vtable: 9, layout: Layout { size: 7, align: 1 } })
    );
    assert_eq!(Err(AllocError), layout_of(Metadata::Slice { element, len: usize::MAX }));
    assert_eq!(
        Err(AllocError),
        layout_of(Metadata::Sized { layout: Layout { size: usize::MAX, align: 1 } })
    );
}

#[test]
fn validate_layout_for_compares_size_and_alignment() {
    assert_eq!(Ok(()), validate_layout_for::<u32>(Layout { size: 4, align: 4 }));
    assert_eq!(Ok(()), validate_layout_for::<u32>(Layout { size: 0, align: 1 }));
    assert_eq!(Err(AllocError), validate_layout_for::<u32>(Layout { size: 5, align: 4 }));
    assert_eq!(Err(AllocError), validate_layout_for::<u32>(Layout { size: 4, align: 8 }));
    assert_eq!(Err(AllocError), validate_layout_for::<[u8; 32]>(Layout { size: 4, align: 4 }));
}

#[test]
fn validate_layout_goes_by_the_metadata() {
    assert_eq!(Ok(()), validate_layout::<[u8; 2]>(Metadata::sized::<u8>()));
    assert_eq!(Err(AllocError), validate_layout::<u8>(Metadata::sized::<[u8; 3]>()));
    assert_eq!(Err(AllocError), validate_layout::<[u8; 32]>(Metadata::sized::<u32>()));
    let element = Layout::new::<u8>();
    assert_eq!(Ok(()), validate_layout::<[u8; 4]>(Metadata::Slice { element, len: 4 }));
    assert_eq!(Err(AllocError), validate_layout::<[u8; 4]>(Metadata::Slice { element, len: 5 }));
    assert_eq!(
        Err(AllocError),
        validate_layout::<[u8; 4]>(Metadata::Slice { element, len: usize::MAX })
    );
}

#[test]
fn validate_array_layout_counts_bytes() {
    assert_eq!(Ok(()), validate_array_layout::<u8, u8>(2, 42));
    assert_eq!(Ok(()), validate_array_layout::<u8, u8>(42, 42));
    assert_eq!(Err(AllocError), validate_array_layout::<u8, u8>(3, 2));
    assert_eq!(Err(AllocError), validate_array_layout::<u32, u8>(1, 42));
    assert_eq!(Ok(()), validate_array_layout::<u16, u32>(6, 3));
    assert_eq!(Err(AllocError), validate_array_layout::<u16, u32>(7, 3));
    assert_eq!(Ok(()), validate_array_layout::<u16, u32>(0, 0));
    assert_eq!(Err(AllocError), validate_array_layout::<u16, u32>(1, 0));
    assert_eq!(Err(AllocError), validate_array_layout::<u16, u32>(usize::MAX, usize::MAX));
    assert_eq!(Ok(()), validate_array_layout::<(), u8>(usize::MAX, 0));
}

#[test]
fn metadata_unsizing() {
    let array = Metadata::sized::<[u16; 3]>();
    let slice = Metadata::Slice { element: Layout::new::<u16>(), len: 3 };
    let object = Metadata::Dyn { vtable: 4, layout: Layout::new::<[u16; 3]>() };

    assert!(array.is_sized());
    assert!(!slice.is_sized());
    assert!(array.can_unsize_to(slice));
    assert!(array.can_unsize_to(object));
    assert!(!array.can_unsize_to(array));
    assert!(!slice.can_unsize_to(object));
    assert!(!array.can_unsize_to(Metadata::Slice { element: Layout::new::<u16>(), len: 2 }));
    assert!(!array.can_unsize_to(Metadata::Slice { element: Layout::new::<u8>(), len: 6 }));
}
