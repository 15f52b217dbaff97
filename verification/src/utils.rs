//! Layouts, pointer metadata, and the checks that decide whether a value fits a slot.

use core::marker::PhantomData;
use vstd::layout::*;
use vstd::prelude::*;

verus! {

/// A marker to signal the absence of ownership of T.
pub struct PhantomInvariant<T>(PhantomData<T>);

impl<T> Default for PhantomInvariant<T> {
    fn default() -> (r: Self) {
        Self(PhantomData)
    }
}

/// The single error of every storage: the request could not be satisfied.
#[derive(Clone, Copy, Debug, PartialEq, Eq, Structural)]
pub struct AllocError;

/// The size and alignment, in bytes, of a region of memory.
#[derive(Clone, Copy, Debug, PartialEq, Eq, Structural)]
pub struct Layout {
    /// Number of bytes.
    pub size: usize,
    /// Alignment, in bytes.
    pub align: usize,
}

/// The largest size that a single region may have.
pub open spec fn max_size() -> int {
    isize::MAX as int
}

impl Layout {
    /// The layout of a value of the statically sized type `T`.
    pub open spec fn spec_new<T>() -> Layout {
        Layout { size: size_of::<T>() as usize, align: align_of::<T>() as usize }
    }

    /// The layout of `n` consecutive values of `T`, provided the total size stays in bounds.
    pub open spec fn spec_array<T>(n: usize) -> Option<Layout> {
        if size_of::<T>() * n <= max_size() {
            Some(Layout { size: (size_of::<T>() * n) as usize, align: align_of::<T>() as usize })
        } else {
            None
        }
    }

    /// Whether a region of this layout can be placed in a region of layout `slot`.
    pub open spec fn fits(self, slot: Layout) -> bool {
        self.size <= slot.size && self.align <= slot.align
    }

    /// The layout of a value of type `T`. The size is a multiple of the alignment, so
    /// that the alignment is at most the size, unless the size is zero.
    pub fn new<T>() -> (layout: Layout)
        ensures
            layout == Self::spec_new::<T>(),
            layout.size == size_of::<T>(),
            layout.align == align_of::<T>(),
            0 < layout.align <= layout.size || layout.size == 0,
            layout.size as int % layout.align as int == 0,
    {
        layout_for_type_is_valid::<T>();
        proof {
            if size_of::<T>() > 0 {
                vstd::arithmetic::div_mod::lemma_mod_is_zero(size_of::<T>(), align_of::<T>());
            }
        }
        Layout { size: core::mem::size_of::<T>(), align: core::mem::align_of::<T>() }
    }

    /// The layout of an array of `n` values of type `T`.
    ///
    /// Fails when the size of the array would exceed the largest size of a region.
    pub fn array<T>(n: usize) -> (r: Result<Layout, AllocError>)
        ensures
            r.is_ok() <==> Self::spec_array::<T>(n).is_some(),
            r.is_ok() ==> r.unwrap() == Self::spec_array::<T>(n).unwrap(),
            r.is_ok() ==> r.unwrap().size == size_of::<T>() * n,
    {
        layout_for_type_is_valid::<T>();
        let size = core::mem::size_of::<T>();
        let align = core::mem::align_of::<T>();
        let limit: usize = isize::MAX as usize;
        if size == 0 || n == 0 {
            assert(size_of::<T>() * n == 0) by (nonlinear_arith)
                requires
                    size_of::<T>() == 0 || n == 0,
            ;
            return Ok(Layout { size: 0, align });
        }
        if n > limit / size {
            assert(size_of::<T>() * n > max_size()) by (nonlinear_arith)
                requires
                    size_of::<T>() == size,
                    size > 0,
                    n > limit / size,
                    limit == max_size(),
            ;
            return Err(AllocError);
        }
        assert(size * n <= limit) by (nonlinear_arith)
            requires
                size > 0,
                n <= limit / size,
        ;
        Ok(Layout { size: size * n, align })
    }

    /// The number of bytes.
    pub fn size(&self) -> (r: usize)
        ensures
            r == self.size,
    {
        self.size
    }

    /// The alignment, in bytes.
    pub fn align(&self) -> (r: usize)
        ensures
            r == self.align,
    {
        self.align
    }
}

/// What a handle remembers about its pointee besides the place where it lives.
///
/// A statically sized pointee needs nothing but its layout. A dynamically sized one is
/// described by the number of its elements, or by the implementation that stands behind it.
#[derive(Clone, Copy, Debug, PartialEq, Eq, Structural)]
pub enum Metadata {
    /// A statically sized value.
    Sized {
        /// The layout of the value.
        layout: Layout,
    },
    /// A slice.
    Slice {
        /// The layout of one element.
        element: Layout,
        /// The number of elements.
        len: usize,
    },
    /// A value seen through an interface.
    Dyn {
        /// Identifies the implementation.
        vtable: usize,
        /// The layout of the value behind the interface.
        layout: Layout,
    },
}

impl Metadata {
    /// The metadata of a value of the statically sized type `T`.
    pub open spec fn spec_sized<T>() -> Metadata {
        Metadata::Sized { layout: Layout::spec_new::<T>() }
    }

    /// The number of bytes that the pointee occupies.
    pub open spec fn spec_size(self) -> int {
        match self {
            Metadata::Sized { layout } => layout.size as int,
            Metadata::Slice { element, len } => element.size * len,
            Metadata::Dyn { vtable, layout } => layout.size as int,
        }
    }

    /// The alignment of the pointee.
    pub open spec fn spec_align(self) -> usize {
        match self {
            Metadata::Sized { layout } => layout.align,
            Metadata::Slice { element, len } => element.align,
            Metadata::Dyn { vtable, layout } => layout.align,
        }
    }

    /// Whether the pointee can exist: its size stays within the largest size of a region.
    pub open spec fn representable(self) -> bool {
        self.spec_size() <= max_size()
    }

    /// The layout of the pointee, when it can exist.
    pub open spec fn spec_layout(self) -> Option<Layout> {
        if self.representable() {
            Some(Layout { size: self.spec_size() as usize, align: self.spec_align() })
        } else {
            None
        }
    }

    /// Whether a pointee described by `self` may be seen as one described by `target`:
    /// `self` is statically sized, `target` is not, and both occupy the same bytes.
    pub open spec fn unsizes_to(self, target: Metadata) -> bool {
        &&& self is Sized
        &&& !(target is Sized)
        &&& self.spec_layout().is_some()
        &&& target.spec_layout() == self.spec_layout()
    }

    /// The metadata of a value of type `T`.
    pub fn sized<T>() -> (meta: Metadata)
        ensures
            meta == Self::spec_sized::<T>(),
            meta.spec_layout() == Some(Layout::spec_new::<T>()),
            0 < align_of::<T>() <= size_of::<T>() || size_of::<T>() == 0,
    {
        layout_for_type_is_valid::<T>();
        Metadata::Sized { layout: Layout::new::<T>() }
    }

    /// Whether the pointee is statically sized.
    pub fn is_sized(&self) -> (r: bool)
        ensures
            r == (*self is Sized),
    {
        match self {
            Metadata::Sized { .. } => true,
            _ => false,
        }
    }

    /// Decides `unsizes_to`.
    pub fn can_unsize_to(&self, target: Metadata) -> (r: bool)
        ensures
            r == self.unsizes_to(target),
    {
        if !self.is_sized() || target.is_sized() {
            return false;
        }
        match (layout_of(*self), layout_of(target)) {
            (Ok(a), Ok(b)) => a.size == b.size && a.align == b.align,
            _ => false,
        }
    }
}

/// Computes the layout of a pointee from its metadata.
///
/// Fails when the pointee is larger than any region can be.
pub fn layout_of(meta: Metadata) -> (r: Result<Layout, AllocError>)
    ensures
        r.is_ok() <==> meta.representable(),
        r.is_ok() ==> Some(r.unwrap()) == meta.spec_layout(),
{
    let limit: usize = isize::MAX as usize;
    match meta {
        Metadata::Sized { layout } => {
            if layout.size > limit {
                Err(AllocError)
            } else {
                Ok(layout)
            }
        },
        Metadata::Dyn { vtable, layout } => {
            if layout.size > limit {
                Err(AllocError)
            } else {
                Ok(layout)
            }
        },
        Metadata::Slice { element, len } => {
            if element.size == 0 || len == 0 {
                assert(element.size * len == 0) by (nonlinear_arith)
                    requires
                        element.size == 0 || len == 0,
                ;
                return Ok(Layout { size: 0, align: element.align });
            }
            if len > limit / element.size {
                assert(element.size * len > limit) by (nonlinear_arith)
                    requires
                        element.size > 0,
                        len > limit / element.size,
                ;
                return Err(AllocError);
            }
            assert(element.size * len <= limit) by (nonlinear_arith)
                requires
                    element.size > 0,
                    len <= limit / element.size,
            ;
            Ok(Layout { size: element.size * len, align: element.align })
        },
    }
}

/// Whether a region laid out as `layout` can be placed in a value of type `Storage`.
pub open spec fn spec_validate_layout_for<Storage>(layout: Layout) -> bool {
    layout.fits(Layout::spec_new::<Storage>())
}

/// Validates that a value of type `Storage` is sufficient for `layout`.
///
/// Returns `Ok` exactly when both the size and the alignment of `layout` are at most
/// those of `Storage`.
pub fn validate_layout_for<Storage>(layout: Layout) -> (r: Result<(), AllocError>)
    ensures
        r.is_ok() <==> spec_validate_layout_for::<Storage>(layout),
{
    let slot = Layout::new::<Storage>();
    let validated_size = layout.size <= slot.size;
    let validated_alignment = layout.align <= slot.align;

    if validated_size && validated_alignment {
        Ok(())
    } else {
        Err(AllocError)
    }
}

/// Whether a pointee described by `meta` can be placed in a value of type `Storage`.
pub open spec fn spec_validate_layout<Storage>(meta: Metadata) -> bool {
    meta.spec_layout().is_some() && spec_validate_layout_for::<Storage>(
        meta.spec_layout().unwrap(),
    )
}

/// Validates that a value of type `Storage` is sufficient to accomodate a pointee
/// described by `meta`.
pub fn validate_layout<Storage>(meta: Metadata) -> (r: Result<(), AllocError>)
    ensures
        r.is_ok() <==> spec_validate_layout::<Storage>(meta),
{
    match layout_of(meta) {
        Ok(layout) => validate_layout_for::<Storage>(layout),
        Err(e) => Err(e),
    }
}

/// Whether `capacity` values of `T` can be placed in `slots` consecutive values of `Storage`.
pub open spec fn spec_validate_array_layout<T, Storage>(capacity: usize, slots: usize) -> bool {
    &&& Layout::spec_array::<T>(capacity).is_some()
    &&& size_of::<T>() * capacity <= size_of::<Storage>() * slots
    &&& align_of::<T>() <= align_of::<Storage>()
}

/// Validates that `slots` consecutive values of `Storage` are sufficient to accomodate
/// `capacity` values of `T`.
pub fn validate_array_layout<T, Storage>(capacity: usize, slots: usize) -> (r: Result<
    (),
    AllocError,
>)
    ensures
        r.is_ok() <==> spec_validate_array_layout::<T, Storage>(capacity, slots),
{
    layout_for_type_is_valid::<T>();
    let layout = match Layout::array::<T>(capacity) {
        Ok(layout) => layout,
        Err(e) => { return Err(e); },
    };
    let slot = Layout::new::<Storage>();
    if layout.align > slot.align {
        return Err(AllocError);
    }
    // The region is `slots` values of `Storage`; its size may exceed what `usize` holds,
    // in which case anything of a representable size fits.
    assert(layout.size == size_of::<T>() * capacity);
    assert(size_of::<T>() * capacity <= max_size());
    if layout.size == 0 {
        assert(size_of::<Storage>() * slots >= 0) by (nonlinear_arith);
        return Ok(());
    }
    if slot.size == 0 || slots == 0 {
        assert(size_of::<Storage>() * slots == 0) by (nonlinear_arith)
            requires
                size_of::<Storage>() == 0 || slots == 0,
        ;
        return Err(AllocError);
    }
    if slots > usize::MAX / slot.size {
        assert(size_of::<Storage>() * slots > usize::MAX) by (nonlinear_arith)
            requires
                size_of::<Storage>() == slot.size,
                slot.size > 0,
                slots > usize::MAX / slot.size,
        ;
        assert(max_size() <= usize::MAX);
        return Ok(());
    }
    assert(slot.size * slots <= usize::MAX) by (nonlinear_arith)
        requires
            slot.size > 0,
            slots <= usize::MAX / slot.size,
    ;
    if layout.size <= slot.size * slots {
        Ok(())
    } else {
        Err(AllocError)
    }
}

} // verus!
