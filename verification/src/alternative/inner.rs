//! The inner state of an alternative storage, to dispatch on both sides.

use vstd::prelude::*;

use super::builder::Builder;
use crate::traits::Storage;

verus! {

/// The state of an alternative storage: the storage in use, with the builder of the
/// other one.
pub enum Inner<F, S, FB, SB> {
    /// The first storage is in use.
    First(InnerElement<F, SB>),
    /// The second storage is in use.
    Second(InnerElement<S, FB>),
    /// No storage is in use: a switch is under way.
    Poisoned,
}

/// One side of an alternative: a storage, and the builder of the other.
pub struct InnerElement<V, B> {
    /// The storage in use.
    pub value: V,
    /// The builder of the storage that is not in use.
    pub builder: B,
}

impl<F, S, FB, SB> Inner<F, S, FB, SB> {
    /// The state in which `value` is in use as the first storage.
    pub fn first(value: F, builder: SB) -> (r: Self)
        ensures
            r == Inner::<F, S, FB, SB>::First(InnerElement { value, builder }),
    {
        Inner::First(InnerElement { value, builder })
    }

    /// The state in which `value` is in use as the second storage.
    pub fn second(value: S, builder: FB) -> (r: Self)
        ensures
            r == Inner::<F, S, FB, SB>::Second(InnerElement { value, builder }),
    {
        Inner::Second(InnerElement { value, builder })
    }
}

impl<V: Storage, B> InnerElement<V, B> {
    /// Starts a switch: takes the element apart and creates the other storage from the
    /// builder.
    pub fn transform<OV: Storage>(self) -> (r: (V, OV)) where B: Builder<OV>
        requires
            self.builder.wf(),
        ensures
            r.0 == self.value,
            r.1.wf(),
            r.1.alike(&self.builder.spec_into_storage()),
            r.1.allocations() == self.builder.allocations(),
            r.1.deallocations() == self.builder.deallocations(),
    {
        let InnerElement { value, builder } = self;
        let other_value = B::into_storage(builder);
        (value, other_value)
    }

    /// Completes a switch: `value` is in use from now on, and the builder kept beside it
    /// is the one that salvages `old`.
    pub fn settle<OV: Storage>(old: OV, value: V) -> (r: Self) where B: Builder<OV>
        requires
            old.wf(),
        ensures
            r.value == value,
            r.builder.wf(),
            r.builder == B::spec_from_storage(old),
            r.builder.allocations() == old.allocations(),
            r.builder.deallocations() == old.deallocations(),
    {
        let builder = B::from_storage(old);
        InnerElement { value, builder }
    }
}

} // verus!
