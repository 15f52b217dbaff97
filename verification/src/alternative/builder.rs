//! Builder trait for storages.

use vstd::prelude::*;

use crate::traits::Storage;

verus! {

/// A trait to build storages, and salvage their state.
pub trait Builder<S: Storage>: Sized {
    /// The invariant of the builder.
    spec fn wf(&self) -> bool;

    /// A storage like the one that this builder creates.
    spec fn spec_into_storage(self) -> S;

    /// The builder that salvages the state of `storage`.
    spec fn spec_from_storage(storage: S) -> Self;

    /// How many times the allocators that the builder keeps were asked to allocate.
    spec fn allocations(&self) -> nat;

    /// How many times the allocators that the builder keeps were asked to deallocate.
    spec fn deallocations(&self) -> nat;

    /// Creates an instance of `Self` from `storage`: what is worth keeping of the storage
    /// is kept, its allocators with their counts among it.
    fn from_storage(storage: S) -> (r: Self)
        requires
            storage.wf(),
        ensures
            r.wf(),
            r == Self::spec_from_storage(storage),
            r.allocations() == storage.allocations(),
            r.deallocations() == storage.deallocations(),
    ;

    /// Creates an instance of `S` from `self`, over the allocators that the builder
    /// kept.
    fn into_storage(self) -> (r: S)
        requires
            self.wf(),
        ensures
            r.wf(),
            r.alike(&self.spec_into_storage()),
            r.allocations() == self.allocations(),
            r.deallocations() == self.deallocations(),
    ;
}

/// An empty builder state, when storages can be created from nothing.
#[derive(Clone, Copy, Debug)]
pub struct DefaultBuilder;

impl DefaultBuilder {
    /// Creates the builder.
    pub fn new() -> (r: Self) {
        DefaultBuilder
    }
}

impl Default for DefaultBuilder {
    fn default() -> (r: Self) {
        DefaultBuilder
    }
}

} // verus!
