//! The builder that keeps an allocator while no storage uses it.

use vstd::prelude::*;

verus! {

/// A builder of allocator-backed storages: it holds the allocator that the storage
/// will use.
pub struct AllocatorBuilder<A>(pub A);

} // verus!
