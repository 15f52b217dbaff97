//! Storages: memory for small data structures, reached through handles.
//!
//! A storage is the place where a collection keeps its elements. It may be a few slots
//! embedded in the collection itself, blocks obtained from an allocator, or a composite
//! that starts with one and goes on with the other. A collection written against the
//! storage traits runs over any of them.
//!
//! A storage hands out *handles*, not pointers. A handle names a place of the storage
//! that issued it and carries the metadata of what lives there; only the storage can
//! resolve it. Every slot is either uninitialized or holds an element, and the contracts
//! say which: a handle is `valid` from the allocation of its slot to its deallocation,
//! and `value` (for an element) or `buffer` (for a range) is what resolving it yields.
//!
//! -   [`traits`] holds the contracts: allocators, element storages, range storages.
//! -   [`inline`] holds the storages that are embedded: a fixed number of slots, the size
//!     and alignment of which are those of a type chosen for the purpose.
//! -   [`allocator`] holds the storages that delegate to an allocator.
//! -   [`small`] holds the storages that keep what fits inline, and allocate the rest.
//! -   [`alternative`] holds the composites that switch from one storage to another.
//! -   [`fallback`] holds the composite that tries one storage and falls back to another.
//! -   [`collections`] holds a box, a linked list and a vector over any fitting storage.
//! -   [`utils`] holds layouts, metadata, and the checks that decide whether a pointee
//!     fits a slot; [`capacity`] holds the compact integer types that count elements.

pub mod allocator;
pub mod alternative;
pub mod capacity;
pub mod collections;
pub mod fallback;
pub mod inline;
pub mod small;
pub mod traits;
pub mod utils;
