//! Simple implementations of the various allocator adaptor storages.

pub mod builder;
pub mod multi_element;
pub mod single_element;
pub mod single_range;
pub mod spy;

pub use builder::AllocatorBuilder;
pub use multi_element::MultiElement;
pub use single_element::{Block, ElementPointer, SingleElement};
pub use single_range::{RangePointer, SingleRange};
pub use spy::{NonAllocator, SpyAllocator};
