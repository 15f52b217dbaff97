//! Simple implementations of the various inline storages.

pub mod multi_element;
pub mod single_element;
pub mod single_range;

pub use multi_element::{MultiElement, MultiElementHandle};
pub use single_element::{SingleElement, SingleElementHandle};
pub use single_range::{SingleRange, SingleRangeHandle};
