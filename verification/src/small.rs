//! Simple implementations of the various mixed storages: inline first, allocated when
//! the inline storage is too small.

pub mod single_element;
pub mod single_range;

pub use single_element::{SingleElement, SingleElementHandle};
pub use single_range::SingleRange;
