//! Simple implementations of composite storages, which switch from one storage to another.
//!
//! This is a generic way of combining existing storages, to simplify implementing small
//! storages for example.
//!
//! Switching storages on the fly implies the ability to summon a storage from
//! nothingness, hence the juggling of builders, and the Poisoned state that stands in
//! while the switch is under way.

pub mod builder;
pub mod inner;
pub mod single_element;
pub mod single_range;

pub use builder::{Builder, DefaultBuilder};
pub use inner::{Inner, InnerElement};
pub use single_element::{SingleElement, SingleElementHandle};
pub use single_range::{SingleRange, SingleRangeHandle};
