//! Proof of Concept implementations of some collections, to demonstrate the use of
//! storages.

pub mod raw_box;
pub mod raw_linked_list;
pub mod raw_vec;

pub use raw_box::RawBox;
pub use raw_linked_list::{RawLinkedList, RawLinkedListNode, RawLinkedListNodeStorage};
pub use raw_vec::RawVec;
