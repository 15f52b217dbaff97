//! Small implementation of `SingleRangeStorage`.

use vstd::prelude::*;

use crate::allocator::AllocatorBuilder;
use crate::alternative::inner::Inner;
use crate::alternative::DefaultBuilder;
use crate::traits::{Allocator, Storage};

verus! {

/// Generic small SingleRangeStorage.
///
/// `S` is the underlying inline storage, used to specify the size and alignment. A
/// range that one value of `S` has room for is kept inline; once a larger one is asked
/// for, the storage switches to a block of the allocator.
pub type SingleRange<S, T, A> = crate::alternative::SingleRange<
    crate::inline::SingleRange<usize, S, T, 1>,
    crate::allocator::SingleRange<A, T>,
    DefaultBuilder,
    AllocatorBuilder<A>,
>;

impl<S, T, A> SingleRange<S, T, A> {
    /// The allocator behind the storage: with the builder while the range is inline,
    /// with the allocated storage afterwards.
    pub open spec fn spec_allocator(&self) -> A {
        match self.state() {
            Inner::First(e) => e.builder.0,
            Inner::Second(e) => e.value.spec_allocator(),
            Inner::Poisoned => arbitrary(),
        }
    }

    /// Create new instance, which keeps its range inline.
    pub fn new(allocator: A) -> (r: Self) where A: Allocator
        ensures
            r.state() is First,
            r.spec_allocator() == allocator,
            allocator.wf() ==> r.wf(),
    {
        //  The builder is made of the allocator of a storage, as a salvaged builder is.
        let allocator = crate::allocator::SingleRange::<A, T>::new(allocator).into_allocator();
        crate::alternative::SingleRange::first(
            crate::inline::SingleRange::new(),
            AllocatorBuilder(allocator),
        )
    }

    /// The allocator behind the storage.
    pub fn allocator(&self) -> (r: Option<&A>)
        ensures
            !(self.state() is Poisoned) <==> r.is_some(),
            r.is_some() ==> *r.unwrap() == self.spec_allocator(),
    {
        match self.second_builder() {
            Some(builder) => Some(&builder.0),
            None => match self.second_storage() {
                Some(storage) => Some(storage.allocator()),
                None => None,
            },
        }
    }
}

impl<S, T, A: Default + Allocator> Default for SingleRange<S, T, A> {
    /// A storage over the default allocator, which keeps its range inline.
    fn default() -> (r: Self)
        ensures
            r.state() is First,
    {
        Self::new(A::default())
    }
}

} // verus!
