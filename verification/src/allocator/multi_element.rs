//! Simple implementation of `MultiElementStorage`.

use std::collections::HashMap;
use vstd::prelude::*;

use super::builder::AllocatorBuilder;
use super::single_element::{Block, ElementPointer};
use crate::alternative::builder::Builder;
use crate::traits::{Allocator, ElementStorage, MultiElementStorage, Storage};
use crate::utils::{layout_of, AllocError, Layout, Metadata};

verus! {

/// Generic allocator-based MultiElementStorage.
pub struct MultiElement<A, T> {
    allocator: A,
    blocks: HashMap<usize, Block<T>>,
}

impl<A, T> MultiElement<A, T> {
    /// The allocator behind the storage.
    pub closed spec fn spec_allocator(&self) -> A {
        self.allocator
    }

    /// The blocks in use, by their addresses.
    pub closed spec fn live(&self) -> Map<usize, Block<T>> {
        self.blocks@
    }

    /// Creates an instance of MultiElement, with no block in use.
    pub fn new(allocator: A) -> (r: Self)
        ensures
            r.spec_allocator() == allocator,
            r.live() == Map::<usize, Block<T>>::empty(),
    {
        Self { allocator, blocks: HashMap::new() }
    }

    /// The allocator behind the storage.
    pub fn allocator(&self) -> (r: &A)
        ensures
            *r == self.spec_allocator(),
    {
        &self.allocator
    }

    /// Gives up the storage for its allocator.
    pub fn into_allocator(self) -> (r: A)
        ensures
            r == self.spec_allocator(),
    {
        self.allocator
    }
}

impl<A: Allocator, T> Storage for MultiElement<A, T> {
    open spec fn wf(&self) -> bool {
        &&& self.spec_allocator().wf()
        &&& forall|address: usize| #[trigger]
            self.live().contains_key(address) ==> {
                &&& self.spec_allocator().blocks().contains_key(address)
                &&& self.spec_allocator().blocks()[address] == self.live()[address].layout
                &&& self.live()[address].address == address
            }
    }

    open spec fn alike(&self, other: &Self) -> bool {
        self.spec_allocator() == other.spec_allocator()
    }

    open spec fn steadfast() -> bool {
        true
    }

    open spec fn allocations(&self) -> nat {
        self.spec_allocator().allocations()
    }

    open spec fn deallocations(&self) -> nat {
        self.spec_allocator().deallocations()
    }

    proof fn lemma_alike_self(&self) {
    }

    proof fn lemma_alike_chain(&self, second: &Self, third: &Self) {
    }
}

impl<A: Allocator, T> ElementStorage<T> for MultiElement<A, T> {
    type Handle = ElementPointer;

    open spec fn valid(&self, handle: Self::Handle) -> bool {
        &&& self.live().contains_key(handle.address)
        &&& Some(self.live()[handle.address].layout) == handle.meta.spec_layout()
    }

    open spec fn value(&self, handle: Self::Handle) -> Option<T> {
        self.live()[handle.address].value
    }

    open spec fn metadata(handle: Self::Handle) -> Metadata {
        handle.meta
    }

    open spec fn same_slot(a: Self::Handle, b: Self::Handle) -> bool {
        a.address == b.address
    }

    open spec fn accepts(&self, meta: Metadata) -> bool {
        meta.spec_layout() matches Some(layout) && self.spec_allocator().can_allocate(layout)
    }

    open spec fn allocation_calls(&self, meta: Metadata) -> nat {
        if meta.representable() {
            1
        } else {
            0
        }
    }

    open spec fn release_calls(handle: Self::Handle) -> nat {
        1
    }

    proof fn lemma_alike_accepts(&self, other: &Self, meta: Metadata) {
    }

    /// Returns the block to the allocator, with exactly one call of it, for the layout
    /// computed from the metadata of the handle.
    fn deallocate(&mut self, handle: Self::Handle)
        ensures
            final(self).live() == old(self).live().remove(handle.address),
            final(self).spec_allocator().blocks() == old(self).spec_allocator().blocks().remove(
                handle.address,
            ),
            final(self).spec_allocator().deallocations()
                == old(self).spec_allocator().deallocations() + 1,
            final(self).spec_allocator().allocations() == old(self).spec_allocator().allocations(),
    {
        broadcast use vstd::std_specs::hash::group_hash_axioms;

        //  The layout is that of the pointee, as the metadata of the handle gives it.
        let _ = self.blocks.remove(&handle.address);
        match layout_of(handle.meta) {
            Ok(layout) => self.allocator.deallocate(handle.address, layout),
            Err(_) => {},
        }
    }

    fn get(&self, handle: Self::Handle) -> (r: Option<&T>) {
        broadcast use vstd::std_specs::hash::group_hash_axioms;

        match self.blocks.get(&handle.address) {
            Some(block) => block.value.as_ref(),
            None => None,
        }
    }

    fn write(&mut self, handle: Self::Handle, value: T)
        ensures
            final(self).spec_allocator() == old(self).spec_allocator(),
            final(self).live().dom() == old(self).live().dom(),
    {
        broadcast use vstd::std_specs::hash::group_hash_axioms;

        match self.blocks.remove(&handle.address) {
            Some(block) => {
                self.blocks.insert(
                    handle.address,
                    Block { address: block.address, layout: block.layout, value: Some(value) },
                );
            },
            None => {},
        }
        assert(self.live().dom() =~= old(self).live().dom());
    }

    fn take(&mut self, handle: Self::Handle) -> (r: Option<T>)
        ensures
            final(self).spec_allocator() == old(self).spec_allocator(),
            final(self).live().dom() == old(self).live().dom(),
    {
        broadcast use vstd::std_specs::hash::group_hash_axioms;

        let r = match self.blocks.remove(&handle.address) {
            Some(block) => {
                self.blocks.insert(
                    handle.address,
                    Block { address: block.address, layout: block.layout, value: None },
                );
                block.value
            },
            None => None,
        };
        assert(self.live().dom() =~= old(self).live().dom());
        r
    }

    /// Drops the element, if there is one, and returns the block to the allocator, with
    /// exactly one call of it.
    fn destroy(&mut self, handle: Self::Handle)
        ensures
            final(self).spec_allocator().blocks() == old(self).spec_allocator().blocks().remove(
                handle.address,
            ),
            final(self).spec_allocator().deallocations()
                == old(self).spec_allocator().deallocations() + 1,
            final(self).spec_allocator().allocations() == old(self).spec_allocator().allocations(),
    {
        let _ = self.take(handle);
        self.deallocate(handle);
    }

    fn coerce(&self, handle: Self::Handle, target: Metadata) -> (r: Self::Handle)
        ensures
            r == (ElementPointer { address: handle.address, meta: target }),
    {
        ElementPointer { address: handle.address, meta: target }
    }
}

impl<A: Allocator, T> MultiElementStorage<T> for MultiElement<A, T> {
    /// Requests a block for the pointee with exactly one call of the allocator, and
    /// succeeds if and only if that call does. A pointee larger than any block can be
    /// is refused without a call.
    fn allocate(&mut self, meta: Metadata) -> (r: Result<Self::Handle, AllocError>)
        ensures
            meta.representable() ==> final(self).spec_allocator().allocations()
                == old(self).spec_allocator().allocations() + 1,
            !meta.representable() ==> final(self).spec_allocator() == old(self).spec_allocator(),
            final(self).spec_allocator().deallocations()
                == old(self).spec_allocator().deallocations(),
            r is Err ==> final(self).live() == old(self).live()
                && final(self).spec_allocator().blocks() == old(self).spec_allocator().blocks(),
            r matches Ok(h) ==> h.meta == meta && !old(self).spec_allocator().blocks().contains_key(
                h.address,
            ) && final(self).spec_allocator().blocks()
                == old(self).spec_allocator().blocks().insert(
                h.address,
                meta.spec_layout().unwrap(),
            ) && final(self).live().dom() == old(self).live().dom().insert(h.address),
    {
        broadcast use vstd::std_specs::hash::group_hash_axioms;

        let layout = layout_of(meta)?;
        let address = match self.allocator.allocate(layout) {
            Ok(address) => address,
            Err(e) => {
                assert(self.live() == old(self).live());
                return Err(e);
            },
        };
        self.blocks.insert(address, Block { address, layout, value: None });
        assert(self.live().dom() =~= old(self).live().dom().insert(address));
        Ok(ElementPointer { address, meta })
    }

    /// Requests a block for the value with exactly one call of the allocator, and
    /// succeeds if and only if that call does.
    fn create(&mut self, value: T) -> (r: Result<Self::Handle, T>)
        ensures
            final(self).spec_allocator().allocations() == old(self).spec_allocator().allocations()
                + 1,
            final(self).spec_allocator().deallocations()
                == old(self).spec_allocator().deallocations(),
            r is Err ==> final(self).live() == old(self).live()
                && final(self).spec_allocator().blocks() == old(self).spec_allocator().blocks(),
            r matches Ok(h) ==> !old(self).spec_allocator().blocks().contains_key(h.address)
                && final(self).spec_allocator().blocks()
                    == old(self).spec_allocator().blocks().insert(
                h.address,
                Layout::spec_new::<T>(),
            ),
    {
        let meta = Metadata::sized::<T>();
        match self.allocate(meta) {
            Ok(handle) => {
                let ghost allocated = *self;
                self.write(handle, value);
                proof {
                    assert forall|h: Self::Handle| old(self).valid(h) implies #[trigger] self.valid(
                        h,
                    ) && self.value(h) == old(self).value(h) by {
                        assert(allocated.valid(h));
                        assert(self.valid(h) == allocated.valid(h));
                        assert(!Self::same_slot(h, handle));
                    }
                }
                Ok(handle)
            },
            Err(_) => Err(value),
        }
    }
}

impl<A: Allocator, T> Builder<MultiElement<A, T>> for AllocatorBuilder<A> {
    /// The allocator is well formed, and there is a storage over it: the builder was
    /// salvaged from one, or made of the allocator of one.
    open spec fn wf(&self) -> bool {
        &&& self.0.wf()
        &&& exists|storage: MultiElement<A, T>| #[trigger] storage.spec_allocator() == self.0
    }

    open spec fn spec_into_storage(self) -> MultiElement<A, T> {
        choose|storage: MultiElement<A, T>| storage.spec_allocator() == self.0
    }

    open spec fn spec_from_storage(storage: MultiElement<A, T>) -> Self {
        AllocatorBuilder(storage.spec_allocator())
    }

    open spec fn allocations(&self) -> nat {
        self.0.allocations()
    }

    open spec fn deallocations(&self) -> nat {
        self.0.deallocations()
    }

    /// The builder keeps the allocator of the storage.
    fn from_storage(storage: MultiElement<A, T>) -> (r: Self)
        ensures
            r.0 == storage.spec_allocator(),
    {
        AllocatorBuilder(storage.into_allocator())
    }

    /// The storage gets the allocator of the builder, and has no block in use.
    fn into_storage(self) -> (r: MultiElement<A, T>)
        ensures
            MultiElement::<A, T>::spec_allocator(&r) == self.0,
            MultiElement::<A, T>::live(&r) == Map::<usize, Block<T>>::empty(),
    {
        let r = MultiElement::new(self.0);
        assert(r.spec_allocator() == self.0);
        r
    }
}


impl<A: Default, T> Default for MultiElement<A, T> {
    /// A storage over the default allocator, with no block in use.
    fn default() -> (r: Self)
        ensures
            r.live() == Map::<usize, Block<T>>::empty(),
    {
        Self::new(A::default())
    }
}

} // verus!
