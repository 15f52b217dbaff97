//! Simple implementation of `SingleElementStorage<T>`.

use vstd::prelude::*;

use super::builder::AllocatorBuilder;
use crate::alternative::builder::Builder;
use crate::traits::{Allocator, ElementStorage, SingleElementStorage, Storage};
use crate::utils::{layout_of, AllocError, Layout, Metadata};

verus! {

/// The handle of an allocator-based element: where the block lives, and the metadata
/// of the pointee.
#[derive(Clone, Copy, Debug)]
pub struct ElementPointer {
    /// The address of the block.
    pub address: usize,
    /// The metadata of the pointee.
    pub meta: Metadata,
}

/// A block of an allocator, as a storage keeps it.
pub struct Block<T> {
    /// The address of the block.
    pub address: usize,
    /// The layout that the block was requested with.
    pub layout: Layout,
    /// What the block holds; `None` while it is not initialized.
    pub value: Option<T>,
}

/// Generic allocator-based SingleElementStorage.
pub struct SingleElement<A, T> {
    allocator: A,
    block: Option<Block<T>>,
}

impl<A, T> SingleElement<A, T> {
    /// The allocator behind the storage.
    pub closed spec fn spec_allocator(&self) -> A {
        self.allocator
    }

    /// The block in use, if there is one.
    pub closed spec fn current(&self) -> Option<Block<T>> {
        self.block
    }

    /// Creates an instance of SingleElement, with no block in use.
    pub fn new(allocator: A) -> (r: Self)
        ensures
            r.spec_allocator() == allocator,
            r.current() is None,
    {
        Self { allocator, block: None }
    }

    /// The allocator behind the storage.
    pub fn allocator(&self) -> (r: &A)
        ensures
            *r == self.spec_allocator(),
    {
        &self.allocator
    }

    /// Gives up the storage for its allocator.
    pub fn into_allocator(self) -> (r: A)
        ensures
            r == self.spec_allocator(),
    {
        self.allocator
    }
}

impl<A: Allocator, T> Storage for SingleElement<A, T> {
    open spec fn wf(&self) -> bool {
        &&& self.spec_allocator().wf()
        &&& self.current() matches Some(block) ==> {
            &&& self.spec_allocator().blocks().contains_key(block.address)
            &&& self.spec_allocator().blocks()[block.address] == block.layout
        }
    }

    open spec fn alike(&self, other: &Self) -> bool {
        self.spec_allocator() == other.spec_allocator()
    }

    open spec fn steadfast() -> bool {
        true
    }

    open spec fn allocations(&self) -> nat {
        self.spec_allocator().allocations()
    }

    open spec fn deallocations(&self) -> nat {
        self.spec_allocator().deallocations()
    }

    proof fn lemma_alike_self(&self) {
    }

    proof fn lemma_alike_chain(&self, second: &Self, third: &Self) {
    }
}

impl<A: Allocator, T> ElementStorage<T> for SingleElement<A, T> {
    type Handle = ElementPointer;

    open spec fn valid(&self, handle: Self::Handle) -> bool {
        &&& self.current() matches Some(block)
        &&& block.address == handle.address
        &&& Some(block.layout) == handle.meta.spec_layout()
    }

    open spec fn value(&self, handle: Self::Handle) -> Option<T> {
        match self.current() {
            Some(block) => block.value,
            None => None,
        }
    }

    open spec fn metadata(handle: Self::Handle) -> Metadata {
        handle.meta
    }

    open spec fn same_slot(a: Self::Handle, b: Self::Handle) -> bool {
        a.address == b.address
    }

    open spec fn accepts(&self, meta: Metadata) -> bool {
        meta.spec_layout() matches Some(layout) && self.spec_allocator().can_allocate(layout)
    }

    open spec fn allocation_calls(&self, meta: Metadata) -> nat {
        if meta.representable() {
            1
        } else {
            0
        }
    }

    open spec fn release_calls(handle: Self::Handle) -> nat {
        1
    }

    proof fn lemma_alike_accepts(&self, other: &Self, meta: Metadata) {
    }

    /// Returns the block to the allocator, with exactly one call of it, for the layout
    /// computed from the metadata of the handle.
    fn deallocate(&mut self, handle: Self::Handle)
        ensures
            final(self).current() is None,
            final(self).spec_allocator().blocks() == old(self).spec_allocator().blocks().remove(
                handle.address,
            ),
            final(self).spec_allocator().deallocations()
                == old(self).spec_allocator().deallocations() + 1,
            final(self).spec_allocator().allocations() == old(self).spec_allocator().allocations(),
    {
        //  The layout is that of the pointee, as the metadata of the handle gives it.
        self.block = None;
        match layout_of(handle.meta) {
            Ok(layout) => self.allocator.deallocate(handle.address, layout),
            Err(_) => {},
        }
    }

    fn get(&self, handle: Self::Handle) -> (r: Option<&T>) {
        match &self.block {
            Some(block) => block.value.as_ref(),
            None => None,
        }
    }

    fn write(&mut self, handle: Self::Handle, value: T)
        ensures
            final(self).spec_allocator() == old(self).spec_allocator(),
    {
        match self.block.take() {
            Some(block) => {
                self.block = Some(
                    Block { address: block.address, layout: block.layout, value: Some(value) },
                );
            },
            None => {},
        }
    }

    fn take(&mut self, handle: Self::Handle) -> (r: Option<T>)
        ensures
            final(self).spec_allocator() == old(self).spec_allocator(),
    {
        match self.block.take() {
            Some(block) => {
                self.block = Some(
                    Block { address: block.address, layout: block.layout, value: None },
                );
                block.value
            },
            None => None,
        }
    }

    /// Drops the element, if there is one, and returns the block to the allocator, with
    /// exactly one call of it.
    fn destroy(&mut self, handle: Self::Handle)
        ensures
            final(self).current() is None,
            final(self).spec_allocator().blocks() == old(self).spec_allocator().blocks().remove(
                handle.address,
            ),
            final(self).spec_allocator().deallocations()
                == old(self).spec_allocator().deallocations() + 1,
            final(self).spec_allocator().allocations() == old(self).spec_allocator().allocations(),
    {
        let _ = self.take(handle);
        self.deallocate(handle);
    }

    fn coerce(&self, handle: Self::Handle, target: Metadata) -> (r: Self::Handle)
        ensures
            r == (ElementPointer { address: handle.address, meta: target }),
    {
        ElementPointer { address: handle.address, meta: target }
    }
}

impl<A: Allocator, T> SingleElementStorage<T> for SingleElement<A, T> {
    /// Requests a block for the pointee with exactly one call of the allocator, and
    /// succeeds if and only if that call does. A pointee larger than any block can be
    /// is refused without a call.
    fn allocate(&mut self, meta: Metadata) -> (r: Result<Self::Handle, AllocError>)
        ensures
            meta.representable() ==> final(self).spec_allocator().allocations()
                == old(self).spec_allocator().allocations() + 1,
            !meta.representable() ==> final(self).spec_allocator() == old(self).spec_allocator(),
            final(self).spec_allocator().deallocations()
                == old(self).spec_allocator().deallocations(),
            r is Err ==> final(self).current() == old(self).current()
                && final(self).spec_allocator().blocks() == old(self).spec_allocator().blocks(),
            r matches Ok(h) ==> h.meta == meta && !old(self).spec_allocator().blocks().contains_key(
                h.address,
            ) && final(self).spec_allocator().blocks()
                == old(self).spec_allocator().blocks().insert(
                h.address,
                meta.spec_layout().unwrap(),
            ),
    {
        let layout = layout_of(meta)?;
        let address = self.allocator.allocate(layout)?;
        self.block = Some(Block { address, layout, value: None });
        Ok(ElementPointer { address, meta })
    }

    /// Requests a block for the value with exactly one call of the allocator, and
    /// succeeds if and only if that call does.
    fn create(&mut self, value: T) -> (r: Result<Self::Handle, T>)
        ensures
            final(self).spec_allocator().allocations() == old(self).spec_allocator().allocations()
                + 1,
            final(self).spec_allocator().deallocations()
                == old(self).spec_allocator().deallocations(),
            r is Err ==> final(self).current() == old(self).current()
                && final(self).spec_allocator().blocks() == old(self).spec_allocator().blocks(),
            r matches Ok(h) ==> !old(self).spec_allocator().blocks().contains_key(h.address)
                && final(self).spec_allocator().blocks()
                    == old(self).spec_allocator().blocks().insert(
                h.address,
                Layout::spec_new::<T>(),
            ),
    {
        let meta = Metadata::sized::<T>();
        match self.allocate(meta) {
            Ok(handle) => {
                self.write(handle, value);
                Ok(handle)
            },
            Err(_) => Err(value),
        }
    }
}

impl<A: Allocator, T> Builder<SingleElement<A, T>> for AllocatorBuilder<A> {
    /// The allocator is well formed, and there is a storage over it: the builder was
    /// salvaged from one, or made of the allocator of one.
    open spec fn wf(&self) -> bool {
        &&& self.0.wf()
        &&& exists|storage: SingleElement<A, T>| #[trigger] storage.spec_allocator() == self.0
    }

    open spec fn spec_into_storage(self) -> SingleElement<A, T> {
        choose|storage: SingleElement<A, T>| storage.spec_allocator() == self.0
    }

    open spec fn spec_from_storage(storage: SingleElement<A, T>) -> Self {
        AllocatorBuilder(storage.spec_allocator())
    }

    open spec fn allocations(&self) -> nat {
        self.0.allocations()
    }

    open spec fn deallocations(&self) -> nat {
        self.0.deallocations()
    }

    /// The builder keeps the allocator of the storage.
    fn from_storage(storage: SingleElement<A, T>) -> (r: Self)
        ensures
            r.0 == storage.spec_allocator(),
    {
        AllocatorBuilder(storage.into_allocator())
    }

    /// The storage gets the allocator of the builder, and has no block in use.
    fn into_storage(self) -> (r: SingleElement<A, T>)
        ensures
            SingleElement::<A, T>::spec_allocator(&r) == self.0,
            SingleElement::<A, T>::current(&r) is None,
    {
        let r = SingleElement::new(self.0);
        assert(r.spec_allocator() == self.0);
        r
    }
}


impl<A: Default, T> Default for SingleElement<A, T> {
    /// A storage over the default allocator, with no block in use.
    fn default() -> (r: Self)
        ensures
            r.current() is None,
    {
        Self::new(A::default())
    }
}

} // verus!
