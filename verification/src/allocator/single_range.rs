//! Simple implementation of `SingleRangeStorage`.

use vstd::prelude::*;
use vstd::layout::*;
use vstd::slice::slice_subrange;

use super::builder::AllocatorBuilder;
use crate::alternative::builder::Builder;
use crate::traits::{Allocator, Capacity, Outcome, RangeStorage, SingleRangeStorage, Storage};
use crate::utils::{AllocError, Layout};

verus! {

/// The handle of an allocator-based range: where the block lives and how many elements
/// it has room for. A handle of length zero names no block at all.
#[derive(Clone, Copy, Debug)]
pub struct RangePointer {
    /// The address of the block.
    pub address: usize,
    /// The number of elements that the block has room for.
    pub len: usize,
}

/// Generic allocator-based SingleRangeStorage.
pub struct SingleRange<A, T> {
    allocator: A,
    address: usize,
    data: Vec<Option<T>>,
}

/// Appends uninitialized slots to `data` until it has `len` of them.
fn extend<T>(data: &mut Vec<Option<T>>, len: usize)
    requires
        old(data).len() <= len,
    ensures
        final(data).len() == len,
        final(data)@.subrange(0, old(data).len() as int) == old(data)@,
        forall|i: int| old(data).len() <= i < len ==> final(data)@[i] is None,
{
    while data.len() < len
        invariant
            old(data).len() <= data.len() <= len,
            data@.subrange(0, old(data).len() as int) == old(data)@,
            forall|i: int| old(data).len() <= i < data.len() ==> data@[i] is None,
        decreases len - data.len(),
    {
        data.push(None);
    }
}

impl<A, T> SingleRange<A, T> {
    /// The allocator behind the storage.
    pub closed spec fn spec_allocator(&self) -> A {
        self.allocator
    }

    /// The address of the block in use, which is meaningful while the block has slots.
    pub closed spec fn block(&self) -> usize {
        self.address
    }

    /// The slots of the block in use; none while there is no block.
    pub closed spec fn slots(&self) -> Seq<Option<T>> {
        self.data@
    }

    /// Creates an instance of SingleRange, with no block in use.
    pub fn new(allocator: A) -> (r: Self)
        ensures
            r.spec_allocator() == allocator,
            r.slots().len() == 0,
    {
        Self { allocator, address: 0, data: Vec::new() }
    }

    /// The allocator behind the storage.
    pub fn allocator(&self) -> (r: &A)
        ensures
            *r == self.spec_allocator(),
    {
        &self.allocator
    }

    /// Gives up the storage for its allocator.
    pub fn into_allocator(self) -> (r: A)
        ensures
            r == self.spec_allocator(),
    {
        self.allocator
    }
}

impl<A: Allocator, T> SingleRange<A, T> {
    /// The handle that names no block.
    pub open spec fn spec_dangling_handle() -> RangePointer {
        RangePointer { address: align_of::<T>() as usize, len: 0 }
    }

    fn dangling_handle() -> (r: RangePointer)
        ensures
            r == Self::spec_dangling_handle(),
    {
        RangePointer { address: Layout::new::<T>().align, len: 0 }
    }

    fn layout_for(capacity: usize) -> (r: Result<Layout, AllocError>)
        ensures
            r.is_ok() <==> Layout::spec_array::<T>(capacity).is_some(),
            r.is_ok() ==> r.unwrap() == Layout::spec_array::<T>(capacity).unwrap(),
    {
        Layout::array::<T>(capacity)
    }

    fn layout_of(&self, handle: RangePointer) -> (r: Layout)
        requires
            self.wf(),
            self.valid(handle),
            handle.len > 0,
        ensures
            Some(r) == Layout::spec_array::<T>(handle.len),
            self.spec_allocator().blocks().contains_key(handle.address),
            self.spec_allocator().blocks()[handle.address] == r,
    {
        match Layout::array::<T>(handle.len) {
            Ok(layout) => layout,
            Err(_) => Layout { size: 0, align: 1 },
        }
    }

    fn into_handle(address: usize, capacity: usize) -> (r: RangePointer)
        ensures
            r == (RangePointer { address, len: capacity }),
    {
        RangePointer { address, len: capacity }
    }
}

impl<A: Allocator, T> Storage for SingleRange<A, T> {
    open spec fn wf(&self) -> bool {
        &&& self.spec_allocator().wf()
        &&& self.slots().len() > 0 ==> {
            &&& Layout::spec_array::<T>(self.slots().len() as usize).is_some()
            &&& self.spec_allocator().blocks().contains_key(self.block())
            &&& self.spec_allocator().blocks()[self.block()] == Layout::spec_array::<T>(
                self.slots().len() as usize,
            ).unwrap()
        }
    }

    open spec fn alike(&self, other: &Self) -> bool {
        self.spec_allocator() == other.spec_allocator()
    }

    open spec fn steadfast() -> bool {
        true
    }

    open spec fn allocations(&self) -> nat {
        self.spec_allocator().allocations()
    }

    open spec fn deallocations(&self) -> nat {
        self.spec_allocator().deallocations()
    }

    proof fn lemma_alike_self(&self) {
    }

    proof fn lemma_alike_chain(&self, second: &Self, third: &Self) {
    }
}

impl<A: Allocator, T> RangeStorage<T> for SingleRange<A, T> {
    proof fn lemma_alike_allocates(&self, other: &Self, capacity: Self::Capacity) {
    }

    type Handle = RangePointer;

    type Capacity = usize;

    open spec fn valid(&self, handle: Self::Handle) -> bool {
        handle.len == 0 || (handle.len == self.slots().len() && handle.address == self.block())
    }

    open spec fn buffer(&self, handle: Self::Handle) -> Seq<Option<T>> {
        if handle.len == 0 {
            Seq::empty()
        } else {
            self.slots()
        }
    }

    open spec fn spec_maximum_capacity(&self) -> usize {
        usize::MAX
    }

    open spec fn allocates(&self, capacity: Self::Capacity) -> bool {
        capacity == 0 || (Layout::spec_array::<T>(capacity).is_some()
            && self.spec_allocator().can_allocate(Layout::spec_array::<T>(capacity).unwrap()))
    }

    open spec fn grows(&self, handle: Self::Handle, new_capacity: Self::Capacity) -> bool {
        if handle.len == 0 {
            self.allocates(new_capacity)
        } else {
            handle.len < new_capacity && Layout::spec_array::<T>(new_capacity).is_some()
                && self.spec_allocator().can_resize(
                handle.address,
                Layout::spec_array::<T>(handle.len).unwrap(),
                Layout::spec_array::<T>(new_capacity).unwrap(),
            )
        }
    }

    open spec fn shrinks(&self, handle: Self::Handle, new_capacity: Self::Capacity) -> bool {
        handle.len > new_capacity && (new_capacity == 0 || (Layout::spec_array::<T>(
            new_capacity,
        ).is_some()
            && self.spec_allocator().can_resize(
            handle.address,
            Layout::spec_array::<T>(handle.len).unwrap(),
            Layout::spec_array::<T>(new_capacity).unwrap(),
        )))
    }

    open spec fn measurable(&self) -> bool {
        true
    }

    open spec fn allocation(&self, capacity: Self::Capacity) -> Outcome {
        Outcome {
            allocations: if capacity > 0 && Layout::spec_array::<T>(capacity).is_some() {
                1
            } else {
                0
            },
            deallocations: 0,
            len: capacity as nat,
        }
    }

    open spec fn growth(&self, handle: Self::Handle, new_capacity: Self::Capacity) -> Outcome {
        if handle.len == 0 {
            self.allocation(new_capacity)
        } else if handle.len < new_capacity && Layout::spec_array::<T>(new_capacity).is_some() {
            let calls = self.spec_allocator().resize_calls(
                handle.address,
                Layout::spec_array::<T>(handle.len).unwrap(),
                Layout::spec_array::<T>(new_capacity).unwrap(),
            );
            Outcome {
                allocations: calls.allocations,
                deallocations: calls.deallocations,
                len: new_capacity as nat,
            }
        } else {
            Outcome::free(0)
        }
    }

    open spec fn shrinkage(&self, handle: Self::Handle, new_capacity: Self::Capacity) -> Outcome {
        if handle.len <= new_capacity {
            Outcome::free(0)
        } else if new_capacity == 0 {
            Outcome { allocations: 0, deallocations: 1, len: 0 }
        } else {
            let calls = self.spec_allocator().resize_calls(
                handle.address,
                Layout::spec_array::<T>(handle.len).unwrap(),
                Layout::spec_array::<T>(new_capacity).unwrap(),
            );
            Outcome {
                allocations: calls.allocations,
                deallocations: calls.deallocations,
                len: new_capacity as nat,
            }
        }
    }

    open spec fn release_calls(handle: Self::Handle) -> nat {
        if handle.len > 0 {
            1
        } else {
            0
        }
    }

    fn maximum_capacity(&self) -> (r: Self::Capacity) {
        usize::MAX
    }

    /// A handle of length zero never reaches the allocator; any other returns its block
    /// with exactly one call.
    fn deallocate(&mut self, handle: Self::Handle)
        ensures
            handle.len == 0 ==> *final(self) == *old(self),
            handle.len > 0 ==> final(self).slots().len() == 0
                && final(self).spec_allocator().blocks()
                == old(self).spec_allocator().blocks().remove(
                handle.address,
            ) && final(self).spec_allocator().deallocations()
                == old(self).spec_allocator().deallocations() + 1
                && final(self).spec_allocator().allocations()
                == old(self).spec_allocator().allocations(),
    {
        if handle.len > 0 {
            let layout = self.layout_of(handle);
            self.allocator.deallocate(handle.address, layout);
            self.data.clear();
        }
    }

    fn get(&self, handle: Self::Handle) -> (r: &[Option<T>]) {
        if handle.len == 0 {
            let r = slice_subrange(self.data.as_slice(), 0, 0);
            assert(r@ =~= Seq::empty());
            r
        } else {
            self.data.as_slice()
        }
    }

    fn write(&mut self, handle: Self::Handle, index: usize, value: T)
        ensures
            final(self).spec_allocator() == old(self).spec_allocator(),
    {
        self.data[index] = Some(value);
    }

    fn take(&mut self, handle: Self::Handle, index: usize) -> (r: Option<T>)
        ensures
            final(self).spec_allocator() == old(self).spec_allocator(),
    {
        self.data[index].take()
    }

    fn try_grow(&mut self, handle: Self::Handle, new_capacity: Self::Capacity) -> (r: Result<
        Self::Handle,
        AllocError,
    >)
        ensures
            r is Err ==> final(self).slots() == old(self).slots() && final(self).block()
                == old(self).block() && final(self).spec_allocator().blocks()
                == old(self).spec_allocator().blocks(),
            r matches Ok(h) ==> h.len == new_capacity,
            r is Ok && new_capacity > 0 ==> final(self).slots().len() == new_capacity,
    {
        if handle.len == 0 {
            return self.allocate(new_capacity);
        }
        if new_capacity <= handle.len {
            return Err(AllocError);
        }
        let old_layout = self.layout_of(handle);
        let new_layout = Self::layout_for(new_capacity)?;
        assert(new_layout.size >= old_layout.size) by (nonlinear_arith)
            requires
                new_layout.size == size_of::<T>() * new_capacity,
                old_layout.size == size_of::<T>() * handle.len,
                handle.len < new_capacity,
        ;
        let moved = self.allocator.grow(handle.address, old_layout, new_layout)?;
        self.address = moved;
        extend(&mut self.data, new_capacity);
        Ok(Self::into_handle(moved, new_capacity))
    }

    fn try_shrink(&mut self, handle: Self::Handle, new_capacity: Self::Capacity) -> (r: Result<
        Self::Handle,
        AllocError,
    >)
        ensures
            r is Err ==> final(self).slots() == old(self).slots() && final(self).block()
                == old(self).block() && final(self).spec_allocator().blocks()
                == old(self).spec_allocator().blocks(),
            r matches Ok(h) ==> h.len == new_capacity,
            r is Ok && new_capacity > 0 ==> final(self).slots().len() == new_capacity,
            new_capacity == 0 && handle.len > 0 ==> r == Ok::<RangePointer, AllocError>(
                Self::spec_dangling_handle(),
            ) && final(self).slots().len() == 0 && final(self).spec_allocator().blocks()
                == old(self).spec_allocator().blocks().remove(handle.address)
                && final(self).spec_allocator().deallocations()
                == old(self).spec_allocator().deallocations() + 1
                && final(self).spec_allocator().allocations()
                    == old(self).spec_allocator().allocations(),
    {
        if handle.len <= new_capacity {
            return Err(AllocError);
        }
        let old_layout = self.layout_of(handle);

        if new_capacity == 0 {
            self.allocator.deallocate(handle.address, old_layout);
            self.data.clear();
            return Ok(Self::dangling_handle());
        }
        assert(size_of::<T>() * new_capacity <= size_of::<T>() * handle.len) by (nonlinear_arith)
            requires
                new_capacity < handle.len,
        ;
        let new_layout = Self::layout_for(new_capacity)?;
        assert(new_layout.size <= old_layout.size) by (nonlinear_arith)
            requires
                new_layout.size == size_of::<T>() * new_capacity,
                old_layout.size == size_of::<T>() * handle.len,
                handle.len > new_capacity,
        ;
        let moved = self.allocator.shrink(handle.address, old_layout, new_layout)?;
        self.address = moved;
        self.data.truncate(new_capacity);
        Ok(Self::into_handle(moved, new_capacity))
    }
}

impl<A: Allocator, T> SingleRangeStorage<T> for SingleRange<A, T> {
    /// A request for no capacity never reaches the allocator; any other makes exactly
    /// one call of it, and succeeds if and only if that call does.
    fn allocate(&mut self, capacity: Self::Capacity) -> (r: Result<Self::Handle, AllocError>)
        ensures
            capacity == 0 ==> *final(self) == *old(self) && r == Ok::<RangePointer, AllocError>(
                Self::spec_dangling_handle(),
            ),
            capacity > 0 && Layout::spec_array::<T>(capacity).is_none()
                ==> final(self).spec_allocator() == old(self).spec_allocator(),
            capacity > 0 && Layout::spec_array::<T>(capacity).is_some()
                ==> final(self).spec_allocator().allocations()
                == old(self).spec_allocator().allocations() + 1
                && final(self).spec_allocator().deallocations()
                    == old(self).spec_allocator().deallocations(),
            r is Err ==> final(self).slots() == old(self).slots() && final(self).block()
                == old(self).block() && final(self).spec_allocator().blocks()
                == old(self).spec_allocator().blocks(),
            r matches Ok(h) ==> h.len == capacity,
            r is Ok && capacity > 0 ==> final(self).slots().len() == capacity && (forall|i: int|
                0 <= i < capacity ==> final(self).slots()[i] is None),
    {
        if capacity == 0 {
            return Ok(Self::dangling_handle());
        }
        let layout = Self::layout_for(capacity)?;
        let address = self.allocator.allocate(layout)?;
        self.address = address;
        self.data = Vec::new();
        extend(&mut self.data, capacity);
        Ok(Self::into_handle(address, capacity))
    }
}


impl<A: Allocator, T> Builder<SingleRange<A, T>> for AllocatorBuilder<A> {
    /// The allocator is well formed, and there is a storage over it: the builder was
    /// salvaged from one, or made of the allocator of one.
    open spec fn wf(&self) -> bool {
        &&& self.0.wf()
        &&& exists|storage: SingleRange<A, T>| #[trigger] storage.spec_allocator() == self.0
    }

    open spec fn spec_into_storage(self) -> SingleRange<A, T> {
        choose|storage: SingleRange<A, T>| storage.spec_allocator() == self.0
    }

    open spec fn spec_from_storage(storage: SingleRange<A, T>) -> Self {
        AllocatorBuilder(storage.spec_allocator())
    }

    open spec fn allocations(&self) -> nat {
        self.0.allocations()
    }

    open spec fn deallocations(&self) -> nat {
        self.0.deallocations()
    }

    /// The builder keeps the allocator of the storage.
    fn from_storage(storage: SingleRange<A, T>) -> (r: Self)
        ensures
            r.0 == storage.spec_allocator(),
    {
        AllocatorBuilder(storage.into_allocator())
    }

    /// The storage gets the allocator of the builder, and has no block in use.
    fn into_storage(self) -> (r: SingleRange<A, T>)
        ensures
            SingleRange::<A, T>::spec_allocator(&r) == self.0,
            SingleRange::<A, T>::slots(&r).len() == 0,
    {
        let r = SingleRange::new(self.0);
        assert(r.spec_allocator() == self.0);
        r
    }
}


impl<A: Default, T> Default for SingleRange<A, T> {
    /// A storage over the default allocator, with no block in use.
    fn default() -> (r: Self)
        ensures
            r.slots().len() == 0,
    {
        Self::new(A::default())
    }
}

} // verus!
