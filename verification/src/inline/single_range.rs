//! Simple implementation of `SingleRangeStorage`.

use core::marker::PhantomData;
use vstd::prelude::*;
use vstd::layout::*;

use crate::alternative::builder::{Builder, DefaultBuilder};
use crate::traits::{Capacity, Outcome, RangeStorage, SingleRangeStorage, Storage};
use crate::utils::{validate_array_layout, spec_validate_array_layout, AllocError, Layout};

verus! {

/// The number of bytes of `n` consecutive values of `S`, as far as `usize` can tell.
pub open spec fn spec_footprint<S>(n: usize) -> usize {
    if size_of::<S>() * n > usize::MAX {
        usize::MAX
    } else {
        (size_of::<S>() * n) as usize
    }
}

/// How many values of `T` can live in `n` consecutive values of `S`.
///
/// None can where `T` asks for a stricter alignment than `S`. A type without size is
/// given one slot per value of `S`.
pub open spec fn spec_slots<S, T>(n: usize) -> usize {
    if align_of::<T>() > align_of::<S>() {
        0
    } else if size_of::<T>() == 0 {
        n
    } else {
        (spec_footprint::<S>(n) as nat / size_of::<T>()) as usize
    }
}

/// Computes `spec_footprint`.
fn footprint<S>(n: usize) -> (r: usize)
    ensures
        r == spec_footprint::<S>(n),
{
    let size = Layout::new::<S>().size;
    if size == 0 || n == 0 {
        assert(size_of::<S>() * n == 0) by (nonlinear_arith)
            requires
                size_of::<S>() == 0 || n == 0,
        ;
        return 0;
    }
    if n > usize::MAX / size {
        assert(size_of::<S>() * n > usize::MAX) by (nonlinear_arith)
            requires
                size_of::<S>() == size,
                size > 0,
                n > usize::MAX / size,
        ;
        return usize::MAX;
    }
    assert(size * n <= usize::MAX) by (nonlinear_arith)
        requires
            size > 0,
            n <= usize::MAX / size,
    ;
    size * n
}

/// Computes `spec_slots`.
fn slots<S, T>(n: usize) -> (r: usize)
    ensures
        r == spec_slots::<S, T>(n),
{
    let element = Layout::new::<T>();
    let slot = Layout::new::<S>();
    if element.align > slot.align {
        0
    } else if element.size == 0 {
        n
    } else {
        footprint::<S>(n) / element.size
    }
}

/// Drops the elements that `data` holds: every slot is left uninitialized.
fn clear<T>(data: &mut Vec<Option<T>>)
    ensures
        final(data).len() == old(data).len(),
        forall|i: int| 0 <= i < final(data).len() ==> final(data)@[i] is None,
{
    let mut index: usize = 0;
    while index < data.len()
        invariant
            index <= data.len(),
            data.len() == old(data).len(),
            forall|i: int| 0 <= i < index ==> data@[i] is None,
        decreases data.len() - index,
    {
        data[index] = None;
        index = index + 1;
    }
}

/// Generic inline SingleRangeStorage.
///
/// `S` is the underlying storage, used to specify the size and alignment: the storage
/// is `N` consecutive values of `S`, in which it keeps elements of `T`.
pub struct SingleRange<C, S, T, const N: usize> {
    allocated: bool,
    data: Vec<Option<T>>,
    _marker: PhantomData<(C, S)>,
}

/// Handle of SingleRange.
#[derive(Clone, Copy, Debug)]
pub struct SingleRangeHandle;

impl<C, S, T, const N: usize> SingleRange<C, S, T, N> {
    /// The slots of the storage.
    pub closed spec fn slots(&self) -> Seq<Option<T>> {
        self.data@
    }

    /// Whether the slots are allocated: handed out as a range, and not deallocated
    /// since.
    pub closed spec fn in_use(&self) -> bool {
        self.allocated
    }

    /// Creates an instance of SingleRange, with no slot initialized.
    pub fn new() -> (r: Self)
        ensures
            r.slots().len() == spec_slots::<S, T>(N),
            forall|i: int| 0 <= i < r.slots().len() ==> r.slots()[i] is None,
            !r.in_use(),
    {
        let count = slots::<S, T>(N);
        let mut data: Vec<Option<T>> = Vec::new();
        while data.len() < count
            invariant
                data.len() <= count,
                forall|i: int| 0 <= i < data.len() ==> data@[i] is None,
            decreases count - data.len(),
        {
            data.push(None);
        }
        Self { allocated: false, data, _marker: PhantomData }
    }
}

impl<C, S, T, const N: usize> Storage for SingleRange<C, S, T, N> {
    open spec fn wf(&self) -> bool {
        self.slots().len() == spec_slots::<S, T>(N)
    }

    open spec fn alike(&self, other: &Self) -> bool {
        true
    }

    open spec fn steadfast() -> bool {
        true
    }

    open spec fn allocations(&self) -> nat {
        0
    }

    open spec fn deallocations(&self) -> nat {
        0
    }

    proof fn lemma_alike_self(&self) {
    }

    proof fn lemma_alike_chain(&self, second: &Self, third: &Self) {
    }
}

impl<C: Capacity, S, T, const N: usize> RangeStorage<T> for SingleRange<C, S, T, N> {
    type Handle = SingleRangeHandle;

    type Capacity = C;

    open spec fn valid(&self, handle: Self::Handle) -> bool {
        self.in_use() || self.slots().len() == 0
    }

    open spec fn buffer(&self, handle: Self::Handle) -> Seq<Option<T>> {
        self.slots()
    }

    open spec fn spec_maximum_capacity(&self) -> usize {
        if spec_slots::<S, T>(N) <= C::spec_max() {
            spec_slots::<S, T>(N)
        } else {
            C::spec_max()
        }
    }

    open spec fn allocates(&self, capacity: Self::Capacity) -> bool {
        capacity.spec_into_usize() == 0 || (spec_validate_array_layout::<T, S>(
            capacity.spec_into_usize(),
            N,
        ) && capacity.spec_into_usize() <= spec_slots::<S, T>(N))
    }

    open spec fn grows(&self, handle: Self::Handle, new_capacity: Self::Capacity) -> bool {
        false
    }

    open spec fn shrinks(&self, handle: Self::Handle, new_capacity: Self::Capacity) -> bool {
        false
    }

    open spec fn measurable(&self) -> bool {
        true
    }

    open spec fn allocation(&self, capacity: Self::Capacity) -> Outcome {
        Outcome::free(spec_slots::<S, T>(N) as nat)
    }

    open spec fn growth(&self, handle: Self::Handle, new_capacity: Self::Capacity) -> Outcome {
        Outcome::free(0)
    }

    open spec fn shrinkage(&self, handle: Self::Handle, new_capacity: Self::Capacity) -> Outcome {
        Outcome::free(0)
    }

    open spec fn release_calls(handle: Self::Handle) -> nat {
        0
    }

    proof fn lemma_alike_allocates(&self, other: &Self, capacity: Self::Capacity) {
    }

    /// As many elements as the slots have room for, as far as the capacity type can
    /// count.
    fn maximum_capacity(&self) -> (r: Self::Capacity) {
        let max = C::max();
        match C::from_usize(self.data.len()) {
            Some(capacity) => capacity,
            None => max,
        }
    }

    /// The elements that the slots hold are dropped, and the slots are no longer in use.
    fn deallocate(&mut self, handle: Self::Handle)
        ensures
            final(self).slots().len() == old(self).slots().len(),
            forall|i: int| 0 <= i < final(self).slots().len() ==> final(self).slots()[i] is None,
            !final(self).in_use() || final(self).slots().len() == 0,
    {
        if self.data.len() > 0 {
            self.allocated = false;
            clear(&mut self.data);
        }
    }

    fn get(&self, handle: Self::Handle) -> (r: &[Option<T>]) {
        self.data.as_slice()
    }

    fn write(&mut self, handle: Self::Handle, index: usize, value: T)
        ensures
            final(self).in_use() == old(self).in_use(),
    {
        self.data[index] = Some(value);
    }

    fn take(&mut self, handle: Self::Handle, index: usize) -> (r: Option<T>)
        ensures
            final(self).in_use() == old(self).in_use(),
    {
        self.data[index].take()
    }

    fn try_grow(&mut self, handle: Self::Handle, new_capacity: Self::Capacity) -> (r: Result<
        Self::Handle,
        AllocError,
    >)
        ensures
            r is Err,
            *final(self) == *old(self),
    {
        Err(AllocError)
    }

    fn try_shrink(&mut self, handle: Self::Handle, new_capacity: Self::Capacity) -> (r: Result<
        Self::Handle,
        AllocError,
    >)
        ensures
            r is Err,
            *final(self) == *old(self),
    {
        Err(AllocError)
    }
}

impl<C: Capacity, S, T, const N: usize> SingleRangeStorage<T> for SingleRange<C, S, T, N> {
    /// Succeeds exactly when the capacity asked for is none at all, or fits the slots
    /// in size and in alignment. The slots are then in use, and none of them is
    /// initialized: what they held is dropped. A request that fails leaves the storage
    /// as it was.
    fn allocate(&mut self, capacity: Self::Capacity) -> (r: Result<Self::Handle, AllocError>)
        ensures
            r is Err ==> *final(self) == *old(self),
            r is Ok ==> final(self).slots().len() == old(self).slots().len()
                && final(self).in_use(),
    {
        let capacity = capacity.into_usize();
        if capacity != 0 {
            validate_array_layout::<T, S>(capacity, N)?;
            if capacity > self.data.len() {
                return Err(AllocError);
            }
        }
        self.allocated = true;
        clear(&mut self.data);
        Ok(SingleRangeHandle)
    }
}


impl<C, S, T, const N: usize> Default for SingleRange<C, S, T, N> {
    fn default() -> (r: Self)
        ensures
            r.slots().len() == spec_slots::<S, T>(N),
            forall|i: int| 0 <= i < r.slots().len() ==> r.slots()[i] is None,
            !r.in_use(),
    {
        Self::new()
    }
}

impl<C, S, T, const N: usize> Builder<SingleRange<C, S, T, N>> for DefaultBuilder {
    open spec fn wf(&self) -> bool {
        true
    }

    open spec fn spec_into_storage(self) -> SingleRange<C, S, T, N> {
        arbitrary()
    }

    open spec fn spec_from_storage(storage: SingleRange<C, S, T, N>) -> Self {
        DefaultBuilder
    }

    open spec fn allocations(&self) -> nat {
        0
    }

    open spec fn deallocations(&self) -> nat {
        0
    }

    fn from_storage(storage: SingleRange<C, S, T, N>) -> (r: Self) {
        DefaultBuilder
    }

    /// The storage is new: its slots are neither in use nor initialized.
    fn into_storage(self) -> (r: SingleRange<C, S, T, N>)
        ensures
            !SingleRange::<C, S, T, N>::in_use(&r),
            forall|i: int|
                0 <= i < SingleRange::<C, S, T, N>::slots(&r).len() ==> SingleRange::<
                    C,
                    S,
                    T,
                    N,
                >::slots(&r)[i] is None,
    {
        SingleRange::new()
    }
}

} // verus!
