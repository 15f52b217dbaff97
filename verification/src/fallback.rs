//! Simple implementation of the fallback principle: allocating from one storage and
//! falling back to another.
//!
//! It is simpler than the alternative, however it is heavier weight: both storages are
//! present at all times.

use vstd::prelude::*;

use crate::alternative::single_range::{into_first, spec_into_first};
use crate::traits::{
    released, rewritten, transfer, Capacity, ElementStorage, MultiElementStorage, Outcome,
        RangeStorage,
    SingleElementStorage,
    SingleRangeStorage, Storage,
};
use crate::utils::{AllocError, Metadata};

verus! {

/// A storage that implements ElementStorage, SingleElementStorage, MultiElementStorage,
/// RangeStorage, and SingleRangeStorage, depending on what the supplied storages
/// implement.
pub struct Fallback<P, S> {
    /// The primary storage.
    pub primary: P,
    /// The secondary storage.
    pub secondary: S,
}

/// The handle used by the [`Fallback`] storage.
#[derive(Debug)]
pub enum FallbackHandle<P, S> {
    /// Handle of primary storage.
    Primary(P),
    /// Handle of secondary storage.
    Secondary(S),
}

impl<P: Copy, S: Copy> Clone for FallbackHandle<P, S> {
    fn clone(&self) -> (r: Self)
        ensures
            r == *self,
    {
        *self
    }
}

impl<P: Copy, S: Copy> Copy for FallbackHandle<P, S> {

}

/// A fallback of two single element storages.
pub type SingleElement<F, S> = Fallback<F, S>;

/// A fallback of two multi element storages.
pub type MultiElement<F, S> = Fallback<F, S>;

/// A fallback of two single range storages.
pub type SingleRange<F, S> = Fallback<F, S>;

/// The handle of a fallback of two single element storages.
pub type SingleElementHandle<F, S> = FallbackHandle<F, S>;

/// The handle of a fallback of two multi element storages.
pub type MultiElementHandle<F, S> = FallbackHandle<F, S>;

/// The handle of a fallback of two single range storages.
pub type SingleRangeHandle<F, S> = FallbackHandle<F, S>;

impl<P, S> Fallback<P, S> {
    /// Creates an instance that tries `primary` first and falls back to `secondary`.
    pub fn new(primary: P, secondary: S) -> (r: Self)
        ensures
            r.primary == primary,
            r.secondary == secondary,
    {
        Self { primary, secondary }
    }
}

impl<P: Storage, S: Storage> Storage for Fallback<P, S> {
    open spec fn wf(&self) -> bool {
        self.primary.wf() && self.secondary.wf() && P::steadfast()
    }

    open spec fn alike(&self, other: &Self) -> bool {
        self.primary.alike(&other.primary) && self.secondary.alike(&other.secondary)
    }

    open spec fn steadfast() -> bool {
        P::steadfast() && S::steadfast()
    }

    open spec fn allocations(&self) -> nat {
        self.primary.allocations() + self.secondary.allocations()
    }

    open spec fn deallocations(&self) -> nat {
        self.primary.deallocations() + self.secondary.deallocations()
    }

    proof fn lemma_alike_self(&self) {
        self.primary.lemma_alike_self();
        self.secondary.lemma_alike_self();
    }

    proof fn lemma_alike_chain(&self, second: &Self, third: &Self) {
        self.primary.lemma_alike_chain(&second.primary, &third.primary);
        self.secondary.lemma_alike_chain(&second.secondary, &third.secondary);
    }
}

/// Whether `handle` names an allocated slot of the storage that issued it.
pub open spec fn valid_in<T, P: ElementStorage<T>, S: ElementStorage<T>>(
    storage: &Fallback<P, S>,
    handle: FallbackHandle<P::Handle, S::Handle>,
) -> bool {
    match handle {
        FallbackHandle::Primary(h) => storage.primary.valid(h),
        FallbackHandle::Secondary(h) => storage.secondary.valid(h),
    }
}

/// What the slot named by `handle` holds in the storage that issued it.
pub open spec fn value_in<T, P: ElementStorage<T>, S: ElementStorage<T>>(
    storage: &Fallback<P, S>,
    handle: FallbackHandle<P::Handle, S::Handle>,
) -> Option<T> {
    match handle {
        FallbackHandle::Primary(h) => storage.primary.value(h),
        FallbackHandle::Secondary(h) => storage.secondary.value(h),
    }
}

/// Whether two handles were issued by the same storage, for the same slot.
pub open spec fn same_slot_in<T, P: ElementStorage<T>, S: ElementStorage<T>>(
    a: FallbackHandle<P::Handle, S::Handle>,
    b: FallbackHandle<P::Handle, S::Handle>,
) -> bool {
    match (a, b) {
        (FallbackHandle::Primary(x), FallbackHandle::Primary(y)) => P::same_slot(x, y),
        (FallbackHandle::Secondary(x), FallbackHandle::Secondary(y)) => S::same_slot(x, y),
        _ => false,
    }
}

/// A deallocation in the storage that issued the handle is one in the fallback.
proof fn lemma_released<T, P: ElementStorage<T>, S: ElementStorage<T>>(
    before: &Fallback<P, S>,
    after: &Fallback<P, S>,
    handle: FallbackHandle<P::Handle, S::Handle>,
)
    requires
        match handle {
            FallbackHandle::Primary(h) => after.secondary == before.secondary && released::<T, P>(
                &before.primary,
                &after.primary,
                h,
            ),
            FallbackHandle::Secondary(h) => after.primary == before.primary && released::<T, S>(
                &before.secondary,
                &after.secondary,
                h,
            ),
        },
    ensures
        forall|other: FallbackHandle<P::Handle, S::Handle>| #[trigger]
            valid_in::<T, P, S>(after, other) ==> valid_in::<T, P, S>(before, other)
                && !same_slot_in::<T, P, S>(other, handle),
        forall|other: FallbackHandle<P::Handle, S::Handle>|
            valid_in::<T, P, S>(before, other) && !same_slot_in::<T, P, S>(other, handle)
                ==> #[trigger] valid_in::<T, P, S>(after, other) && value_in::<T, P, S>(
                after,
                other,
            ) == value_in::<T, P, S>(before, other),
{
    assert forall|other: FallbackHandle<P::Handle, S::Handle>| #[trigger]
        valid_in::<T, P, S>(after, other) implies valid_in::<T, P, S>(before, other)
        && !same_slot_in::<T, P, S>(other, handle) by {
        match other {
            FallbackHandle::Primary(o) => {
                assert(after.primary.valid(o));
            },
            FallbackHandle::Secondary(o) => {
                assert(after.secondary.valid(o));
            },
        }
    }
    assert forall|other: FallbackHandle<P::Handle, S::Handle>|
        valid_in::<T, P, S>(before, other)
            && !same_slot_in::<T, P, S>(other, handle) implies #[trigger] valid_in::<T, P, S>(
            after, other)
        && value_in::<T, P, S>(after, other) == value_in::<T, P, S>(before, other) by {
        match other {
            FallbackHandle::Primary(o) => {
                assert(before.primary.valid(o));
                if handle is Primary {
                    assert(after.primary.valid(o));
                }
            },
            FallbackHandle::Secondary(o) => {
                assert(before.secondary.valid(o));
                if handle is Secondary {
                    assert(after.secondary.valid(o));
                }
            },
        }
    }
}

/// A change of content in the storage that issued the handle is one in the fallback.
proof fn lemma_rewritten<T, P: ElementStorage<T>, S: ElementStorage<T>>(
    before: &Fallback<P, S>,
    after: &Fallback<P, S>,
    handle: FallbackHandle<P::Handle, S::Handle>,
    content: Option<T>,
)
    requires
        match handle {
            FallbackHandle::Primary(h) => after.secondary == before.secondary && rewritten::<T, P>(
                &before.primary,
                &after.primary,
                h,
                content,
            ),
            FallbackHandle::Secondary(h) => after.primary == before.primary && rewritten::<T, S>(
                &before.secondary,
                &after.secondary,
                h,
                content,
            ),
        },
    ensures
        forall|other: FallbackHandle<P::Handle, S::Handle>| #[trigger]
            valid_in::<T, P, S>(after, other) == valid_in::<T, P, S>(before, other),
        forall|other: FallbackHandle<P::Handle, S::Handle>|
            valid_in::<T, P, S>(before, other) ==> #[trigger] value_in::<T, P, S>(after, other)
                == if same_slot_in::<T, P, S>(other, handle) {
                content
            } else {
                value_in::<T, P, S>(before, other)
            },
{
    assert forall|other: FallbackHandle<P::Handle, S::Handle>| #[trigger]
        valid_in::<T, P, S>(after, other) == valid_in::<T, P, S>(before, other) by {
        match other {
            FallbackHandle::Primary(o) => {
                assert(after.primary.valid(o) == before.primary.valid(o));
            },
            FallbackHandle::Secondary(o) => {
                assert(after.secondary.valid(o) == before.secondary.valid(o));
            },
        }
    }
    assert forall|other: FallbackHandle<P::Handle, S::Handle>|
        valid_in::<T, P, S>(before, other) implies #[trigger] value_in::<T, P, S>(after, other)
            == if same_slot_in::<T, P, S>(other, handle) {
        content
    } else {
        value_in::<T, P, S>(before, other)
    } by {
        match (other, handle) {
            (FallbackHandle::Primary(o), FallbackHandle::Primary(h)) => {
                assert(after.primary.value(o) == if P::same_slot(o, h) {
                    content
                } else {
                    before.primary.value(o)
                });
            },
            (FallbackHandle::Secondary(o), FallbackHandle::Secondary(h)) => {
                assert(after.secondary.value(o) == if S::same_slot(o, h) {
                    content
                } else {
                    before.secondary.value(o)
                });
            },
            _ => {},
        }
    }
}

impl<T, P: ElementStorage<T>, S: ElementStorage<T>> ElementStorage<T> for Fallback<P, S> {
    type Handle = FallbackHandle<P::Handle, S::Handle>;

    open spec fn valid(&self, handle: Self::Handle) -> bool {
        valid_in::<T, P, S>(self, handle)
    }

    open spec fn value(&self, handle: Self::Handle) -> Option<T> {
        value_in::<T, P, S>(self, handle)
    }

    open spec fn metadata(handle: Self::Handle) -> Metadata {
        match handle {
            FallbackHandle::Primary(h) => P::metadata(h),
            FallbackHandle::Secondary(h) => S::metadata(h),
        }
    }

    open spec fn same_slot(a: Self::Handle, b: Self::Handle) -> bool {
        same_slot_in::<T, P, S>(a, b)
    }

    open spec fn accepts(&self, meta: Metadata) -> bool {
        self.primary.accepts(meta) || self.secondary.accepts(meta)
    }

    open spec fn allocation_calls(&self, meta: Metadata) -> nat {
        self.primary.allocation_calls(meta) + if self.primary.accepts(meta) {
            0
        } else {
            self.secondary.allocation_calls(meta)
        }
    }

    open spec fn release_calls(handle: Self::Handle) -> nat {
        match handle {
            FallbackHandle::Primary(h) => P::release_calls(h),
            FallbackHandle::Secondary(h) => S::release_calls(h),
        }
    }

    proof fn lemma_alike_accepts(&self, other: &Self, meta: Metadata) {
        self.primary.lemma_alike_accepts(&other.primary, meta);
        self.secondary.lemma_alike_accepts(&other.secondary, meta);
    }

    /// Only the storage that issued the handle is touched.
    fn deallocate(&mut self, handle: Self::Handle)
        ensures
            handle is Primary ==> final(self).secondary == old(self).secondary,
            handle is Secondary ==> final(self).primary == old(self).primary,
    {
        match handle {
            FallbackHandle::Primary(h) => self.primary.deallocate(h),
            FallbackHandle::Secondary(h) => self.secondary.deallocate(h),
        }
        proof {
            lemma_released::<T, P, S>(old(self), self, handle);
        }
    }

    /// The handle resolves through the storage that issued it.
    fn get(&self, handle: Self::Handle) -> (r: Option<&T>) {
        match handle {
            FallbackHandle::Primary(h) => self.primary.get(h),
            FallbackHandle::Secondary(h) => self.secondary.get(h),
        }
    }

    fn write(&mut self, handle: Self::Handle, value: T)
        ensures
            handle is Primary ==> final(self).secondary == old(self).secondary,
            handle is Secondary ==> final(self).primary == old(self).primary,
    {
        match handle {
            FallbackHandle::Primary(h) => self.primary.write(h, value),
            FallbackHandle::Secondary(h) => self.secondary.write(h, value),
        }
        proof {
            lemma_rewritten::<T, P, S>(old(self), self, handle, Some(value));
        }
    }

    fn take(&mut self, handle: Self::Handle) -> (r: Option<T>)
        ensures
            handle is Primary ==> final(self).secondary == old(self).secondary,
            handle is Secondary ==> final(self).primary == old(self).primary,
    {
        let r = match handle {
            FallbackHandle::Primary(h) => self.primary.take(h),
            FallbackHandle::Secondary(h) => self.secondary.take(h),
        };
        proof {
            lemma_rewritten::<T, P, S>(old(self), self, handle, None);
        }
        r
    }

    /// Only the storage that issued the handle is touched.
    fn destroy(&mut self, handle: Self::Handle)
        ensures
            handle is Primary ==> final(self).secondary == old(self).secondary,
            handle is Secondary ==> final(self).primary == old(self).primary,
    {
        match handle {
            FallbackHandle::Primary(h) => self.primary.destroy(h),
            FallbackHandle::Secondary(h) => self.secondary.destroy(h),
        }
        proof {
            lemma_released::<T, P, S>(old(self), self, handle);
        }
    }

    /// The coerced handle is one of the storage that issued the handle.
    fn coerce(&self, handle: Self::Handle, target: Metadata) -> (r: Self::Handle)
        ensures
            r is Primary <==> handle is Primary,
    {
        match handle {
            FallbackHandle::Primary(h) => FallbackHandle::Primary(self.primary.coerce(h, target)),
            FallbackHandle::Secondary(h) => FallbackHandle::Secondary(
                self.secondary.coerce(h, target),
            ),
        }
    }
}

impl<T, P: SingleElementStorage<T>, S: SingleElementStorage<T>> SingleElementStorage<
    T,
> for Fallback<P, S> {
    /// The primary storage is tried first. The secondary is asked only if the primary
    /// refuses, and is not touched otherwise.
    fn allocate(&mut self, meta: Metadata) -> (r: Result<Self::Handle, AllocError>)
        ensures
            (r matches Ok(FallbackHandle::Primary(_))) <==> old(self).primary.accepts(meta),
            old(self).primary.accepts(meta) ==> final(self).secondary == old(self).secondary,
    {
        let r = match self.primary.allocate(meta) {
            Ok(handle) => Ok(FallbackHandle::Primary(handle)),
            Err(_) => match self.secondary.allocate(meta) {
                Ok(handle) => Ok(FallbackHandle::Secondary(handle)),
                Err(e) => Err(e),
            },
        };
        r
    }

    /// The primary storage is tried first. The secondary is asked only if the primary
    /// refuses, and is not touched otherwise.
    fn create(&mut self, value: T) -> (r: Result<Self::Handle, T>)
        ensures
            (r matches Ok(FallbackHandle::Primary(_))) <==> old(self).primary.accepts(
                Metadata::spec_sized::<T>(),
            ),
            old(self).primary.accepts(Metadata::spec_sized::<T>()) ==> final(self).secondary
                == old(self).secondary,
    {
        let r = match self.primary.create(value) {
            Ok(handle) => Ok(FallbackHandle::Primary(handle)),
            Err(value) => match self.secondary.create(value) {
                Ok(handle) => Ok(FallbackHandle::Secondary(handle)),
                Err(value) => Err(value),
            },
        };
        r
    }
}

impl<T, P: MultiElementStorage<T>, S: MultiElementStorage<T>> MultiElementStorage<
    T,
> for Fallback<P, S> {
    /// The primary storage is tried first. The secondary is asked only if the primary
    /// refuses, and is not touched otherwise.
    fn allocate(&mut self, meta: Metadata) -> (r: Result<Self::Handle, AllocError>)
        ensures
            (r matches Ok(FallbackHandle::Primary(_))) <==> old(self).primary.accepts(meta),
            old(self).primary.accepts(meta) ==> final(self).secondary == old(self).secondary,
    {
        let r = match self.primary.allocate(meta) {
            Ok(handle) => Ok(FallbackHandle::Primary(handle)),
            Err(_) => match self.secondary.allocate(meta) {
                Ok(handle) => Ok(FallbackHandle::Secondary(handle)),
                Err(e) => Err(e),
            },
        };
        proof {
            assert forall|h: Self::Handle| old(self).valid(h) implies #[trigger] final(self).valid(
                h,
            ) && final(self).value(h) == old(self).value(h) by {
                match h {
                    FallbackHandle::Primary(o) => {
                        assert(final(self).primary.valid(o));
                    },
                    FallbackHandle::Secondary(o) => {
                        assert(final(self).secondary.valid(o));
                    },
                }
            }
            match r {
                Ok(new_handle) => {
                    assert forall|other: Self::Handle| old(self).valid(other) implies !#[trigger]
                        Self::same_slot(other, new_handle) by {
                        match (other, new_handle) {
                            (FallbackHandle::Primary(o), FallbackHandle::Primary(n)) => {
                                assert(!P::same_slot(o, n));
                            },
                            (FallbackHandle::Secondary(o), FallbackHandle::Secondary(n)) => {
                                assert(!S::same_slot(o, n));
                            },
                            _ => {},
                        }
                    }
                },
                Err(_) => {},
            }
        }
        r
    }

    /// The primary storage is tried first. The secondary is asked only if the primary
    /// refuses, and is not touched otherwise.
    fn create(&mut self, value: T) -> (r: Result<Self::Handle, T>)
        ensures
            (r matches Ok(FallbackHandle::Primary(_))) <==> old(self).primary.accepts(
                Metadata::spec_sized::<T>(),
            ),
            old(self).primary.accepts(Metadata::spec_sized::<T>()) ==> final(self).secondary
                == old(self).secondary,
    {
        let r = match self.primary.create(value) {
            Ok(handle) => Ok(FallbackHandle::Primary(handle)),
            Err(value) => match self.secondary.create(value) {
                Ok(handle) => Ok(FallbackHandle::Secondary(handle)),
                Err(value) => Err(value),
            },
        };
        proof {
            assert forall|h: Self::Handle| old(self).valid(h) implies #[trigger] final(self).valid(
                h,
            ) && final(self).value(h) == old(self).value(h) by {
                match h {
                    FallbackHandle::Primary(o) => {
                        assert(final(self).primary.valid(o));
                    },
                    FallbackHandle::Secondary(o) => {
                        assert(final(self).secondary.valid(o));
                    },
                }
            }
            match r {
                Ok(new_handle) => {
                    assert forall|other: Self::Handle| old(self).valid(other) implies !#[trigger]
                        Self::same_slot(other, new_handle) by {
                        match (other, new_handle) {
                            (FallbackHandle::Primary(o), FallbackHandle::Primary(n)) => {
                                assert(!P::same_slot(o, n));
                            },
                            (FallbackHandle::Secondary(o), FallbackHandle::Secondary(n)) => {
                                assert(!S::same_slot(o, n));
                            },
                            _ => {},
                        }
                    }
                },
                Err(_) => {},
            }
        }
        r
    }
}

impl<T, P: SingleRangeStorage<T>, S: SingleRangeStorage<T>> RangeStorage<T> for Fallback<P, S> {
    type Handle = FallbackHandle<P::Handle, S::Handle>;

    type Capacity = S::Capacity;

    open spec fn valid(&self, handle: Self::Handle) -> bool {
        match handle {
            FallbackHandle::Primary(h) => self.primary.valid(h),
            FallbackHandle::Secondary(h) => self.secondary.valid(h),
        }
    }

    open spec fn buffer(&self, handle: Self::Handle) -> Seq<Option<T>> {
        match handle {
            FallbackHandle::Primary(h) => self.primary.buffer(h),
            FallbackHandle::Secondary(h) => self.secondary.buffer(h),
        }
    }

    open spec fn spec_maximum_capacity(&self) -> usize {
        let first = self.primary.spec_maximum_capacity();
        let second = self.secondary.spec_maximum_capacity();
        if second < first <= S::Capacity::spec_max() {
            first
        } else {
            second
        }
    }

    open spec fn allocates(&self, capacity: Self::Capacity) -> bool {
        (spec_into_first::<P::Capacity, S::Capacity>(capacity) matches Some(c)
            && self.primary.allocates(c)) || self.secondary.allocates(capacity)
    }

    open spec fn grows(&self, handle: Self::Handle, new_capacity: Self::Capacity) -> bool {
        match handle {
            FallbackHandle::Primary(h) => (spec_into_first::<P::Capacity, S::Capacity>(
                new_capacity,
            ) matches Some(c) && self.primary.grows(h, c)) || self.secondary.allocates(
                new_capacity,
            ),
            FallbackHandle::Secondary(h) => self.secondary.grows(h, new_capacity),
        }
    }

    open spec fn shrinks(&self, handle: Self::Handle, new_capacity: Self::Capacity) -> bool {
        match handle {
            FallbackHandle::Primary(h) => spec_into_first::<P::Capacity, S::Capacity>(
                new_capacity,
            ) matches Some(c) && self.primary.shrinks(h, c),
            FallbackHandle::Secondary(h) => (spec_into_first::<P::Capacity, S::Capacity>(
                new_capacity,
            ) matches Some(c) && self.primary.allocates(c)) || self.secondary.shrinks(
                h,
                new_capacity,
            ),
        }
    }

    open spec fn measurable(&self) -> bool {
        self.primary.measurable() && self.secondary.measurable()
    }

    open spec fn allocation(&self, capacity: Self::Capacity) -> Outcome {
        match spec_into_first::<P::Capacity, S::Capacity>(capacity) {
            Some(c) => if self.primary.allocates(c) {
                self.primary.allocation(c)
            } else {
                self.primary.allocation(c).followed_by(self.secondary.allocation(capacity))
            },
            None => self.secondary.allocation(capacity),
        }
    }

    open spec fn growth(&self, handle: Self::Handle, new_capacity: Self::Capacity) -> Outcome {
        match handle {
            FallbackHandle::Primary(h) => {
                let tried = match spec_into_first::<P::Capacity, S::Capacity>(new_capacity) {
                    Some(c) => self.primary.growth(h, c),
                    None => Outcome::free(0),
                };
                if spec_into_first::<P::Capacity, S::Capacity>(new_capacity) matches Some(c)
                    && self.primary.grows(h, c) {
                    tried
                } else if self.secondary.allocates(new_capacity) {
                    tried.followed_by(self.secondary.allocation(new_capacity)).and_released(
                        P::release_calls(h),
                    )
                } else {
                    tried.followed_by(self.secondary.allocation(new_capacity))
                }
            },
            FallbackHandle::Secondary(h) => self.secondary.growth(h, new_capacity),
        }
    }

    open spec fn shrinkage(&self, handle: Self::Handle, new_capacity: Self::Capacity) -> Outcome {
        match handle {
            FallbackHandle::Primary(h) => match spec_into_first::<P::Capacity, S::Capacity>(
                new_capacity,
            ) {
                Some(c) => self.primary.shrinkage(h, c),
                None => Outcome::free(0),
            },
            FallbackHandle::Secondary(h) => match spec_into_first::<P::Capacity, S::Capacity>(
                new_capacity,
            ) {
                Some(c) => if self.primary.allocates(c) {
                    self.primary.allocation(c).and_released(S::release_calls(h))
                } else {
                    self.primary.allocation(c).followed_by(self.secondary.shrinkage(h,
                        new_capacity))
                },
                None => self.secondary.shrinkage(h, new_capacity),
            },
        }
    }

    open spec fn release_calls(handle: Self::Handle) -> nat {
        match handle {
            FallbackHandle::Primary(h) => P::release_calls(h),
            FallbackHandle::Secondary(h) => S::release_calls(h),
        }
    }

    proof fn lemma_alike_allocates(&self, other: &Self, capacity: Self::Capacity) {
        match spec_into_first::<P::Capacity, S::Capacity>(capacity) {
            Some(c) => {
                self.primary.lemma_alike_allocates(&other.primary, c);
            },
            None => {},
        }
        self.secondary.lemma_alike_allocates(&other.secondary, capacity);
    }

    /// A range lives in one of the two storages: the larger of their capacities, if
    /// the capacity type can count it; that of the secondary storage otherwise.
    fn maximum_capacity(&self) -> (r: Self::Capacity) {
        let first = self.primary.maximum_capacity();
        let second = self.secondary.maximum_capacity();
        if first.into_usize() > second.into_usize() {
            match S::Capacity::from_usize(first.into_usize()) {
                Some(result) => result,
                None => second,
            }
        } else {
            second
        }
    }

    /// Only the storage that issued the handle is touched.
    fn deallocate(&mut self, handle: Self::Handle)
        ensures
            handle is Primary ==> final(self).secondary == old(self).secondary,
            handle is Secondary ==> final(self).primary == old(self).primary,
    {
        match handle {
            FallbackHandle::Primary(h) => self.primary.deallocate(h),
            FallbackHandle::Secondary(h) => self.secondary.deallocate(h),
        }
    }

    /// The handle resolves through the storage that issued it.
    fn get(&self, handle: Self::Handle) -> (r: &[Option<T>]) {
        match handle {
            FallbackHandle::Primary(h) => self.primary.get(h),
            FallbackHandle::Secondary(h) => self.secondary.get(h),
        }
    }

    fn write(&mut self, handle: Self::Handle, index: usize, value: T)
        ensures
            handle is Primary ==> final(self).secondary == old(self).secondary,
            handle is Secondary ==> final(self).primary == old(self).primary,
    {
        proof {
            old(self).lemma_alike_self();
        }
        match handle {
            FallbackHandle::Primary(h) => self.primary.write(h, index, value),
            FallbackHandle::Secondary(h) => self.secondary.write(h, index, value),
        }
    }

    fn take(&mut self, handle: Self::Handle, index: usize) -> (r: Option<T>)
        ensures
            handle is Primary ==> final(self).secondary == old(self).secondary,
            handle is Secondary ==> final(self).primary == old(self).primary,
    {
        proof {
            old(self).lemma_alike_self();
        }
        match handle {
            FallbackHandle::Primary(h) => self.primary.take(h, index),
            FallbackHandle::Secondary(h) => self.secondary.take(h, index),
        }
    }

    /// A range of the primary storage grows there if it can. Otherwise the secondary
    /// storage allocates, the elements move over, and the primary range is
    /// deallocated. A range of the secondary storage grows there or not at all, and the
    /// primary is not touched.
    fn try_grow(&mut self, handle: Self::Handle, new_capacity: Self::Capacity) -> (r: Result<
        Self::Handle,
        AllocError,
    >)
        ensures
            handle is Secondary ==> final(self).primary == old(self).primary && (r is Ok
                ==> r.unwrap() is Secondary),
            handle is Primary && r is Err ==> final(self).valid(handle) && final(self).buffer(
                handle,
            ) == old(self).buffer(handle),
            handle is Secondary && r is Err && S::steadfast() ==> final(self).valid(handle)
                && final(self).buffer(handle) == old(self).buffer(handle),
            handle matches FallbackHandle::Primary(h)
                ==> ((r matches Ok(FallbackHandle::Primary(_))) <==> (
            spec_into_first::<P::Capacity, S::Capacity>(new_capacity) matches Some(c)
                && old(self).primary.grows(h, c))),
    {
        match handle {
            FallbackHandle::Primary(first) => {
                let grown = match into_first::<P::Capacity, S::Capacity>(new_capacity) {
                    Ok(capacity) => self.primary.try_grow(first, capacity),
                    Err(e) => Err(e),
                };
                match grown {
                    Ok(handle) => Ok(FallbackHandle::Primary(handle)),
                    Err(_) => {
                        let second = self.secondary.allocate(new_capacity)?;
                        transfer(&mut self.primary, first, &mut self.secondary, second);
                        self.primary.deallocate(first);
                        Ok(FallbackHandle::Secondary(second))
                    },
                }
            },
            FallbackHandle::Secondary(second) => {
                match self.secondary.try_grow(second, new_capacity) {
                    Ok(handle) => Ok(FallbackHandle::Secondary(handle)),
                    Err(e) => Err(e),
                }
            },
        }
    }

    /// A range of the primary storage shrinks there or not at all. A range of the
    /// secondary storage moves to the primary if the primary can allocate the capacity,
    /// and is then deallocated in the secondary; otherwise it shrinks in the secondary
    /// if it can.
    fn try_shrink(&mut self, handle: Self::Handle, new_capacity: Self::Capacity) -> (r: Result<
        Self::Handle,
        AllocError,
    >)
        ensures
            handle is Primary ==> final(self).secondary == old(self).secondary && (r is Ok
                ==> r.unwrap() is Primary),
            handle is Primary && r is Err ==> final(self).valid(handle) && final(self).buffer(
                handle,
            ) == old(self).buffer(handle),
            handle is Secondary && r is Err && S::steadfast() ==> final(self).valid(handle)
                && final(self).buffer(handle) == old(self).buffer(handle),
            handle is Secondary ==> ((r matches Ok(FallbackHandle::Primary(_)))
                <==> (spec_into_first::<
                P::Capacity,
                S::Capacity,
            >(new_capacity) matches Some(c) && old(self).primary.allocates(c))),
    {
        let first_capacity = into_first::<P::Capacity, S::Capacity>(new_capacity);

        match handle {
            FallbackHandle::Primary(first) => {
                match self.primary.try_shrink(first, first_capacity?) {
                    Ok(handle) => Ok(FallbackHandle::Primary(handle)),
                    Err(e) => Err(e),
                }
            },
            FallbackHandle::Secondary(second) => {
                let allocated = match first_capacity {
                    Ok(capacity) => self.primary.allocate(capacity),
                    Err(e) => Err(e),
                };
                match allocated {
                    Ok(first) => {
                        transfer(&mut self.secondary, second, &mut self.primary, first);
                        self.secondary.deallocate(second);
                        Ok(FallbackHandle::Primary(first))
                    },
                    Err(_) => {
                        match self.secondary.try_shrink(second, new_capacity) {
                            Ok(handle) => Ok(FallbackHandle::Secondary(handle)),
                            Err(e) => Err(e),
                        }
                    },
                }
            },
        }
    }
}

impl<T, P: SingleRangeStorage<T>, S: SingleRangeStorage<T>> SingleRangeStorage<T> for Fallback<
    P,
    S,
> {
    /// The primary storage is tried first, if the capacity is one of its own. The
    /// secondary is asked only if the primary refuses, and is not touched otherwise.
    fn allocate(&mut self, capacity: Self::Capacity) -> (r: Result<Self::Handle, AllocError>)
        ensures
            (r matches Ok(FallbackHandle::Primary(_)))
                <==> (spec_into_first::<P::Capacity, S::Capacity>(
                capacity,
            ) matches Some(c) && old(self).primary.allocates(c)),
            (r matches Ok(FallbackHandle::Primary(_))) ==> final(self).secondary
                == old(self).secondary,
    {
        proof {
            old(self).lemma_alike_self();
        }
        let allocated = match into_first::<P::Capacity, S::Capacity>(capacity) {
            Ok(capacity) => self.primary.allocate(capacity),
            Err(e) => Err(e),
        };
        match allocated {
            Ok(first) => Ok(FallbackHandle::Primary(first)),
            Err(_) => {
                match self.secondary.allocate(capacity) {
                    Ok(handle) => Ok(FallbackHandle::Secondary(handle)),
                    Err(e) => Err(e),
                }
            },
        }
    }
}

} // verus!
