//! Alternative implementation of `SingleRangeStorage`.

use vstd::prelude::*;

use super::builder::Builder;
use super::inner::{Inner, InnerElement};
use crate::traits::{transfer, Capacity, Outcome, RangeStorage, SingleRangeStorage, Storage};
use crate::utils::AllocError;

verus! {

/// SingleRange is a composite of 2 SingleRangeStorage.
///
/// It will first attempt to allocate from the first storage if possible, and otherwise
/// switch to the second storage if necessary.
pub struct SingleRange<F, S, FB, SB> {
    inner: Inner<F, S, FB, SB>,
}

/// SingleRangeHandle, an alternative between 2 handles.
#[derive(Debug)]
pub enum SingleRangeHandle<F, S> {
    /// A handle of the first storage.
    First(F),
    /// A handle of the second storage.
    Second(S),
}

impl<F: Copy, S: Copy> Clone for SingleRangeHandle<F, S> {
    fn clone(&self) -> (r: Self)
        ensures
            r == *self,
    {
        *self
    }
}

impl<F: Copy, S: Copy> Copy for SingleRangeHandle<F, S> {

}

/// The capacity of the first storage that stands for the same number as `capacity`, if
/// there is one.
pub open spec fn spec_into_first<FC: Capacity, SC: Capacity>(capacity: SC) -> Option<FC> {
    FC::spec_from_usize(capacity.spec_into_usize())
}

/// Converts a capacity of the second storage into one of the first, which fails when
/// the number is beyond the capacity type of the first.
pub fn into_first<FC: Capacity, SC: Capacity>(capacity: SC) -> (r: Result<FC, AllocError>)
    ensures
        r.is_ok() <==> capacity.spec_into_usize() <= FC::spec_max(),
        r.is_ok() <==> spec_into_first::<FC, SC>(capacity).is_some(),
        r.is_ok() ==> Some(r.unwrap()) == spec_into_first::<FC, SC>(capacity),
        r.is_ok() ==> r.unwrap().spec_into_usize() == capacity.spec_into_usize(),
{
    match FC::from_usize(capacity.into_usize()) {
        Some(c) => Ok(c),
        None => Err(AllocError),
    }
}

/// Converts a capacity of the first storage into one of the second, whose capacity
/// type represents every number that the type of the first does.
pub fn into_second<FC: Capacity, SC: Capacity>(capacity: FC) -> (r: SC)
    requires
        FC::spec_max() <= SC::spec_max(),
    ensures
        r.spec_into_usize() == capacity.spec_into_usize(),
{
    match SC::from_usize(capacity.into_usize()) {
        Some(c) => c,
        None => SC::max(),
    }
}

impl<F, S, FB, SB> SingleRange<F, S, FB, SB> {
    /// The state of the storage.
    pub closed spec fn state(&self) -> Inner<F, S, FB, SB> {
        self.inner
    }

    /// Creates an instance containing the First alternative.
    pub fn first(first: F, second_builder: SB) -> (r: Self)
        ensures
            r.state() == Inner::<F, S, FB, SB>::First(
                InnerElement { value: first, builder: second_builder },
            ),
    {
        Self { inner: Inner::first(first, second_builder) }
    }

    /// Creates an instance containing the Second alternative.
    pub fn second(second: S, first_builder: FB) -> (r: Self)
        ensures
            r.state() == Inner::<F, S, FB, SB>::Second(
                InnerElement { value: second, builder: first_builder },
            ),
    {
        Self { inner: Inner::second(second, first_builder) }
    }

    /// Whether the first storage is in use.
    pub fn is_first(&self) -> (r: bool)
        ensures
            r == (self.state() is First),
    {
        match &self.inner {
            Inner::First(_) => true,
            _ => false,
        }
    }

    /// Whether the second storage is in use.
    pub fn is_second(&self) -> (r: bool)
        ensures
            r == (self.state() is Second),
    {
        match &self.inner {
            Inner::Second(_) => true,
            _ => false,
        }
    }

    /// The first storage, while it is in use.
    pub fn first_storage(&self) -> (r: Option<&F>)
        ensures
            r.is_some() == (self.state() is First),
            r.is_some() ==> *r.unwrap() == self.state()->First_0.value,
    {
        match &self.inner {
            Inner::First(e) => Some(&e.value),
            _ => None,
        }
    }

    /// The second storage, while it is in use.
    pub fn second_storage(&self) -> (r: Option<&S>)
        ensures
            r.is_some() == (self.state() is Second),
            r.is_some() ==> *r.unwrap() == self.state()->Second_0.value,
    {
        match &self.inner {
            Inner::Second(e) => Some(&e.value),
            _ => None,
        }
    }

    /// The builder of the first storage, while the second is in use.
    pub fn first_builder(&self) -> (r: Option<&FB>)
        ensures
            r.is_some() == (self.state() is Second),
            r.is_some() ==> *r.unwrap() == self.state()->Second_0.builder,
    {
        match &self.inner {
            Inner::Second(e) => Some(&e.builder),
            _ => None,
        }
    }

    /// The builder of the second storage, while the first is in use.
    pub fn second_builder(&self) -> (r: Option<&SB>)
        ensures
            r.is_some() == (self.state() is First),
            r.is_some() ==> *r.unwrap() == self.state()->First_0.builder,
    {
        match &self.inner {
            Inner::First(e) => Some(&e.builder),
            _ => None,
        }
    }
}

impl<F: Storage, S: Storage, FB: Builder<F>, SB: Builder<S>> Storage for SingleRange<F, S, FB, SB> {
    open spec fn wf(&self) -> bool {
        &&& F::steadfast()
        &&& S::steadfast()
        &&& match self.state() {
            Inner::First(e) => e.value.wf() && e.builder.wf(),
            Inner::Second(e) => e.value.wf() && e.builder.wf(),
            Inner::Poisoned => false,
        }
    }

    open spec fn steadfast() -> bool {
        false
    }

    open spec fn alike(&self, other: &Self) -> bool {
        match (self.state(), other.state()) {
            (Inner::First(a), Inner::First(b)) => a.value.alike(&b.value)
                && a.builder.spec_into_storage().alike(&b.builder.spec_into_storage()),
            (Inner::Second(a), Inner::Second(b)) => a.value.alike(&b.value)
                && a.builder.spec_into_storage().alike(&b.builder.spec_into_storage()),
            (Inner::Poisoned, Inner::Poisoned) => true,
            _ => false,
        }
    }

    open spec fn allocations(&self) -> nat {
        match self.state() {
            Inner::First(e) => e.value.allocations() + e.builder.allocations(),
            Inner::Second(e) => e.value.allocations() + e.builder.allocations(),
            Inner::Poisoned => 0,
        }
    }

    open spec fn deallocations(&self) -> nat {
        match self.state() {
            Inner::First(e) => e.value.deallocations() + e.builder.deallocations(),
            Inner::Second(e) => e.value.deallocations() + e.builder.deallocations(),
            Inner::Poisoned => 0,
        }
    }

    proof fn lemma_alike_self(&self) {
        match self.state() {
            Inner::First(e) => {
                e.value.lemma_alike_self();
                e.builder.spec_into_storage().lemma_alike_self();
            },
            Inner::Second(e) => {
                e.value.lemma_alike_self();
                e.builder.spec_into_storage().lemma_alike_self();
            },
            Inner::Poisoned => {},
        }
    }

    proof fn lemma_alike_chain(&self, second: &Self, third: &Self) {
        match (self.state(), second.state(), third.state()) {
            (Inner::First(a), Inner::First(b), Inner::First(c)) => {
                a.value.lemma_alike_chain(&b.value, &c.value);
                a.builder.spec_into_storage().lemma_alike_chain(
                    &b.builder.spec_into_storage(),
                    &c.builder.spec_into_storage(),
                );
            },
            (Inner::Second(a), Inner::Second(b), Inner::Second(c)) => {
                a.value.lemma_alike_chain(&b.value, &c.value);
                a.builder.spec_into_storage().lemma_alike_chain(
                    &b.builder.spec_into_storage(),
                    &c.builder.spec_into_storage(),
                );
            },
            _ => {},
        }
    }
}

/// Whether the first storage is in use and can grow the range itself.
pub open spec fn grows_in_place<T, F, S, FB, SB>(
    storage: &SingleRange<F, S, FB, SB>,
    handle: SingleRangeHandle<F::Handle, S::Handle>,
    new_capacity: S::Capacity,
) -> bool where
    F: SingleRangeStorage<T>,
    S: SingleRangeStorage<T>,
    FB: Builder<F>,
    SB: Builder<S>,
 {
    match (storage.state(), handle) {
        (Inner::First(e), SingleRangeHandle::First(h)) => spec_into_first::<
            F::Capacity,
            S::Capacity,
        >(new_capacity) matches Some(c) && e.value.grows(h, c),
        _ => false,
    }
}

/// Whether the second storage is in use and can shrink the range itself.
pub open spec fn shrinks_in_place<T, F, S, FB, SB>(
    storage: &SingleRange<F, S, FB, SB>,
    handle: SingleRangeHandle<F::Handle, S::Handle>,
    new_capacity: S::Capacity,
) -> bool where
    F: SingleRangeStorage<T>,
    S: SingleRangeStorage<T>,
    FB: Builder<F>,
    SB: Builder<S>,
 {
    match (storage.state(), handle) {
        (Inner::Second(e), SingleRangeHandle::Second(h)) => e.value.shrinks(h, new_capacity),
        _ => false,
    }
}

impl<T, F, S, FB, SB> RangeStorage<T> for SingleRange<F, S, FB, SB> where
    F: SingleRangeStorage<T>,
    S: SingleRangeStorage<T>,
    FB: Builder<F>,
    SB: Builder<S>,
 {
    type Handle = SingleRangeHandle<F::Handle, S::Handle>;

    type Capacity = S::Capacity;

    open spec fn valid(&self, handle: Self::Handle) -> bool {
        match (self.state(), handle) {
            (Inner::First(e), SingleRangeHandle::First(h)) => e.value.valid(h),
            (Inner::Second(e), SingleRangeHandle::Second(h)) => e.value.valid(h),
            _ => false,
        }
    }

    open spec fn buffer(&self, handle: Self::Handle) -> Seq<Option<T>> {
        match (self.state(), handle) {
            (Inner::First(e), SingleRangeHandle::First(h)) => e.value.buffer(h),
            (Inner::Second(e), SingleRangeHandle::Second(h)) => e.value.buffer(h),
            _ => Seq::empty(),
        }
    }

    open spec fn spec_maximum_capacity(&self) -> usize {
        match self.state() {
            Inner::First(e) => e.value.spec_maximum_capacity(),
            Inner::Second(e) => e.value.spec_maximum_capacity(),
            Inner::Poisoned => 0,
        }
    }

    open spec fn allocates(&self, capacity: Self::Capacity) -> bool {
        match self.state() {
            Inner::First(e) => (spec_into_first::<F::Capacity, S::Capacity>(capacity) matches Some(
                c,
            ) && e.value.allocates(c)) || e.builder.spec_into_storage().allocates(capacity),
            Inner::Second(e) => e.value.allocates(capacity),
            Inner::Poisoned => false,
        }
    }

    open spec fn grows(&self, handle: Self::Handle, new_capacity: Self::Capacity) -> bool {
        match (self.state(), handle) {
            (Inner::First(e), SingleRangeHandle::First(h)) => grows_in_place::<T, F, S, FB, SB>(
                self, handle, new_capacity)
                || e.builder.spec_into_storage().allocates(new_capacity),
            (Inner::Second(e), SingleRangeHandle::Second(h)) => e.value.grows(h, new_capacity),
            _ => false,
        }
    }

    open spec fn shrinks(&self, handle: Self::Handle, new_capacity: Self::Capacity) -> bool {
        match (self.state(), handle) {
            (Inner::First(e), SingleRangeHandle::First(h)) => spec_into_first::<
                F::Capacity,
                S::Capacity,
            >(new_capacity) matches Some(c) && e.value.shrinks(h, c),
            (Inner::Second(e), SingleRangeHandle::Second(h)) => shrinks_in_place::<T, F, S, FB, SB>(
                self, handle, new_capacity)
                || (spec_into_first::<F::Capacity, S::Capacity>(new_capacity) matches Some(c)
                && e.builder.spec_into_storage().allocates(c)),
            _ => false,
        }
    }

    open spec fn measurable(&self) -> bool {
        match self.state() {
            Inner::First(e) => e.value.measurable() && F::Capacity::spec_max()
                <= S::Capacity::spec_max(),
            Inner::Second(e) => e.value.measurable(),
            Inner::Poisoned => false,
        }
    }

    open spec fn allocation(&self, capacity: Self::Capacity) -> Outcome {
        match self.state() {
            Inner::First(e) => match spec_into_first::<F::Capacity, S::Capacity>(capacity) {
                Some(c) => if e.value.allocates(c) {
                    e.value.allocation(c)
                } else {
                    e.value.allocation(c).followed_by(
                        e.builder.spec_into_storage().allocation(capacity),
                    )
                },
                None => e.builder.spec_into_storage().allocation(capacity),
            },
            Inner::Second(e) => e.value.allocation(capacity),
            Inner::Poisoned => Outcome::free(0),
        }
    }

    open spec fn growth(&self, handle: Self::Handle, new_capacity: Self::Capacity) -> Outcome {
        match (self.state(), handle) {
            (Inner::First(e), SingleRangeHandle::First(h)) => {
                let tried = match spec_into_first::<F::Capacity, S::Capacity>(new_capacity) {
                    Some(c) => e.value.growth(h, c),
                    None => Outcome::free(0),
                };
                if grows_in_place::<T, F, S, FB, SB>(self, handle, new_capacity) {
                    tried
                } else {
                    tried.followed_by(e.builder.spec_into_storage().allocation(new_capacity))
                }
            },
            (Inner::Second(e), SingleRangeHandle::Second(h)) => e.value.growth(h, new_capacity),
            _ => Outcome::free(0),
        }
    }

    open spec fn shrinkage(&self, handle: Self::Handle, new_capacity: Self::Capacity) -> Outcome {
        match (self.state(), handle) {
            (Inner::First(e), SingleRangeHandle::First(h)) => match spec_into_first::<
                F::Capacity,
                S::Capacity,
            >(new_capacity) {
                Some(c) => e.value.shrinkage(h, c),
                None => Outcome::free(0),
            },
            (Inner::Second(e), SingleRangeHandle::Second(h)) => {
                let tried = e.value.shrinkage(h, new_capacity);
                if e.value.shrinks(h, new_capacity) {
                    tried
                } else {
                    match spec_into_first::<F::Capacity, S::Capacity>(new_capacity) {
                        Some(c) => tried.followed_by(e.builder.spec_into_storage().allocation(c)),
                        None => tried,
                    }
                }
            },
            _ => Outcome::free(0),
        }
    }

    open spec fn release_calls(handle: Self::Handle) -> nat {
        match handle {
            SingleRangeHandle::First(h) => F::release_calls(h),
            SingleRangeHandle::Second(h) => S::release_calls(h),
        }
    }

    proof fn lemma_alike_allocates(&self, other: &Self, capacity: Self::Capacity) {
        match (self.state(), other.state()) {
            (Inner::First(a), Inner::First(b)) => {
                match spec_into_first::<F::Capacity, S::Capacity>(capacity) {
                    Some(c) => {
                        a.value.lemma_alike_allocates(&b.value, c);
                    },
                    None => {},
                }
                a.builder.spec_into_storage().lemma_alike_allocates(
                    &b.builder.spec_into_storage(),
                    capacity,
                );
            },
            (Inner::Second(a), Inner::Second(b)) => {
                a.value.lemma_alike_allocates(&b.value, capacity);
            },
            _ => {},
        }
    }

    fn maximum_capacity(&self) -> (r: Self::Capacity) {
        match &self.inner {
            Inner::First(first) => into_second::<F::Capacity, S::Capacity>(
                first.value.maximum_capacity(),
            ),
            Inner::Second(second) => second.value.maximum_capacity(),
            Inner::Poisoned => S::Capacity::max(),
        }
    }

    /// The side in use is the one that deallocates, and the storage stays on it.
    fn deallocate(&mut self, handle: Self::Handle)
        ensures
            final(self).state() is First <==> old(self).state() is First,
    {
        match (&mut self.inner, handle) {
            (Inner::First(first), SingleRangeHandle::First(h)) => first.value.deallocate(h),
            (Inner::Second(second), SingleRangeHandle::Second(h)) => second.value.deallocate(h),
            _ => {},
        }
    }

    fn get(&self, handle: Self::Handle) -> (r: &[Option<T>]) {
        match (&self.inner, handle) {
            (Inner::First(first), SingleRangeHandle::First(h)) => first.value.get(h),
            (Inner::Second(second), SingleRangeHandle::Second(h)) => second.value.get(h),
            _ => {
                let r: &[Option<T>] = &[];
                r
            },
        }
    }

    fn write(&mut self, handle: Self::Handle, index: usize, value: T)
        ensures
            final(self).state() is First <==> old(self).state() is First,
    {
        proof {
            old(self).lemma_alike_self();
        }
        match (&mut self.inner, handle) {
            (Inner::First(first), SingleRangeHandle::First(h)) => first.value.write(
                h,
                index,
                value,
            ),
            (Inner::Second(second), SingleRangeHandle::Second(h)) => second.value.write(
                h,
                index,
                value,
            ),
            _ => {},
        }
    }

    fn take(&mut self, handle: Self::Handle, index: usize) -> (r: Option<T>)
        ensures
            final(self).state() is First <==> old(self).state() is First,
    {
        proof {
            old(self).lemma_alike_self();
        }
        match (&mut self.inner, handle) {
            (Inner::First(first), SingleRangeHandle::First(h)) => first.value.take(h, index),
            (Inner::Second(second), SingleRangeHandle::Second(h)) => second.value.take(h, index),
            _ => None,
        }
    }

    /// Grows on the side in use if that side can. From the first side it otherwise
    /// switches to the second, whether or not the second then provides the range: after
    /// a failed switch the storage is on the second side and the range is lost. The
    /// builder kept beside the second side is the one that salvages the first storage.
    fn try_grow(&mut self, handle: Self::Handle, new_capacity: Self::Capacity) -> (r: Result<
        Self::Handle,
        AllocError,
    >)
        ensures
            final(self).state() is First
                <==> grows_in_place::<T, F, S, FB, SB>(old(self), handle, new_capacity),
            final(self).state() is First ==> r is Ok && r.unwrap() is First,
            final(self).state() is Second && r is Ok ==> r.unwrap() is Second,
            old(self).state() is First && final(self).state() is Second ==> exists|first: F|
                first.wf() && #[trigger] FB::spec_from_storage(first)
                    == final(self).state()->Second_0.builder,
            old(self).state() is Second && r is Err && S::steadfast() ==> final(self).valid(
                handle,
            ) && final(self).buffer(handle) == old(self).buffer(handle),
    {
        match handle {
            SingleRangeHandle::Second(h) => {
                match &mut self.inner {
                    Inner::Second(second) => {
                        match second.value.try_grow(h, new_capacity) {
                            Ok(grown) => Ok(SingleRangeHandle::Second(grown)),
                            Err(e) => Err(e),
                        }
                    },
                    _ => Err(AllocError),
                }
            },
            SingleRangeHandle::First(h) => {
                let grown = match &mut self.inner {
                    Inner::First(first) => {
                        match into_first::<F::Capacity, S::Capacity>(new_capacity) {
                            Ok(capacity) => first.value.try_grow(h, capacity),
                            Err(e) => Err(e),
                        }
                    },
                    _ => Err(AllocError),
                };
                match grown {
                    Ok(grown) => Ok(SingleRangeHandle::First(grown)),
                    Err(_) => {
                        let mut inner = Inner::Poisoned;
                        core::mem::swap(&mut self.inner, &mut inner);
                        match inner {
                            Inner::First(element) => {
                                let (mut first, mut second) = element.transform::<S>();
                                proof {
                                    second.lemma_alike_allocates(
                                        &element.builder.spec_into_storage(),
                                        new_capacity,
                                    );
                                }
                                let result = match second.allocate(new_capacity) {
                                    Ok(new_handle) => {
                                        transfer(&mut first, h, &mut second, new_handle);
                                        Ok(SingleRangeHandle::Second(new_handle))
                                    },
                                    Err(e) => Err(e),
                                };
                                self.inner = Inner::Second(InnerElement::settle(first, second));
                                result
                            },
                            _ => Err(AllocError),
                        }
                    },
                }
            },
        }
    }

    /// Shrinks on the side in use if that side can. From the second side it otherwise
    /// switches to the first, provided that the capacity is one of the first's; after a
    /// failed switch the storage is on the first side and the range is lost. The builder
    /// kept beside the first side is the one that salvages the second storage.
    fn try_shrink(&mut self, handle: Self::Handle, new_capacity: Self::Capacity) -> (r: Result<
        Self::Handle,
        AllocError,
    >)
        ensures
            old(self).state() is First ==> final(self).state() is First,
            old(self).state() is Second ==> (final(self).state() is Second
                <==> (shrinks_in_place::<T, F, S, FB, SB>(old(self), handle, new_capacity)
                || spec_into_first::<
                F::Capacity,
                S::Capacity,
            >(new_capacity) is None)),
            final(self).state() is Second ==> (r is Ok ==> r.unwrap() is Second),
            final(self).state() is First ==> (r is Ok ==> r.unwrap() is First),
            old(self).state() is Second && final(self).state() is First ==> exists|second: S|
                second.wf() && #[trigger] SB::spec_from_storage(second)
                    == final(self).state()->First_0.builder,
            old(self).state() is First && r is Err && F::steadfast() ==> final(self).valid(
                handle,
            ) && final(self).buffer(handle) == old(self).buffer(handle),
    {
        match handle {
            SingleRangeHandle::First(h) => {
                match &mut self.inner {
                    Inner::First(first) => {
                        let capacity = into_first::<F::Capacity, S::Capacity>(new_capacity)?;
                        match first.value.try_shrink(h, capacity) {
                            Ok(shrunk) => Ok(SingleRangeHandle::First(shrunk)),
                            Err(e) => Err(e),
                        }
                    },
                    _ => Err(AllocError),
                }
            },
            SingleRangeHandle::Second(h) => {
                let shrunk = match &mut self.inner {
                    Inner::Second(second) => second.value.try_shrink(h, new_capacity),
                    _ => Err(AllocError),
                };
                match shrunk {
                    Ok(shrunk) => Ok(SingleRangeHandle::Second(shrunk)),
                    Err(_) => {
                        let capacity = into_first::<F::Capacity, S::Capacity>(new_capacity)?;
                        let mut inner = Inner::Poisoned;
                        core::mem::swap(&mut self.inner, &mut inner);
                        match inner {
                            Inner::Second(element) => {
                                let (mut second, mut first) = element.transform::<F>();
                                proof {
                                    first.lemma_alike_allocates(
                                        &element.builder.spec_into_storage(),
                                        capacity,
                                    );
                                }
                                let result = match first.allocate(capacity) {
                                    Ok(new_handle) => {
                                        transfer(&mut second, h, &mut first, new_handle);
                                        Ok(SingleRangeHandle::First(new_handle))
                                    },
                                    Err(e) => Err(e),
                                };
                                self.inner = Inner::First(InnerElement::settle(second, first));
                                result
                            },
                            _ => Err(AllocError),
                        }
                    },
                }
            },
        }
    }
}

impl<T, F, S, FB, SB> SingleRangeStorage<T> for SingleRange<F, S, FB, SB> where
    F: SingleRangeStorage<T>,
    S: SingleRangeStorage<T>,
    FB: Builder<F>,
    SB: Builder<S>,
 {
    /// Allocates on the side in use if that side can. From the first side it otherwise
    /// switches to the second, whether or not the second then provides the range. The
    /// builder kept beside the second side is the one that salvages the first storage.
    fn allocate(&mut self, capacity: Self::Capacity) -> (r: Result<Self::Handle, AllocError>)
        ensures
            final(self).state() is First <==> (old(self).state() matches Inner::First(e)
                && spec_into_first::<F::Capacity, S::Capacity>(capacity) matches Some(c)
                && e.value.allocates(c)),
            final(self).state() is First ==> r is Ok && r.unwrap() is First,
            final(self).state() is Second && r is Ok ==> r.unwrap() is Second,
            old(self).state() is First && final(self).state() is Second ==> exists|first: F|
                first.wf() && #[trigger] FB::spec_from_storage(first)
                    == final(self).state()->Second_0.builder,
    {
        proof {
            old(self).lemma_alike_self();
        }
        let allocated = match &mut self.inner {
            Inner::First(first) => {
                match into_first::<F::Capacity, S::Capacity>(capacity) {
                    Ok(capacity) => first.value.allocate(capacity),
                    Err(e) => Err(e),
                }
            },
            Inner::Second(second) => {
                return match second.value.allocate(capacity) {
                    Ok(h) => Ok(SingleRangeHandle::Second(h)),
                    Err(e) => Err(e),
                };
            },
            Inner::Poisoned => { return Err(AllocError); },
        };
        match allocated {
            Ok(h) => Ok(SingleRangeHandle::First(h)),
            Err(_) => {
                let mut inner = Inner::Poisoned;
                core::mem::swap(&mut self.inner, &mut inner);
                match inner {
                    Inner::First(element) => {
                        let (first, mut second) = element.transform::<S>();
                        proof {
                            second.lemma_alike_allocates(
                                &element.builder.spec_into_storage(),
                                capacity,
                            );
                        }
                        let result = match second.allocate(capacity) {
                            Ok(h) => Ok(SingleRangeHandle::Second(h)),
                            Err(e) => Err(e),
                        };
                        self.inner = Inner::Second(InnerElement::settle(first, second));
                        result
                    },
                    _ => Err(AllocError),
                }
            },
        }
    }
}

} // verus!
