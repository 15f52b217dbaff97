//! Alternative implementation of `SingleElementStorage`.

use vstd::prelude::*;

use super::builder::Builder;
use super::inner::{Inner, InnerElement};
use crate::traits::{released, rewritten, ElementStorage, SingleElementStorage, Storage};
use crate::utils::{AllocError, Metadata};

verus! {

/// SingleElement is a composite of 2 SingleElementStorage.
///
/// It will first attempt to allocate from the first storage if possible, and otherwise
/// switch to the second storage if necessary.
pub struct SingleElement<F, S, FB, SB> {
    inner: Inner<F, S, FB, SB>,
}

/// SingleElementHandle, an alternative between 2 handles.
#[derive(Debug)]
pub enum SingleElementHandle<F, S> {
    /// A handle of the first storage.
    First(F),
    /// A handle of the second storage.
    Second(S),
}

impl<F: Copy, S: Copy> Clone for SingleElementHandle<F, S> {
    fn clone(&self) -> (r: Self)
        ensures
            r == *self,
    {
        *self
    }
}

impl<F: Copy, S: Copy> Copy for SingleElementHandle<F, S> {

}

impl<F, S, FB, SB> SingleElement<F, S, FB, SB> {
    /// The state of the storage.
    pub closed spec fn state(&self) -> Inner<F, S, FB, SB> {
        self.inner
    }

    /// Creates an instance containing the First alternative.
    pub fn first(first: F, second_builder: SB) -> (r: Self)
        ensures
            r.state() == Inner::<F, S, FB, SB>::First(
                InnerElement { value: first, builder: second_builder },
            ),
    {
        Self { inner: Inner::first(first, second_builder) }
    }

    /// Creates an instance containing the Second alternative.
    pub fn second(second: S, first_builder: FB) -> (r: Self)
        ensures
            r.state() == Inner::<F, S, FB, SB>::Second(
                InnerElement { value: second, builder: first_builder },
            ),
    {
        Self { inner: Inner::second(second, first_builder) }
    }

    /// Whether the first storage is in use.
    pub fn is_first(&self) -> (r: bool)
        ensures
            r == (self.state() is First),
    {
        match &self.inner {
            Inner::First(_) => true,
            _ => false,
        }
    }

    /// Whether the second storage is in use.
    pub fn is_second(&self) -> (r: bool)
        ensures
            r == (self.state() is Second),
    {
        match &self.inner {
            Inner::Second(_) => true,
            _ => false,
        }
    }

    /// The first storage, while it is in use.
    pub fn first_storage(&self) -> (r: Option<&F>)
        ensures
            r.is_some() == (self.state() is First),
            r.is_some() ==> *r.unwrap() == self.state()->First_0.value,
    {
        match &self.inner {
            Inner::First(e) => Some(&e.value),
            _ => None,
        }
    }

    /// The second storage, while it is in use.
    pub fn second_storage(&self) -> (r: Option<&S>)
        ensures
            r.is_some() == (self.state() is Second),
            r.is_some() ==> *r.unwrap() == self.state()->Second_0.value,
    {
        match &self.inner {
            Inner::Second(e) => Some(&e.value),
            _ => None,
        }
    }

    /// The builder of the first storage, while the second is in use.
    pub fn first_builder(&self) -> (r: Option<&FB>)
        ensures
            r.is_some() == (self.state() is Second),
            r.is_some() ==> *r.unwrap() == self.state()->Second_0.builder,
    {
        match &self.inner {
            Inner::Second(e) => Some(&e.builder),
            _ => None,
        }
    }

    /// The builder of the second storage, while the first is in use.
    pub fn second_builder(&self) -> (r: Option<&SB>)
        ensures
            r.is_some() == (self.state() is First),
            r.is_some() ==> *r.unwrap() == self.state()->First_0.builder,
    {
        match &self.inner {
            Inner::First(e) => Some(&e.builder),
            _ => None,
        }
    }
}

impl<F: Storage, S: Storage, FB: Builder<F>, SB: Builder<S>> Storage for SingleElement<
    F,
    S,
    FB,
    SB,
> {
    open spec fn wf(&self) -> bool {
        match self.state() {
            Inner::First(e) => e.value.wf() && e.builder.wf(),
            Inner::Second(e) => e.value.wf() && e.builder.wf(),
            Inner::Poisoned => false,
        }
    }

    open spec fn alike(&self, other: &Self) -> bool {
        match (self.state(), other.state()) {
            (Inner::First(a), Inner::First(b)) => a.value.alike(&b.value)
                && a.builder.spec_into_storage().alike(&b.builder.spec_into_storage()),
            (Inner::Second(a), Inner::Second(b)) => a.value.alike(&b.value)
                && a.builder.spec_into_storage().alike(&b.builder.spec_into_storage()),
            (Inner::Poisoned, Inner::Poisoned) => true,
            _ => false,
        }
    }

    open spec fn allocations(&self) -> nat {
        match self.state() {
            Inner::First(e) => e.value.allocations() + e.builder.allocations(),
            Inner::Second(e) => e.value.allocations() + e.builder.allocations(),
            Inner::Poisoned => 0,
        }
    }

    open spec fn deallocations(&self) -> nat {
        match self.state() {
            Inner::First(e) => e.value.deallocations() + e.builder.deallocations(),
            Inner::Second(e) => e.value.deallocations() + e.builder.deallocations(),
            Inner::Poisoned => 0,
        }
    }

    proof fn lemma_alike_self(&self) {
        match self.state() {
            Inner::First(e) => {
                e.value.lemma_alike_self();
                e.builder.spec_into_storage().lemma_alike_self();
            },
            Inner::Second(e) => {
                e.value.lemma_alike_self();
                e.builder.spec_into_storage().lemma_alike_self();
            },
            Inner::Poisoned => {},
        }
    }

    proof fn lemma_alike_chain(&self, second: &Self, third: &Self) {
        match (self.state(), second.state(), third.state()) {
            (Inner::First(a), Inner::First(b), Inner::First(c)) => {
                a.value.lemma_alike_chain(&b.value, &c.value);
                a.builder.spec_into_storage().lemma_alike_chain(
                    &b.builder.spec_into_storage(),
                    &c.builder.spec_into_storage(),
                );
            },
            (Inner::Second(a), Inner::Second(b), Inner::Second(c)) => {
                a.value.lemma_alike_chain(&b.value, &c.value);
                a.builder.spec_into_storage().lemma_alike_chain(
                    &b.builder.spec_into_storage(),
                    &c.builder.spec_into_storage(),
                );
            },
            _ => {},
        }
    }

    open spec fn steadfast() -> bool {
        true
    }
}

/// Whether `handle` is one of the side in use, and names an allocated slot of it.
pub open spec fn valid_in<T, F: ElementStorage<T>, S: ElementStorage<T>, FB, SB>(
    storage: &SingleElement<F, S, FB, SB>,
    handle: SingleElementHandle<F::Handle, S::Handle>,
) -> bool {
    match (storage.state(), handle) {
        (Inner::First(e), SingleElementHandle::First(h)) => e.value.valid(h),
        (Inner::Second(e), SingleElementHandle::Second(h)) => e.value.valid(h),
        _ => false,
    }
}

/// What the slot named by `handle` holds on the side in use.
pub open spec fn value_in<T, F: ElementStorage<T>, S: ElementStorage<T>, FB, SB>(
    storage: &SingleElement<F, S, FB, SB>,
    handle: SingleElementHandle<F::Handle, S::Handle>,
) -> Option<T> {
    match (storage.state(), handle) {
        (Inner::First(e), SingleElementHandle::First(h)) => e.value.value(h),
        (Inner::Second(e), SingleElementHandle::Second(h)) => e.value.value(h),
        _ => None,
    }
}

/// Whether two handles are of the same side, for the same slot.
pub open spec fn same_slot_in<T, F: ElementStorage<T>, S: ElementStorage<T>>(
    a: SingleElementHandle<F::Handle, S::Handle>,
    b: SingleElementHandle<F::Handle, S::Handle>,
) -> bool {
    match (a, b) {
        (SingleElementHandle::First(x), SingleElementHandle::First(y)) => F::same_slot(x, y),
        (SingleElementHandle::Second(x), SingleElementHandle::Second(y)) => S::same_slot(x, y),
        _ => false,
    }
}

/// A deallocation on the side in use is one in the alternative.
proof fn lemma_released<T, F: ElementStorage<T>, S: ElementStorage<T>, FB, SB>(
    before: &SingleElement<F, S, FB, SB>,
    after: &SingleElement<F, S, FB, SB>,
    handle: SingleElementHandle<F::Handle, S::Handle>,
)
    requires
        match (before.state(), after.state(), handle) {
            (Inner::First(b), Inner::First(a), SingleElementHandle::First(h)) => released::<T, F>(
                &b.value,
                &a.value,
                h,
            ),
            (Inner::Second(b), Inner::Second(a), SingleElementHandle::Second(h)) => released::<
                T,
                S,
            >(&b.value, &a.value, h),
            _ => false,
        },
    ensures
        forall|other: SingleElementHandle<F::Handle, S::Handle>| #[trigger]
            valid_in::<T, F, S, FB, SB>(after, other) ==> valid_in::<T, F, S, FB, SB>(
                before,
                other,
            ) && !same_slot_in::<T, F, S>(other, handle),
        forall|other: SingleElementHandle<F::Handle, S::Handle>|
            valid_in::<T, F, S, FB, SB>(before, other) && !same_slot_in::<T, F, S>(other, handle)
                ==> #[trigger] valid_in::<T, F, S, FB, SB>(after, other),
        forall|other: SingleElementHandle<F::Handle, S::Handle>|
            valid_in::<T, F, S, FB, SB>(before, other) && !same_slot_in::<T, F, S>(other, handle)
                ==> #[trigger] value_in::<T, F, S, FB, SB>(after, other) == value_in::<
                T,
                F,
                S,
                FB,
                SB,
            >(before, other),
{
    assert forall|other: SingleElementHandle<F::Handle, S::Handle>|
        valid_in::<T, F, S, FB, SB>(before, other) && !same_slot_in::<T, F, S>(
            other,
            handle,
        ) implies #[trigger] valid_in::<T, F, S, FB, SB>(after, other) by {
        match other {
            SingleElementHandle::First(o) => {
                assert(after.state()->First_0.value.valid(o));
            },
            SingleElementHandle::Second(o) => {
                assert(after.state()->Second_0.value.valid(o));
            },
        }
    }
    assert forall|other: SingleElementHandle<F::Handle, S::Handle>|
        valid_in::<T, F, S, FB, SB>(before, other) && !same_slot_in::<T, F, S>(
            other,
            handle,
        ) implies #[trigger] value_in::<T, F, S, FB, SB>(after, other) == value_in::<
        T,
        F,
        S,
        FB,
        SB,
    >(before, other) by {
        match other {
            SingleElementHandle::First(o) => {
                assert(after.state()->First_0.value.valid(o));
            },
            SingleElementHandle::Second(o) => {
                assert(after.state()->Second_0.value.valid(o));
            },
        }
    }
    assert forall|other: SingleElementHandle<F::Handle, S::Handle>| #[trigger]
        valid_in::<T, F, S, FB, SB>(after, other) implies valid_in::<T, F, S, FB, SB>(
        before,
        other,
    ) && !same_slot_in::<T, F, S>(other, handle) by {
        match other {
            SingleElementHandle::First(o) => {
                assert(after.state()->First_0.value.valid(o));
            },
            SingleElementHandle::Second(o) => {
                assert(after.state()->Second_0.value.valid(o));
            },
        }
    }
}

/// A change of content on the side in use is one in the alternative.
proof fn lemma_rewritten<T, F: ElementStorage<T>, S: ElementStorage<T>, FB, SB>(
    before: &SingleElement<F, S, FB, SB>,
    after: &SingleElement<F, S, FB, SB>,
    handle: SingleElementHandle<F::Handle, S::Handle>,
    content: Option<T>,
)
    requires
        match (before.state(), after.state(), handle) {
            (Inner::First(b), Inner::First(a), SingleElementHandle::First(h)) => rewritten::<T, F>(
                &b.value,
                &a.value,
                h,
                content,
            ),
            (Inner::Second(b), Inner::Second(a), SingleElementHandle::Second(h)) => rewritten::<
                T,
                S,
            >(&b.value, &a.value, h, content),
            _ => false,
        },
    ensures
        forall|other: SingleElementHandle<F::Handle, S::Handle>| #[trigger]
            valid_in::<T, F, S, FB, SB>(after, other) == valid_in::<T, F, S, FB, SB>(
                before,
                other,
            ),
        forall|other: SingleElementHandle<F::Handle, S::Handle>|
            valid_in::<T, F, S, FB, SB>(before, other) ==> #[trigger] value_in::<T, F, S, FB, SB>(
                after,
                other,
            ) == if same_slot_in::<T, F, S>(other, handle) {
                content
            } else {
                value_in::<T, F, S, FB, SB>(before, other)
            },
{
    assert forall|other: SingleElementHandle<F::Handle, S::Handle>| #[trigger]
        valid_in::<T, F, S, FB, SB>(after, other) == valid_in::<T, F, S, FB, SB>(
        before,
        other,
    ) by {
        match other {
            SingleElementHandle::First(o) => {
                if before.state() is First {
                    assert(after.state()->First_0.value.valid(o)
                        == before.state()->First_0.value.valid(o));
                }
            },
            SingleElementHandle::Second(o) => {
                if before.state() is Second {
                    assert(after.state()->Second_0.value.valid(o)
                        == before.state()->Second_0.value.valid(o));
                }
            },
        }
    }
    assert forall|other: SingleElementHandle<F::Handle, S::Handle>|
        valid_in::<T, F, S, FB, SB>(before, other) implies #[trigger] value_in::<T, F, S, FB, SB>(
        after,
        other,
    ) == if same_slot_in::<T, F, S>(other, handle) {
        content
    } else {
        value_in::<T, F, S, FB, SB>(before, other)
    } by {
        match (other, handle) {
            (SingleElementHandle::First(o), SingleElementHandle::First(h)) => {
                assert(after.state()->First_0.value.value(o) == if F::same_slot(o, h) {
                    content
                } else {
                    before.state()->First_0.value.value(o)
                });
            },
            (SingleElementHandle::Second(o), SingleElementHandle::Second(h)) => {
                assert(after.state()->Second_0.value.value(o) == if S::same_slot(o, h) {
                    content
                } else {
                    before.state()->Second_0.value.value(o)
                });
            },
            _ => {},
        }
    }
}

impl<T, F, S, FB, SB> ElementStorage<T> for SingleElement<F, S, FB, SB> where
    F: SingleElementStorage<T>,
    S: SingleElementStorage<T>,
    FB: Builder<F>,
    SB: Builder<S>,
 {
    type Handle = SingleElementHandle<F::Handle, S::Handle>;

    open spec fn valid(&self, handle: Self::Handle) -> bool {
        valid_in::<T, F, S, FB, SB>(self, handle)
    }

    open spec fn value(&self, handle: Self::Handle) -> Option<T> {
        value_in::<T, F, S, FB, SB>(self, handle)
    }

    open spec fn metadata(handle: Self::Handle) -> Metadata {
        match handle {
            SingleElementHandle::First(h) => F::metadata(h),
            SingleElementHandle::Second(h) => S::metadata(h),
        }
    }

    open spec fn same_slot(a: Self::Handle, b: Self::Handle) -> bool {
        same_slot_in::<T, F, S>(a, b)
    }

    open spec fn accepts(&self, meta: Metadata) -> bool {
        match self.state() {
            Inner::First(e) => e.value.accepts(meta) || e.builder.spec_into_storage().accepts(
                meta,
            ),
            Inner::Second(e) => e.value.accepts(meta),
            Inner::Poisoned => false,
        }
    }

    open spec fn allocation_calls(&self, meta: Metadata) -> nat {
        match self.state() {
            Inner::First(e) => e.value.allocation_calls(meta) + if e.value.accepts(meta) {
                0
            } else {
                e.builder.spec_into_storage().allocation_calls(meta)
            },
            Inner::Second(e) => e.value.allocation_calls(meta),
            Inner::Poisoned => 0,
        }
    }

    open spec fn release_calls(handle: Self::Handle) -> nat {
        match handle {
            SingleElementHandle::First(h) => F::release_calls(h),
            SingleElementHandle::Second(h) => S::release_calls(h),
        }
    }

    proof fn lemma_alike_accepts(&self, other: &Self, meta: Metadata) {
        match (self.state(), other.state()) {
            (Inner::First(a), Inner::First(b)) => {
                a.value.lemma_alike_accepts(&b.value, meta);
                a.builder.spec_into_storage().lemma_alike_accepts(
                    &b.builder.spec_into_storage(),
                    meta,
                );
            },
            (Inner::Second(a), Inner::Second(b)) => {
                a.value.lemma_alike_accepts(&b.value, meta);
            },
            _ => {},
        }
    }

    /// The side in use is the one that deallocates, and the storage stays on it.
    fn deallocate(&mut self, handle: Self::Handle)
        ensures
            final(self).state() is First <==> old(self).state() is First,
    {
        match (&mut self.inner, handle) {
            (Inner::First(first), SingleElementHandle::First(h)) => first.value.deallocate(h),
            (Inner::Second(second), SingleElementHandle::Second(h)) => second.value.deallocate(h),
            _ => {},
        }
        proof {
            lemma_released::<T, F, S, FB, SB>(old(self), self, handle);
        }
    }

    /// The handle resolves through the side in use.
    fn get(&self, handle: Self::Handle) -> (r: Option<&T>) {
        match (&self.inner, handle) {
            (Inner::First(first), SingleElementHandle::First(h)) => first.value.get(h),
            (Inner::Second(second), SingleElementHandle::Second(h)) => second.value.get(h),
            _ => None,
        }
    }

    fn write(&mut self, handle: Self::Handle, value: T)
        ensures
            final(self).state() is First <==> old(self).state() is First,
    {
        match (&mut self.inner, handle) {
            (Inner::First(first), SingleElementHandle::First(h)) => first.value.write(h, value),
            (Inner::Second(second), SingleElementHandle::Second(h)) => second.value.write(
                h,
                value,
            ),
            _ => {},
        }
        proof {
            lemma_rewritten::<T, F, S, FB, SB>(old(self), self, handle, Some(value));
        }
    }

    fn take(&mut self, handle: Self::Handle) -> (r: Option<T>)
        ensures
            final(self).state() is First <==> old(self).state() is First,
    {
        let r = match (&mut self.inner, handle) {
            (Inner::First(first), SingleElementHandle::First(h)) => first.value.take(h),
            (Inner::Second(second), SingleElementHandle::Second(h)) => second.value.take(h),
            _ => None,
        };
        proof {
            lemma_rewritten::<T, F, S, FB, SB>(old(self), self, handle, None);
        }
        r
    }

    /// The side in use is the one that destroys, and the storage stays on it.
    fn destroy(&mut self, handle: Self::Handle)
        ensures
            final(self).state() is First <==> old(self).state() is First,
    {
        match (&mut self.inner, handle) {
            (Inner::First(first), SingleElementHandle::First(h)) => first.value.destroy(h),
            (Inner::Second(second), SingleElementHandle::Second(h)) => second.value.destroy(h),
            _ => {},
        }
        proof {
            lemma_released::<T, F, S, FB, SB>(old(self), self, handle);
        }
    }

    /// The coerced handle is one of the side in use.
    fn coerce(&self, handle: Self::Handle, target: Metadata) -> (r: Self::Handle)
        ensures
            r is First <==> handle is First,
    {
        match (&self.inner, handle) {
            (Inner::First(first), SingleElementHandle::First(h)) => SingleElementHandle::First(
                first.value.coerce(h, target),
            ),
            (Inner::Second(second), SingleElementHandle::Second(h)) => SingleElementHandle::Second(
                second.value.coerce(h, target),
            ),
            _ => handle,
        }
    }
}

impl<T, F, S, FB, SB> SingleElementStorage<T> for SingleElement<F, S, FB, SB> where
    F: SingleElementStorage<T>,
    S: SingleElementStorage<T>,
    FB: Builder<F>,
    SB: Builder<S>,
 {
    /// Allocates on the side in use if that side accepts. From the first side it
    /// otherwise switches to the second, whether or not the second then accepts: after
    /// a failed switch the storage is on the second side all the same. The builder kept
    /// beside the second side is the one that salvages the first storage.
    fn allocate(&mut self, meta: Metadata) -> (r: Result<Self::Handle, AllocError>)
        ensures
            final(self).state() is First <==> (old(self).state() matches Inner::First(e)
                && e.value.accepts(meta)),
            final(self).state() is First ==> (r matches Ok(SingleElementHandle::First(_))),
            final(self).state() is Second ==> !(r matches Ok(SingleElementHandle::First(_))),
            old(self).state() is First && final(self).state() is Second ==> exists|first: F|
                first.wf() && #[trigger] FB::spec_from_storage(first)
                    == final(self).state()->Second_0.builder,
    {
        let attempt = match &mut self.inner {
            Inner::First(first) => first.value.allocate(meta),
            Inner::Second(second) => {
                return match second.value.allocate(meta) {
                    Ok(handle) => Ok(SingleElementHandle::Second(handle)),
                    Err(e) => Err(e),
                };
            },
            Inner::Poisoned => { return Err(AllocError); },
        };
        match attempt {
            Ok(handle) => Ok(SingleElementHandle::First(handle)),
            Err(_) => {
                let mut inner = Inner::Poisoned;
                core::mem::swap(&mut self.inner, &mut inner);
                match inner {
                    Inner::First(element) => {
                        let (first, mut second) = element.transform::<S>();
                        proof {
                            second.lemma_alike_accepts(
                                &element.builder.spec_into_storage(),
                                meta,
                            );
                        }
                        let result = match second.allocate(meta) {
                            Ok(handle) => Ok(SingleElementHandle::Second(handle)),
                            Err(e) => Err(e),
                        };
                        self.inner = Inner::Second(InnerElement::settle(first, second));
                        result
                    },
                    _ => Err(AllocError),
                }
            },
        }
    }

    /// Creates on the side in use if that side accepts. From the first side it
    /// otherwise switches to the second, whether or not the second then accepts: after
    /// a failed switch the storage is on the second side all the same, and the value is
    /// handed back. The builder kept beside the second side is the one that salvages the
    /// first storage.
    fn create(&mut self, value: T) -> (r: Result<Self::Handle, T>)
        ensures
            final(self).state() is First <==> (old(self).state() matches Inner::First(e)
                && e.value.accepts(Metadata::spec_sized::<T>())),
            final(self).state() is First ==> (r matches Ok(SingleElementHandle::First(_))),
            final(self).state() is Second ==> !(r matches Ok(SingleElementHandle::First(_))),
            old(self).state() is First && final(self).state() is Second ==> exists|first: F|
                first.wf() && #[trigger] FB::spec_from_storage(first)
                    == final(self).state()->Second_0.builder,
    {
        let attempt = match &mut self.inner {
            Inner::First(first) => first.value.create(value),
            Inner::Second(second) => {
                return match second.value.create(value) {
                    Ok(handle) => Ok(SingleElementHandle::Second(handle)),
                    Err(e) => Err(e),
                };
            },
            Inner::Poisoned => { return Err(value); },
        };
        match attempt {
            Ok(handle) => Ok(SingleElementHandle::First(handle)),
            Err(value) => {
                let mut inner = Inner::Poisoned;
                core::mem::swap(&mut self.inner, &mut inner);
                match inner {
                    Inner::First(element) => {
                        let (first, mut second) = element.transform::<S>();
                        proof {
                            second.lemma_alike_accepts(
                                &element.builder.spec_into_storage(),
                                Metadata::spec_sized::<T>(),
                            );
                        }
                        let result = match second.create(value) {
                            Ok(handle) => Ok(SingleElementHandle::Second(handle)),
                            Err(e) => Err(e),
                        };
                        self.inner = Inner::Second(InnerElement::settle(first, second));
                        result
                    },
                    _ => Err(value),
                }
            },
        }
    }
}

} // verus!
