//! Proof-of-Concept implementation of a Vec parameterized by a Storage.

use vstd::pervasive::unreached;
use vstd::prelude::*;

use crate::traits::{Capacity, Outcome, RangeStorage, SingleRangeStorage, Storage};

verus! {

/// A PoC Vec.
pub struct RawVec<T, S: SingleRangeStorage<T>> {
    len: S::Capacity,
    data: S::Handle,
    storage: S,
}

/// The capacity that a vector of `len` elements asks for when it is full: one slot for
/// an empty vector, twice the length for any other. There is none where that number is
/// beyond `limit`.
pub open spec fn spec_grown_capacity(len: usize, limit: usize) -> Option<usize> {
    if len == 0 {
        if 1 <= limit {
            Some(1usize)
        } else {
            None
        }
    } else if 2 * len <= limit {
        Some((2 * len) as usize)
    } else {
        None
    }
}

impl<T, S: SingleRangeStorage<T>> RawVec<T, S> {
    /// The storage behind the vector.
    pub closed spec fn spec_storage(&self) -> S {
        self.storage
    }

    /// The handle of the range that holds the elements.
    pub closed spec fn handle(&self) -> S::Handle {
        self.data
    }

    /// The number of elements.
    pub closed spec fn spec_len(&self) -> usize {
        self.len.spec_into_usize()
    }

    /// The slots of the range that holds the elements.
    pub open spec fn slots(&self) -> Seq<Option<T>> {
        self.spec_storage().buffer(self.handle())
    }

    /// The invariant: the handle is valid, and the first `len` slots of its range are
    /// initialized.
    pub open spec fn wf(&self) -> bool {
        &&& self.spec_storage().wf()
        &&& self.spec_storage().valid(self.handle())
        &&& self.spec_len() <= self.slots().len()
        &&& forall|i: int| 0 <= i < self.spec_len() ==> (#[trigger] self.slots()[i]) is Some
    }

    /// The elements, in order.
    pub open spec fn view(&self) -> Seq<T> {
        Seq::new(self.spec_len() as nat, |i: int| self.slots()[i].unwrap())
    }

    /// Whether one more element can be pushed: the length still has a successor in the
    /// capacity type, and either a slot is left or the storage can grow the range.
    pub open spec fn can_push(&self) -> bool {
        &&& self.spec_len() < S::Capacity::spec_max()
        &&& (self.spec_len() < self.slots().len() || (spec_grown_capacity(
            self.spec_len(),
            S::Capacity::spec_max(),
        ) matches Some(c) && self.spec_storage().grows(
            self.handle(),
            S::Capacity::spec_from_usize(c).unwrap(),
        )))
    }

    /// Whether a push would ask the storage to grow the range: no slot is left, the
    /// length has a successor in the capacity type, and so has the capacity to ask for.
    pub open spec fn grows_on_push(&self) -> bool {
        &&& self.spec_len() >= self.slots().len()
        &&& self.spec_len() < S::Capacity::spec_max()
        &&& spec_grown_capacity(self.spec_len(), S::Capacity::spec_max()) is Some
    }

    /// What the growth that a push would ask for comes to.
    pub open spec fn growth_on_push(&self) -> Outcome {
        self.spec_storage().growth(
            self.handle(),
            S::Capacity::spec_from_usize(
                spec_grown_capacity(self.spec_len(), S::Capacity::spec_max()).unwrap(),
            ).unwrap(),
        )
    }

    /// Whether `self` keeps the range that `before` kept, in a storage that is like the
    /// one of `before` and whose allocators were asked no more.
    pub open spec fn same_range_as(&self, before: &Self) -> bool {
        &&& self.handle() == before.handle()
        &&& self.slots().len() == before.slots().len()
        &&& self.spec_storage().alike(&before.spec_storage())
        &&& self.spec_storage().allocations() == before.spec_storage().allocations()
        &&& self.spec_storage().deallocations() == before.spec_storage().deallocations()
    }

    /// Creates a new instance, which is empty. It keeps `storage`, of which it has
    /// asked a range of no capacity.
    pub fn new(storage: S) -> (r: Self)
        requires
            storage.wf(),
        ensures
            r.wf(),
            r@ == Seq::<T>::empty(),
            r.spec_storage().alike(&storage),
            r.spec_storage().allocations() == storage.allocations(),
            r.spec_storage().deallocations() == storage.deallocations(),
            r.slots().len() == storage.allocation(
                S::Capacity::spec_from_usize(0).unwrap(),
            ).len,
    {
        let mut storage = storage;
        let zero = Self::into_capacity(0);

        let len = zero;
        let data = match storage.allocate(zero) {
            Ok(handle) => handle,
            Err(_) => unreached(),
        };

        let r = Self { len, data, storage };
        assert(r@ =~= Seq::<T>::empty());
        r
    }

    /// Returns whether `self` is empty, or not.
    pub fn is_empty(&self) -> (r: bool)
        ensures
            r == (self@.len() == 0),
    {
        self.len() == 0
    }

    /// Returns the number of elements in `self`.
    pub fn len(&self) -> (r: usize)
        ensures
            r == self@.len(),
            r == self.spec_len(),
            r <= S::Capacity::spec_max(),
    {
        self.len.into_usize()
    }

    /// Returns the element at `index`, if there is one.
    pub fn get(&self, index: usize) -> (r: Option<&T>)
        requires
            self.wf(),
        ensures
            r.is_some() <==> index < self@.len(),
            r.is_some() ==> *r.unwrap() == self@[index as int],
    {
        if index >= self.len() {
            return None;
        }
        let slice = self.storage.get(self.data);
        slice[index].as_ref()
    }

    /// Replaces the element at `index`, and returns the element that was there.
    pub fn set(&mut self, index: usize, value: T) -> (r: T)
        requires
            old(self).wf(),
            index < old(self)@.len(),
        ensures
            final(self).wf(),
            final(self)@ == old(self)@.update(index as int, value),
            r == old(self)@[index as int],
            final(self).same_range_as(old(self)),
    {
        let ghost before = *self;
        let previous = match self.storage.take(self.data, index) {
            Some(previous) => previous,
            None => unreached(),
        };
        let ghost taken = self.storage;
        self.storage.write(self.data, index, value);
        proof {
            self.storage.lemma_alike_chain(&taken, &before.storage);
        }
        assert(self@ =~= old(self)@.update(index as int, value));
        previous
    }

    /// Returns references to the elements, in order.
    pub fn elements(&self) -> (r: Vec<&T>)
        requires
            self.wf(),
        ensures
            r@.len() == self@.len(),
            forall|i: int| 0 <= i < r@.len() ==> *r@[i] == self@[i],
    {
        let len = self.len();
        let slice = self.storage.get(self.data);
        let mut r: Vec<&T> = Vec::new();
        let mut index: usize = 0;
        while index < len
            invariant
                index <= len,
                len == self@.len(),
                self.wf(),
                slice@ == self.slots(),
                r@.len() == index,
                forall|i: int| 0 <= i < index ==> *r@[i] == self@[i],
            decreases len - index,
        {
            match slice[index].as_ref() {
                Some(element) => {
                    r.push(element);
                },
                None => {},
            }
            index = index + 1;
        }
        r
    }

    /// Clears `self`, destroying all elements and resetting its length to 0.
    pub fn clear(&mut self)
        requires
            old(self).wf(),
        ensures
            final(self).wf(),
            final(self)@ == Seq::<T>::empty(),
            final(self).same_range_as(old(self)),
    {
        proof {
            self.storage.lemma_alike_self();
        }
        while !self.is_empty()
            invariant
                self.wf(),
                self.same_range_as(old(self)),
            decreases self@.len(),
        {
            let ghost before = *self;
            let _ = self.pop();
            proof {
                self.storage.lemma_alike_chain(&before.storage, &old(self).storage);
            }
        }
        assert(self@ =~= Seq::<T>::empty());
    }

    /// Attempts to push a new element at the back.
    ///
    /// The element is handed back if the vector is full and the storage cannot grow
    /// its range, or if the length would go beyond what the capacity type can count.
    /// The vector is then what it was, provided that the storage is steadfast.
    pub fn try_push(&mut self, e: T) -> (r: Result<(), T>)
        requires
            old(self).wf(),
        ensures
            r.is_ok() <==> old(self).can_push(),
            r is Ok ==> final(self).wf() && final(self)@ == old(self)@.push(e),
            r matches Err(v) ==> v == e,
            r is Err && (S::steadfast() || old(self).spec_len() < old(self).slots().len())
                ==> final(self).wf() && final(self)@ == old(self)@,
            !old(self).grows_on_push() ==> final(self).same_range_as(old(self)),
            old(self).grows_on_push() ==> final(self).spec_storage().allocations()
                == old(self).spec_storage().allocations() + old(self).growth_on_push().allocations
                && final(self).spec_storage().deallocations()
                == old(self).spec_storage().deallocations()
                + old(self).growth_on_push().deallocations,
            old(self).grows_on_push() && r is Ok ==> final(self).slots().len()
                == old(self).growth_on_push().len,
    {
        proof {
            self.storage.lemma_alike_self();
        }
        let len = self.len();
        let capacity = self.storage.get(self.data).len();

        if len >= capacity {
            return self.try_push_grow(e);
        }
        let next = match S::Capacity::from_usize(len + 1) {
            Some(next) => next,
            None => {
                return Err(e);
            },
        };
        self.storage.write(self.data, len, e);
        self.len = next;
        assert(self@ =~= old(self)@.push(e));
        Ok(())
    }

    /// Pushes an element at the back.
    pub fn push(&mut self, e: T)
        requires
            old(self).wf(),
            old(self).can_push(),
        ensures
            final(self).wf(),
            final(self)@ == old(self)@.push(e),
            !old(self).grows_on_push() ==> final(self).same_range_as(old(self)),
            old(self).grows_on_push() ==> final(self).spec_storage().allocations()
                == old(self).spec_storage().allocations() + old(self).growth_on_push().allocations
                && final(self).spec_storage().deallocations()
                == old(self).spec_storage().deallocations()
                + old(self).growth_on_push().deallocations,
            old(self).grows_on_push() ==> final(self).slots().len()
                == old(self).growth_on_push().len,
    {
        match self.try_push(e) {
            Ok(_) => {},
            Err(_) => unreached(),
        }
    }

    /// Pops the back element, if any.
    pub fn pop(&mut self) -> (r: Option<T>)
        requires
            old(self).wf(),
        ensures
            final(self).wf(),
            final(self).same_range_as(old(self)),
            old(self)@.len() == 0 ==> r is None && final(self)@ == old(self)@,
            old(self)@.len() > 0 ==> r == Some(old(self)@.last()) && final(self)@
                == old(self)@.drop_last(),
    {
        proof {
            self.storage.lemma_alike_self();
        }
        if self.is_empty() {
            assert(self@ =~= old(self)@);
            return None;
        }
        let len = self.len();
        let result = self.storage.take(self.data, len - 1);
        self.len = Self::into_capacity(len - 1);
        assert(self@ =~= old(self)@.drop_last());
        result
    }

    /// Destroys all elements, deallocates the range, and gives up the vector for its
    /// storage, in which the handle of a range with slots is no longer valid.
    pub fn into_storage(self) -> (r: S)
        requires
            self.wf(),
        ensures
            r.wf(),
            self.slots().len() > 0 ==> !r.valid(self.handle()),
            r.allocations() == self.spec_storage().allocations(),
            r.deallocations() == self.spec_storage().deallocations() + S::release_calls(
                self.handle(),
            ),
    {
        let mut this = self;
        this.clear();
        let Self { len, data, storage } = this;
        let mut storage = storage;
        storage.deallocate(data);
        storage
    }

    /// The storage behind the vector.
    pub fn storage(&self) -> (r: &S)
        ensures
            *r == self.spec_storage(),
    {
        &self.storage
    }

    fn into_capacity(n: usize) -> (r: S::Capacity)
        requires
            n <= S::Capacity::spec_max(),
        ensures
            r.spec_into_usize() == n,
            Some(r) == S::Capacity::spec_from_usize(n),
    {
        match S::Capacity::from_usize(n) {
            Some(capacity) => capacity,
            None => unreached(),
        }
    }

    fn try_push_grow(&mut self, e: T) -> (r: Result<(), T>)
        requires
            old(self).wf(),
            old(self).spec_len() == old(self).slots().len(),
        ensures
            r.is_ok() <==> old(self).can_push(),
            r is Ok ==> final(self).wf() && final(self)@ == old(self)@.push(e),
            r matches Err(v) ==> v == e,
            r is Err && S::steadfast() ==> final(self).wf() && final(self)@ == old(self)@,
            !old(self).grows_on_push() ==> final(self).same_range_as(old(self)),
            old(self).grows_on_push() ==> final(self).spec_storage().allocations()
                == old(self).spec_storage().allocations() + old(self).growth_on_push().allocations
                && final(self).spec_storage().deallocations()
                == old(self).spec_storage().deallocations()
                + old(self).growth_on_push().deallocations,
            old(self).grows_on_push() && r is Ok ==> final(self).slots().len()
                == old(self).growth_on_push().len,
    {
        proof {
            self.storage.lemma_alike_self();
        }
        let len = self.len.into_usize();
        let doubled = if len == 0 {
            1
        } else if len <= usize::MAX / 2 {
            len * 2
        } else {
            return Err(e);
        };
        let new_cap = match S::Capacity::from_usize(doubled) {
            Some(capacity) => capacity,
            None => {
                return Err(e);
            },
        };
        let next = match S::Capacity::from_usize(len + 1) {
            Some(next) => next,
            None => {
                return Err(e);
            },
        };

        self.data = match self.storage.try_grow(self.data, new_cap) {
            Ok(handle) => handle,
            Err(_) => {
                assert(S::steadfast() ==> self@ =~= old(self)@);
                return Err(e);
            },
        };
        assert(self.slots().subrange(0, len as int) == old(self).slots());
        assert forall|i: int| 0 <= i < len implies #[trigger] self.slots()[i]
            == old(self).slots()[i] by {
            assert(self.slots().subrange(0, len as int)[i] == self.slots()[i]);
        }
        self.storage.write(self.data, len, e);
        self.len = next;
        assert(self@ =~= old(self)@.push(e));
        Ok(())
    }
}

} // verus!
