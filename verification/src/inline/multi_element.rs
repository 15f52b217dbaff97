//! Inline implementation of MultiElementStorage.

use core::marker::PhantomData;
use vstd::prelude::*;

use crate::alternative::builder::{Builder, DefaultBuilder};
use crate::traits::{ElementStorage, MultiElementStorage, Storage};
use crate::utils::{
    layout_of, spec_validate_layout, validate_layout_for, AllocError, Layout, Metadata,
};

verus! {

/// The link of the last free slot: no slot has this index.
pub const INVALID_NEXT: usize = usize::MAX;

/// A slot is either free, and then a link of the list of free slots, or occupied.
pub enum Slot<T> {
    /// The slot is free.
    Free {
        /// The index of the next free slot, or `INVALID_NEXT` after the last.
        next: usize,
    },
    /// The slot is allocated.
    Occupied {
        /// The layout that the slot was allocated for.
        layout: Layout,
        /// What the slot holds; `None` while it is not initialized.
        value: Option<T>,
    },
}

/// Generic inline MultiElementStorage.
///
/// `S` is the underlying storage, used to specify the size and alignment: the storage
/// is `N` values of `S`, in each of which it keeps an element of `T`.
pub struct MultiElement<S, T, const N: usize> {
    next: usize,
    data: Vec<Slot<T>>,
    free: Ghost<Seq<usize>>,
    _marker: PhantomData<S>,
}

/// The Handle for MultiElements.
#[derive(Clone, Copy, Debug)]
pub struct MultiElementHandle {
    /// The index of the slot.
    pub index: usize,
    /// The metadata of the pointee.
    pub meta: Metadata,
}

/// The link that follows position `i` in the list of free slots `free`.
pub open spec fn link_after(free: Seq<usize>, i: int) -> usize {
    if i + 1 < free.len() {
        free[i + 1]
    } else {
        INVALID_NEXT
    }
}

/// The list of free slots of a new storage of `n` slots: all of them, in order.
pub open spec fn all_free(n: usize) -> Seq<usize> {
    Seq::new(n as nat, |i: int| i as usize)
}

/// The slot that an allocation takes from the list `free`: its head, if it has one.
pub open spec fn spec_pop(free: Seq<usize>) -> Option<usize> {
    if free.len() > 0 {
        Some(free[0])
    } else {
        None
    }
}

/// The list of free slots after an allocation: the list without its head.
pub open spec fn spec_after_pop(free: Seq<usize>) -> Seq<usize> {
    if free.len() > 0 {
        free.subrange(1, free.len() as int)
    } else {
        free
    }
}

/// The list of free slots after slot `index` was deallocated: the slot is its new head.
pub open spec fn spec_after_push(free: Seq<usize>, index: usize) -> Seq<usize> {
    seq![index] + free
}

/// The list of free slots after `count` allocations in a row.
pub open spec fn spec_after_pops(free: Seq<usize>, count: nat) -> Seq<usize>
    decreases count,
{
    if count == 0 {
        free
    } else {
        spec_after_pops(spec_after_pop(free), (count - 1) as nat)
    }
}

/// A list of `n` free slots serves exactly `n` allocations in a row: each of the first
/// `n` finds a free slot, and the one after them finds none.
pub proof fn lemma_fill(free: Seq<usize>, count: nat)
    requires
        count <= free.len(),
    ensures
        spec_after_pops(free, count).len() == free.len() - count,
        count < free.len() ==> spec_pop(spec_after_pops(free, count)) is Some,
        count == free.len() ==> spec_pop(spec_after_pops(free, count)) is None,
    decreases count,
{
    if count > 0 {
        lemma_fill(spec_after_pop(free), (count - 1) as nat);
    }
}

/// The slot deallocated last is the slot allocated next, and taking it again leaves the
/// list of free slots as it was before the slot was deallocated.
pub proof fn lemma_reuse(free: Seq<usize>, index: usize)
    ensures
        spec_pop(spec_after_push(free, index)) == Some(index),
        spec_after_pop(spec_after_push(free, index)) == free,
{
    assert(spec_after_pop(spec_after_push(free, index)) =~= free);
}

impl<S, T, const N: usize> MultiElement<S, T, N> {
    /// The slots of the storage.
    pub closed spec fn slots(&self) -> Seq<Slot<T>> {
        self.data@
    }

    /// The free slots, in the order in which allocations will take them.
    pub closed spec fn free_list(&self) -> Seq<usize> {
        self.free@
    }

    /// The index of the first free slot, or `INVALID_NEXT` if there is none.
    pub closed spec fn head(&self) -> usize {
        self.next
    }

    /// The invariant: the free slots are linked into a list without repetition, which
    /// starts at the head and holds every free slot.
    pub open spec fn linked(&self) -> bool {
        let free = self.free_list();
        &&& self.slots().len() == N
        &&& free.no_duplicates()
        &&& self.head() == link_after(free, -1)
        &&& forall|i: int|
            0 <= i < free.len() ==> free[i] < N && #[trigger] self.slots()[free[i] as int] == (
            Slot::<T>::Free { next: link_after(free, i) })
        &&& forall|j: int|
            0 <= j < N && #[trigger] self.slots()[j] is Free ==> free.contains(j as usize)
    }

    /// Creates an instance, all of whose slots are free.
    pub fn new() -> (r: Self)
        ensures
            r.linked(),
            r.free_list() == all_free(N),
    {
        let mut data: Vec<Slot<T>> = Vec::new();
        while data.len() < N
            invariant
                data.len() <= N,
                forall|i: int|
                    0 <= i < data.len() ==> #[trigger] data@[i] == (Slot::<T>::Free {
                        next: if i + 1 < N {
                            (i + 1) as usize
                        } else {
                            INVALID_NEXT
                        },
                    }),
            decreases N - data.len(),
        {
            let index = data.len();
            let next = if index + 1 < N {
                index + 1
            } else {
                INVALID_NEXT
            };
            data.push(Slot::Free { next });
        }
        let next = if N == 0 {
            INVALID_NEXT
        } else {
            0
        };
        let r = Self { next, data, free: Ghost(all_free(N)), _marker: PhantomData };
        proof {
            let free = r.free_list();
            assert forall|j: int| 0 <= j < N
                && #[trigger] r.slots()[j] is Free implies free.contains(
                j as usize,
            ) by {
                assert(free[j] == j as usize);
            }
        }
        r
    }
}

impl<S, T, const N: usize> MultiElement<S, T, N> {
    /// The indices of the free slots, in the order in which allocations will take them.
    pub fn free_slots(&self) -> (r: Vec<usize>)
        requires
            self.linked(),
        ensures
            r@ == self.free_list(),
    {
        let mut r: Vec<usize> = Vec::new();
        let mut next = self.next;
        while next != INVALID_NEXT
            invariant
                self.linked(),
                r@.len() <= self.free_list().len(),
                r@ == self.free_list().subrange(0, r@.len() as int),
                next == link_after(self.free_list(), r@.len() - 1),
            decreases self.free_list().len() - r@.len(),
        {
            let ghost position = r@.len() as int;
            assert(self.slots()[self.free_list()[position] as int] == (Slot::<T>::Free {
                next: link_after(self.free_list(), position),
            }));
            r.push(next);
            next = match &self.data[next] {
                Slot::Free { next } => *next,
                Slot::Occupied { layout, value } => INVALID_NEXT,
            };
            assert(r@ =~= self.free_list().subrange(0, r@.len() as int));
        }
        proof {
            if r@.len() < self.free_list().len() {
                assert(self.slots()[self.free_list()[r@.len() as int] as int] is Free);
            }
            assert(r@ =~= self.free_list());
        }
        r
    }

    /// The number of slots.
    pub fn capacity(&self) -> (r: usize)
        ensures
            r == N,
    {
        N
    }
}

impl<S, T, const N: usize> Default for MultiElement<S, T, N> {
    fn default() -> (r: Self)
        ensures
            r.linked(),
            r.free_list() == all_free(N),
    {
        Self::new()
    }
}

impl<S, T, const N: usize> Storage for MultiElement<S, T, N> {
    open spec fn wf(&self) -> bool {
        self.linked()
    }

    open spec fn alike(&self, other: &Self) -> bool {
        (self.free_list().len() > 0) == (other.free_list().len() > 0)
    }

    open spec fn steadfast() -> bool {
        true
    }

    open spec fn allocations(&self) -> nat {
        0
    }

    open spec fn deallocations(&self) -> nat {
        0
    }

    proof fn lemma_alike_self(&self) {
    }

    proof fn lemma_alike_chain(&self, second: &Self, third: &Self) {
    }
}

impl<S, T, const N: usize> ElementStorage<T> for MultiElement<S, T, N> {
    type Handle = MultiElementHandle;

    open spec fn valid(&self, handle: Self::Handle) -> bool {
        &&& handle.index < self.slots().len()
        &&& self.slots()[handle.index as int] matches Slot::Occupied { layout, value }
        &&& Some(layout) == handle.meta.spec_layout()
    }

    open spec fn value(&self, handle: Self::Handle) -> Option<T> {
        match self.slots()[handle.index as int] {
            Slot::Occupied { layout, value } => value,
            Slot::Free { next } => None,
        }
    }

    open spec fn metadata(handle: Self::Handle) -> Metadata {
        handle.meta
    }

    open spec fn same_slot(a: Self::Handle, b: Self::Handle) -> bool {
        a.index == b.index
    }

    open spec fn accepts(&self, meta: Metadata) -> bool {
        spec_validate_layout::<S>(meta) && spec_pop(self.free_list()) is Some
    }

    open spec fn allocation_calls(&self, meta: Metadata) -> nat {
        0
    }

    open spec fn release_calls(handle: Self::Handle) -> nat {
        0
    }

    proof fn lemma_alike_accepts(&self, other: &Self, meta: Metadata) {
    }

    /// Pushes the slot back onto the list of free slots, as its new head.
    fn deallocate(&mut self, handle: Self::Handle)
        ensures
            final(self).free_list() == spec_after_push(old(self).free_list(), handle.index),
    {
        let ghost free = self.free@;
        let ghost pushed = spec_after_push(free, handle.index);
        proof {
            if free.contains(handle.index) {
                let i = choose|i: int| 0 <= i < free.len() && free[i] == handle.index;
                assert(self.slots()[free[i] as int] is Free);
            }
        }
        self.data[handle.index] = Slot::Free { next: self.next };
        self.next = handle.index;
        proof {
            self.free@ = pushed;
            assert forall|i: int| 0 <= i < pushed.len() implies pushed[i] < N
                && #[trigger] self.slots()[pushed[i] as int] == (Slot::<T>::Free {
                next: link_after(pushed, i),
            }) by {
                if i > 0 {
                    assert(pushed[i] == free[i - 1]);
                    assert(old(self).slots()[free[i - 1] as int] == (Slot::<T>::Free {
                        next: link_after(free, i - 1),
                    }));
                    assert(link_after(pushed, i) == link_after(free, i - 1));
                }
            }
            assert forall|j: int| 0 <= j < N
                && #[trigger] self.slots()[j] is Free implies pushed.contains(
                j as usize,
            ) by {
                if j == handle.index {
                    assert(pushed[0] == j as usize);
                } else {
                    assert(old(self).slots()[j] is Free);
                    let i = choose|i: int| 0 <= i < free.len() && free[i] == j as usize;
                    assert(pushed[i + 1] == j as usize);
                }
            }
            assert(pushed.no_duplicates()) by {
                assert forall|a: int, b: int|
                    0 <= a < pushed.len() && 0 <= b < pushed.len() && a != b implies pushed[a]
                    != pushed[b] by {
                    if a > 0 && b > 0 {
                        assert(free[a - 1] != free[b - 1]);
                    } else if a == 0 {
                        assert(free[b - 1] == pushed[b]);
                    } else {
                        assert(free[a - 1] == pushed[a]);
                    }
                }
            }
        }
    }

    fn get(&self, handle: Self::Handle) -> (r: Option<&T>) {
        match &self.data[handle.index] {
            Slot::Occupied { layout, value } => value.as_ref(),
            Slot::Free { next } => None,
        }
    }

    fn write(&mut self, handle: Self::Handle, value: T)
        ensures
            final(self).free_list() == old(self).free_list(),
    {
        let ghost free = self.free@;
        proof {
            if free.contains(handle.index) {
                let i = choose|i: int| 0 <= i < free.len() && free[i] == handle.index;
                assert(self.slots()[free[i] as int] is Free);
            }
        }
        let layout = match &self.data[handle.index] {
            Slot::Occupied { layout, value } => *layout,
            Slot::Free { next } => Layout { size: 0, align: 1 },
        };
        self.data[handle.index] = Slot::Occupied { layout, value: Some(value) };
        proof {
            assert forall|i: int| 0 <= i < free.len() implies free[i] < N
                && #[trigger] self.slots()[free[i] as int] == (Slot::<T>::Free {
                next: link_after(free, i),
            }) by {
                assert(old(self).slots()[free[i] as int] == (Slot::<T>::Free {
                    next: link_after(free, i),
                }));
            }
            assert forall|j: int| 0 <= j < N
                && #[trigger] self.slots()[j] is Free implies free.contains(
                j as usize,
            ) by {
                assert(old(self).slots()[j] is Free);
            }
        }
    }

    fn take(&mut self, handle: Self::Handle) -> (r: Option<T>)
        ensures
            final(self).free_list() == old(self).free_list(),
    {
        let ghost free = self.free@;
        proof {
            if free.contains(handle.index) {
                let i = choose|i: int| 0 <= i < free.len() && free[i] == handle.index;
                assert(self.slots()[free[i] as int] is Free);
            }
        }
        let mut slot = Slot::Free { next: INVALID_NEXT };
        core::mem::swap(&mut self.data[handle.index], &mut slot);
        let (layout, r) = match slot {
            Slot::Occupied { layout, value } => (layout, value),
            Slot::Free { next } => (Layout { size: 0, align: 1 }, None),
        };
        self.data[handle.index] = Slot::Occupied { layout, value: None };
        proof {
            assert forall|i: int| 0 <= i < free.len() implies free[i] < N
                && #[trigger] self.slots()[free[i] as int] == (Slot::<T>::Free {
                next: link_after(free, i),
            }) by {
                assert(old(self).slots()[free[i] as int] == (Slot::<T>::Free {
                    next: link_after(free, i),
                }));
            }
            assert forall|j: int| 0 <= j < N
                && #[trigger] self.slots()[j] is Free implies free.contains(
                j as usize,
            ) by {
                assert(old(self).slots()[j] is Free);
            }
        }
        r
    }

    /// Drops the element, if there is one, and pushes the slot back onto the list of
    /// free slots, as its new head.
    fn destroy(&mut self, handle: Self::Handle)
        ensures
            final(self).free_list() == spec_after_push(old(self).free_list(), handle.index),
    {
        let _ = self.take(handle);
        self.deallocate(handle);
    }

    fn coerce(&self, handle: Self::Handle, target: Metadata) -> (r: Self::Handle)
        ensures
            r == (MultiElementHandle { index: handle.index, meta: target }),
    {
        MultiElementHandle { index: handle.index, meta: target }
    }
}

impl<S, T, const N: usize> MultiElementStorage<T> for MultiElement<S, T, N> {
    /// Succeeds exactly when the pointee fits a value of `S`, in size and in alignment,
    /// and a slot is free. It then pops the head of the list of free slots. A request
    /// that fails leaves the storage as it was.
    fn allocate(&mut self, meta: Metadata) -> (r: Result<Self::Handle, AllocError>)
        ensures
            r is Err ==> *final(self) == *old(self),
            r matches Ok(h) ==> Some(h.index) == spec_pop(old(self).free_list()) && h.meta
                == meta && final(self).free_list() == spec_after_pop(old(self).free_list()),
    {
        let layout = layout_of(meta)?;
        validate_layout_for::<S>(layout)?;

        let ghost free = self.free@;
        proof {
            if free.len() > 0 {
                assert(self.slots()[free[0] as int] is Free);
            }
        }
        if self.next == INVALID_NEXT {
            return Err(AllocError);
        }
        let ghost popped = spec_after_pop(free);
        let index = self.next;
        assert(index == free[0]);
        assert(self.slots()[free[0] as int] == (Slot::<T>::Free { next: link_after(free, 0) }));

        //  Pop slot from linked list.
        let next = match &self.data[index] {
            Slot::Free { next } => *next,
            Slot::Occupied { layout, value } => INVALID_NEXT,
        };
        self.data[index] = Slot::Occupied { layout, value: None };
        self.next = next;
        proof {
            self.free@ = popped;
            assert forall|i: int| 0 <= i < popped.len() implies popped[i] < N
                && #[trigger] self.slots()[popped[i] as int] == (Slot::<T>::Free {
                next: link_after(popped, i),
            }) by {
                assert(popped[i] == free[i + 1]);
                assert(free[i + 1] != free[0]);
                assert(old(self).slots()[free[i + 1] as int] == (Slot::<T>::Free {
                    next: link_after(free, i + 1),
                }));
                assert(link_after(popped, i) == link_after(free, i + 1));
            }
            assert forall|j: int| 0 <= j < N
                && #[trigger] self.slots()[j] is Free implies popped.contains(
                j as usize,
            ) by {
                assert(old(self).slots()[j] is Free);
                let i = choose|i: int| 0 <= i < free.len() && free[i] == j as usize;
                assert(i != 0);
                assert(popped[i - 1] == j as usize);
            }
            assert(popped.no_duplicates()) by {
                assert forall|a: int, b: int|
                    0 <= a < popped.len() && 0 <= b < popped.len() && a != b implies popped[a]
                    != popped[b] by {
                    assert(free[a + 1] != free[b + 1]);
                }
            }
            assert forall|h: Self::Handle| old(self).valid(h) implies #[trigger] self.valid(h)
                && self.value(h) == old(self).value(h) by {
                assert(h.index != index);
            }
        }
        Ok(MultiElementHandle { index, meta })
    }

    /// Succeeds exactly when a value of `T` fits a value of `S`, in size and in
    /// alignment, and a slot is free. A value that is refused is handed back, and the
    /// storage is left as it was.
    fn create(&mut self, value: T) -> (r: Result<Self::Handle, T>)
        ensures
            r is Err ==> *final(self) == *old(self),
            r matches Ok(h) ==> Some(h.index) == spec_pop(old(self).free_list()) && h.meta
                == Metadata::spec_sized::<T>() && final(self).free_list() == spec_after_pop(
                old(self).free_list(),
            ),
    {
        let meta = Metadata::sized::<T>();
        match self.allocate(meta) {
            Ok(handle) => {
                let ghost allocated = *self;
                self.write(handle, value);
                proof {
                    assert forall|h: Self::Handle| old(self).valid(h) implies #[trigger] self.valid(
                        h,
                    ) && self.value(h) == old(self).value(h) by {
                        assert(allocated.valid(h));
                        assert(self.valid(h) == allocated.valid(h));
                        assert(!Self::same_slot(h, handle));
                    }
                }
                Ok(handle)
            },
            Err(_) => Err(value),
        }
    }
}

impl<S, T, const N: usize> Builder<MultiElement<S, T, N>> for DefaultBuilder {
    open spec fn wf(&self) -> bool {
        true
    }

    open spec fn spec_into_storage(self) -> MultiElement<S, T, N> {
        choose|storage: MultiElement<S, T, N>| storage.free_list() == all_free(N)
    }

    open spec fn spec_from_storage(storage: MultiElement<S, T, N>) -> Self {
        DefaultBuilder
    }

    open spec fn allocations(&self) -> nat {
        0
    }

    open spec fn deallocations(&self) -> nat {
        0
    }

    fn from_storage(storage: MultiElement<S, T, N>) -> (r: Self) {
        DefaultBuilder
    }

    /// The storage is new: all of its slots are free.
    fn into_storage(self) -> (r: MultiElement<S, T, N>)
        ensures
            MultiElement::<S, T, N>::free_list(&r) == all_free(N),
    {
        let r = MultiElement::new();
        assert(r.free_list() == all_free(N));
        r
    }
}

} // verus!
