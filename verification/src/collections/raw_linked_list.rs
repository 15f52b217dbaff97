//! Proof-of-Concept implementation of a LinkedList parameterized by a Storage.

use core::marker::PhantomData;
use vstd::pervasive::unreached;
use vstd::prelude::*;

use crate::traits::{ElementStorage, MultiElementStorage, Storage};
use crate::utils::{Layout, Metadata};

verus! {

/// A node of the list: an element, and the handle of the node that follows.
pub struct RawLinkedListNode<T, H> {
    /// The handle of the next node, if there is one.
    pub next: Option<H>,
    /// The element.
    pub element: T,
}

/// A PoC LinkedList storage helper.
///
/// Reserves enough space for storing a list node containing `T`, for a handle of size
/// similar to `H`.
pub struct RawLinkedListNodeStorage<T, H>(pub Option<H>, pub Option<T>);

/// A PoC LinkedList.
#[verifier::reject_recursive_types(H)]
pub struct RawLinkedList<T, H: Copy, S: MultiElementStorage<RawLinkedListNode<T, H>, Handle = H>> {
    next: Option<H>,
    storage: S,
    chain: Ghost<Seq<H>>,
    _marker: PhantomData<T>,
}

impl<T, H: Copy, S: MultiElementStorage<RawLinkedListNode<T, H>, Handle = H>> RawLinkedList<
    T,
    H,
    S,
> {
    /// The storage behind the list.
    pub closed spec fn spec_storage(&self) -> S {
        self.storage
    }

    /// The handle of the first node, if there is one.
    pub closed spec fn head(&self) -> Option<H> {
        self.next
    }

    /// The handles of the nodes, from the first to the last.
    pub closed spec fn handles(&self) -> Seq<H> {
        self.chain@
    }

    /// The handle that follows position `i` in the list of handles.
    pub open spec fn link_after(&self, i: int) -> Option<H> {
        if i + 1 < self.handles().len() {
            Some(self.handles()[i + 1])
        } else {
            None
        }
    }

    /// How many calls of `deallocate` the deallocation of the slots named by `handles`
    /// makes.
    pub open spec fn release_calls(handles: Seq<H>) -> nat
        decreases handles.len(),
    {
        if handles.len() == 0 {
            0
        } else {
            S::release_calls(handles[0]) + Self::release_calls(
                handles.subrange(1, handles.len() as int),
            )
        }
    }

    /// The invariant: the handles are valid and name different slots, and each node
    /// holds the handle of the node that follows it.
    pub open spec fn wf(&self) -> bool {
        &&& self.spec_storage().wf()
        &&& self.head() == self.link_after(-1)
        &&& forall|i: int|
            0 <= i < self.handles().len() ==> {
                &&& #[trigger] self.spec_storage().valid(self.handles()[i])
                &&& S::metadata(self.handles()[i]).spec_layout() == Some(
                    Layout::spec_new::<RawLinkedListNode<T, H>>(),
                )
                &&& self.spec_storage().value(self.handles()[i]) matches Some(node)
                &&& node.next == self.link_after(i)
            }
        &&& forall|i: int, j: int|
            0 <= i < j < self.handles().len() ==> !#[trigger] S::same_slot(
                self.handles()[j],
                self.handles()[i],
            )
    }

    /// The elements, from the front to the back.
    pub open spec fn view(&self) -> Seq<T> {
        Seq::new(
            self.handles().len(),
            |i: int| self.spec_storage().value(self.handles()[i]).unwrap().element,
        )
    }

    /// Creates a new instance from `storage`, which is empty.
    pub fn new(storage: S) -> (r: Self)
        requires
            storage.wf(),
        ensures
            r.wf(),
            r@ == Seq::<T>::empty(),
            r.spec_storage() == storage,
    {
        let r = Self { next: None, storage, chain: Ghost(Seq::empty()), _marker: PhantomData };
        assert(r@ =~= Seq::<T>::empty());
        r
    }

    /// Returns whether the list is empty.
    pub fn is_empty(&self) -> (r: bool)
        requires
            self.wf(),
        ensures
            r == (self@.len() == 0),
    {
        self.next.is_none()
    }

    /// Clears all the elements from the list, leading to an empty list.
    pub fn clear(&mut self)
        requires
            old(self).wf(),
        ensures
            final(self).wf(),
            final(self)@ == Seq::<T>::empty(),
            forall|i: int|
                0 <= i < old(self).handles().len() ==> !#[trigger] final(self).spec_storage().valid(
                    old(self).handles()[i],
                ),
            forall|h: H| #[trigger]
                final(self).spec_storage().valid(h) ==> old(self).spec_storage().valid(h),
            final(self).spec_storage().allocations() == old(self).spec_storage().allocations(),
            final(self).spec_storage().deallocations() == old(self).spec_storage().deallocations()
                + Self::release_calls(old(self).handles()),
    {
        let ghost mut released: int = 0;
        while !self.is_empty()
            invariant
                self.wf(),
                self.spec_storage().allocations() == old(self).spec_storage().allocations(),
                self.spec_storage().deallocations() + Self::release_calls(self.handles())
                    == old(self).spec_storage().deallocations()
                    + Self::release_calls(old(self).handles()),
                0 <= released <= old(self).handles().len(),
                self.handles() == old(self).handles().subrange(
                    released,
                    old(self).handles().len() as int,
                ),
                forall|i: int|
                    0 <= i < released ==> !#[trigger] self.spec_storage().valid(
                        old(self).handles()[i],
                    ),
                forall|h: H| #[trigger]
                    self.spec_storage().valid(h) ==> old(self).spec_storage().valid(h),
            decreases self@.len(),
        {
            let ghost before = *self;
            let _ = self.pop();
            proof {
                assert(before.handles()[0] == old(self).handles()[released]);
                assert(self.handles() =~= old(self).handles().subrange(
                    released + 1,
                    old(self).handles().len() as int,
                ));
                assert forall|i: int| 0 <= i < released
                    + 1 implies !#[trigger] self.spec_storage().valid(
                    old(self).handles()[i],
                ) by {
                    if i < released {
                        assert(!before.spec_storage().valid(old(self).handles()[i]));
                    }
                }
                released = released + 1;
            }
        }
        assert(self@ =~= Seq::<T>::empty());
    }

    /// Returns a reference to the front element of the list, if any.
    pub fn front(&self) -> (r: Option<&T>)
        requires
            self.wf(),
        ensures
            r.is_some() <==> self@.len() > 0,
            r.is_some() ==> *r.unwrap() == self@[0],
    {
        match self.next {
            Some(handle) => {
                assert(self.spec_storage().valid(self.handles()[0]));
                match self.storage.get(handle) {
                    Some(node) => Some(&node.element),
                    None => unreached(),
                }
            },
            None => None,
        }
    }

    /// Replaces the front element of the list, if any, and returns the element that
    /// was there; an empty list is left empty, and `value` is dropped.
    pub fn replace_front(&mut self, value: T) -> (r: Option<T>)
        requires
            old(self).wf(),
        ensures
            final(self).wf(),
            old(self)@.len() == 0 ==> r is None && final(self)@ == old(self)@,
            old(self)@.len() > 0 ==> r == Some(old(self)@[0]) && final(self)@
                == old(self)@.update(0, value),
    {
        match self.next {
            Some(handle) => {
                assert(self.spec_storage().valid(self.handles()[0]));
                let node = match self.storage.take(handle) {
                    Some(node) => node,
                    None => unreached(),
                };
                let ghost taken = self.storage;
                self.storage.write(handle, RawLinkedListNode { next: node.next, element: value });
                proof {
                    assert forall|i: int| 0 <= i < self.handles().len() implies {
                        &&& #[trigger] self.spec_storage().valid(self.handles()[i])
                        &&& S::metadata(self.handles()[i]).spec_layout() == Some(
                            Layout::spec_new::<RawLinkedListNode<T, H>>(),
                        )
                        &&& self.spec_storage().value(self.handles()[i]) matches Some(n)
                        &&& n.next == self.link_after(i)
                    } by {
                        let h = self.handles()[i];
                        assert(old(self).spec_storage().valid(h));
                        assert(taken.valid(h));
                        if i > 0 {
                            assert(!S::same_slot(h, self.handles()[0]));
                            assert(taken.value(h) == old(self).spec_storage().value(h));
                        }
                    }
                    assert forall|i: int| 0 < i < self.handles().len() implies self@[i]
                        == old(self)@[i] by {
                        let h = self.handles()[i];
                        assert(old(self).spec_storage().valid(h));
                        assert(taken.valid(h));
                        assert(!S::same_slot(h, self.handles()[0]));
                    }
                    assert(self@ =~= old(self)@.update(0, value));
                }
                Some(node.element)
            },
            None => {
                assert(self@ =~= old(self)@);
                None
            },
        }
    }

    /// Pushes a new element to the front of the list.
    ///
    /// Where the storage does not accept the node, the element is handed back, and the
    /// list is what it was.
    pub fn push(&mut self, value: T) -> (r: Result<(), T>)
        requires
            old(self).wf(),
        ensures
            final(self).wf(),
            r.is_ok() <==> old(self).spec_storage().accepts(
                Metadata::spec_sized::<RawLinkedListNode<T, H>>(),
            ),
            r is Ok ==> final(self)@ == seq![value] + old(self)@,
            r matches Err(v) ==> v == value && final(self)@ == old(self)@,
            final(self).spec_storage().allocations() == old(self).spec_storage().allocations()
                + old(self).spec_storage().allocation_calls(
                Metadata::spec_sized::<RawLinkedListNode<T, H>>(),
            ),
            final(self).spec_storage().deallocations() == old(self).spec_storage().deallocations(),
    {
        let node = RawLinkedListNode { next: self.next, element: value };
        let _ = Metadata::sized::<RawLinkedListNode<T, H>>();
        match self.storage.create(node) {
            Ok(handle) => {
                let ghost chain = seq![handle] + self.chain@;
                self.next = Some(handle);
                proof {
                    self.chain@ = chain;
                    assert forall|i: int| 0 <= i < chain.len() implies {
                        &&& #[trigger] self.spec_storage().valid(chain[i])
                        &&& S::metadata(chain[i]).spec_layout() == Some(
                            Layout::spec_new::<RawLinkedListNode<T, H>>(),
                        )
                        &&& self.spec_storage().value(chain[i]) matches Some(n)
                        &&& n.next == self.link_after(i)
                    } by {
                        if i > 0 {
                            assert(chain[i] == old(self).handles()[i - 1]);
                            assert(old(self).spec_storage().valid(old(self).handles()[i - 1]));
                            assert(self.link_after(i) == old(self).link_after(i - 1));
                        }
                    }
                    assert forall|i: int, j: int| 0 <= i < j < chain.len(
                        ) implies !#[trigger] S::same_slot(
                        chain[j],
                        chain[i],
                    ) by {
                        assert(chain[j] == old(self).handles()[j - 1]);
                        assert(old(self).spec_storage().valid(old(self).handles()[j - 1]));
                        if i > 0 {
                            assert(chain[i] == old(self).handles()[i - 1]);
                            assert(!S::same_slot(
                                old(self).handles()[j - 1],
                                old(self).handles()[i - 1],
                            ));
                        }
                    }
                    assert forall|i: int| 0 < i < chain.len() implies self@[i] == old(self)@[i
                        - 1] by {
                        assert(chain[i] == old(self).handles()[i - 1]);
                        assert(old(self).spec_storage().valid(old(self).handles()[i - 1]));
                        assert(self.spec_storage().valid(chain[i]));
                    }
                    assert(self@ =~= seq![value] + old(self)@);
                }
                Ok(())
            },
            Err(node) => {
                proof {
                    assert forall|i: int| 0 <= i < self.handles().len() implies {
                        &&& #[trigger] self.spec_storage().valid(self.handles()[i])
                        &&& S::metadata(self.handles()[i]).spec_layout() == Some(
                            Layout::spec_new::<RawLinkedListNode<T, H>>(),
                        )
                        &&& self.spec_storage().value(self.handles()[i]) matches Some(n)
                        &&& n.next == self.link_after(i)
                    } by {
                        assert(old(self).spec_storage().valid(old(self).handles()[i]));
                    }
                    assert forall|i: int| 0 <= i < self.handles().len() implies self@[i]
                        == old(self)@[i] by {
                        assert(old(self).spec_storage().valid(old(self).handles()[i]));
                        assert(self.spec_storage().valid(self.handles()[i]));
                    }
                    assert(self@ =~= old(self)@);
                }
                Err(node.element)
            },
        }
    }

    /// Pops the front element of the list, if any, and returns it if it succeeded.
    pub fn pop(&mut self) -> (r: Option<T>)
        requires
            old(self).wf(),
        ensures
            final(self).wf(),
            old(self)@.len() == 0 ==> r is None && final(self)@ == old(self)@,
            old(self)@.len() > 0 ==> r == Some(old(self)@[0]) && final(self)@
                == old(self)@.subrange(1, old(self)@.len() as int),
            old(self)@.len() > 0 ==> final(self).handles() == old(self).handles().subrange(
                1,
                old(self).handles().len() as int,
            ) && !final(self).spec_storage().valid(old(self).handles()[0]),
            old(self)@.len() == 0 ==> final(self).handles() == old(self).handles(),
            forall|h: H| #[trigger]
                final(self).spec_storage().valid(h) ==> old(self).spec_storage().valid(h),
            final(self).spec_storage().allocations() == old(self).spec_storage().allocations(),
            final(self).spec_storage().deallocations() == old(self).spec_storage().deallocations()
                + if old(self)@.len() > 0 {
                S::release_calls(old(self).handles()[0])
            } else {
                0
            },
    {
        match self.next {
            Some(handle) => {
                assert(self.spec_storage().valid(self.handles()[0]));
                let node = match self.storage.take(handle) {
                    Some(node) => node,
                    None => unreached(),
                };
                let ghost taken = self.storage;
                self.storage.deallocate(handle);
                self.next = node.next;
                let ghost chain = self.chain@.subrange(1, self.chain@.len() as int);
                proof {
                    self.chain@ = chain;
                    assert forall|i: int| 0 <= i < chain.len() implies {
                        &&& #[trigger] self.spec_storage().valid(chain[i])
                        &&& S::metadata(chain[i]).spec_layout() == Some(
                            Layout::spec_new::<RawLinkedListNode<T, H>>(),
                        )
                        &&& self.spec_storage().value(chain[i]) matches Some(n)
                        &&& n.next == self.link_after(i)
                    } by {
                        let h = old(self).handles()[i + 1];
                        assert(chain[i] == h);
                        assert(old(self).spec_storage().valid(h));
                        assert(!S::same_slot(h, old(self).handles()[0]));
                        assert(taken.valid(h));
                        assert(taken.value(h) == old(self).spec_storage().value(h));
                        assert(self.spec_storage().valid(h));
                        assert(self.link_after(i) == old(self).link_after(i + 1));
                    }
                    assert forall|i: int, j: int| 0 <= i < j < chain.len(
                        ) implies !#[trigger] S::same_slot(
                        chain[j],
                        chain[i],
                    ) by {
                        assert(!S::same_slot(
                            old(self).handles()[j + 1],
                            old(self).handles()[i + 1],
                        ));
                    }
                    assert forall|i: int| 0 <= i < chain.len() implies self@[i] == old(self)@[i
                        + 1] by {
                        let h = old(self).handles()[i + 1];
                        assert(old(self).spec_storage().valid(h));
                        assert(!S::same_slot(h, old(self).handles()[0]));
                        assert(taken.valid(h));
                        assert(self.spec_storage().valid(h));
                    }
                    assert(self@ =~= old(self)@.subrange(1, old(self)@.len() as int));
                }
                Some(node.element)
            },
            None => {
                assert(self@ =~= old(self)@);
                None
            },
        }
    }

    /// Returns references to the elements, from the front to the back.
    pub fn elements(&self) -> (r: Vec<&T>)
        requires
            self.wf(),
        ensures
            r@.len() == self@.len(),
            forall|i: int| 0 <= i < r@.len() ==> *r@[i] == self@[i],
    {
        let mut r: Vec<&T> = Vec::new();
        let mut next = self.next;
        let ghost mut position: int = 0;
        while next.is_some()
            invariant
                self.wf(),
                0 <= position <= self.handles().len(),
                next == self.link_after(position - 1),
                r@.len() == position,
                forall|i: int| 0 <= i < position ==> *r@[i] == self@[i],
            decreases self.handles().len() - position,
        {
            let handle = match next {
                Some(handle) => handle,
                None => unreached(),
            };
            assert(self.spec_storage().valid(self.handles()[position]));
            match self.storage.get(handle) {
                Some(node) => {
                    r.push(&node.element);
                    next = node.next;
                },
                None => {
                    next = None;
                },
            }
            proof {
                position = position + 1;
            }
        }
        r
    }

    /// The storage behind the list.
    pub fn storage(&self) -> (r: &S)
        ensures
            *r == self.spec_storage(),
    {
        &self.storage
    }

    /// Destroys all elements, and gives up the list for its storage, in which no node
    /// of the list is left.
    pub fn into_storage(self) -> (r: S)
        requires
            self.wf(),
        ensures
            r.wf(),
            forall|i: int|
                0 <= i < self.handles().len() ==> !#[trigger] r.valid(self.handles()[i]),
            forall|h: H| #[trigger] r.valid(h) ==> self.spec_storage().valid(h),
            r.allocations() == self.spec_storage().allocations(),
            r.deallocations() == self.spec_storage().deallocations() + Self::release_calls(
                self.handles(),
            ),
    {
        let mut this = self;
        this.clear();
        this.storage
    }
}

} // verus!
