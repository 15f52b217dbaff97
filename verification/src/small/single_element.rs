//! Small implementation of `SingleElementStorage`.

use vstd::prelude::*;

use crate::allocator::ElementPointer;
use crate::traits::{Allocator, ElementStorage, SingleElementStorage, Storage};
use crate::utils::{spec_validate_layout, AllocError, Layout, Metadata};

verus! {

/// Generic small SingleElementStorage.
///
/// `S` is the underlying inline storage, used to specify the size and alignment. An
/// element that fits a value of `S` is kept inline; any other is kept in a block of the
/// allocator.
pub struct SingleElement<S, T, A> {
    embedded: crate::inline::SingleElement<S, T>,
    heap: crate::allocator::SingleElement<A, T>,
}

/// The handle of a small storage, tagged with the place where the element is kept.
#[derive(Clone, Copy, Debug)]
pub enum SingleElementHandle {
    /// The element is kept inline.
    Inline(crate::inline::SingleElementHandle),
    /// The element is kept in a block of the allocator.
    Allocated(ElementPointer),
}

impl<S, T, A> SingleElement<S, T, A> {
    /// The inline part of the storage.
    pub closed spec fn spec_inline(&self) -> crate::inline::SingleElement<S, T> {
        self.embedded
    }

    /// The allocated part of the storage.
    pub closed spec fn spec_heap(&self) -> crate::allocator::SingleElement<A, T> {
        self.heap
    }

    /// The allocator behind the storage.
    pub open spec fn spec_allocator(&self) -> A {
        self.spec_heap().spec_allocator()
    }

    /// Create new instance, which keeps no element.
    pub fn new(allocator: A) -> (r: Self)
        ensures
            r.spec_allocator() == allocator,
            r.spec_heap().current() is None,
            r.spec_inline().allocation() is None,
    {
        Self {
            embedded: crate::inline::SingleElement::new(),
                heap: crate::allocator::SingleElement::new(allocator) }
    }

    /// The allocator behind the storage.
    pub fn allocator(&self) -> (r: &A)
        ensures
            *r == self.spec_allocator(),
    {
        self.heap.allocator()
    }
}

impl<S, T, A: Default> Default for SingleElement<S, T, A> {
    /// A storage over the default allocator, which keeps no element.
    fn default() -> (r: Self)
        ensures
            r.spec_heap().current() is None,
            r.spec_inline().allocation() is None,
    {
        Self::new(A::default())
    }
}

impl<S, T, A: Allocator> Storage for SingleElement<S, T, A> {
    open spec fn wf(&self) -> bool {
        self.spec_inline().wf() && self.spec_heap().wf()
    }

    open spec fn alike(&self, other: &Self) -> bool {
        self.spec_heap().alike(&other.spec_heap())
    }

    open spec fn steadfast() -> bool {
        true
    }

    open spec fn allocations(&self) -> nat {
        self.spec_allocator().allocations()
    }

    open spec fn deallocations(&self) -> nat {
        self.spec_allocator().deallocations()
    }

    proof fn lemma_alike_self(&self) {
    }

    proof fn lemma_alike_chain(&self, second: &Self, third: &Self) {
    }
}

impl<S, T, A: Allocator> ElementStorage<T> for SingleElement<S, T, A> {
    type Handle = SingleElementHandle;

    open spec fn valid(&self, handle: Self::Handle) -> bool {
        match handle {
            SingleElementHandle::Inline(h) => self.spec_inline().valid(h),
            SingleElementHandle::Allocated(h) => self.spec_heap().valid(h),
        }
    }

    open spec fn value(&self, handle: Self::Handle) -> Option<T> {
        match handle {
            SingleElementHandle::Inline(h) => self.spec_inline().value(h),
            SingleElementHandle::Allocated(h) => self.spec_heap().value(h),
        }
    }

    open spec fn metadata(handle: Self::Handle) -> Metadata {
        match handle {
            SingleElementHandle::Inline(h) => h.meta,
            SingleElementHandle::Allocated(h) => h.meta,
        }
    }

    open spec fn same_slot(a: Self::Handle, b: Self::Handle) -> bool {
        match (a, b) {
            (SingleElementHandle::Inline(x), SingleElementHandle::Inline(y)) => true,
            (SingleElementHandle::Allocated(x), SingleElementHandle::Allocated(y)) => x.address
                == y.address,
            _ => false,
        }
    }

    open spec fn accepts(&self, meta: Metadata) -> bool {
        self.spec_inline().accepts(meta) || self.spec_heap().accepts(meta)
    }

    open spec fn allocation_calls(&self, meta: Metadata) -> nat {
        if spec_validate_layout::<S>(meta) {
            0
        } else {
            self.spec_heap().allocation_calls(meta)
        }
    }

    open spec fn release_calls(handle: Self::Handle) -> nat {
        match handle {
            SingleElementHandle::Inline(h) => 0,
            SingleElementHandle::Allocated(h) => 1,
        }
    }

    proof fn lemma_alike_accepts(&self, other: &Self, meta: Metadata) {
    }

    /// An inline element never reaches the allocator. An allocated one returns its
    /// block with exactly one call of the allocator, after which the next element that
    /// fits is kept inline again.
    fn deallocate(&mut self, handle: Self::Handle)
        ensures
            handle is Inline ==> final(self).spec_heap() == old(self).spec_heap(),
            handle matches SingleElementHandle::Allocated(pointer) ==> {
                &&& final(self).spec_inline() == old(self).spec_inline()
                &&& final(self).spec_heap().current() is None
                &&& final(self).spec_allocator().deallocations()
                    == old(self).spec_allocator().deallocations() + 1
                &&& final(self).spec_allocator().allocations()
                    == old(self).spec_allocator().allocations()
                &&& final(self).spec_allocator().blocks()
                    == old(self).spec_allocator().blocks().remove(pointer.address)
            },
    {
        match handle {
            SingleElementHandle::Inline(h) => self.embedded.deallocate(h),
            SingleElementHandle::Allocated(h) => self.heap.deallocate(h),
        }
    }

    /// The handle resolves through the part that its tag names.
    fn get(&self, handle: Self::Handle) -> (r: Option<&T>) {
        match handle {
            SingleElementHandle::Inline(h) => self.embedded.get(h),
            SingleElementHandle::Allocated(h) => self.heap.get(h),
        }
    }

    fn write(&mut self, handle: Self::Handle, value: T)
        ensures
            final(self).spec_allocator() == old(self).spec_allocator(),
    {
        match handle {
            SingleElementHandle::Inline(h) => self.embedded.write(h, value),
            SingleElementHandle::Allocated(h) => self.heap.write(h, value),
        }
    }

    fn take(&mut self, handle: Self::Handle) -> (r: Option<T>)
        ensures
            final(self).spec_allocator() == old(self).spec_allocator(),
    {
        match handle {
            SingleElementHandle::Inline(h) => self.embedded.take(h),
            SingleElementHandle::Allocated(h) => self.heap.take(h),
        }
    }

    /// An inline element never reaches the allocator. An allocated one returns its
    /// block with exactly one call of the allocator, after which the next element that
    /// fits is kept inline again.
    fn destroy(&mut self, handle: Self::Handle)
        ensures
            handle is Inline ==> final(self).spec_heap() == old(self).spec_heap(),
            handle matches SingleElementHandle::Allocated(pointer) ==> {
                &&& final(self).spec_inline() == old(self).spec_inline()
                &&& final(self).spec_heap().current() is None
                &&& final(self).spec_allocator().deallocations()
                    == old(self).spec_allocator().deallocations() + 1
                &&& final(self).spec_allocator().allocations()
                    == old(self).spec_allocator().allocations()
                &&& final(self).spec_allocator().blocks()
                    == old(self).spec_allocator().blocks().remove(pointer.address)
            },
    {
        match handle {
            SingleElementHandle::Inline(h) => self.embedded.destroy(h),
            SingleElementHandle::Allocated(h) => self.heap.destroy(h),
        }
    }

    /// Recomputes the metadata; the tag of the handle stays what it was.
    fn coerce(&self, handle: Self::Handle, target: Metadata) -> (r: Self::Handle)
        ensures
            r is Inline <==> handle is Inline,
    {
        match handle {
            SingleElementHandle::Inline(h) => SingleElementHandle::Inline(
                self.embedded.coerce(h, target),
            ),
            SingleElementHandle::Allocated(h) => SingleElementHandle::Allocated(
                self.heap.coerce(h, target),
            ),
        }
    }
}

impl<S, T, A: Allocator> SingleElementStorage<T> for SingleElement<S, T, A> {
    /// A pointee that fits a value of `S` is allocated inline, and the allocator is not
    /// called. Any other that can exist takes exactly one call of the allocator, and is
    /// allocated if and only if that call succeeds. A request that fails leaves the
    /// storage without a change but the count of the call.
    fn allocate(&mut self, meta: Metadata) -> (r: Result<Self::Handle, AllocError>)
        ensures
            spec_validate_layout::<S>(meta) ==> {
                &&& r matches Ok(SingleElementHandle::Inline(_))
                &&& final(self).spec_heap() == old(self).spec_heap()
            },
            !spec_validate_layout::<S>(meta) ==> {
                &&& !(r matches Ok(SingleElementHandle::Inline(_)))
                &&& final(self).spec_inline() == old(self).spec_inline()
                &&& final(self).spec_allocator().deallocations()
                    == old(self).spec_allocator().deallocations()
                &&& final(self).spec_allocator().allocations()
                    == old(self).spec_allocator().allocations() + if meta.representable() {
                    1nat
                } else {
                    0nat
                }
            },
            r is Err ==> {
                &&& final(self).spec_inline() == old(self).spec_inline()
                &&& final(self).spec_heap().current() == old(self).spec_heap().current()
                &&& final(self).spec_allocator().blocks() == old(self).spec_allocator().blocks()
            },
    {
        match self.embedded.allocate(meta) {
            Ok(handle) => Ok(SingleElementHandle::Inline(handle)),
            Err(_) => match self.heap.allocate(meta) {
                Ok(handle) => Ok(SingleElementHandle::Allocated(handle)),
                Err(e) => Err(e),
            },
        }
    }

    /// A value that fits a value of `S` is kept inline, and the allocator is not called.
    /// Any other takes exactly one call of the allocator, and is kept if and only if
    /// that call succeeds; otherwise it is handed back, and the storage is left without
    /// a change but the count of the call.
    fn create(&mut self, value: T) -> (r: Result<Self::Handle, T>)
        ensures
            spec_validate_layout::<S>(Metadata::spec_sized::<T>()) ==> {
                &&& r matches Ok(SingleElementHandle::Inline(_))
                &&& final(self).spec_heap() == old(self).spec_heap()
            },
            !spec_validate_layout::<S>(Metadata::spec_sized::<T>()) ==> {
                &&& !(r matches Ok(SingleElementHandle::Inline(_)))
                &&& final(self).spec_inline() == old(self).spec_inline()
                &&& final(self).spec_allocator().deallocations()
                    == old(self).spec_allocator().deallocations()
                &&& final(self).spec_allocator().allocations()
                    == old(self).spec_allocator().allocations() + 1
            },
            r is Err ==> {
                &&& final(self).spec_inline() == old(self).spec_inline()
                &&& final(self).spec_heap().current() == old(self).spec_heap().current()
                &&& final(self).spec_allocator().blocks() == old(self).spec_allocator().blocks()
            },
    {
        match self.embedded.create(value) {
            Ok(handle) => Ok(SingleElementHandle::Inline(handle)),
            Err(value) => match self.heap.create(value) {
                Ok(handle) => Ok(SingleElementHandle::Allocated(handle)),
                Err(value) => Err(value),
            },
        }
    }
}

} // verus!
