//! The contracts that every storage, and every allocator behind one, fulfils.
//!
//! A storage hands out handles. A handle is no pointer: it names a place of the storage
//! that issued it, and carries the metadata of what lives there. What a handle resolves
//! to is stated through the storage: `valid` says whether the handle still names a place,
//! `value` and `buffer` say what the place holds.
//!
//! What an operation costs is stated as well: `allocations` and `deallocations` count
//! the calls made of the allocators behind a storage, and each operation says by how
//! much they grow, and how many slots the range has that it yields.

use vstd::prelude::*;

pub use crate::capacity::Capacity;
use crate::utils::{AllocError, Layout, Metadata};

verus! {

/// How often the allocators behind a storage are asked by one operation.
pub struct Calls {
    /// The number of calls of `allocate`.
    pub allocations: nat,
    /// The number of calls of `deallocate`.
    pub deallocations: nat,
}

/// What one operation on a range storage comes to: how often the allocators behind
/// the storage are asked, and how many slots the range has that a success yields.
pub struct Outcome {
    /// The number of calls of `allocate`.
    pub allocations: nat,
    /// The number of calls of `deallocate`.
    pub deallocations: nat,
    /// The number of slots of the range, if the operation succeeds.
    pub len: nat,
}

impl Outcome {
    /// The outcome of an operation that asks no allocator, for a range of `len` slots.
    pub open spec fn free(len: nat) -> Outcome {
        Outcome { allocations: 0, deallocations: 0, len }
    }

    /// The outcome of this operation followed by `next`, whose range is the one kept.
    pub open spec fn followed_by(self, next: Outcome) -> Outcome {
        Outcome {
            allocations: self.allocations + next.allocations,
            deallocations: self.deallocations + next.deallocations,
            len: next.len,
        }
    }

    /// The outcome of this operation followed by `calls` calls of `deallocate`.
    pub open spec fn and_released(self, calls: nat) -> Outcome {
        Outcome {
            allocations: self.allocations,
            deallocations: self.deallocations + calls,
            len: self.len,
        }
    }
}

//
//  Allocator
//
/// A source of memory blocks, injected into the storages that allocate.
///
/// A block is named by its address, which is a multiple of the alignment asked for.
/// The allocator keeps the books: which blocks are handed out, with which layout, and
/// how often it was asked.
pub trait Allocator: Sized {
    /// The invariant of the allocator.
    spec fn wf(&self) -> bool;

    /// The blocks that are handed out, each with the layout it was requested with.
    spec fn blocks(&self) -> Map<usize, Layout>;

    /// How many times `allocate` was called.
    spec fn allocations(&self) -> nat;

    /// How many times `deallocate` was called.
    spec fn deallocations(&self) -> nat;

    /// Whether a request for `layout` would be granted now.
    spec fn can_allocate(&self, layout: Layout) -> bool;

    /// Whether the block at `address` could be resized from `old_layout` to `new_layout` now.
    spec fn can_resize(&self, address: usize, old_layout: Layout, new_layout: Layout) -> bool;

    /// How many calls of `allocate` and of `deallocate` an attempt to resize the block at
    /// `address` from `old_layout` to `new_layout` would count for now.
    spec fn resize_calls(&self, address: usize, old_layout: Layout, new_layout: Layout) -> Calls;

    /// Requests a block of `layout`.
    fn allocate(&mut self, layout: Layout) -> (r: Result<usize, AllocError>)
        requires
            old(self).wf(),
        ensures
            final(self).wf(),
            r.is_ok() <==> old(self).can_allocate(layout),
            final(self).allocations() == old(self).allocations() + 1,
            final(self).deallocations() == old(self).deallocations(),
            r matches Ok(address) ==> !old(self).blocks().contains_key(address)
                && final(self).blocks() == old(self).blocks().insert(address, layout),
            r matches Ok(address) ==> layout.align > 0 ==> address as int % layout.align as int
                == 0,
            r is Err ==> final(self).blocks() == old(self).blocks(),
    ;

    /// Returns the block at `address`, which was requested with `layout`.
    ///
    /// Only a block that the allocator has handed out and not got back can be returned,
    /// and only with the layout that it was requested with: every caller proves that it
    /// returns nothing else.
    fn deallocate(&mut self, address: usize, layout: Layout)
        requires
            old(self).wf(),
            old(self).blocks().contains_key(address),
            old(self).blocks()[address] == layout,
        ensures
            final(self).wf(),
            final(self).blocks() == old(self).blocks().remove(address),
            final(self).allocations() == old(self).allocations(),
            final(self).deallocations() == old(self).deallocations() + 1,
    ;

    /// Attempts to extend the block at `address` from `old_layout` to `new_layout`.
    ///
    /// On success the block lives at the address returned, which may be the old one.
    fn grow(&mut self, address: usize, old_layout: Layout, new_layout: Layout) -> (r: Result<
        usize,
        AllocError,
    >)
        requires
            old(self).wf(),
            old(self).blocks().contains_key(address),
            old(self).blocks()[address] == old_layout,
            new_layout.size >= old_layout.size,
        ensures
            final(self).wf(),
            r.is_ok() <==> old(self).can_resize(address, old_layout, new_layout),
            final(self).allocations() == old(self).allocations() + old(self).resize_calls(
                address,
                old_layout,
                new_layout,
            ).allocations,
            final(self).deallocations() == old(self).deallocations() + old(self).resize_calls(
                address,
                old_layout,
                new_layout,
            ).deallocations,
            r matches Ok(moved) ==> new_layout.align > 0 && address as int
                % new_layout.align as int == 0 ==> moved as int % new_layout.align as int == 0,
            r matches Ok(moved) ==> (moved == address || !old(self).blocks().contains_key(moved))
                && final(self).blocks() == old(self).blocks().remove(address).insert(
                moved,
                new_layout,
            ),
            r is Err ==> final(self).blocks() == old(self).blocks(),
    ;

    /// Attempts to reduce the block at `address` from `old_layout` to `new_layout`.
    ///
    /// On success the block lives at the address returned, which may be the old one.
    fn shrink(&mut self, address: usize, old_layout: Layout, new_layout: Layout) -> (r: Result<
        usize,
        AllocError,
    >)
        requires
            old(self).wf(),
            old(self).blocks().contains_key(address),
            old(self).blocks()[address] == old_layout,
            new_layout.size <= old_layout.size,
        ensures
            final(self).wf(),
            r.is_ok() <==> old(self).can_resize(address, old_layout, new_layout),
            final(self).allocations() == old(self).allocations() + old(self).resize_calls(
                address,
                old_layout,
                new_layout,
            ).allocations,
            final(self).deallocations() == old(self).deallocations() + old(self).resize_calls(
                address,
                old_layout,
                new_layout,
            ).deallocations,
            r matches Ok(moved) ==> new_layout.align > 0 && address as int
                % new_layout.align as int == 0 ==> moved as int % new_layout.align as int == 0,
            r matches Ok(moved) ==> (moved == address || !old(self).blocks().contains_key(moved))
                && final(self).blocks() == old(self).blocks().remove(address).insert(
                moved,
                new_layout,
            ),
            r is Err ==> final(self).blocks() == old(self).blocks(),
    ;
}

//
//  Storage
//
/// What every storage has in common: an invariant, which every operation requires and
/// maintains.
pub trait Storage: Sized {
    /// The invariant of the storage.
    spec fn wf(&self) -> bool;

    /// Whether two storages are in states that accept and refuse the same requests.
    spec fn alike(&self, other: &Self) -> bool;

    /// Whether a failed attempt to resize a range is certain to leave the range as it
    /// was, whatever state a storage of this type is in.
    spec fn steadfast() -> bool;

    /// How many times the allocators behind the storage were asked to allocate.
    spec fn allocations(&self) -> nat;

    /// How many times the allocators behind the storage were asked to deallocate.
    spec fn deallocations(&self) -> nat;

    /// Every storage is like itself.
    proof fn lemma_alike_self(&self)
        ensures
            self.alike(self),
    ;

    /// A storage that is like a second, which is like a third, is like the third.
    proof fn lemma_alike_chain(&self, second: &Self, third: &Self)
        requires
            self.alike(second),
            second.alike(third),
        ensures
            self.alike(third),
    ;
}

//
//  Element Storage
//
/// A storage for storing elements one at a time.
///
/// This trait is further refined into:
///
/// -   `SingleElementStorage`, which stores up to a single element at any one time.
/// -   `MultiElementStorage`, which may store multiple elements at any one time.
pub trait ElementStorage<T>: Storage {
    /// The handle used to obtain the elements.
    type Handle: Copy;

    /// Whether `handle` names a slot of this storage that is allocated now.
    spec fn valid(&self, handle: Self::Handle) -> bool;

    /// What the slot named by `handle` holds; `None` while it is not initialized.
    spec fn value(&self, handle: Self::Handle) -> Option<T>;

    /// The metadata that `handle` carries.
    spec fn metadata(handle: Self::Handle) -> Metadata;

    /// Whether two handles name the same slot; they may still differ in their metadata.
    spec fn same_slot(a: Self::Handle, b: Self::Handle) -> bool;

    /// Whether an allocation for a pointee described by `meta` would succeed now.
    spec fn accepts(&self, meta: Metadata) -> bool;

    /// How many calls of `allocate` an allocation for a pointee described by `meta`
    /// would make now, whether it succeeds or not.
    spec fn allocation_calls(&self, meta: Metadata) -> nat;

    /// How many calls of `deallocate` the deallocation of the slot named by `handle`
    /// makes.
    spec fn release_calls(handle: Self::Handle) -> nat;

    /// Storages that are alike accept the same requests, at the same cost.
    proof fn lemma_alike_accepts(&self, other: &Self, meta: Metadata)
        requires
            self.alike(other),
        ensures
            self.accepts(meta) == other.accepts(meta),
            self.allocation_calls(meta) == other.allocation_calls(meta),
    ;

    /// Deallocates the slot without destroying a value: the slot holds none.
    ///
    /// This invalidates `handle` and every handle to the same slot, and no other.
    fn deallocate(&mut self, handle: Self::Handle)
        requires
            old(self).wf(),
            old(self).valid(handle),
            old(self).value(handle) is None,
        ensures
            final(self).wf(),
            !final(self).valid(handle),
            final(self).allocations() == old(self).allocations(),
            final(self).deallocations() == old(self).deallocations() + Self::release_calls(
                handle,
            ),
            forall|h: Self::Handle| #[trigger]
                final(self).valid(h) ==> old(self).valid(h) && !Self::same_slot(h, handle),
            forall|h: Self::Handle|
                old(self).valid(h) && !Self::same_slot(h, handle) ==> #[trigger] final(self).valid(
                    h,
                ) && final(self).value(h) == old(self).value(h),
    ;

    /// Resolves the handle: a reference to the element, if the slot is initialized.
    fn get(&self, handle: Self::Handle) -> (r: Option<&T>)
        requires
            self.wf(),
            self.valid(handle),
        ensures
            r.is_some() == self.value(handle).is_some(),
            r.is_some() ==> *r.unwrap() == self.value(handle).unwrap(),
    ;

    /// Writes `value` into the slot, which was allocated for a pointee laid out as a
    /// value of `T` is. What the slot held before is dropped.
    fn write(&mut self, handle: Self::Handle, value: T)
        requires
            old(self).wf(),
            old(self).valid(handle),
            Self::metadata(handle).spec_layout() == Some(Layout::spec_new::<T>()),
        ensures
            final(self).wf(),
            final(self).value(handle) == Some(value),
            final(self).allocations() == old(self).allocations(),
            final(self).deallocations() == old(self).deallocations(),
            forall|h: Self::Handle| #[trigger] final(self).valid(h) == old(self).valid(h),
            forall|h: Self::Handle|
                old(self).valid(h) ==> #[trigger] final(self).value(h) == if Self::same_slot(
                    h,
                    handle,
                ) {
                    Some(value)
                } else {
                    old(self).value(h)
                },
    ;

    /// Moves the element out of the slot, which stays allocated and is no longer
    /// initialized.
    fn take(&mut self, handle: Self::Handle) -> (r: Option<T>)
        requires
            old(self).wf(),
            old(self).valid(handle),
        ensures
            final(self).wf(),
            r == old(self).value(handle),
            final(self).value(handle) is None,
            final(self).allocations() == old(self).allocations(),
            final(self).deallocations() == old(self).deallocations(),
            forall|h: Self::Handle| #[trigger] final(self).valid(h) == old(self).valid(h),
            forall|h: Self::Handle|
                old(self).valid(h) ==> #[trigger] final(self).value(h) == if Self::same_slot(
                    h,
                    handle,
                ) {
                    None
                } else {
                    old(self).value(h)
                },
    ;

    /// Destroys the value stored within the slot, if any, then deallocates the slot.
    ///
    /// Provided: the element is taken out and dropped, and the slot deallocated.
    fn destroy(&mut self, handle: Self::Handle)
        requires
            old(self).wf(),
            old(self).valid(handle),
        ensures
            final(self).wf(),
            !final(self).valid(handle),
            final(self).allocations() == old(self).allocations(),
            final(self).deallocations() == old(self).deallocations() + Self::release_calls(
                handle,
            ),
            forall|h: Self::Handle| #[trigger]
                final(self).valid(h) ==> old(self).valid(h) && !Self::same_slot(h, handle),
            forall|h: Self::Handle|
                old(self).valid(h) && !Self::same_slot(h, handle) ==> #[trigger] final(self).valid(
                    h,
                ) && final(self).value(h) == old(self).value(h),
    {
        let _ = self.take(handle);
        self.deallocate(handle);
    }

    /// Coerces the handle: the same slot, seen as the dynamically sized pointee that
    /// `target` describes.
    fn coerce(&self, handle: Self::Handle, target: Metadata) -> (r: Self::Handle)
        requires
            self.wf(),
            self.valid(handle),
            Self::metadata(handle).unsizes_to(target),
        ensures
            self.valid(r),
            Self::same_slot(r, handle),
            Self::metadata(r) == target,
            self.value(r) == self.value(handle),
    ;
}

/// What the deallocation of the slot named by `handle` leaves of the handles: those of
/// the slot are no longer valid, every other stays what it was, and none is added.
pub open spec fn released<T, X: ElementStorage<T>>(
    before: &X,
    after: &X,
    handle: X::Handle,
) -> bool {
    &&& forall|h: X::Handle| #[trigger]
        after.valid(h) ==> before.valid(h) && !X::same_slot(h, handle)
    &&& forall|h: X::Handle|
        before.valid(h) && !X::same_slot(h, handle) ==> #[trigger] after.valid(h) && after.value(
            h,
        ) == before.value(h)
}

/// What a change of the content of the slot named by `handle` to `content` leaves of
/// the handles: the same are valid, those of the slot resolve to `content`, and every
/// other to what it did.
pub open spec fn rewritten<T, X: ElementStorage<T>>(
    before: &X,
    after: &X,
    handle: X::Handle,
    content: Option<T>,
) -> bool {
    &&& forall|h: X::Handle| #[trigger] after.valid(h) == before.valid(h)
    &&& forall|h: X::Handle|
        before.valid(h) ==> #[trigger] after.value(h) == if X::same_slot(h, handle) {
            content
        } else {
            before.value(h)
        }
}

/// A single element storage.
///
/// Examples of use include: Box.
pub trait SingleElementStorage<T>: ElementStorage<T> {
    /// Attempts to allocate a slot for a pointee described by `meta`, and returns a
    /// handle to it.
    ///
    /// The slot of an earlier allocation may be reused: earlier handles are not to be
    /// relied on.
    fn allocate(&mut self, meta: Metadata) -> (r: Result<Self::Handle, AllocError>)
        requires
            old(self).wf(),
        ensures
            final(self).wf(),
            r.is_ok() <==> old(self).accepts(meta),
            final(self).allocations() == old(self).allocations() + old(self).allocation_calls(
                meta,
            ),
            final(self).deallocations() == old(self).deallocations(),
            r matches Ok(h) ==> final(self).valid(h) && final(self).value(h) is None
                && Self::metadata(h) == meta,
    ;

    /// Stores `value` within the storage.
    ///
    /// On failure the value is handed back, unchanged.
    ///
    /// Provided: a slot is allocated for a value of `T`, and `value` written into it.
    fn create(&mut self, value: T) -> (r: Result<Self::Handle, T>)
        requires
            old(self).wf(),
        ensures
            final(self).wf(),
            r.is_ok() <==> old(self).accepts(Metadata::spec_sized::<T>()),
            final(self).allocations() == old(self).allocations() + old(self).allocation_calls(
                Metadata::spec_sized::<T>(),
            ),
            final(self).deallocations() == old(self).deallocations(),
            r matches Ok(h) ==> final(self).valid(h) && final(self).value(h) == Some(value)
                && Self::metadata(h) == Metadata::spec_sized::<T>(),
            r matches Err(v) ==> v == value,
    {
        match self.allocate(Metadata::sized::<T>()) {
            Ok(handle) => {
                self.write(handle, value);
                Ok(handle)
            },
            Err(_) => Err(value),
        }
    }
}

/// A multi elements storage.
///
/// Examples of use include: BTreeMap, LinkedList, SkipList.
pub trait MultiElementStorage<T>: ElementStorage<T> {
    /// Attempts to allocate a slot for a pointee described by `meta`, and returns a
    /// handle to it.
    ///
    /// Whether it succeeds or not, every handle that was valid stays valid, and its
    /// element stays what it was.
    fn allocate(&mut self, meta: Metadata) -> (r: Result<Self::Handle, AllocError>)
        requires
            old(self).wf(),
        ensures
            final(self).wf(),
            r.is_ok() <==> old(self).accepts(meta),
            final(self).allocations() == old(self).allocations() + old(self).allocation_calls(
                meta,
            ),
            final(self).deallocations() == old(self).deallocations(),
            r matches Ok(h) ==> final(self).valid(h) && final(self).value(h) is None
                && Self::metadata(h) == meta && !old(self).valid(h),
            forall|h: Self::Handle|
                old(self).valid(h) ==> #[trigger] final(self).valid(h) && final(self).value(h)
                    == old(self).value(h),
            r matches Ok(h) ==> forall|other: Self::Handle|
                old(self).valid(other) ==> !#[trigger] Self::same_slot(other, h),
    ;

    /// Attempts to store `value` in a newly allocated slot.
    ///
    /// On failure the value is handed back, unchanged. Whether it succeeds or not,
    /// every handle that was valid stays valid, and its element stays what it was.
    ///
    /// Provided: a slot is allocated for a value of `T`, and `value` written into it.
    fn create(&mut self, value: T) -> (r: Result<Self::Handle, T>)
        requires
            old(self).wf(),
        ensures
            final(self).wf(),
            r.is_ok() <==> old(self).accepts(Metadata::spec_sized::<T>()),
            final(self).allocations() == old(self).allocations() + old(self).allocation_calls(
                Metadata::spec_sized::<T>(),
            ),
            final(self).deallocations() == old(self).deallocations(),
            r matches Ok(h) ==> final(self).valid(h) && final(self).value(h) == Some(value)
                && Self::metadata(h) == Metadata::spec_sized::<T>() && !old(self).valid(h),
            r matches Err(v) ==> v == value,
            forall|h: Self::Handle|
                old(self).valid(h) ==> #[trigger] final(self).valid(h) && final(self).value(h)
                    == old(self).value(h),
            r matches Ok(h) ==> forall|other: Self::Handle|
                old(self).valid(other) ==> !#[trigger] Self::same_slot(other, h),
    {
        match self.allocate(Metadata::sized::<T>()) {
            Ok(handle) => {
                let ghost allocated = *self;
                self.write(handle, value);
                proof {
                    assert forall|h: Self::Handle| old(self).valid(h) implies #[trigger] self.valid(
                        h,
                    ) && self.value(h) == old(self).value(h) by {
                        assert(allocated.valid(h));
                        assert(self.valid(h) == allocated.valid(h));
                        assert(!Self::same_slot(h, handle));
                    }
                }
                Ok(handle)
            },
            Err(_) => Err(value),
        }
    }
}

//
//  Range Storage
//
/// A storage for (contigous) ranges of elements.
///
/// This trait is further refined into:
///
/// -   `SingleRangeStorage`, which stores up to one single range at any one time.
/// -   `MultiRangeStorage`, which may store multiple ranges at any one time.
pub trait RangeStorage<T>: Storage {
    /// The handle used to obtain the range.
    type Handle: Copy;

    /// The capacity type used by the storage.
    ///
    /// The collection may wish to use it for related values to keep them as compact as
    /// possible.
    type Capacity: Capacity;

    /// Whether `handle` names a range of this storage that is allocated now.
    spec fn valid(&self, handle: Self::Handle) -> bool;

    /// The slots of the range named by `handle`, each `None` while it is not initialized.
    /// Its length is the physical capacity of the range.
    spec fn buffer(&self, handle: Self::Handle) -> Seq<Option<T>>;

    /// The largest capacity that this storage could ever offer, as a number.
    spec fn spec_maximum_capacity(&self) -> usize;

    /// Whether an allocation of `capacity` elements would succeed now.
    spec fn allocates(&self, capacity: Self::Capacity) -> bool;

    /// Whether an attempt to grow the range to `new_capacity` would succeed now.
    spec fn grows(&self, handle: Self::Handle, new_capacity: Self::Capacity) -> bool;

    /// Whether an attempt to shrink the range to `new_capacity` would succeed now.
    spec fn shrinks(&self, handle: Self::Handle, new_capacity: Self::Capacity) -> bool;

    /// Whether the capacity can be computed for this storage and element type.
    spec fn measurable(&self) -> bool;

    /// What an allocation of `capacity` elements would come to now: the calls are made
    /// whether it succeeds or not.
    spec fn allocation(&self, capacity: Self::Capacity) -> Outcome;

    /// What an attempt to grow the range to `new_capacity` would come to now.
    spec fn growth(&self, handle: Self::Handle, new_capacity: Self::Capacity) -> Outcome;

    /// What an attempt to shrink the range to `new_capacity` would come to now.
    spec fn shrinkage(&self, handle: Self::Handle, new_capacity: Self::Capacity) -> Outcome;

    /// How many calls of `deallocate` the deallocation of the range named by `handle`
    /// makes.
    spec fn release_calls(handle: Self::Handle) -> nat;

    /// Storages that are alike allocate the same capacities, to the same outcome.
    proof fn lemma_alike_allocates(&self, other: &Self, capacity: Self::Capacity)
        requires
            self.alike(other),
        ensures
            self.allocates(capacity) == other.allocates(capacity),
            self.allocation(capacity) == other.allocation(capacity),
    ;

    /// Indicates the maximum capacity of a single range possibly available.
    fn maximum_capacity(&self) -> (r: Self::Capacity)
        requires
            self.wf(),
            self.measurable(),
        ensures
            r.spec_into_usize() == self.spec_maximum_capacity(),
    ;

    /// Deallocates the memory of the range associated to `handle`. Elements that the
    /// range still holds are dropped with it.
    ///
    /// This invalidates `handle`. For a range without slots it does nothing at all, and
    /// the handle of such a range stays valid.
    fn deallocate(&mut self, handle: Self::Handle)
        requires
            old(self).wf(),
            old(self).valid(handle),
        ensures
            final(self).wf(),
            old(self).buffer(handle).len() == 0 ==> *final(self) == *old(self),
            old(self).buffer(handle).len() > 0 ==> !final(self).valid(handle),
            final(self).allocations() == old(self).allocations(),
            final(self).deallocations() == old(self).deallocations() + Self::release_calls(
                handle,
            ),
    ;

    /// Resolves the handle: the slots of the range.
    fn get(&self, handle: Self::Handle) -> (r: &[Option<T>])
        requires
            self.wf(),
            self.valid(handle),
        ensures
            r@ == self.buffer(handle),
    ;

    /// Writes `value` into the slot at `index`. What the slot held before is dropped.
    fn write(&mut self, handle: Self::Handle, index: usize, value: T)
        requires
            old(self).wf(),
            old(self).valid(handle),
            index < old(self).buffer(handle).len(),
        ensures
            final(self).wf(),
            final(self).valid(handle),
            final(self).buffer(handle) == old(self).buffer(handle).update(
                index as int,
                Some(value),
            ),
            final(self).alike(old(self)),
            final(self).allocations() == old(self).allocations(),
            final(self).deallocations() == old(self).deallocations(),
    ;

    /// Moves the element out of the slot at `index`, which is no longer initialized.
    fn take(&mut self, handle: Self::Handle, index: usize) -> (r: Option<T>)
        requires
            old(self).wf(),
            old(self).valid(handle),
            index < old(self).buffer(handle).len(),
        ensures
            final(self).wf(),
            final(self).valid(handle),
            r == old(self).buffer(handle)[index as int],
            final(self).buffer(handle) == old(self).buffer(handle).update(index as int, None),
            final(self).alike(old(self)),
            final(self).allocations() == old(self).allocations(),
            final(self).deallocations() == old(self).deallocations(),
    ;

    /// Attempts to grow the range to accomodate at least `new_capacity` elements in
    /// total.
    ///
    /// If the attempt succeeds, a new handle is returned, `handle` is not to be used any
    /// longer, and the new range starts with the slots that the old one had, as far as
    /// both go: with all of them, where the new capacity is above the old length. The
    /// slots beyond them are not initialized.
    fn try_grow(&mut self, handle: Self::Handle, new_capacity: Self::Capacity) -> (r: Result<
        Self::Handle,
        AllocError,
    >)
        requires
            old(self).wf(),
            old(self).valid(handle),
        ensures
            final(self).wf(),
            r.is_ok() <==> old(self).grows(handle, new_capacity),
            final(self).allocations() == old(self).allocations() + old(self).growth(
                handle,
                new_capacity,
            ).allocations,
            final(self).deallocations() == old(self).deallocations() + old(self).growth(
                handle,
                new_capacity,
            ).deallocations,
            r matches Ok(h) ==> final(self).buffer(h).len() == old(self).growth(
                handle,
                new_capacity,
            ).len,
            r matches Ok(h) ==> final(self).valid(h) && final(self).buffer(h).len()
                >= new_capacity.spec_into_usize() && (forall|i: int|
                0 <= i < final(self).buffer(h).len() && i < old(self).buffer(handle).len()
                    ==> #[trigger] final(self).buffer(h)[i] == old(self).buffer(handle)[i]),
            r matches Ok(h) ==> forall|i: int|
                old(self).buffer(handle).len() <= i < final(self).buffer(h).len() ==> (
                #[trigger] final(self).buffer(h)[i]) is None,
            r is Ok && old(self).buffer(handle).len() > 0 ==> !final(self).valid(handle),
            r is Err && Self::steadfast() ==> final(self).valid(handle) && final(self).buffer(
                handle,
            ) == old(self).buffer(handle),
    ;

    /// Attempts to shrink the range to accomodate at least `new_capacity` elements in
    /// total.
    ///
    /// If the attempt succeeds, a new handle is returned, `handle` is not to be used any
    /// longer, and the new range starts with the slots that the old one started with, as
    /// far as both go.
    fn try_shrink(&mut self, handle: Self::Handle, new_capacity: Self::Capacity) -> (r: Result<
        Self::Handle,
        AllocError,
    >)
        requires
            old(self).wf(),
            old(self).valid(handle),
        ensures
            final(self).wf(),
            r.is_ok() <==> old(self).shrinks(handle, new_capacity),
            final(self).allocations() == old(self).allocations() + old(self).shrinkage(
                handle,
                new_capacity,
            ).allocations,
            final(self).deallocations() == old(self).deallocations() + old(self).shrinkage(
                handle,
                new_capacity,
            ).deallocations,
            r matches Ok(h) ==> final(self).buffer(h).len() == old(self).shrinkage(
                handle,
                new_capacity,
            ).len,
            r matches Ok(h) ==> final(self).valid(h) && final(self).buffer(h).len()
                >= new_capacity.spec_into_usize() && (forall|i: int|
                0 <= i < final(self).buffer(h).len() && i < old(self).buffer(handle).len()
                    ==> #[trigger] final(self).buffer(h)[i] == old(self).buffer(handle)[i]),
            r matches Ok(h) ==> forall|i: int|
                old(self).buffer(handle).len() <= i < final(self).buffer(h).len() ==> (
                #[trigger] final(self).buffer(h)[i]) is None,
            r is Ok && old(self).buffer(handle).len() > 0 ==> !final(self).valid(handle),
            r is Err && Self::steadfast() ==> final(self).valid(handle) && final(self).buffer(
                handle,
            ) == old(self).buffer(handle),
    ;
}

/// A single range storage.
///
/// Examples of use include: Vec, VecDeque.
pub trait SingleRangeStorage<T>: RangeStorage<T> {
    /// Allocates a new range, large enough to at least accomodate the required
    /// `capacity`, none of whose slots is initialized. A request for no capacity at all
    /// always succeeds.
    ///
    /// Earlier handles are not to be relied on.
    fn allocate(&mut self, capacity: Self::Capacity) -> (r: Result<Self::Handle, AllocError>)
        requires
            old(self).wf(),
        ensures
            final(self).wf(),
            r.is_ok() <==> old(self).allocates(capacity),
            final(self).allocations() == old(self).allocations() + old(self).allocation(
                capacity,
            ).allocations,
            final(self).deallocations() == old(self).deallocations() + old(self).allocation(
                capacity,
            ).deallocations,
            r matches Ok(h) ==> final(self).buffer(h).len() == old(self).allocation(capacity).len,
            capacity.spec_into_usize() == 0 ==> r.is_ok() && final(self).alike(old(self))
                && final(self).allocations() == old(self).allocations()
                    && final(self).deallocations() == old(self).deallocations(),
            r matches Ok(h) ==> final(self).valid(h) && final(self).buffer(h).len()
                >= capacity.spec_into_usize(),
            r matches Ok(h) ==> forall|i: int|
                0 <= i < final(self).buffer(h).len() ==> (#[trigger] final(self).buffer(h)[i])
                    is None,
    ;
}

/// A multi ranges storage.
///
/// Examples of use include: CompactHashMap.
pub trait MultiRangeStorage<T>: RangeStorage<T> {
    /// Allocates a new range, large enough to at least accomodate the required
    /// `capacity`.
    ///
    /// Every handle that was valid stays valid, and its range stays what it was.
    fn allocate(&mut self, capacity: Self::Capacity) -> (r: Result<Self::Handle, AllocError>)
        requires
            old(self).wf(),
        ensures
            final(self).wf(),
            r.is_ok() <==> old(self).allocates(capacity),
            final(self).allocations() == old(self).allocations() + old(self).allocation(
                capacity,
            ).allocations,
            final(self).deallocations() == old(self).deallocations() + old(self).allocation(
                capacity,
            ).deallocations,
            r matches Ok(h) ==> final(self).buffer(h).len() == old(self).allocation(capacity).len,
            r matches Ok(h) ==> final(self).valid(h) && !old(self).valid(h)
                && final(self).buffer(h).len() >= capacity.spec_into_usize(),
            forall|h: Self::Handle|
                old(self).valid(h) ==> #[trigger] final(self).valid(h) && final(self).buffer(h)
                    == old(self).buffer(h),
    ;
}


/// Moves the elements of one range into another, slot by slot, as far as both ranges go.
///
/// The slots moved from are left uninitialized; the slots of `to` beyond the length of
/// `from` stay as they were.
pub fn transfer<T, X: RangeStorage<T>, Y: RangeStorage<T>>(
    from: &mut X,
    source: X::Handle,
    to: &mut Y,
    target: Y::Handle,
)
    requires
        old(from).wf(),
        old(from).valid(source),
        old(to).wf(),
        old(to).valid(target),
    ensures
        final(from).wf(),
        final(from).valid(source),
        final(to).wf(),
        final(to).valid(target),
        final(from).buffer(source).len() == old(from).buffer(source).len(),
        final(to).buffer(target).len() == old(to).buffer(target).len(),
        final(from).alike(old(from)),
        final(to).alike(old(to)),
        final(from).allocations() == old(from).allocations(),
        final(from).deallocations() == old(from).deallocations(),
        final(to).allocations() == old(to).allocations(),
        final(to).deallocations() == old(to).deallocations(),
        forall|i: int|
            0 <= i < old(to).buffer(target).len() ==> #[trigger] final(to).buffer(target)[i] == if i
                < old(from).buffer(source).len() {
                old(from).buffer(source)[i]
            } else {
                old(to).buffer(target)[i]
            },
        forall|i: int|
            0 <= i < old(from).buffer(source).len() ==> #[trigger] final(from).buffer(source)[i]
                == if i < old(to).buffer(target).len() {
                None
            } else {
                old(from).buffer(source)[i]
            },
{
    let from_len = from.get(source).len();
    let to_len = to.get(target).len();
    let count = if from_len <= to_len {
        from_len
    } else {
        to_len
    };
    let mut index: usize = 0;
    proof {
        from.lemma_alike_self();
        to.lemma_alike_self();
    }
    while index < count
        invariant
            index <= count,
            count <= from_len,
            count <= to_len,
            from.wf(),
            from.valid(source),
            to.wf(),
            to.valid(target),
            from.alike(old(from)),
            to.alike(old(to)),
            from.allocations() == old(from).allocations(),
            from.deallocations() == old(from).deallocations(),
            to.allocations() == old(to).allocations(),
            to.deallocations() == old(to).deallocations(),
            from.buffer(source).len() == from_len,
            to.buffer(target).len() == to_len,
            old(from).buffer(source).len() == from_len,
            old(to).buffer(target).len() == to_len,
            forall|i: int|
                0 <= i < to_len ==> #[trigger] to.buffer(target)[i] == if i < index {
                    old(from).buffer(source)[i]
                } else {
                    old(to).buffer(target)[i]
                },
            forall|i: int|
                0 <= i < from_len ==> #[trigger] from.buffer(source)[i] == if i < index {
                    None
                } else {
                    old(from).buffer(source)[i]
                },
        decreases count - index,
    {
        let ghost from_before = *from;
        let ghost to_before = *to;
        match from.take(source, index) {
            Some(value) => {
                to.write(target, index, value);
            },
            None => {
                let _ = to.take(target, index);
            },
        }
        proof {
            from.lemma_alike_chain(&from_before, old(from));
            to.lemma_alike_chain(&to_before, old(to));
        }
        index = index + 1;
    }
}

} // verus!
