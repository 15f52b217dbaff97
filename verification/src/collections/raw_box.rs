//! Proof-of-Concept implementation of a Box parameterized by a Storage.

use vstd::pervasive::unreached;
use vstd::prelude::*;

use crate::traits::{ElementStorage, SingleElementStorage, Storage};
use crate::utils::{Layout, Metadata};

verus! {

/// A PoC Box.
pub struct RawBox<T, S: SingleElementStorage<T>> {
    storage: S,
    handle: S::Handle,
    meta: Metadata,
}

impl<T, S: SingleElementStorage<T>> RawBox<T, S> {
    /// The storage behind the box.
    pub closed spec fn spec_storage(&self) -> S {
        self.storage
    }

    /// The handle of the slot that holds the value.
    pub closed spec fn spec_handle(&self) -> S::Handle {
        self.handle
    }

    /// The metadata through which the value is seen.
    pub closed spec fn spec_metadata(&self) -> Metadata {
        self.meta
    }

    /// The invariant: the handle is valid, its slot holds a value, and the metadata
    /// describes a pointee laid out as a value of `T` is.
    pub open spec fn wf(&self) -> bool {
        &&& self.spec_storage().wf()
        &&& self.spec_storage().valid(self.spec_handle())
        &&& self.spec_storage().value(self.spec_handle()) is Some
        &&& S::metadata(self.spec_handle()) == self.spec_metadata()
        &&& self.spec_metadata().spec_layout() == Some(Layout::spec_new::<T>())
    }

    /// The value in the box.
    pub open spec fn view(&self) -> T {
        self.spec_storage().value(self.spec_handle()).unwrap()
    }

    /// Creates an instance of Self, containing `value` stored in `storage`.
    ///
    /// Where the storage does not accept the value, both are handed back.
    pub fn new(value: T, storage: S) -> (r: Result<Self, (T, S)>)
        requires
            storage.wf(),
        ensures
            r.is_ok() <==> storage.accepts(Metadata::spec_sized::<T>()),
            r matches Ok(boxed) ==> boxed.wf() && boxed@ == value && boxed.spec_metadata()
                == Metadata::spec_sized::<T>(),
            r matches Err(back) ==> back.0 == value && back.1.wf() && back.1.allocations()
                == storage.allocations() + storage.allocation_calls(Metadata::spec_sized::<T>())
                && back.1.deallocations() == storage.deallocations(),
            r matches Ok(boxed) ==> boxed.spec_storage().allocations() == storage.allocations()
                + storage.allocation_calls(Metadata::spec_sized::<T>())
                && boxed.spec_storage().deallocations() == storage.deallocations(),
    {
        let mut storage = storage;
        match storage.create(value) {
            Ok(handle) => Ok(RawBox { storage, handle, meta: Metadata::sized::<T>() }),
            Err(value) => Err((value, storage)),
        }
    }

    /// Coerces to another Box: the same value in the same slot, seen as the dynamically
    /// sized pointee that `target` describes.
    pub fn coerce(self, target: Metadata) -> (r: Self)
        requires
            self.wf(),
            self.spec_metadata().unsizes_to(target),
        ensures
            r.wf(),
            r@ == self@,
            r.spec_metadata() == target,
            r.spec_storage() == self.spec_storage(),
    {
        let handle = self.storage.coerce(self.handle, target);
        RawBox { storage: self.storage, handle, meta: target }
    }

    /// Switch to another storage, if possible.
    ///
    /// Where the new storage does not accept the pointee, the box is handed back as it
    /// was: the new storage is dropped with whatever the refused request has cost it.
    /// Otherwise the value moves over, its slot in the old storage is deallocated, and
    /// the old storage is dropped.
    pub fn try_in<NS: SingleElementStorage<T>>(this: Self, new_storage: NS) -> (r: Result<
        RawBox<T, NS>,
        RawBox<T, S>,
    >)
        requires
            this.wf(),
            new_storage.wf(),
        ensures
            r.is_ok() <==> new_storage.accepts(this.spec_metadata()),
            r matches Ok(boxed) ==> boxed.wf() && boxed@ == this@ && boxed.spec_metadata()
                == this.spec_metadata(),
            r matches Err(boxed) ==> boxed == this,
            r matches Ok(boxed) ==> boxed.spec_storage().allocations()
                == new_storage.allocations() + new_storage.allocation_calls(this.spec_metadata())
                && boxed.spec_storage().deallocations() == new_storage.deallocations(),
    {
        let mut new_storage = new_storage;
        let new_handle = match new_storage.allocate(this.meta) {
            Ok(new_handle) => new_handle,
            Err(_) => {
                return Err(this);
            },
        };
        let RawBox { storage, handle, meta } = this;
        let mut old_storage = storage;
        match old_storage.take(handle) {
            Some(value) => {
                new_storage.write(new_handle, value);
            },
            None => {},
        }
        old_storage.deallocate(handle);

        Ok(RawBox { storage: new_storage, handle: new_handle, meta })
    }

    /// The value in the box.
    pub fn get(&self) -> (r: &T)
        requires
            self.wf(),
        ensures
            *r == self@,
    {
        match self.storage.get(self.handle) {
            Some(value) => value,
            None => unreached(),
        }
    }

    /// Replaces the value in the box, and returns the one that it held.
    pub fn set(&mut self, value: T) -> (r: T)
        requires
            old(self).wf(),
        ensures
            final(self).wf(),
            final(self)@ == value,
            r == old(self)@,
            final(self).spec_metadata() == old(self).spec_metadata(),
            final(self).spec_handle() == old(self).spec_handle(),
            final(self).spec_storage().allocations() == old(self).spec_storage().allocations(),
            final(self).spec_storage().deallocations() == old(self).spec_storage().deallocations(),
    {
        let previous = match self.storage.take(self.handle) {
            Some(previous) => previous,
            None => unreached(),
        };
        self.storage.write(self.handle, value);
        previous
    }

    /// The metadata through which the value is seen.
    pub fn metadata(&self) -> (r: Metadata)
        ensures
            r == self.spec_metadata(),
    {
        self.meta
    }

    /// The storage behind the box.
    pub fn storage(&self) -> (r: &S)
        ensures
            *r == self.spec_storage(),
    {
        &self.storage
    }

    /// Destroys the value, and gives up the box for its storage.
    pub fn into_storage(self) -> (r: S)
        requires
            self.wf(),
        ensures
            r.wf(),
            !r.valid(self.spec_handle()),
            r.allocations() == self.spec_storage().allocations(),
            r.deallocations() == self.spec_storage().deallocations() + S::release_calls(
                self.spec_handle(),
            ),
    {
        let RawBox { storage, handle, meta } = self;
        let mut storage = storage;
        storage.destroy(handle);
        storage
    }
}

} // verus!
