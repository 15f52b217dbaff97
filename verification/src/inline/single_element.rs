//! Simple implementation of `SingleElementStorage<T>`.

use core::marker::PhantomData;
use vstd::prelude::*;

use crate::alternative::builder::{Builder, DefaultBuilder};
use crate::traits::{ElementStorage, SingleElementStorage, Storage};
use crate::utils::{
    layout_of, spec_validate_layout, validate_layout_for, AllocError, Layout, Metadata,
};

verus! {

/// Generic inline SingleElementStorage.
///
/// `S` is the underlying storage, used to specify the size and alignment: the storage
/// is one value of `S`, in which it keeps an element of `T`.
pub struct SingleElement<S, T> {
    allocated: Option<Layout>,
    data: Option<T>,
    _marker: PhantomData<S>,
}

/// Handle of SingleElementStorage.
#[derive(Clone, Copy, Debug)]
pub struct SingleElementHandle {
    /// The metadata of the pointee.
    pub meta: Metadata,
}

impl<S, T> SingleElement<S, T> {
    /// The layout that the slot is allocated for, if it is allocated.
    pub closed spec fn allocation(&self) -> Option<Layout> {
        self.allocated
    }

    /// What the slot holds.
    pub closed spec fn content(&self) -> Option<T> {
        self.data
    }

    /// Creates an instance of SingleElement, whose slot is neither allocated nor
    /// initialized.
    pub fn new() -> (r: Self)
        ensures
            r.allocation() is None,
            r.content() is None,
    {
        Self { allocated: None, data: None, _marker: PhantomData }
    }
}

impl<S, T> Default for SingleElement<S, T> {
    fn default() -> (r: Self)
        ensures
            r.allocation() is None,
            r.content() is None,
    {
        Self::new()
    }
}

impl<S, T> Storage for SingleElement<S, T> {
    open spec fn wf(&self) -> bool {
        true
    }

    open spec fn alike(&self, other: &Self) -> bool {
        true
    }

    open spec fn steadfast() -> bool {
        true
    }

    open spec fn allocations(&self) -> nat {
        0
    }

    open spec fn deallocations(&self) -> nat {
        0
    }

    proof fn lemma_alike_self(&self) {
    }

    proof fn lemma_alike_chain(&self, second: &Self, third: &Self) {
    }
}

impl<S, T> ElementStorage<T> for SingleElement<S, T> {
    type Handle = SingleElementHandle;

    open spec fn valid(&self, handle: Self::Handle) -> bool {
        self.allocation() is Some && self.allocation() == handle.meta.spec_layout()
    }

    open spec fn value(&self, handle: Self::Handle) -> Option<T> {
        self.content()
    }

    open spec fn metadata(handle: Self::Handle) -> Metadata {
        handle.meta
    }

    open spec fn same_slot(a: Self::Handle, b: Self::Handle) -> bool {
        true
    }

    open spec fn accepts(&self, meta: Metadata) -> bool {
        spec_validate_layout::<S>(meta)
    }

    open spec fn allocation_calls(&self, meta: Metadata) -> nat {
        0
    }

    open spec fn release_calls(handle: Self::Handle) -> nat {
        0
    }

    proof fn lemma_alike_accepts(&self, other: &Self, meta: Metadata) {
    }

    fn deallocate(&mut self, handle: Self::Handle)
        ensures
            final(self).allocation() is None,
            final(self).content() is None,
    {
        self.allocated = None;
    }

    fn get(&self, handle: Self::Handle) -> (r: Option<&T>) {
        self.data.as_ref()
    }

    fn write(&mut self, handle: Self::Handle, value: T)
        ensures
            final(self).allocation() == old(self).allocation(),
    {
        self.data = Some(value);
    }

    fn take(&mut self, handle: Self::Handle) -> (r: Option<T>)
        ensures
            final(self).allocation() == old(self).allocation(),
    {
        self.data.take()
    }

    fn destroy(&mut self, handle: Self::Handle)
        ensures
            final(self).allocation() is None,
            final(self).content() is None,
    {
        self.data = None;
        self.allocated = None;
    }

    fn coerce(&self, handle: Self::Handle, target: Metadata) -> (r: Self::Handle)
        ensures
            r.meta == target,
    {
        SingleElementHandle { meta: target }
    }
}

impl<S, T> SingleElementStorage<T> for SingleElement<S, T> {
    /// Succeeds exactly when the pointee fits a value of `S`, in size and in alignment.
    /// A request that fails leaves the storage as it was.
    fn allocate(&mut self, meta: Metadata) -> (r: Result<Self::Handle, AllocError>)
        ensures
            r is Err ==> *final(self) == *old(self),
            r matches Ok(h) ==> h.meta == meta && final(self).allocation() == meta.spec_layout(),
    {
        let layout = layout_of(meta)?;
        validate_layout_for::<S>(layout)?;
        self.allocated = Some(layout);
        self.data = None;
        Ok(SingleElementHandle { meta })
    }

    /// Succeeds exactly when a value of `T` fits a value of `S`, in size and in
    /// alignment. A value that does not fit is handed back, and the storage is left as
    /// it was.
    fn create(&mut self, value: T) -> (r: Result<Self::Handle, T>)
        ensures
            r is Err ==> *final(self) == *old(self),
            r matches Ok(h) ==> h.meta == Metadata::spec_sized::<T>() && final(self).allocation()
                == Some(Layout::spec_new::<T>()) && final(self).content() == Some(value),
    {
        let meta = Metadata::sized::<T>();
        match self.allocate(meta) {
            Ok(handle) => {
                self.write(handle, value);
                Ok(handle)
            },
            Err(_) => Err(value),
        }
    }
}

impl<S, T> Builder<SingleElement<S, T>> for DefaultBuilder {
    open spec fn wf(&self) -> bool {
        true
    }

    open spec fn spec_into_storage(self) -> SingleElement<S, T> {
        arbitrary()
    }

    open spec fn spec_from_storage(storage: SingleElement<S, T>) -> Self {
        DefaultBuilder
    }

    open spec fn allocations(&self) -> nat {
        0
    }

    open spec fn deallocations(&self) -> nat {
        0
    }

    fn from_storage(storage: SingleElement<S, T>) -> (r: Self) {
        DefaultBuilder
    }

    /// The storage is new: its slot is neither allocated nor initialized.
    fn into_storage(self) -> (r: SingleElement<S, T>)
        ensures
            SingleElement::<S, T>::allocation(&r) is None,
            SingleElement::<S, T>::content(&r) is None,
    {
        SingleElement::new()
    }
}

} // verus!
