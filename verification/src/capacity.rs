//! Compact capacity types for range storages.

use vstd::prelude::*;

verus! {

/// A numeric type in which a range storage counts its elements.
///
/// A storage that can never hold more than 255 elements may count them in a byte.
pub trait Capacity: Sized + Copy {
    /// The number that a value of this type stands for.
    spec fn spec_into_usize(self) -> usize;

    /// The largest number that this type can represent.
    spec fn spec_max() -> usize;

    /// The value of this type that stands for `capacity`, if there is one.
    spec fn spec_from_usize(capacity: usize) -> Option<Self>;

    /// Converting back and forth loses nothing, and no value exceeds the maximum.
    proof fn lemma_round_trip(c: Self)
        ensures
            c.spec_into_usize() <= Self::spec_max(),
            Self::spec_from_usize(c.spec_into_usize()) == Some(c),
    ;

    /// Exactly the numbers up to the maximum are represented, each by the value that
    /// converts back to it.
    proof fn lemma_from_usize(capacity: usize)
        ensures
            Self::spec_from_usize(capacity).is_some() <==> capacity <= Self::spec_max(),
            Self::spec_from_usize(capacity).is_some() ==> Self::spec_from_usize(
                capacity,
            ).unwrap().spec_into_usize() == capacity,
    ;

    /// The maximum possible value of this type.
    fn max() -> (r: Self)
        ensures
            r.spec_into_usize() == Self::spec_max(),
    ;

    /// Creates a value from `capacity`, if it fits.
    fn from_usize(capacity: usize) -> (r: Option<Self>)
        ensures
            r == Self::spec_from_usize(capacity),
            r.is_some() <==> capacity <= Self::spec_max(),
            r.is_some() ==> r.unwrap().spec_into_usize() == capacity,
    ;

    /// Converts back to `usize`, without loss.
    fn into_usize(self) -> (r: usize)
        ensures
            r == self.spec_into_usize(),
            r <= Self::spec_max(),
    ;
}

impl Capacity for usize {
    open spec fn spec_into_usize(self) -> usize {
        self
    }

    open spec fn spec_max() -> usize {
        usize::MAX
    }

    open spec fn spec_from_usize(capacity: usize) -> Option<Self> {
        Some(capacity)
    }

    proof fn lemma_round_trip(c: Self) {
    }

    proof fn lemma_from_usize(capacity: usize) {
    }

    fn max() -> (r: Self) {
        usize::MAX
    }

    fn from_usize(capacity: usize) -> (r: Option<Self>) {
        Some(capacity)
    }

    fn into_usize(self) -> (r: usize) {
        self
    }
}

impl Capacity for u8 {
    open spec fn spec_into_usize(self) -> usize {
        self as usize
    }

    open spec fn spec_max() -> usize {
        0xff
    }

    open spec fn spec_from_usize(capacity: usize) -> Option<Self> {
        if capacity <= 0xff {
            Some(capacity as u8)
        } else {
            None
        }
    }

    proof fn lemma_round_trip(c: Self) {
    }

    proof fn lemma_from_usize(capacity: usize) {
    }

    fn max() -> (r: Self) {
        u8::MAX
    }

    fn from_usize(capacity: usize) -> (r: Option<Self>) {
        if capacity <= 0xff {
            Some(capacity as u8)
        } else {
            None
        }
    }

    fn into_usize(self) -> (r: usize) {
        self as usize
    }
}

impl Capacity for u16 {
    open spec fn spec_into_usize(self) -> usize {
        self as usize
    }

    open spec fn spec_max() -> usize {
        0xffff
    }

    open spec fn spec_from_usize(capacity: usize) -> Option<Self> {
        if capacity <= 0xffff {
            Some(capacity as u16)
        } else {
            None
        }
    }

    proof fn lemma_round_trip(c: Self) {
    }

    proof fn lemma_from_usize(capacity: usize) {
    }

    fn max() -> (r: Self) {
        u16::MAX
    }

    fn from_usize(capacity: usize) -> (r: Option<Self>) {
        if capacity <= 0xffff {
            Some(capacity as u16)
        } else {
            None
        }
    }

    fn into_usize(self) -> (r: usize) {
        self as usize
    }
}

impl Capacity for u32 {
    open spec fn spec_into_usize(self) -> usize {
        self as usize
    }

    open spec fn spec_max() -> usize {
        0xffff_ffff
    }

    open spec fn spec_from_usize(capacity: usize) -> Option<Self> {
        if capacity <= 0xffff_ffff {
            Some(capacity as u32)
        } else {
            None
        }
    }

    proof fn lemma_round_trip(c: Self) {
    }

    proof fn lemma_from_usize(capacity: usize) {
    }

    fn max() -> (r: Self) {
        u32::MAX
    }

    fn from_usize(capacity: usize) -> (r: Option<Self>) {
        if capacity <= 0xffff_ffff {
            Some(capacity as u32)
        } else {
            None
        }
    }

    fn into_usize(self) -> (r: usize) {
        self as usize
    }
}

/// For every capacity type, converting a value to `usize` and back yields the value,
/// and a number above the type's maximum has no representation.
pub proof fn lemma_capacity_round_trip<C: Capacity>(c: C, n: usize)
    ensures
        C::spec_from_usize(c.spec_into_usize()) == Some(c),
        n > C::spec_max() ==> C::spec_from_usize(n).is_none(),
        C::spec_max() == C::spec_from_usize(C::spec_max()).unwrap().spec_into_usize(),
{
    C::lemma_round_trip(c);
    C::lemma_from_usize(n);
    C::lemma_from_usize(C::spec_max());
}

} // verus!
