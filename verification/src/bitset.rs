//! Bit sets used by the header parser for the "defined" flags of CRCs,
//! empty streams, empty files, and anti items.
//!
//! The sets are held in `bit_set::BitSet` values behind an opaque handle
//! (the crate's generic bound cannot be declared to the verifier); their
//! contents are named by `bits_of`, a set of the indices that are present,
//! and each method the parser calls is wrapped with a contract over that
//! name.

use vstd::prelude::*;

verus! {

/// Holds a `bit_set::BitSet`; opaque to the verifier.
#[verifier::external_body]
pub struct Bits {
    inner: bit_set::BitSet,
}

/// The set of indices present in a bit set.
pub uninterp spec fn bits_of(s: Bits) -> Set<int>;

impl Bits {
    /// Relies on bit_set::BitSet::with_capacity: the new set has no contents.
    #[verifier::external_body]
    pub fn with_capacity(nbits: usize) -> (r: Bits)
        ensures
            bits_of(r) == Set::<int>::empty(),
    {
        Bits { inner: bit_set::BitSet::with_capacity(nbits) }
    }

    /// Relies on bit_set::BitSet::insert: afterwards the value is present,
    /// nothing else changes; the result says whether it was absent before.
    #[verifier::external_body]
    pub fn insert(&mut self, value: usize) -> (r: bool)
        ensures
            bits_of(*final(self)) == bits_of(*old(self)).insert(value as int),
            r == !bits_of(*old(self)).contains(value as int),
    {
        self.inner.insert(value)
    }

    /// Relies on bit_set::BitSet::remove: afterwards the value is absent,
    /// nothing else changes; the result says whether it was present before.
    #[verifier::external_body]
    pub fn remove(&mut self, value: usize) -> (r: bool)
        ensures
            bits_of(*final(self)) == bits_of(*old(self)).remove(value as int),
            r == bits_of(*old(self)).contains(value as int),
    {
        self.inner.remove(value)
    }

    /// Relies on bit_set::BitSet::contains: membership of the given index.
    #[verifier::external_body]
    pub fn contains(&self, value: usize) -> (r: bool)
        ensures
            r == bits_of(*self).contains(value as int),
    {
        self.inner.contains(value)
    }
}

} // verus!
