//! The part of `hibitset` that the storages rely on.
//!
//! Everything in this file that carries a contract and no proof is a statement
//! about `hibitset`; the rest of the crate is proved on top of it.

use hibitset::{BitSet, BitSetLike, BitSetNot};
use vstd::prelude::*;

use crate::world::Index;

verus! {

/// `hibitset::BitSet`, opaque to the proofs. What a set holds is named by
/// [`members`].
#[verifier::external_type_specification]
#[verifier::external_body]
pub struct ExBitSet(BitSet);

/// The indices for which `BitSet::contains` answers `true`.
pub uninterp spec fn members(set: BitSet) -> Set<Index>;

/// The largest index that a `BitSet` takes: the fourth power of the number of
/// bits in a `usize`.
pub open spec fn max_index() -> int {
    if usize::BITS == 64 {
        0x100_0000
    } else {
        0x10_0000
    }
}

/// Calls `hibitset::BitSet::new`: the new set holds no index.
#[verifier::external_body]
pub(crate) fn bitset_new() -> (set: BitSet)
    ensures
        members(set) == Set::<Index>::empty(),
{
    BitSet::new()
}

/// Calls `hibitset::BitSet::add`: puts `id` into the set, leaves the other
/// indices as they were and tells whether `id` was there before.
///
/// `BitSet::add` panics on an index beyond [`max_index`].
#[verifier::external_body]
pub(crate) fn bitset_add(set: &mut BitSet, id: Index) -> (present: bool)
    requires
        id <= max_index(),
    ensures
        present == members(*old(set)).contains(id),
        members(*final(set)) == members(*old(set)).insert(id),
{
    set.add(id)
}

/// Calls `hibitset::BitSet::remove`: takes `id` out of the set, leaves the
/// other indices as they were and tells whether `id` was there before.
#[verifier::external_body]
pub(crate) fn bitset_remove(set: &mut BitSet, id: Index) -> (present: bool)
    ensures
        present == members(*old(set)).contains(id),
        members(*final(set)) == members(*old(set)).remove(id),
{
    set.remove(id)
}

/// Calls `hibitset::BitSet::contains`: tells whether the set holds `id`.
#[verifier::external_body]
pub(crate) fn bitset_contains(set: &BitSet, id: Index) -> (present: bool)
    ensures
        present == members(*set).contains(id),
{
    set.contains(id)
}

/// Calls `hibitset::BitSet::clear`: afterwards the set holds no index.
#[verifier::external_body]
pub(crate) fn bitset_clear(set: &mut BitSet)
    ensures
        members(*final(set)) == Set::<Index>::empty(),
{
    set.clear()
}

/// Calls `clone` of `hibitset::BitSet`: the copy holds the same indices.
#[verifier::external_body]
pub(crate) fn bitset_clone(set: &BitSet) -> (copy: BitSet)
    ensures
        members(copy) == members(*set),
{
    set.clone()
}

/// A `hibitset::BitSetNot` over a borrowed `BitSet`: the indices that the
/// borrowed set does not hold.
#[verifier::external_body]
pub struct InvertedMask<'a> {
    set: BitSetNot<&'a BitSet>,
}

/// The indices for which `BitSetNot::contains` answers `true`.
pub uninterp spec fn inverted_members(mask: InvertedMask) -> Set<Index>;

/// Constructs a `hibitset::BitSetNot` over `set`: it holds exactly the indices
/// that `set` does not hold.
#[verifier::external_body]
pub(crate) fn bitset_not<'a>(set: &'a BitSet) -> (mask: InvertedMask<'a>)
    ensures
        inverted_members(mask) == members(*set).complement(),
{
    InvertedMask { set: BitSetNot(set) }
}

/// Calls `contains` of `hibitset::BitSetNot`: tells whether the inverted set
/// holds `id`.
#[verifier::external_body]
fn bitset_not_contains(mask: &InvertedMask, id: Index) -> (present: bool)
    ensures
        present == inverted_members(*mask).contains(id),
{
    mask.set.contains(id)
}

impl<'a> InvertedMask<'a> {
    /// Tells whether `id` is in this mask, that is, missing from the mask
    /// below.
    pub fn contains(&self, id: Index) -> (present: bool)
        ensures
            present == inverted_members(*self).contains(id),
    {
        bitset_not_contains(self, id)
    }
}

} // verus!
