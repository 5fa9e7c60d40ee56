//! Inverted storages.

use std::ops::Not;

use hibitset::BitSet;
use vstd::prelude::*;

use super::{DistinctStorage, MaskedRef, Storage};
use crate::bits;
use crate::bits::{bitset_not, InvertedMask};
use crate::join::{Join, ParJoin};
use crate::world::{Component, Index};

verus! {

/// An inverted storage type, only useful to iterate entities
/// that do not have a particular component type.
pub struct AntiStorage<'a>(&'a BitSet);

impl<'a> AntiStorage<'a> {
    /// The indices that have a component, which the inverted storage leaves
    /// out.
    pub closed spec fn excluded(self) -> Set<Index> {
        bits::members(*self.0)
    }

    /// Returns the bitset of the indices that are left out, for callers that
    /// walk its inversion.
    pub fn mask(&self) -> (mask: &'a BitSet)
        ensures
            bits::members(*mask) == self.excluded(),
    {
        self.0
    }
}

impl<'a, 'v> Join<'v> for AntiStorage<'a> {
    type Type = ();

    type Value = ();

    type Mask = InvertedMask<'a>;

    open spec fn joinable(self) -> bool {
        true
    }

    open spec fn mask_has(mask: InvertedMask<'a>, id: Index) -> bool {
        bits::inverted_members(mask).contains(id)
    }

    open spec fn value_has(value: (), id: Index) -> bool {
        true
    }

    fn open(self) -> (opened: (InvertedMask<'a>, ()))
        ensures
            bits::inverted_members(opened.0) == self.excluded().complement(),
    {
        (bitset_not(self.0), ())
    }

    fn get(_value: &'v mut (), _id: Index) -> (item: ()) {
        ()
    }
}

impl<'a> DistinctStorage for AntiStorage<'a> {

}

impl<'a, 'v> ParJoin<'v> for AntiStorage<'a> {

}

impl<'a, 'e, T, D> vstd::std_specs::ops::NotSpecImpl for &'a Storage<'e, T, D> where
    T: Component,
    D: MaskedRef<T>,
 {
    open spec fn obeys_not_spec() -> bool {
        true
    }

    open spec fn not_req(self) -> bool {
        true
    }

    closed spec fn not_spec(self) -> AntiStorage<'a> {
        AntiStorage(&self.masked().mask)
    }
}

impl<'a, 'e, T, D> Not for &'a Storage<'e, T, D> where
    T: Component,
    D: MaskedRef<T>,
 {
    type Output = AntiStorage<'a>;

    fn not(self) -> (anti: AntiStorage<'a>)
        ensures
            anti.excluded() == self.masked().indices(),
    {
        AntiStorage(&self.data.borrow_masked().mask)
    }
}

} // verus!
