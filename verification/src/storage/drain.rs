//! Draining of a storage.

use hibitset::BitSet;
use vstd::prelude::*;

use super::{MaskedMut, MaskedRef, MaskedStorage, Storage, UnprotectedStorage};
use crate::bits;
use crate::bits::bitset_clone;
use crate::join::Join;
use crate::world::{Component, Index};

verus! {

/// A draining storage wrapper: whoever holds it takes components out of the
/// masked storage.
pub struct Drain<'a, T: Component> {
    /// The masked storage that is drained.
    pub data: &'a mut MaskedStorage<T>,
}

impl<'a: 'v, 'v, T> Join<'v> for Drain<'a, T> where T: Component + 'v, T::Storage: 'v {
    type Type = T;

    type Value = &'a mut MaskedStorage<T>;

    type Mask = BitSet;

    open spec fn joinable(self) -> bool {
        self.data.wf()
    }

    open spec fn mask_has(mask: BitSet, id: Index) -> bool {
        bits::members(mask).contains(id)
    }

    open spec fn value_has(value: &'a mut MaskedStorage<T>, id: Index) -> bool {
        value.wf() && value.indices().contains(id)
    }

    /// Opens into a copy of the mask, which does not follow the draining, and
    /// into the masked storage itself.
    fn open(self) -> (opened: (BitSet, &'a mut MaskedStorage<T>))
        ensures
            bits::members(opened.0) == old(self.data).indices(),
            *opened.1 == *old(self.data),
            *final(opened.1) == *final(self.data),
    {
        let mask = bitset_clone(&self.data.mask);
        (mask, self.data)
    }

    /// Takes the component under the index out of the masked storage.
    fn get(value: &'v mut &'a mut MaskedStorage<T>, id: Index) -> (item: T)
        ensures
            item == old(value)@[id],
            final(value).lacks(**old(value), id),
            exists|inner: &mut T::Storage|
                {
                    &&& *inner == old(value).inner()
                    &&& *final(inner) == final(value).inner()
                    &&& #[trigger] call_ensures(
                        <T::Storage as UnprotectedStorage<T>>::remove,
                        (inner, id),
                        item,
                    )
                },
            *final(*final(value)) == *final(*old(value)),
    {
        value.remove(id).unwrap()
    }
}

impl<'e, T, D> Storage<'e, T, D> where T: Component, D: MaskedMut<T> {
    /// Creates a draining storage wrapper which can be `.join`ed
    /// to get a draining iterator.
    pub fn drain(&mut self) -> (drain: Drain<'_, T>)
        ensures
            *drain.data == old(self).masked(),
            final(self).masked() == *final(drain.data),
            final(self).entities() == old(self).entities(),
            exists|data: &mut D, masked: &mut MaskedStorage<T>|
                {
                    &&& *data == old(self).data()
                    &&& *final(data) == final(self).data()
                    &&& #[trigger] call_ensures(
                        <D as MaskedMut<T>>::borrow_masked_mut,
                        (data,),
                        masked,
                    )
                },
    {
        Drain { data: self.data.borrow_masked_mut() }
    }
}

} // verus!
