//! Joining of storages: a mask of indices, and a value for each of them.

use vstd::prelude::*;

use crate::world::Index;

verus! {

/// Something that can be iterated over by index. It opens into a mask, and into
/// a value which gives an item for each index of the mask.
///
/// `'v` is the lifetime for which the opened value is borrowed while one item
/// is in use.
pub trait Join<'v>: Sized {
    /// The items.
    type Type;

    /// The opened value which gives the items.
    type Value: 'v;

    /// The mask of the indices for which there are items.
    type Mask;

    /// Whether this can be opened.
    spec fn joinable(self) -> bool;

    /// Whether an index is in the mask.
    spec fn mask_has(mask: Self::Mask, id: Index) -> bool;

    /// Whether the opened value can give an item for an index.
    spec fn value_has(value: Self::Value, id: Index) -> bool;

    /// Opens this into its mask and its value. The value can give an item for
    /// every index in the mask.
    fn open(self) -> (opened: (Self::Mask, Self::Value))
        requires
            self.joinable(),
        ensures
            forall|id: Index|
                Self::mask_has(opened.0, id) ==> #[trigger] Self::value_has(opened.1, id),
    ;

    /// Gets the item for an index. For every other index the value can still
    /// give an item where it could give one. Whether it can give one for the
    /// same index again depends on what is joined: an item may be moved out.
    fn get(value: &'v mut Self::Value, id: Index) -> (item: Self::Type)
        requires
            Self::value_has(*old(value), id),
        ensures
            forall|i: Index|
                i != id && Self::value_has(*old(value), i) ==> #[trigger] Self::value_has(
                    *final(value),
                    i,
                ),
    ;
}

/// Marks a [`Join`] whose items for different indices may be used by different
/// threads at the same time.
pub trait ParJoin<'v>: Join<'v> {

}

} // verus!
