//! Storages that rely on an external mask.

use hibitset::BitSet;
use vstd::prelude::*;

use crate::bits;
use crate::world::Index;

verus! {

/// Tries to create a default value, returns an `Err` with the name of the
/// storage and/or component if there's no default.
pub trait TryDefault: Sized {
    /// Whether `try_default` may return this result.
    spec fn may_default(result: Result<Self, String>) -> bool;

    /// Tries to create the default.
    fn try_default() -> (result: Result<Self, String>)
        ensures
            Self::may_default(result),
    ;

    /// Calls `try_default` and hands out its value. There has to be a default.
    fn unwrap_default() -> (value: Self)
        requires
            forall|message: String| !Self::may_default(Err(message)),
        ensures
            Self::may_default(Ok(value)),
    {
        match Self::try_default() {
            Ok(x) => x,
            Err(e) => {
                assert(Self::may_default(Err(e)));
                vstd::pervasive::unreached()
            },
        }
    }
}

impl<T> TryDefault for T where T: Default {
    open spec fn may_default(result: Result<Self, String>) -> bool {
        result matches Ok(value) && call_ensures(T::default, (), value)
    }

    fn try_default() -> (result: Result<Self, String>) {
        Ok(T::default())
    }
}

/// Used by the framework to quickly join components.
///
/// A storage does not know which of its data are valid: a mask kept beside it
/// does. All that is asked of an index is asked of [`contents`], the data that
/// are associated with indices.
///
/// [`contents`]: UnprotectedStorage::contents
pub trait UnprotectedStorage<T>: TryDefault {
    /// The data associated with indices.
    spec fn contents(&self) -> Map<Index, T>;

    /// The invariant of the storage.
    spec fn wf(&self) -> bool;

    /// What `clean` makes of the storage `before`, given the valid indices
    /// `has`. A storage may give up data or keep them: they are not used again.
    spec fn cleaned(before: Self, has: Set<Index>, after: Self) -> bool;

    /// A default storage meets the invariant.
    proof fn default_is_valid(storage: Self)
        requires
            Self::may_default(Ok(storage)),
        ensures
            storage.wf(),
    ;

    /// Clean the storage given a bitset with bits set for valid indices.
    /// Allows us to safely drop the storage.
    fn clean(&mut self, has: &BitSet)
        requires
            old(self).wf(),
            bits::members(*has).subset_of(old(self).contents().dom()),
        ensures
            final(self).wf(),
            Self::cleaned(*old(self), bits::members(*has), *final(self)),
    ;

    /// Reads the data associated with an `Index`.
    fn get(&self, id: Index) -> (value: &T)
        requires
            self.wf(),
            self.contents().contains_key(id),
        ensures
            *value == self.contents()[id],
    ;

    /// Gives the data associated with an `Index` for mutation.
    fn get_mut(&mut self, id: Index) -> (value: &mut T)
        requires
            old(self).wf(),
            old(self).contents().contains_key(id),
        ensures
            final(self).wf(),
            *value == old(self).contents()[id],
            final(self).contents() == old(self).contents().insert(id, *final(value)),
    ;

    /// Inserts new data for a given `Index`.
    fn insert(&mut self, id: Index, value: T)
        requires
            old(self).wf(),
        ensures
            final(self).wf(),
            final(self).contents() == old(self).contents().insert(id, value),
    ;

    /// Removes the data associated with an `Index`.
    fn remove(&mut self, id: Index) -> (value: T)
        requires
            old(self).wf(),
            old(self).contents().contains_key(id),
        ensures
            final(self).wf(),
            value == old(self).contents()[id],
            final(self).contents() == old(self).contents().remove(id),
    ;

    /// Drops the data associated with an `Index`.
    fn drop(&mut self, id: Index)
        requires
            old(self).wf(),
            old(self).contents().contains_key(id),
        ensures
            final(self).wf(),
            final(self).contents() == old(self).contents().remove(id),
        default_ensures
            exists|storage: &mut Self, value: T|
                {
                    &&& *storage == *old(self)
                    &&& *final(storage) == *final(self)
                    &&& #[trigger] call_ensures(Self::remove, (storage, id), value)
                },
    {
        self.remove(id);
    }
}

/// Whether cleaning a storage of exactly what it holds leaves nothing in it.
pub open spec fn cleaning_empties<T, S: UnprotectedStorage<T>>() -> bool {
    forall|before: S, after: S|
        #[trigger] S::cleaned(before, before.contents().dom(), after) ==> after.contents()
            == Map::<Index, T>::empty()
}

/// This is a marker trait which requires you to uphold the following guarantee:
///
/// > Multiple threads may call `get_mut()` with distinct indices without causing
/// > undefined behavior.
///
/// This is for example valid for `Vec`:
///
/// ```rust
/// vec![1, 2, 3];
/// ```
///
/// We may modify both element 1 and 2 at the same time; indexing the vector
/// mutably does not modify anything else than the respective elements.
///
/// As a counter example, we may have some kind of cached storage; it caches
/// elements when they're retrieved, so pushes a new element to some
/// cache-vector. This storage is not allowed to implement `DistinctStorage`.
///
/// Implementing this trait marks the storage safe for concurrent mutation (of
/// distinct elements), thus allows joining it in parallel.
pub trait DistinctStorage {

}

} // verus!
