//! Entries: the place of one entity in a storage, with or without a component.

use vstd::prelude::*;

use super::{MaskedMut, MaskedRef, MaskedStorage, Storage, UnprotectedStorage};
use crate::bits;
use crate::bits::{bitset_add, bitset_contains};
use crate::error::WrongGeneration;
use crate::world::{Component, Entity};

verus! {

/// An entry to a storage which has a component associated to the entity.
pub struct OccupiedEntry<'a, 'b: 'a, T: 'a, D: 'a> {
    entity: Entity,
    storage: &'a mut Storage<'b, T, D>,
}

impl<'a, 'b, T, D> OccupiedEntry<'a, 'b, T, D> {
    /// The entity of the entry.
    pub closed spec fn entity(self) -> Entity {
        self.entity
    }

    /// The storage of the entry.
    pub closed spec fn storage(self) -> &'a mut Storage<'b, T, D> {
        self.storage
    }
}

impl<'a, 'b, T, D> OccupiedEntry<'a, 'b, T, D> where T: Component, D: MaskedRef<T> {
    /// The storage meets its invariant and has a component for the entity.
    pub open spec fn wf(self) -> bool {
        &&& self.storage().wf()
        &&& self.storage().masked().indices().contains(self.entity().id())
    }

    /// Get a reference to the component associated with the entity.
    pub fn get(&self) -> (component: &T)
        requires
            self.wf(),
        ensures
            *component == self.storage().masked()@[self.entity().id()],
    {
        self.storage.data.borrow_masked().inner.get(self.entity.id())
    }
}

impl<'a, 'b, T, D> OccupiedEntry<'a, 'b, T, D> where T: Component, D: MaskedMut<T> {
    /// Get a mutable reference to the component associated with the entity.
    pub fn get_mut(&mut self) -> (component: &mut T)
        requires
            old(self).wf(),
        ensures
            final(self).wf(),
            final(self).entity() == old(self).entity(),
            *component == old(self).storage().masked()@[old(self).entity().id()],
            final(self).storage().masked().stores(
                old(self).storage().masked(),
                old(self).entity().id(),
                *final(component),
            ),
            final(self).storage().entities() == old(self).storage().entities(),
            exists|inner: &mut T::Storage|
                {
                    &&& *inner == old(self).storage().masked().inner()
                    &&& *final(inner) == final(self).storage().masked().inner()
                    &&& #[trigger] call_ensures(
                        <T::Storage as UnprotectedStorage<T>>::get_mut,
                        (inner, old(self).entity().id()),
                        component,
                    )
                },
            exists|data: &mut D, masked: &mut MaskedStorage<T>|
                {
                    &&& *data == old(self).storage().data()
                    &&& *final(data) == final(self).storage().data()
                    &&& #[trigger] call_ensures(
                        <D as MaskedMut<T>>::borrow_masked_mut,
                        (data,),
                        masked,
                    )
                },
            *final(final(self).storage()) == *final(old(self).storage()),
    {
        proof {
            super::lemma_restrict_insert(
                self.storage().masked().inner().contents(),
                self.storage().masked().indices(),
                self.entity().id(),
            );
        }
        self.storage.data.borrow_masked_mut().inner.get_mut(self.entity.id())
    }

    /// Converts the `OccupiedEntry` into a mutable reference bounded by
    /// the storage's lifetime.
    pub fn into_mut(self) -> (component: &'a mut T)
        requires
            self.wf(),
        ensures
            *component == old(self.storage()).masked()@[self.entity().id()],
            final(self.storage()).masked().stores(
                old(self.storage()).masked(),
                self.entity().id(),
                *final(component),
            ),
            final(self.storage()).entities() == old(self.storage()).entities(),
            exists|inner: &mut T::Storage|
                {
                    &&& *inner == old(self.storage()).masked().inner()
                    &&& *final(inner) == final(self.storage()).masked().inner()
                    &&& #[trigger] call_ensures(
                        <T::Storage as UnprotectedStorage<T>>::get_mut,
                        (inner, self.entity().id()),
                        component,
                    )
                },
            exists|data: &mut D, masked: &mut MaskedStorage<T>|
                {
                    &&& *data == old(self.storage()).data()
                    &&& *final(data) == final(self.storage()).data()
                    &&& #[trigger] call_ensures(
                        <D as MaskedMut<T>>::borrow_masked_mut,
                        (data,),
                        masked,
                    )
                },
    {
        proof {
            super::lemma_restrict_insert(
                self.storage().masked().inner().contents(),
                self.storage().masked().indices(),
                self.entity().id(),
            );
        }
        self.storage.data.borrow_masked_mut().inner.get_mut(self.entity.id())
    }

    /// Inserts a value into the storage and returns the old one.
    pub fn insert(&mut self, component: T) -> (replaced: T)
        requires
            old(self).wf(),
        ensures
            final(self).wf(),
            final(self).entity() == old(self).entity(),
            replaced == old(self).storage().masked()@[old(self).entity().id()],
            final(self).storage().masked().stores(
                old(self).storage().masked(),
                old(self).entity().id(),
                component,
            ),
            final(self).storage().entities() == old(self).storage().entities(),
            exists|inner: &mut T::Storage, slot: &mut T|
                {
                    &&& *inner == old(self).storage().masked().inner()
                    &&& *final(inner) == final(self).storage().masked().inner()
                    &&& *final(slot) == component
                    &&& #[trigger] call_ensures(
                        <T::Storage as UnprotectedStorage<T>>::get_mut,
                        (inner, old(self).entity().id()),
                        slot,
                    )
                },
            exists|data: &mut D, masked: &mut MaskedStorage<T>|
                {
                    &&& *data == old(self).storage().data()
                    &&& *final(data) == final(self).storage().data()
                    &&& #[trigger] call_ensures(
                        <D as MaskedMut<T>>::borrow_masked_mut,
                        (data,),
                        masked,
                    )
                },
            *final(final(self).storage()) == *final(old(self).storage()),
    {
        let mut component = component;
        std::mem::swap(&mut component, self.get_mut());
        component
    }

    /// Removes the component from the storage and returns it.
    pub fn remove(self) -> (removed: T)
        requires
            self.wf(),
        ensures
            removed == old(self.storage()).masked()@[self.entity().id()],
            final(self.storage()).masked().lacks(
                old(self.storage()).masked(),
                self.entity().id(),
            ),
            final(self.storage()).entities() == old(self.storage()).entities(),
            exists|inner: &mut T::Storage|
                {
                    &&& *inner == old(self.storage()).masked().inner()
                    &&& *final(inner) == final(self.storage()).masked().inner()
                    &&& #[trigger] call_ensures(
                        <T::Storage as UnprotectedStorage<T>>::remove,
                        (inner, self.entity().id()),
                        removed,
                    )
                },
            exists|data: &mut D, masked: &mut MaskedStorage<T>|
                {
                    &&& *data == old(self.storage()).data()
                    &&& *final(data) == final(self.storage()).data()
                    &&& #[trigger] call_ensures(
                        <D as MaskedMut<T>>::borrow_masked_mut,
                        (data,),
                        masked,
                    )
                },
    {
        self.storage.data.borrow_masked_mut().remove(self.entity.id()).unwrap()
    }
}

/// An entry to a storage which does not have a component associated to the entity.
pub struct VacantEntry<'a, 'b: 'a, T: 'a, D: 'a> {
    entity: Entity,
    storage: &'a mut Storage<'b, T, D>,
}

impl<'a, 'b, T, D> VacantEntry<'a, 'b, T, D> {
    /// The entity of the entry.
    pub closed spec fn entity(self) -> Entity {
        self.entity
    }

    /// The storage of the entry.
    pub closed spec fn storage(self) -> &'a mut Storage<'b, T, D> {
        self.storage
    }
}

impl<'a, 'b, T, D> VacantEntry<'a, 'b, T, D> where T: Component, D: MaskedRef<T> {
    /// The storage meets its invariant and has no component for the entity.
    pub open spec fn wf(self) -> bool {
        &&& self.storage().wf()
        &&& !self.storage().masked().indices().contains(self.entity().id())
    }
}

impl<'a, 'b, T, D> VacantEntry<'a, 'b, T, D> where T: Component, D: MaskedMut<T> {
    /// Inserts a value into the storage.
    pub fn insert(self, component: T) -> (inserted: &'a mut T)
        requires
            self.wf(),
            self.entity().id() <= bits::max_index(),
        ensures
            *inserted == component,
            final(self.storage()).masked().stores(
                old(self.storage()).masked(),
                self.entity().id(),
                *final(inserted),
            ),
            final(self.storage()).entities() == old(self.storage()).entities(),
            exists|inner: &mut T::Storage, lent: &mut T::Storage|
                {
                    &&& *inner == old(self.storage()).masked().inner()
                    &&& #[trigger] call_ensures(
                        <T::Storage as UnprotectedStorage<T>>::insert,
                        (inner, self.entity().id(), component),
                        (),
                    )
                    &&& *final(inner) == *lent
                    &&& #[trigger] call_ensures(
                        <T::Storage as UnprotectedStorage<T>>::get_mut,
                        (lent, self.entity().id()),
                        inserted,
                    )
                    &&& *final(lent) == final(self.storage()).masked().inner()
                },
            exists|data: &mut D, masked: &mut MaskedStorage<T>|
                {
                    &&& *data == old(self.storage()).data()
                    &&& *final(data) == final(self.storage()).data()
                    &&& #[trigger] call_ensures(
                        <D as MaskedMut<T>>::borrow_masked_mut,
                        (data,),
                        masked,
                    )
                },
    {
        let id = self.entity.id();
        proof {
            super::lemma_restrict_insert(
                self.storage().masked().inner().contents(),
                self.storage().masked().indices(),
                id,
            );
        }
        let ghost contents = self.storage().masked().inner().contents();
        let masked = self.storage.data.borrow_masked_mut();
        bitset_add(&mut masked.mask, id);
        masked.inner.insert(id, component);
        proof {
            assert forall|value: T|
                #[trigger] contents.insert(id, component).insert(id, value) == contents.insert(
                    id,
                    value,
                ) by {
                assert(contents.insert(id, component).insert(id, value) =~= contents.insert(
                    id,
                    value,
                ));
            }
        }
        masked.inner.get_mut(id)
    }
}

/// Entry to a storage for convenient filling of components or removal based on whether
/// the entity has a component.
pub enum StorageEntry<'a, 'b: 'a, T: 'a, D: 'a> {
    /// Entry variant that is returned if the entity does has a component.
    Occupied(OccupiedEntry<'a, 'b, T, D>),
    /// Entry variant that is returned if the entity does not have a component.
    Vacant(VacantEntry<'a, 'b, T, D>),
}

impl<'a, 'b, T, D> StorageEntry<'a, 'b, T, D> {
    /// The entity of the entry.
    pub open spec fn entity(self) -> Entity {
        match self {
            StorageEntry::Occupied(occupied) => occupied.entity(),
            StorageEntry::Vacant(vacant) => vacant.entity(),
        }
    }

    /// The storage of the entry.
    pub open spec fn storage(self) -> &'a mut Storage<'b, T, D> {
        match self {
            StorageEntry::Occupied(occupied) => occupied.storage(),
            StorageEntry::Vacant(vacant) => vacant.storage(),
        }
    }
}

impl<'a, 'b, T, D> StorageEntry<'a, 'b, T, D> where T: Component, D: MaskedRef<T> {
    /// The storage meets its invariant, and the entry is of the variant that
    /// the storage asks for.
    pub open spec fn wf(self) -> bool {
        match self {
            StorageEntry::Occupied(occupied) => occupied.wf(),
            StorageEntry::Vacant(vacant) => vacant.wf(),
        }
    }
}

impl<'a, 'b, T, D> StorageEntry<'a, 'b, T, D> where T: Component, D: MaskedMut<T> {
    /// Inserts a component if the entity does not contain a component.
    pub fn or_insert(self, component: T) -> (slot: &'a mut T)
        requires
            self.wf(),
            self is Vacant ==> self.entity().id() <= bits::max_index(),
        ensures
            *slot == (if self is Vacant {
                component
            } else {
                old(self.storage()).masked()@[self.entity().id()]
            }),
            final(self.storage()).masked().stores(
                old(self.storage()).masked(),
                self.entity().id(),
                *final(slot),
            ),
            final(self.storage()).entities() == old(self.storage()).entities(),
            if self is Vacant {
                exists|inner: &mut T::Storage, lent: &mut T::Storage|
                    {
                        &&& *inner == old(self.storage()).masked().inner()
                        &&& #[trigger] call_ensures(
                            <T::Storage as UnprotectedStorage<T>>::insert,
                            (inner, self.entity().id(), *slot),
                            (),
                        )
                        &&& *final(inner) == *lent
                        &&& #[trigger] call_ensures(
                            <T::Storage as UnprotectedStorage<T>>::get_mut,
                            (lent, self.entity().id()),
                            slot,
                        )
                        &&& *final(lent) == final(self.storage()).masked().inner()
                    }
            } else {
                exists|inner: &mut T::Storage|
                    {
                        &&& *inner == old(self.storage()).masked().inner()
                        &&& *final(inner) == final(self.storage()).masked().inner()
                        &&& #[trigger] call_ensures(
                            <T::Storage as UnprotectedStorage<T>>::get_mut,
                            (inner, self.entity().id()),
                            slot,
                        )
                    }
            },
            exists|data: &mut D, masked: &mut MaskedStorage<T>|
                {
                    &&& *data == old(self.storage()).data()
                    &&& *final(data) == final(self.storage()).data()
                    &&& #[trigger] call_ensures(
                        <D as MaskedMut<T>>::borrow_masked_mut,
                        (data,),
                        masked,
                    )
                },
    {
        let default = || -> (value: T)
            ensures
                value == component,
        {
            component
        };
        self.or_insert_with(default)
    }

    /// Inserts a component using a lazily called function that is only called
    /// when inserting the component.
    pub fn or_insert_with<F>(self, default: F) -> (slot: &'a mut T) where F: FnOnce() -> T
        requires
            self.wf(),
            self is Vacant ==> default.requires(()) && self.entity().id() <= bits::max_index(),
        ensures
            if self is Vacant {
                default.ensures((), *slot)
            } else {
                *slot == old(self.storage()).masked()@[self.entity().id()]
            },
            final(self.storage()).masked().stores(
                old(self.storage()).masked(),
                self.entity().id(),
                *final(slot),
            ),
            final(self.storage()).entities() == old(self.storage()).entities(),
            if self is Vacant {
                exists|inner: &mut T::Storage, lent: &mut T::Storage|
                    {
                        &&& *inner == old(self.storage()).masked().inner()
                        &&& #[trigger] call_ensures(
                            <T::Storage as UnprotectedStorage<T>>::insert,
                            (inner, self.entity().id(), *slot),
                            (),
                        )
                        &&& *final(inner) == *lent
                        &&& #[trigger] call_ensures(
                            <T::Storage as UnprotectedStorage<T>>::get_mut,
                            (lent, self.entity().id()),
                            slot,
                        )
                        &&& *final(lent) == final(self.storage()).masked().inner()
                    }
            } else {
                exists|inner: &mut T::Storage|
                    {
                        &&& *inner == old(self.storage()).masked().inner()
                        &&& *final(inner) == final(self.storage()).masked().inner()
                        &&& #[trigger] call_ensures(
                            <T::Storage as UnprotectedStorage<T>>::get_mut,
                            (inner, self.entity().id()),
                            slot,
                        )
                    }
            },
            exists|data: &mut D, masked: &mut MaskedStorage<T>|
                {
                    &&& *data == old(self.storage()).data()
                    &&& *final(data) == final(self.storage()).data()
                    &&& #[trigger] call_ensures(
                        <D as MaskedMut<T>>::borrow_masked_mut,
                        (data,),
                        masked,
                    )
                },
    {
        match self {
            StorageEntry::Occupied(occupied) => occupied.into_mut(),
            StorageEntry::Vacant(vacant) => vacant.insert(default()),
        }
    }
}

impl<'e, T, D> Storage<'e, T, D> where T: Component, D: MaskedMut<T> {
    /// Returns an entry to the component associated to the entity.
    ///
    /// Behaves somewhat similarly to `std::collections::HashMap`'s entry api.
    pub fn entry<'a>(&'a mut self, e: Entity) -> (result: Result<
        StorageEntry<'a, 'e, T, D>,
        WrongGeneration,
    >) where 'e: 'a
        ensures
            result is Ok == old(self).entities().alive(e),
            match result {
                Ok(entry) => {
                    &&& entry.entity() == e
                    &&& entry is Occupied == old(self).masked().indices().contains(e.id())
                    &&& *entry.storage() == *old(self)
                    &&& *final(entry.storage()) == *final(self)
                    &&& old(self).wf() ==> entry.wf()
                },
                Err(refused) => {
                    &&& refused == super::refused_entry(old(self).entities(), e)
                    &&& *final(self) == *old(self)
                },
            },
    {
        if self.entities.is_alive(e) {
            if bitset_contains(&self.data.borrow_masked().mask, e.id()) {
                Ok(StorageEntry::Occupied(OccupiedEntry { entity: e, storage: self }))
            } else {
                Ok(StorageEntry::Vacant(VacantEntry { entity: e, storage: self }))
            }
        } else {
            let gen = self.entities.generation(e.id());
            Err(
                WrongGeneration {
                    action: "attempting to get an entry to a storage",
                    actual_gen: gen,
                    entity: e,
                },
            )
        }
    }
}

/// An entry that is given up gives its storage up too.
pub broadcast proof fn lemma_resolved_occupied<'a, 'b, T, D>(entry: OccupiedEntry<'a, 'b, T, D>)
    requires
        #[trigger] has_resolved(entry),
    ensures
        has_resolved(entry.storage()),
{
}

/// An entry that is given up gives its storage up too.
pub broadcast proof fn lemma_resolved_vacant<'a, 'b, T, D>(entry: VacantEntry<'a, 'b, T, D>)
    requires
        #[trigger] has_resolved(entry),
    ensures
        has_resolved(entry.storage()),
{
}

} // verus!
