//! Component storage types, implementations for component joins, etc.
//!
//! A wrapped storage may do more than keep data, and may do so differently in
//! each of its methods. So the contracts say not only which components there
//! are, but also which method the wrapped storage goes through: a reference
//! `inner` leads from the storage before to the storage after, and is what the
//! method was called on. The access to a masked storage is treated in the same
//! way.

use std::marker::PhantomData;

use hibitset::BitSet;
use vstd::prelude::*;

use crate::bits;
use crate::bits::{bitset_add, bitset_clear, bitset_contains, bitset_new, bitset_remove};
use crate::error::{Error, WrongGeneration};
use crate::join::{Join, ParJoin};
use crate::world::{Component, EntitiesRes, Entity, Index};

pub use self::anti::AntiStorage;
pub use self::dense::DenseVecStorage;
pub use self::drain::Drain;
pub use self::entry::{OccupiedEntry, StorageEntry, VacantEntry};
pub use self::unprotected::{DistinctStorage, TryDefault, UnprotectedStorage};

pub mod anti;
pub mod dense;
pub mod drain;
pub mod entry;
pub mod unprotected;

verus! {

/// The `UnprotectedStorage` together with the `BitSet` that knows
/// about which elements are stored, and which are not.
///
/// It has no destructor: one could rely on no precondition, and not on the
/// invariant either. Where cleaning the wrapped storage does more than dropping
/// it does, the owner calls `clear` before it lets go.
pub struct MaskedStorage<T: Component> {
    mask: BitSet,
    inner: T::Storage,
}

impl<T: Component> View for MaskedStorage<T> {
    type V = Map<Index, T>;

    /// The components by index: the data whose index is in the mask.
    open spec fn view(&self) -> Map<Index, T> {
        self.inner().contents().restrict(self.indices())
    }
}

impl<T: Component> MaskedStorage<T> {
    /// The indices in the mask.
    pub closed spec fn indices(&self) -> Set<Index> {
        bits::members(self.mask)
    }

    /// The wrapped storage.
    pub closed spec fn inner(&self) -> T::Storage {
        self.inner
    }

    /// There are data for every index in the mask.
    pub open spec fn wf(&self) -> bool {
        &&& self.inner().wf()
        &&& self.indices().subset_of(self.inner().contents().dom())
    }

    /// The mask knows exactly which elements are stored: there are data for the
    /// indices in the mask, and for no other index.
    pub open spec fn exact(&self) -> bool {
        &&& self.wf()
        &&& self.indices() == self.inner().contents().dom()
    }

    /// This is `before` with the component `value` under `id`.
    pub open spec fn stores(&self, before: MaskedStorage<T>, id: Index, value: T) -> bool {
        &&& self.wf()
        &&& self.indices() == before.indices().insert(id)
        &&& self.inner().contents() == before.inner().contents().insert(id, value)
        &&& self@ == before@.insert(id, value)
    }

    /// This is `before` without a component under `id`.
    pub open spec fn lacks(&self, before: MaskedStorage<T>, id: Index) -> bool {
        &&& self.wf()
        &&& self.indices() == before.indices().remove(id)
        &&& if before.indices().contains(id) {
            self.inner().contents() == before.inner().contents().remove(id)
        } else {
            self.inner() == before.inner()
        }
        &&& self@ == before@.remove(id)
    }

    /// This is what is left of `before` when everything is cleared.
    pub open spec fn cleared(&self, before: MaskedStorage<T>) -> bool {
        &&& self.wf()
        &&& self.indices() == Set::<Index>::empty()
        &&& T::Storage::cleaned(before.inner(), before.indices(), self.inner())
        &&& self@ == Map::<Index, T>::empty()
    }

    /// Creates a new `MaskedStorage`. This is called when you register
    /// a new component type within the world.
    pub fn new(inner: T::Storage) -> (masked: MaskedStorage<T>)
        requires
            inner.wf(),
        ensures
            masked.wf(),
            masked.indices() == Set::<Index>::empty(),
            masked.inner() == inner,
            masked@ == Map::<Index, T>::empty(),
    {
        MaskedStorage { mask: bitset_new(), inner }
    }

    fn open_mut(&mut self) -> (opened: (&BitSet, &mut T::Storage))
        ensures
            bits::members(*opened.0) == old(self).indices(),
            *opened.1 == old(self).inner(),
            final(self).indices() == old(self).indices(),
            final(self).inner() == *final(opened.1),
    {
        (&self.mask, &mut self.inner)
    }

    /// Clear the contents of this storage.
    pub fn clear(&mut self)
        requires
            old(self).wf(),
        ensures
            final(self).cleared(*old(self)),
    {
        self.inner.clean(&self.mask);
        bitset_clear(&mut self.mask);
        assert(self@ =~= Map::<Index, T>::empty());
    }

    /// Remove an element by a given index.
    pub fn remove(&mut self, id: Index) -> (removed: Option<T>)
        requires
            old(self).wf(),
        ensures
            removed == (if old(self)@.contains_key(id) {
                Some(old(self)@[id])
            } else {
                None
            }),
            final(self).lacks(*old(self), id),
            old(self).indices().contains(id) ==> exists|inner: &mut T::Storage|
                {
                    &&& *inner == old(self).inner()
                    &&& *final(inner) == final(self).inner()
                    &&& #[trigger] call_ensures(
                        <T::Storage as UnprotectedStorage<T>>::remove,
                        (inner, id),
                        removed->0,
                    )
                },
    {
        if bitset_remove(&mut self.mask, id) {
            let removed = Some(self.inner.remove(id));
            assert(self@ =~= old(self)@.remove(id));
            assert(removed == Some(removed->0));
            removed
        } else {
            assert(self@ =~= old(self)@.remove(id));
            None
        }
    }

    /// Drop an element by a given index.
    pub fn drop(&mut self, id: Index)
        requires
            old(self).wf(),
        ensures
            final(self).lacks(*old(self), id),
            old(self).indices().contains(id) ==> exists|inner: &mut T::Storage|
                {
                    &&& *inner == old(self).inner()
                    &&& *final(inner) == final(self).inner()
                    &&& #[trigger] call_ensures(
                        <T::Storage as UnprotectedStorage<T>>::drop,
                        (inner, id),
                        (),
                    )
                },
    {
        if bitset_remove(&mut self.mask, id) {
            self.inner.drop(id);
        }
        assert(self@ =~= old(self)@.remove(id));
    }
}

impl<T: Component> Default for MaskedStorage<T> where T::Storage: Default {
    fn default() -> (masked: Self)
        ensures
            masked.indices() == Set::<Index>::empty(),
            call_ensures(<T::Storage as Default>::default, (), masked.inner()),
            masked.wf(),
            masked@ == Map::<Index, T>::empty(),
    {
        let inner = <T::Storage as Default>::default();
        proof {
            <T::Storage as UnprotectedStorage<T>>::default_is_valid(inner);
        }
        MaskedStorage { mask: bitset_new(), inner }
    }
}

/// Storing a value under an index changes what is visible through the mask in
/// the same way.
proof fn lemma_restrict_insert<T>(contents: Map<Index, T>, indices: Set<Index>, id: Index)
    ensures
        forall|value: T|
            (#[trigger] contents.insert(id, value)).restrict(indices.insert(id))
                == contents.restrict(indices).insert(id, value),
        indices.contains(id) ==> indices.insert(id) == indices,
{
    assert forall|value: T|
        (#[trigger] contents.insert(id, value)).restrict(indices.insert(id)) == contents.restrict(
            indices,
        ).insert(id, value) by {
        assert(contents.insert(id, value).restrict(indices.insert(id)) =~= contents.restrict(
            indices,
        ).insert(id, value));
    }
    if indices.contains(id) {
        assert(indices.insert(id) =~= indices);
    }
}

/// The indices of some entities.
pub open spec fn indices_of(entities: Seq<Entity>) -> Set<Index> {
    Set::new(|id: Index| exists|i: int| 0 <= i < entities.len() && (#[trigger] entities[i]).id() == id)
}

/// Whether dropping the components of entities one after the other comes upon a
/// component at `e`, when it has been through the entities `before`.
pub open spec fn drops_at(occupied: Set<Index>, e: Entity, before: Seq<Entity>) -> bool {
    occupied.contains(e.id()) && !indices_of(before).contains(e.id())
}

/// A dynamic storage.
pub trait AnyStorage {
    /// The invariant of the storage.
    spec fn valid(&self) -> bool;

    /// The indices that have a component.
    spec fn occupied(&self) -> Set<Index>;

    /// Drop components of given entities.
    fn drop(&mut self, entities: &[Entity])
        requires
            old(self).valid(),
        ensures
            final(self).valid(),
            final(self).occupied() == old(self).occupied().difference(indices_of(entities@)),
    ;
}

impl<T> AnyStorage for MaskedStorage<T> where T: Component {
    open spec fn valid(&self) -> bool {
        self.wf()
    }

    open spec fn occupied(&self) -> Set<Index> {
        self.indices()
    }

    fn drop(&mut self, entities: &[Entity])
        ensures
            final(self)@ == old(self)@.remove_keys(indices_of(entities@)),
            final(self).inner().contents() == old(self).inner().contents().remove_keys(
                old(self).indices().intersect(indices_of(entities@)),
            ),
            exists|states: Seq<T::Storage>|
                {
                    &&& #[trigger] states.len() == entities@.len() + 1
                    &&& states[0] == old(self).inner()
                    &&& states[entities@.len() as int] == final(self).inner()
                    &&& forall|k: int|
                        0 <= k < entities@.len() ==> if drops_at(
                            old(self).indices(),
                            #[trigger] entities@[k],
                            entities@.take(k),
                        ) {
                            exists|inner: &mut T::Storage|
                                {
                                    &&& *inner == states[k]
                                    &&& *final(inner) == states[k + 1]
                                    &&& #[trigger] call_ensures(
                                        <T::Storage as UnprotectedStorage<T>>::drop,
                                        (inner, entities@[k].id()),
                                        (),
                                    )
                                }
                        } else {
                            states[k + 1] == states[k]
                        }
                },
    {
        let ghost mut states: Seq<T::Storage> = seq![self.inner()];
        let mut i: usize = 0;
        assert(entities@.take(0) =~= Seq::<Entity>::empty());
        while i < entities.len()
            invariant
                i <= entities@.len(),
                self.wf(),
                self.indices() == old(self).indices().difference(
                    indices_of(entities@.take(i as int)),
                ),
                self@ == old(self)@.remove_keys(indices_of(entities@.take(i as int))),
                self.inner().contents() == old(self).inner().contents().remove_keys(
                    old(self).indices().intersect(indices_of(entities@.take(i as int))),
                ),
                states.len() == i + 1,
                states[0] == old(self).inner(),
                states[i as int] == self.inner(),
                forall|k: int|
                    0 <= k < i ==> if drops_at(
                        old(self).indices(),
                        #[trigger] entities@[k],
                        entities@.take(k),
                    ) {
                        exists|inner: &mut T::Storage|
                            {
                                &&& *inner == states[k]
                                &&& *final(inner) == states[k + 1]
                                &&& #[trigger] call_ensures(
                                    <T::Storage as UnprotectedStorage<T>>::drop,
                                    (inner, entities@[k].id()),
                                    (),
                                )
                            }
                    } else {
                        states[k + 1] == states[k]
                    },
            decreases entities@.len() - i,
        {
            let id = entities[i].id();
            proof {
                lemma_indices_of_take(entities@, i as int);
            }
            MaskedStorage::drop(self, id);
            proof {
                states = states.push(self.inner());
            }
            i = i + 1;
        }
        assert(entities@.take(i as int) =~= entities@);
    }
}

/// One more entity adds its index.
proof fn lemma_indices_of_take(entities: Seq<Entity>, i: int)
    requires
        0 <= i < entities.len(),
    ensures
        indices_of(entities.take(i + 1)) == indices_of(entities.take(i)).insert(entities[i].id()),
{
    let before = entities.take(i);
    let after = entities.take(i + 1);
    assert forall|id: Index| indices_of(after).contains(id) implies indices_of(before).insert(
        entities[i].id(),
    ).contains(id) by {
        let k = choose|k: int| 0 <= k < after.len() && (#[trigger] after[k]).id() == id;
        if k < i {
            assert(before[k].id() == id);
        }
    }
    assert forall|id: Index|
        indices_of(before).insert(entities[i].id()).contains(id) implies indices_of(after).contains(
        id,
    ) by {
        if id == entities[i].id() {
            assert(after[i].id() == id);
        } else {
            let k = choose|k: int| 0 <= k < before.len() && (#[trigger] before[k]).id() == id;
            assert(after[k].id() == id);
        }
    }
}

/// The status of an `insert()`ion into a storage.
/// If the insertion was successful then the Ok value will
/// contain the component that was replaced (if any).
pub type InsertResult<T> = Result<Option<T>, Error>;

/// The component that an entity reads: the one under its index, if the entity
/// is alive.
pub open spec fn lookup<T>(entities: EntitiesRes, components: Map<Index, T>, e: Entity) -> Option<
    T,
> {
    if entities.alive(e) && components.contains_key(e.id()) {
        Some(components[e.id()])
    } else {
        None
    }
}

/// The components after a value was inserted for an entity.
pub open spec fn after_insert<T>(
    entities: EntitiesRes,
    components: Map<Index, T>,
    e: Entity,
    value: T,
) -> Map<Index, T> {
    if entities.alive(e) {
        components.insert(e.id(), value)
    } else {
        components
    }
}

/// What inserting for an entity returns.
pub open spec fn insert_result<T>(
    entities: EntitiesRes,
    components: Map<Index, T>,
    e: Entity,
) -> InsertResult<T> {
    if entities.alive(e) {
        Ok(lookup(entities, components, e))
    } else {
        Err(Error::WrongGeneration(refused_insert(entities, e)))
    }
}

/// The answer to inserting for an entity which is not alive.
pub open spec fn refused_insert(entities: EntitiesRes, e: Entity) -> WrongGeneration {
    WrongGeneration {
        action: "insert component for entity",
        actual_gen: entities.current(e.id()).gen(),
        entity: e,
    }
}

/// The answer to asking for an entry for an entity which is not alive.
pub open spec fn refused_entry(entities: EntitiesRes, e: Entity) -> WrongGeneration {
    WrongGeneration {
        action: "attempting to get an entry to a storage",
        actual_gen: entities.recorded(e.id()),
        entity: e,
    }
}

/// The components after those of an entity were removed.
pub open spec fn after_remove<T>(
    entities: EntitiesRes,
    components: Map<Index, T>,
    e: Entity,
) -> Map<Index, T> {
    if entities.alive(e) {
        components.remove(e.id())
    } else {
        components
    }
}

/// Access to a masked storage that is kept elsewhere.
pub trait MaskedRef<T: Component> {
    /// The masked storage.
    spec fn masked(&self) -> MaskedStorage<T>;

    /// Borrows the masked storage.
    fn borrow_masked(&self) -> (masked: &MaskedStorage<T>)
        ensures
            *masked == self.masked(),
    ;
}

impl<'d, T: Component> MaskedRef<T> for &'d MaskedStorage<T> {
    open spec fn masked(&self) -> MaskedStorage<T> {
        **self
    }

    fn borrow_masked(&self) -> (masked: &MaskedStorage<T>) {
        *self
    }
}

impl<'d, T: Component> MaskedRef<T> for &'d mut MaskedStorage<T> {
    open spec fn masked(&self) -> MaskedStorage<T> {
        **self
    }

    fn borrow_masked(&self) -> (masked: &MaskedStorage<T>) {
        &**self
    }
}

impl<T: Component> MaskedRef<T> for Box<MaskedStorage<T>> {
    open spec fn masked(&self) -> MaskedStorage<T> {
        **self
    }

    fn borrow_masked(&self) -> (masked: &MaskedStorage<T>) {
        &**self
    }
}

/// Access to a masked storage that also lets it be changed.
///
/// An access may promise more than is asked for here. A `&mut MaskedStorage`
/// promises that it stays the same reference.
pub trait MaskedMut<T: Component>: MaskedRef<T> {
    /// Borrows the masked storage for mutation.
    fn borrow_masked_mut(&mut self) -> (masked: &mut MaskedStorage<T>)
        ensures
            *masked == old(self).masked(),
            final(self).masked() == *final(masked),
    ;
}

impl<'d, T: Component> MaskedMut<T> for &'d mut MaskedStorage<T> {
    fn borrow_masked_mut(&mut self) -> (masked: &mut MaskedStorage<T>)
        ensures
            *final(*final(self)) == *final(*old(self)),
    {
        &mut **self
    }
}

impl<T: Component> MaskedMut<T> for Box<MaskedStorage<T>> {
    fn borrow_masked_mut(&mut self) -> (masked: &mut MaskedStorage<T>) {
        &mut **self
    }
}

/// A wrapper around the masked storage and the generations vector.
/// Can be used for safe lookup of components, insertions and removes.
pub struct Storage<'e, T, D> {
    data: D,
    entities: &'e EntitiesRes,
    phantom: PhantomData<T>,
}

impl<'e, T, D> Storage<'e, T, D> {
    /// The access to the masked storage.
    pub closed spec fn data(self) -> D {
        self.data
    }

    /// The entities which decide who is alive.
    pub closed spec fn entities(self) -> EntitiesRes {
        *self.entities
    }

    /// Create a new `Storage`
    pub fn new(entities: &'e EntitiesRes, data: D) -> (storage: Storage<'e, T, D>)
        ensures
            storage.data() == data,
            storage.entities() == *entities,
    {
        Storage { data, entities, phantom: PhantomData }
    }
}

impl<'e, T, D> Storage<'e, T, D> where T: Component, D: MaskedRef<T> {
    /// The masked storage.
    pub open spec fn masked(self) -> MaskedStorage<T> {
        self.data().masked()
    }

    /// The invariant of the masked storage.
    pub open spec fn wf(self) -> bool {
        self.masked().wf()
    }

    /// The component that an entity reads here.
    pub open spec fn component(self, e: Entity) -> Option<T> {
        lookup(self.entities(), self.masked()@, e)
    }

    /// Gets the wrapped storage.
    pub fn unprotected_storage(&self) -> (inner: &T::Storage)
        ensures
            *inner == self.masked().inner(),
    {
        &self.data.borrow_masked().inner
    }

    /// Tries to read the data associated with an `Entity`.
    pub fn get(&self, e: Entity) -> (component: Option<&T>)
        requires
            self.wf(),
        ensures
            component == (match self.component(e) {
                Some(value) => Some(&value),
                None => None,
            }),
    {
        let masked = self.data.borrow_masked();
        if bitset_contains(&masked.mask, e.id()) && self.entities.is_alive(e) {
            Some(masked.inner.get(e.id()))
        } else {
            None
        }
    }

    /// Returns true if the storage has a component for this entity, and that entity is alive.
    pub fn contains(&self, e: Entity) -> (present: bool)
        ensures
            present == (self.masked().indices().contains(e.id()) && self.entities().alive(e)),
            self.wf() ==> present == self.component(e) is Some,
    {
        bitset_contains(&self.data.borrow_masked().mask, e.id()) && self.entities.is_alive(e)
    }

    /// Returns a reference to the bitset of this storage which allows filtering
    /// by the component type without actually getting the component.
    pub fn mask(&self) -> (mask: &BitSet)
        ensures
            bits::members(*mask) == self.masked().indices(),
    {
        &self.data.borrow_masked().mask
    }
}

impl<'e, T, D> Storage<'e, T, D> where T: Component, D: MaskedMut<T> {
    /// Gets mutable access to the wrapped storage.
    ///
    /// Modifying the wrapped storage without also updating the mask bitset
    /// accordingly can leave indices in the mask that have no data: the storage
    /// then no longer meets its invariant.
    pub fn unprotected_storage_mut(&mut self) -> (inner: &mut T::Storage)
        ensures
            *inner == old(self).masked().inner(),
            final(self).masked().inner() == *final(inner),
            final(self).masked().indices() == old(self).masked().indices(),
            final(self).entities() == old(self).entities(),
            exists|data: &mut D, masked: &mut MaskedStorage<T>|
                {
                    &&& *data == old(self).data()
                    &&& *final(data) == final(self).data()
                    &&& #[trigger] call_ensures(
                        <D as MaskedMut<T>>::borrow_masked_mut,
                        (data,),
                        masked,
                    )
                },
    {
        &mut self.data.borrow_masked_mut().inner
    }

    /// Tries to mutate the data associated with an `Entity`.
    pub fn get_mut(&mut self, e: Entity) -> (component: Option<&mut T>)
        requires
            old(self).wf(),
        ensures
            component is Some == old(self).component(e) is Some,
            match component {
                Some(value) => {
                    &&& Some(*value) == old(self).component(e)
                    &&& final(self).masked().stores(
                        old(self).masked(),
                        e.id(),
                        *final(value),
                    )
                    &&& exists|inner: &mut T::Storage|
                        {
                            &&& *inner == old(self).masked().inner()
                            &&& *final(inner) == final(self).masked().inner()
                            &&& #[trigger] call_ensures(
                                <T::Storage as UnprotectedStorage<T>>::get_mut,
                                (inner, e.id()),
                                value,
                            )
                        }
                    &&& exists|data: &mut D, masked: &mut MaskedStorage<T>|
                        {
                            &&& *data == old(self).data()
                            &&& *final(data) == final(self).data()
                            &&& #[trigger] call_ensures(
                                <D as MaskedMut<T>>::borrow_masked_mut,
                                (data,),
                                masked,
                            )
                        }
                },
                None => final(self).data() == old(self).data(),
            },
            final(self).entities() == old(self).entities(),
    {
        proof {
            lemma_restrict_insert(
                self.masked().inner().contents(),
                self.masked().indices(),
                e.id(),
            );
        }
        if bitset_contains(&self.data.borrow_masked().mask, e.id()) && self.entities.is_alive(e) {
            Some(self.data.borrow_masked_mut().inner.get_mut(e.id()))
        } else {
            None
        }
    }

    /// Inserts new data for a given `Entity`.
    /// Returns the result of the operation as a `InsertResult<T>`
    pub fn insert(&mut self, e: Entity, value: T) -> (result: InsertResult<T>)
        requires
            old(self).wf(),
            old(self).entities().alive(e) && !old(self).masked().indices().contains(e.id())
                ==> e.id() <= bits::max_index(),
        ensures
            result == insert_result(old(self).entities(), old(self).masked()@, e),
            final(self).masked()@ == after_insert(
                old(self).entities(),
                old(self).masked()@,
                e,
                value,
            ),
            if old(self).entities().alive(e) {
                &&& final(self).masked().stores(old(self).masked(), e.id(), value)
                &&& if old(self).masked().indices().contains(e.id()) {
                    exists|inner: &mut T::Storage, slot: &mut T|
                        {
                            &&& *inner == old(self).masked().inner()
                            &&& *final(inner) == final(self).masked().inner()
                            &&& *final(slot) == value
                            &&& #[trigger] call_ensures(
                                <T::Storage as UnprotectedStorage<T>>::get_mut,
                                (inner, e.id()),
                                slot,
                            )
                        }
                } else {
                    exists|inner: &mut T::Storage|
                        {
                            &&& *inner == old(self).masked().inner()
                            &&& *final(inner) == final(self).masked().inner()
                            &&& #[trigger] call_ensures(
                                <T::Storage as UnprotectedStorage<T>>::insert,
                                (inner, e.id(), value),
                                (),
                            )
                        }
                }
                &&& exists|data: &mut D, masked: &mut MaskedStorage<T>|
                    {
                        &&& *data == old(self).data()
                        &&& *final(data) == final(self).data()
                        &&& #[trigger] call_ensures(
                            <D as MaskedMut<T>>::borrow_masked_mut,
                            (data,),
                            masked,
                        )
                    }
            } else {
                final(self).data() == old(self).data()
            },
            final(self).entities() == old(self).entities(),
    {
        proof {
            lemma_restrict_insert(
                self.masked().inner().contents(),
                self.masked().indices(),
                e.id(),
            );
        }
        let mut value = value;
        if self.entities.is_alive(e) {
            let id = e.id();
            let masked = self.data.borrow_masked_mut();
            if bitset_contains(&masked.mask, id) {
                std::mem::swap(&mut value, masked.inner.get_mut(id));
                Ok(Some(value))
            } else {
                bitset_add(&mut masked.mask, id);
                masked.inner.insert(id, value);
                Ok(None)
            }
        } else {
            Err(
                Error::WrongGeneration(
                    WrongGeneration {
                        action: "insert component for entity",
                        actual_gen: self.entities.entity(e.id()).gen(),
                        entity: e,
                    },
                ),
            )
        }
    }

    /// Removes the data associated with an `Entity`.
    pub fn remove(&mut self, e: Entity) -> (removed: Option<T>)
        requires
            old(self).wf(),
        ensures
            removed == old(self).component(e),
            final(self).masked()@ == after_remove(old(self).entities(), old(self).masked()@, e),
            if old(self).entities().alive(e) {
                &&& final(self).masked().lacks(old(self).masked(), e.id())
                &&& removed matches Some(value) ==> exists|inner: &mut T::Storage|
                    {
                        &&& *inner == old(self).masked().inner()
                        &&& *final(inner) == final(self).masked().inner()
                        &&& #[trigger] call_ensures(
                            <T::Storage as UnprotectedStorage<T>>::remove,
                            (inner, e.id()),
                            value,
                        )
                    }
                &&& exists|data: &mut D, masked: &mut MaskedStorage<T>|
                    {
                        &&& *data == old(self).data()
                        &&& *final(data) == final(self).data()
                        &&& #[trigger] call_ensures(
                            <D as MaskedMut<T>>::borrow_masked_mut,
                            (data,),
                            masked,
                        )
                    }
            } else {
                final(self).data() == old(self).data()
            },
            final(self).entities() == old(self).entities(),
    {
        if self.entities.is_alive(e) {
            self.data.borrow_masked_mut().remove(e.id())
        } else {
            None
        }
    }

    /// Clears the contents of the storage.
    pub fn clear(&mut self)
        requires
            old(self).wf(),
        ensures
            final(self).masked().cleared(old(self).masked()),
            final(self).entities() == old(self).entities(),
            exists|data: &mut D, masked: &mut MaskedStorage<T>|
                {
                    &&& *data == old(self).data()
                    &&& *final(data) == final(self).data()
                    &&& #[trigger] call_ensures(
                        <D as MaskedMut<T>>::borrow_masked_mut,
                        (data,),
                        masked,
                    )
                },
    {
        self.data.borrow_masked_mut().clear();
    }
}

impl<'e, T: Component, D> DistinctStorage for Storage<'e, T, D> where
    T::Storage: DistinctStorage,
 {

}

impl<'a: 'v, 'e: 'a, 'v, T, D> Join<'v> for &'a Storage<'e, T, D> where
    T: Component,
    T::Storage: 'v,
    D: MaskedRef<T>,
 {
    type Type = &'a T;

    type Value = &'a T::Storage;

    type Mask = &'a BitSet;

    open spec fn joinable(self) -> bool {
        self.wf()
    }

    open spec fn mask_has(mask: &'a BitSet, id: Index) -> bool {
        bits::members(*mask).contains(id)
    }

    open spec fn value_has(value: &'a T::Storage, id: Index) -> bool {
        value.wf() && value.contents().contains_key(id)
    }

    fn open(self) -> (opened: (&'a BitSet, &'a T::Storage))
        ensures
            bits::members(*opened.0) == self.masked().indices(),
            *opened.1 == self.masked().inner(),
    {
        let masked = self.data.borrow_masked();
        (&masked.mask, &masked.inner)
    }

    fn get(value: &'v mut &'a T::Storage, id: Index) -> (item: &'a T)
        ensures
            *item == old(value).contents()[id],
            *final(value) == *old(value),
    {
        let inner: &'a T::Storage = *value;
        inner.get(id)
    }
}

impl<'a: 'v, 'e: 'a, 'v, T, D> ParJoin<'v> for &'a Storage<'e, T, D> where
    T: Component,
    T::Storage: Sync + 'v,
    D: MaskedRef<T>,
 {

}

impl<'a: 'v, 'e: 'a, 'v, T, D> Join<'v> for &'a mut Storage<'e, T, D> where
    T: Component,
    T::Storage: 'v,
    D: MaskedMut<T>,
 {
    type Type = &'v mut T;

    type Value = &'a mut T::Storage;

    type Mask = &'a BitSet;

    open spec fn joinable(self) -> bool {
        self.wf()
    }

    open spec fn mask_has(mask: &'a BitSet, id: Index) -> bool {
        bits::members(*mask).contains(id)
    }

    open spec fn value_has(value: &'a mut T::Storage, id: Index) -> bool {
        value.wf() && value.contents().contains_key(id)
    }

    fn open(self) -> (opened: (&'a BitSet, &'a mut T::Storage))
        ensures
            bits::members(*opened.0) == old(self).masked().indices(),
            *opened.1 == old(self).masked().inner(),
            final(self).masked().indices() == old(self).masked().indices(),
            final(self).masked().inner() == *final(opened.1),
            final(self).entities() == old(self).entities(),
            exists|data: &mut D, masked: &mut MaskedStorage<T>|
                {
                    &&& *data == old(self).data()
                    &&& *final(data) == final(self).data()
                    &&& #[trigger] call_ensures(
                        <D as MaskedMut<T>>::borrow_masked_mut,
                        (data,),
                        masked,
                    )
                },
    {
        self.data.borrow_masked_mut().open_mut()
    }

    fn get(value: &'v mut &'a mut T::Storage, id: Index) -> (item: &'v mut T)
        ensures
            *item == old(value).contents()[id],
            final(value).wf(),
            final(value).contents() == old(value).contents().insert(id, *final(item)),
            exists|inner: &mut T::Storage|
                {
                    &&& *inner == **old(value)
                    &&& *final(inner) == **final(value)
                    &&& #[trigger] call_ensures(
                        <T::Storage as UnprotectedStorage<T>>::get_mut,
                        (inner, id),
                        item,
                    )
                },
            *final(*final(value)) == *final(*old(value)),
    {
        value.get_mut(id)
    }
}

impl<'a: 'v, 'e: 'a, 'v, T, D> ParJoin<'v> for &'a mut Storage<'e, T, D> where
    T: Component,
    T::Storage: Sync + DistinctStorage + 'v,
    D: MaskedMut<T>,
 {

}

/// Lets a caller follow the changes made through storages and entries, whose
/// fields it does not see, to the masked storage that they were made for:
/// `broadcast use group_resolved` where one is made over a `&mut MaskedStorage`.
pub broadcast group group_resolved {
    lemma_resolved_storage,
    entry::lemma_resolved_occupied,
    entry::lemma_resolved_vacant,
}

/// A storage that is given up gives its access to the masked storage up too.
pub broadcast proof fn lemma_resolved_storage<'e, T, D>(storage: Storage<'e, T, D>)
    requires
        #[trigger] has_resolved(storage),
    ensures
        has_resolved(storage.data()),
{
}

} // verus!
