//! What holds of the results of calls, whatever the calls return.
//!
//! Where the laws beside these speak of states, the ones here speak of what
//! callers see: the result of a call, and how the results of two calls relate.

use std::ops::Not;

use hibitset::BitSet;
use vstd::prelude::*;

use crate::bits::InvertedMask;
use crate::error::{Error, WrongGeneration};
use crate::join::Join;
use crate::storage::{
    AntiStorage, AnyStorage, InsertResult, MaskedMut, MaskedRef, MaskedStorage, OccupiedEntry,
    Storage, StorageEntry, TryDefault, UnprotectedStorage,
};
use crate::world::{Component, EntitiesRes, Entity, Generation, Index};

verus! {

/// Asked whether an entity is alive, the entities go by the generation recorded
/// at its own place, by the next one if that place was killed and is in use
/// again, and by the first one for a place that was never used.
pub proof fn law_alive_call(entities: EntitiesRes, e: Entity, answer: bool)
    requires
        call_ensures(EntitiesRes::is_alive, (&entities, e), answer),
        e.0 < entities.generations().len() ==> entities.generations()[e.0 as int].raisable(),
    ensures
        answer == (e.1.0 == (if e.0 >= entities.generations().len() {
            1
        } else if entities.generations()[e.0 as int].0 <= 0 && entities.raised().contains(e.0) {
            1 - entities.generations()[e.0 as int].0
        } else {
            entities.generations()[e.0 as int].0 as int
        })),
{
}

/// What `entity` gives for a place is alive by `is_alive`, unless the place was
/// killed and is not in use again.
pub proof fn law_entity_call_is_alive(
    entities: EntitiesRes,
    id: Index,
    current: Entity,
    answer: bool,
)
    requires
        call_ensures(EntitiesRes::entity, (&entities, id), current),
        call_ensures(EntitiesRes::is_alive, (&entities, current), answer),
        id < entities.generations().len() ==> entities.generations()[id as int].raisable(),
    ensures
        current.0 == id,
        current.1.0 > 0,
        answer == !(id < entities.generations().len() && entities.generations()[id as int].0 <= 0
            && !entities.raised().contains(id)),
{
}

/// The generation that is handed out for a place is the one that the entities
/// were created with at that place.
pub proof fn law_generation_call_after_new(
    generations: Vec<Generation>,
    raised: BitSet,
    entities: EntitiesRes,
    id: Index,
    gen: Generation,
)
    requires
        call_ensures(EntitiesRes::new, (generations, raised), entities),
        call_ensures(EntitiesRes::generation, (&entities, id), gen),
    ensures
        id < generations@.len() ==> gen == generations@[id as int],
        id >= generations@.len() ==> gen.0 == 1,
{
}

/// Raising a dead generation gives the number after the one that was killed.
pub proof fn law_raised_call(g: Generation, next: Generation)
    requires
        call_ensures(Generation::raised, (g,), next),
        g.0 <= 0,
        g.raisable(),
    ensures
        next.0 == 1 - g.0,
{
}

/// Trying the default of a type that has one gives one.
pub proof fn law_try_default_call<T: Default>(result: Result<T, String>)
    requires
        call_ensures(<T as TryDefault>::try_default, (), result),
    ensures
        result is Ok,
        call_ensures(T::default, (), result->Ok_0),
{
}

/// `get` gives the data under the index of an entity, exactly if the entity is
/// alive and the mask has the index; and `contains` says whether it does.
pub proof fn law_get_call<'e, T: Component, D: MaskedRef<T>>(
    storage: Storage<'e, T, D>,
    e: Entity,
    component: Option<&T>,
    present: bool,
)
    requires
        storage.wf(),
        call_ensures(Storage::<'e, T, D>::get, (&storage, e), component),
        call_ensures(Storage::<'e, T, D>::contains, (&storage, e), present),
    ensures
        present == (storage.entities().alive(e) && storage.masked().indices().contains(e.0)),
        component is Some <==> present,
        present ==> *component->0 == storage.masked().inner().contents()[e.0],
{
}

/// Inserting for a live entity succeeds with what `get` gave before, and then
/// `get` gives the inserted value.
pub proof fn law_insert_call_then_get<'e, T: Component, D: MaskedMut<T>>(
    e: Entity,
    value: T,
    result: InsertResult<T>,
    before: Option<&T>,
    after: Option<&T>,
)
    ensures
        forall|storage: &mut Storage<'e, T, D>|
            {
                &&& storage.wf()
                &&& storage.entities().alive(e)
                &&& #[trigger] call_ensures(
                    Storage::<'e, T, D>::insert,
                    (storage, e, value),
                    result,
                )
                &&& call_ensures(Storage::<'e, T, D>::get, (&*storage, e), before)
                &&& call_ensures(Storage::<'e, T, D>::get, (&*final(storage), e), after)
            } ==> {
                &&& after is Some
                &&& *after->0 == value
                &&& result is Ok
                &&& result->Ok_0 is Some <==> before is Some
                &&& before is Some ==> result->Ok_0->0 == *before->0
            },
{
}

/// Inserting for an entity which is not alive is refused with its action, the
/// entity and the generation in that place, and changes neither the data nor
/// the mask.
pub proof fn law_insert_call_refused<'e, T: Component, D: MaskedMut<T>>(
    e: Entity,
    value: T,
    result: InsertResult<T>,
)
    ensures
        forall|storage: &mut Storage<'e, T, D>|
            {
                &&& !storage.entities().alive(e)
                &&& #[trigger] call_ensures(
                    Storage::<'e, T, D>::insert,
                    (storage, e, value),
                    result,
                )
            } ==> {
                &&& final(storage).masked() == storage.masked()
                &&& result is Err
                &&& result->Err_0 matches Error::WrongGeneration(refused) && {
                    &&& refused.action == "insert component for entity"
                    &&& refused.entity == e
                    &&& refused.actual_gen == storage.entities().current(e.0).1
                }
            },
{
}

/// Inserting for one entity does not change what `get` gives to an entity in
/// another place.
pub proof fn law_insert_call_keeps_others<'e, T: Component, D: MaskedMut<T>>(
    e: Entity,
    value: T,
    result: InsertResult<T>,
    other: Entity,
    before: Option<&T>,
    after: Option<&T>,
)
    requires
        other.0 != e.0,
    ensures
        forall|storage: &mut Storage<'e, T, D>|
            {
                &&& storage.wf()
                &&& #[trigger] call_ensures(
                    Storage::<'e, T, D>::insert,
                    (storage, e, value),
                    result,
                )
                &&& call_ensures(Storage::<'e, T, D>::get, (&*storage, other), before)
                &&& call_ensures(Storage::<'e, T, D>::get, (&*final(storage), other), after)
            } ==> after == before,
{
}

/// Removing gives what `get` gave before. Afterwards `get` gives nothing, and
/// gives to an entity in another place what it gave before.
pub proof fn law_remove_call_then_get<'e, T: Component, D: MaskedMut<T>>(
    e: Entity,
    removed: Option<T>,
    other: Entity,
    before: Option<&T>,
    after: Option<&T>,
    other_before: Option<&T>,
    other_after: Option<&T>,
)
    requires
        other.0 != e.0,
    ensures
        forall|storage: &mut Storage<'e, T, D>|
            {
                &&& storage.wf()
                &&& #[trigger] call_ensures(Storage::<'e, T, D>::remove, (storage, e), removed)
                &&& call_ensures(Storage::<'e, T, D>::get, (&*storage, e), before)
                &&& call_ensures(Storage::<'e, T, D>::get, (&*final(storage), e), after)
                &&& call_ensures(Storage::<'e, T, D>::get, (&*storage, other), other_before)
                &&& call_ensures(Storage::<'e, T, D>::get, (&*final(storage), other), other_after)
            } ==> {
                &&& removed is Some <==> before is Some
                &&& removed is Some ==> removed->0 == *before->0
                &&& after is None
                &&& other_after == other_before
            },
{
}

/// After clearing, `get` gives nothing to any entity.
pub proof fn law_clear_call_then_get<'e, T: Component, D: MaskedMut<T>>(
    e: Entity,
    after: Option<&T>,
)
    ensures
        forall|storage: &mut Storage<'e, T, D>|
            {
                &&& storage.wf()
                &&& #[trigger] call_ensures(Storage::<'e, T, D>::clear, (storage,), ())
                &&& call_ensures(Storage::<'e, T, D>::get, (&*final(storage), e), after)
            } ==> after is None,
{
}

/// `get_mut` gives a component exactly when `get` does, and the same one. What
/// is written to it is what `get` gives afterwards; an entity in another place
/// is given what it was given before.
pub proof fn law_get_mut_call_then_get<'e, T: Component, D: MaskedMut<T>>(
    e: Entity,
    other: Entity,
    before: Option<&T>,
    after: Option<&T>,
    other_before: Option<&T>,
    other_after: Option<&T>,
)
    requires
        other.0 != e.0,
    ensures
        forall|storage: &mut Storage<'e, T, D>, component: Option<&mut T>|
            {
                &&& storage.wf()
                &&& #[trigger] call_ensures(Storage::<'e, T, D>::get_mut, (storage, e), component)
                &&& call_ensures(Storage::<'e, T, D>::get, (&*storage, e), before)
                &&& call_ensures(Storage::<'e, T, D>::get, (&*final(storage), e), after)
                &&& call_ensures(Storage::<'e, T, D>::get, (&*storage, other), other_before)
                &&& call_ensures(Storage::<'e, T, D>::get, (&*final(storage), other), other_after)
            } ==> {
                &&& component is Some <==> before is Some
                &&& component matches Some(slot) ==> {
                    &&& *slot == *before->0
                    &&& after is Some
                    &&& *after->0 == *final(slot)
                }
                &&& component is None ==> after is None
                &&& other_after == other_before
            },
{
}

/// Removing from a masked storage gives the data under an index in the mask, and
/// drops the index from the mask; removing it again gives nothing.
pub proof fn law_masked_remove_call_twice<T: Component>(
    id: Index,
    first: Option<T>,
    second: Option<T>,
)
    ensures
        forall|masked: &mut MaskedStorage<T>, again: &mut MaskedStorage<T>|
            {
                &&& masked.wf()
                &&& #[trigger] call_ensures(MaskedStorage::<T>::remove, (masked, id), first)
                &&& *again == *final(masked)
                &&& #[trigger] call_ensures(MaskedStorage::<T>::remove, (again, id), second)
            } ==> {
                &&& first is Some <==> masked.indices().contains(id)
                &&& first is Some ==> first->0 == masked.inner().contents()[id]
                &&& second is None
            },
{
}

/// Dropping leaves the same components as removing.
pub proof fn law_masked_drop_call_like_remove<T: Component>(id: Index, removed: Option<T>)
    ensures
        forall|dropping: &mut MaskedStorage<T>, removing: &mut MaskedStorage<T>|
            {
                &&& dropping.wf()
                &&& *dropping == *removing
                &&& #[trigger] call_ensures(MaskedStorage::<T>::drop, (dropping, id), ())
                &&& #[trigger] call_ensures(MaskedStorage::<T>::remove, (removing, id), removed)
            } ==> {
                &&& final(dropping)@ == final(removing)@
                &&& final(dropping).indices() == final(removing).indices()
                &&& final(dropping).inner().contents() == final(removing).inner().contents()
            },
{
}

/// An entry is given exactly for live entities, and is occupied exactly when
/// `contains` says that there is a component. A refusal names the action and the
/// entity, reports the generation recorded for the place, and changes nothing.
pub proof fn law_entry_call<'e, T: Component, D: MaskedMut<T>>(e: Entity, present: bool)
    ensures
        forall|
            storage: &mut Storage<'e, T, D>,
            result: Result<StorageEntry<'_, 'e, T, D>, WrongGeneration>,
        |
            {
                &&& #[trigger] call_ensures(Storage::<'e, T, D>::entry, (storage, e), result)
                &&& call_ensures(Storage::<'e, T, D>::contains, (&*storage, e), present)
            } ==> match result {
                Ok(entry) => {
                    &&& storage.entities().alive(e)
                    &&& entry is Occupied <==> present
                    &&& entry.entity() == e
                    &&& *entry.storage() == *storage
                },
                Err(refused) => {
                    &&& !storage.entities().alive(e)
                    &&& refused.action == "attempting to get an entry to a storage"
                    &&& refused.entity == e
                    &&& refused.actual_gen == storage.entities().recorded(e.0)
                    &&& *final(storage) == *storage
                },
            },
{
}

/// What is left in the slot that `or_insert` gives is what `get` gives
/// afterwards. The slot starts as the given component for a vacant entry, and as
/// what `get` gave before for an occupied one.
pub proof fn law_or_insert_call_then_get<'a, 'e, T: Component, D: MaskedMut<T>>(
    component: T,
    before: Option<&T>,
    after: Option<&T>,
)
    ensures
        forall|entry: StorageEntry<'a, 'e, T, D>, slot: &mut T|
            {
                &&& entry.wf()
                &&& entry.storage().entities().alive(entry.entity())
                &&& #[trigger] call_ensures(
                    StorageEntry::<'a, 'e, T, D>::or_insert,
                    (entry, component),
                    slot,
                )
                &&& call_ensures(
                    Storage::<'e, T, D>::get,
                    (&*entry.storage(), entry.entity()),
                    before,
                )
                &&& call_ensures(
                    Storage::<'e, T, D>::get,
                    (&*final(entry.storage()), entry.entity()),
                    after,
                )
            } ==> {
                &&& before is Some <==> entry is Occupied
                &&& *slot == (match before {
                    Some(value) => *value,
                    None => component,
                })
                &&& after is Some
                &&& *after->0 == *final(slot)
            },
{
}

/// Inserting through an occupied entry gives what its `get` gave before, and then
/// its `get` gives the inserted value; removing through it gives what its `get`
/// gives.
pub proof fn law_occupied_entry_calls<'a, 'e, T: Component, D: MaskedMut<T>>(
    component: T,
    replaced: T,
    removed: T,
    before: &T,
    after: &T,
)
    ensures
        forall|entry: &mut OccupiedEntry<'a, 'e, T, D>|
            {
                &&& entry.wf()
                &&& #[trigger] call_ensures(
                    OccupiedEntry::<'a, 'e, T, D>::insert,
                    (entry, component),
                    replaced,
                )
                &&& call_ensures(OccupiedEntry::<'a, 'e, T, D>::get, (&*entry,), before)
                &&& call_ensures(OccupiedEntry::<'a, 'e, T, D>::get, (&*final(entry),), after)
                &&& call_ensures(OccupiedEntry::<'a, 'e, T, D>::remove, (*final(entry),), removed)
            } ==> replaced == *before && *after == component && removed == component,
{
}

/// The inversion of a storage opens into a mask with exactly the indices that
/// the storage has no component under.
pub proof fn law_inversion_calls<'a, 'e, 'v, T: Component, D: MaskedRef<T>>(
    storage: &'a Storage<'e, T, D>,
    anti: AntiStorage<'a>,
    opened: (InvertedMask<'a>, ()),
    id: Index,
    present: bool,
)
    requires
        call_ensures(<&'a Storage<'e, T, D> as Not>::not, (storage,), anti),
        call_ensures(<AntiStorage<'a> as Join<'v>>::open, (anti,), opened),
        call_ensures(InvertedMask::<'a>::contains, (&opened.0, id), present),
    ensures
        present == !storage.masked().indices().contains(id),
{
}

/// After the components of some entities were dropped, `get` gives nothing to an
/// entity in one of their places, and to any other what it gave before.
pub proof fn law_drop_entities_call_then_get<'e, 'd, T: Component>(
    dropped: &[Entity],
    entities: EntitiesRes,
    e: Entity,
    before: Option<&T>,
    after: Option<&T>,
)
    ensures
        forall|
            masked: &mut MaskedStorage<T>,
            reading: Storage<'e, T, &'d MaskedStorage<T>>,
            read: Storage<'e, T, &'d MaskedStorage<T>>,
        |
            {
                &&& masked.wf()
                &&& #[trigger] call_ensures(
                    <MaskedStorage<T> as AnyStorage>::drop,
                    (masked, dropped),
                    (),
                )
                &&& reading.entities() == entities
                &&& read.entities() == entities
                &&& *reading.data() == *masked
                &&& *read.data() == *final(masked)
                &&& #[trigger] call_ensures(
                    Storage::<'e, T, &'d MaskedStorage<T>>::get,
                    (&reading, e),
                    before,
                )
                &&& #[trigger] call_ensures(
                    Storage::<'e, T, &'d MaskedStorage<T>>::get,
                    (&read, e),
                    after,
                )
            } ==> if exists|i: int| 0 <= i < dropped@.len() && (#[trigger] dropped@[i]).0 == e.0 {
                after is None
            } else {
                after == before
            },
{
    crate::laws::law_indices_of_entities(dropped@, e.0);
}

/// A storage made of a new masked storage has no component for any entity.
pub proof fn law_new_storage_call_then_get<'e, 'd, T: Component>(
    inner: T::Storage,
    masked: MaskedStorage<T>,
    entities: &'e EntitiesRes,
    storage: Storage<'e, T, &'d MaskedStorage<T>>,
    e: Entity,
    component: Option<&T>,
)
    requires
        call_ensures(MaskedStorage::<T>::new, (inner,), masked),
        call_ensures(
            Storage::<'e, T, &'d MaskedStorage<T>>::new,
            (entities, &masked),
            storage,
        ),
        call_ensures(Storage::<'e, T, &'d MaskedStorage<T>>::get, (&storage, e), component),
    ensures
        component is None,
        storage.entities() == *entities,
        masked.inner() == inner,
{
}

/// Data inserted into a storage proper are what it gives for their index, and
/// for every other index it gives what it gave before.
pub proof fn law_unprotected_insert_call_then_get<T, S: UnprotectedStorage<T>>(
    id: Index,
    value: T,
    got: &T,
    other: Index,
    before: &T,
    after: &T,
)
    requires
        other != id,
    ensures
        forall|storage: &mut S|
            {
                &&& storage.wf()
                &&& storage.contents().contains_key(other)
                &&& #[trigger] call_ensures(
                    <S as UnprotectedStorage<T>>::insert,
                    (storage, id, value),
                    (),
                )
                &&& call_ensures(<S as UnprotectedStorage<T>>::get, (&*final(storage), id), got)
                &&& call_ensures(<S as UnprotectedStorage<T>>::get, (&*storage, other), before)
                &&& call_ensures(<S as UnprotectedStorage<T>>::get, (&*final(storage), other), after)
            } ==> *got == value && *after == *before,
{
}

} // verus!
