//! What holds of the storages as a whole.
//!
//! The laws speak of the entities, and of the components by index, as the
//! contracts of the storages do.

use hibitset::BitSet;
use vstd::prelude::*;

use crate::bits;
use crate::bits::InvertedMask;
use crate::error::Error;
use crate::join::Join;
use crate::storage;
use crate::storage::{
    AntiStorage, AnyStorage, DenseVecStorage, Drain, MaskedMut, MaskedRef, MaskedStorage,
    OccupiedEntry, Storage, StorageEntry, TryDefault, UnprotectedStorage, VacantEntry,
};
use crate::world::{Component, EntitiesRes, Entity, Generation, Index};

verus! {

/// A generation is its number, and is alive exactly when that number is
/// positive.
pub proof fn law_generation_is_alive_iff_positive(g: Generation)
    ensures
        g.id() == g.0,
        g.is_alive() <==> g.0 > 0,
{
}

/// An entity is a place and a generation.
pub proof fn law_entity_is_place_and_generation(id: Index, g: Generation)
    ensures
        Entity(id, g).id() == id,
        Entity(id, g).gen() == g,
{
}

/// A generation can be raised exactly when the number that comes next fits.
pub proof fn law_raisable_iff_next_fits(g: Generation)
    ensures
        g.raisable() <==> 1 - g.0 <= i32::MAX,
{
}

/// Raising a dead generation gives a live one with a number that no entity of
/// the place had before: one more than that of the entity which was killed, and
/// so more than that of any entity that came earlier.
pub proof fn law_raised_generation_is_new(g: Generation, earlier: int)
    requires
        g.0 <= 0,
        g.raisable(),
        earlier <= -g.0,
    ensures
        g.next().0 == 1 - g.0,
        g.next().0 > 0,
        g.next().0 > earlier,
{
}

/// Two dead generations that are raised to the same generation are the same.
pub proof fn law_raising_is_injective(g: Generation, h: Generation)
    requires
        g.0 <= 0,
        g.raisable(),
        h.0 <= 0,
        h.raisable(),
        g.next() == h.next(),
    ensures
        g == h,
{
}

/// The generation recorded for a place is the one at its own index, and the
/// first one for a place that was never used.
pub proof fn law_recorded_is_at_its_place(entities: EntitiesRes, id: Index)
    ensures
        id < entities.generations().len() ==> entities.recorded(id)
            == entities.generations()[id as int],
        id >= entities.generations().len() ==> entities.recorded(id).0 == 1,
{
}

/// In a place whose recorded generation is alive, the entity of exactly that
/// generation is alive, whatever is recorded for other places and whichever
/// places were taken into use again.
pub proof fn law_live_place_has_recorded_entity(entities: EntitiesRes, e: Entity)
    requires
        e.0 < entities.generations().len(),
        entities.generations()[e.0 as int].0 > 0,
    ensures
        entities.alive(e) <==> e.1 == entities.generations()[e.0 as int],
{
}

/// In a place that was taken into use again, the entity of the generation that
/// follows the killed one is alive, and no other.
pub proof fn law_place_in_use_again_has_next_entity(entities: EntitiesRes, e: Entity)
    requires
        e.0 < entities.generations().len(),
        entities.generations()[e.0 as int].0 <= 0,
        entities.generations()[e.0 as int].raisable(),
        entities.raised().contains(e.0),
    ensures
        entities.alive(e) <==> e.1.0 == 1 - entities.generations()[e.0 as int].0,
{
}

/// In a place that was killed and is not in use again, no entity of a positive
/// generation is alive.
pub proof fn law_killed_place_has_no_entity(entities: EntitiesRes, e: Entity)
    requires
        e.0 < entities.generations().len(),
        entities.generations()[e.0 as int].0 <= 0,
        !entities.raised().contains(e.0),
    ensures
        e.1.0 > 0 ==> !entities.alive(e),
        entities.alive(e) <==> e.1 == entities.generations()[e.0 as int],
{
}

/// The entity that was killed in a place is never alive again: neither while
/// the place is unused, nor when it is in use again.
pub proof fn law_killed_entity_stays_dead(entities: EntitiesRes, e: Entity)
    requires
        e.0 < entities.generations().len(),
        entities.generations()[e.0 as int].0 < 0,
        entities.generations()[e.0 as int].raisable(),
        e.1.0 == -entities.generations()[e.0 as int].0,
    ensures
        !entities.alive(e),
{
}

/// Whether an entity is alive depends on its own place alone: on the generation
/// recorded there, and on whether that place was taken into use again.
pub proof fn law_alive_depends_on_own_place(a: EntitiesRes, b: EntitiesRes, e: Entity)
    requires
        e.0 < a.generations().len() <==> e.0 < b.generations().len(),
        e.0 < a.generations().len() ==> a.generations()[e.0 as int] == b.generations()[e.0 as int],
        a.raised().contains(e.0) <==> b.raised().contains(e.0),
    ensures
        a.alive(e) == b.alive(e),
        a.current(e.0) == b.current(e.0),
        a.recorded(e.0) == b.recorded(e.0),
{
}

/// The entity in a place has that place, and has the recorded generation if
/// that one is alive, and otherwise the one that comes next. It is the first
/// one in a place that was never used.
pub proof fn law_current_entity_of_place(entities: EntitiesRes, id: Index)
    requires
        id < entities.generations().len() ==> entities.generations()[id as int].raisable(),
    ensures
        entities.current(id).0 == id,
        entities.current(id).1.0 > 0,
        id >= entities.generations().len() ==> entities.current(id).1.0 == 1,
        id < entities.generations().len() && entities.generations()[id as int].0 > 0
            ==> entities.current(id).1 == entities.generations()[id as int],
        id < entities.generations().len() && entities.generations()[id as int].0 <= 0
            ==> entities.current(id).1.0 == 1 - entities.generations()[id as int].0,
{
}

/// The entity in a place is alive, unless the place was killed and is not in
/// use again; and any live entity of a positive generation is the one in its
/// place.
pub proof fn law_current_entity_is_the_live_one(entities: EntitiesRes, id: Index, e: Entity)
    requires
        id < entities.generations().len() ==> entities.generations()[id as int].raisable(),
        e.0 == id,
        e.1.0 > 0,
    ensures
        entities.alive(entities.current(id)) <==> !(id < entities.generations().len()
            && entities.generations()[id as int].0 <= 0 && !entities.raised().contains(id)),
        entities.alive(e) ==> e == entities.current(id),
{
}

/// A type with a default always has one to try: trying never fails, and gives a
/// value that `default` can give.
pub proof fn law_default_always_succeeds<T: Default>(result: Result<T, String>)
    requires
        <T as TryDefault>::may_default(result),
    ensures
        result is Ok,
        call_ensures(T::default, (), result->Ok_0),
{
}

/// For a type with a default, every value that `default` can give may come from
/// trying, and no message may: so the default can be unwrapped.
pub proof fn law_default_can_be_unwrapped<T: Default>(value: T, message: String)
    ensures
        call_ensures(T::default, (), value) ==> <T as TryDefault>::may_default(Ok(value)),
        !<T as TryDefault>::may_default(Err(message)),
{
}

/// The largest index is the fourth power of the number of bits in a `usize`.
pub proof fn law_largest_index()
    ensures
        bits::max_index() == usize::BITS * usize::BITS * usize::BITS * usize::BITS,
{
    assert(64 * 64 * 64 * 64 == 0x100_0000 && 32 * 32 * 32 * 32 == 0x10_0000) by (nonlinear_arith);
}

/// A component is visible exactly under the indices that are in the mask and
/// have data, and it is those data.
pub proof fn law_view_is_masked_data<T: Component>(masked: MaskedStorage<T>, id: Index)
    ensures
        masked@.contains_key(id) <==> masked.indices().contains(id)
            && masked.inner().contents().contains_key(id),
        masked@.contains_key(id) ==> masked@[id] == masked.inner().contents()[id],
{
}

/// A masked storage is valid exactly when its wrapped storage is, and there are
/// data for every index in the mask.
pub proof fn law_validity_of_masked<T: Component>(masked: MaskedStorage<T>)
    ensures
        masked.wf() <==> masked.inner().wf() && forall|id: Index|
            masked.indices().contains(id) ==> #[trigger] masked.inner().contents().contains_key(id),
        masked.exact() <==> masked.inner().wf() && forall|id: Index|
            masked.indices().contains(id)
                <==> #[trigger] masked.inner().contents().contains_key(id),
        AnyStorage::valid(&masked) <==> masked.wf(),
        AnyStorage::occupied(&masked) == masked.indices(),
{
    if forall|id: Index|
        masked.indices().contains(id) <==> #[trigger] masked.inner().contents().contains_key(id) {
        assert(masked.indices() =~= masked.inner().contents().dom());
    }
    if masked.exact() {
        assert forall|id: Index|
            masked.indices().contains(id)
                <==> #[trigger] masked.inner().contents().contains_key(id) by {
            assert(masked.indices().contains(id) <==> masked.inner().contents().dom().contains(id));
        }
    }
}

/// Storing a component makes it visible under its index, and changes nothing
/// under any other index, neither in the mask nor in the data.
pub proof fn law_stored_under_one_index<T: Component>(
    before: MaskedStorage<T>,
    after: MaskedStorage<T>,
    id: Index,
    value: T,
    other: Index,
)
    requires
        after.stores(before, id, value),
        other != id,
    ensures
        after.wf(),
        after.indices().contains(id),
        after.inner().contents().contains_key(id),
        after.inner().contents()[id] == value,
        after@.contains_key(id),
        after@[id] == value,
        after.indices().contains(other) <==> before.indices().contains(other),
        after.inner().contents().contains_key(other) <==> before.inner().contents().contains_key(
            other,
        ),
        before.inner().contents().contains_key(other) ==> after.inner().contents()[other]
            == before.inner().contents()[other],
        after@.contains_key(other) <==> before@.contains_key(other),
        before@.contains_key(other) ==> after@[other] == before@[other],
{
}

/// Taking a component out leaves nothing visible under its index, takes the data
/// out if the mask had the index and leaves them alone otherwise, and changes
/// nothing under any other index.
pub proof fn law_lacking_under_one_index<T: Component>(
    before: MaskedStorage<T>,
    after: MaskedStorage<T>,
    id: Index,
    other: Index,
)
    requires
        after.lacks(before, id),
        other != id,
    ensures
        after.wf(),
        !after.indices().contains(id),
        !after@.contains_key(id),
        before.indices().contains(id) ==> !after.inner().contents().contains_key(id),
        !before.indices().contains(id) ==> after.inner() == before.inner(),
        after.indices().contains(other) <==> before.indices().contains(other),
        after.inner().contents().contains_key(other) <==> before.inner().contents().contains_key(
            other,
        ),
        before.inner().contents().contains_key(other) ==> after.inner().contents()[other]
            == before.inner().contents()[other],
        after@.contains_key(other) <==> before@.contains_key(other),
        before@.contains_key(other) ==> after@[other] == before@[other],
{
}

/// Clearing leaves no index in the mask and nothing visible, and the wrapped
/// storage is cleaned of exactly what the mask had.
pub proof fn law_cleared_under_every_index<T: Component>(
    before: MaskedStorage<T>,
    after: MaskedStorage<T>,
    id: Index,
)
    requires
        after.cleared(before),
    ensures
        after.wf(),
        !after.indices().contains(id),
        !after@.contains_key(id),
        T::Storage::cleaned(before.inner(), before.indices(), after.inner()),
{
}

/// Cleaning a dense vector storage leaves no data in it, whatever the valid
/// indices were.
pub proof fn law_cleaned_dense_is_empty<T>(
    before: DenseVecStorage<T>,
    has: Set<Index>,
    after: DenseVecStorage<T>,
    id: Index,
)
    requires
        DenseVecStorage::<T>::cleaned(before, has, after),
    ensures
        !after.contents().contains_key(id),
{
}

/// An index is one of some entities exactly when it is that of one of them,
/// whatever its generation.
pub proof fn law_indices_of_entities(entities: Seq<Entity>, id: Index)
    ensures
        storage::indices_of(entities).contains(id) <==> exists|i: int|
            0 <= i < entities.len() && (#[trigger] entities[i]).0 == id,
{
    if storage::indices_of(entities).contains(id) {
        let i = choose|i: int| 0 <= i < entities.len() && (#[trigger] entities[i]).id() == id;
        assert(entities[i].0 == id);
    }
    if exists|i: int| 0 <= i < entities.len() && (#[trigger] entities[i]).0 == id {
        let i = choose|i: int| 0 <= i < entities.len() && (#[trigger] entities[i]).0 == id;
        assert(entities[i].id() == id);
    }
}

/// Of some entities, a component is dropped at the first one with its index.
pub proof fn law_dropped_at_first_occurrence(
    occupied: Set<Index>,
    entities: Seq<Entity>,
    k: int,
)
    requires
        0 <= k < entities.len(),
    ensures
        storage::drops_at(occupied, entities[k], entities.take(k)) <==> occupied.contains(
            entities[k].0,
        ) && forall|j: int| 0 <= j < k ==> (#[trigger] entities[j]).0 != entities[k].0,
{
    let before = entities.take(k);
    law_indices_of_entities(before, entities[k].0);
    if storage::indices_of(before).contains(entities[k].0) {
        let i = choose|i: int| 0 <= i < before.len() && (#[trigger] before[i]).0 == entities[k].0;
        assert(entities[i].0 == entities[k].0);
    } else {
        assert forall|j: int| 0 <= j < k implies (#[trigger] entities[j]).0 != entities[k].0 by {
            assert(before[j] == entities[j]);
        }
    }
}

/// An entity reads a value exactly when it is alive, there is a component under
/// its index, and the value is that component.
pub proof fn law_read_iff_alive_and_present<T>(
    entities: EntitiesRes,
    components: Map<Index, T>,
    e: Entity,
    value: T,
)
    ensures
        storage::lookup(entities, components, e) == Some(value) <==> entities.alive(e)
            && components.contains_key(e.0) && components[e.0] == value,
        storage::lookup(entities, components, e) is None <==> !(entities.alive(e)
            && components.contains_key(e.0)),
{
}

/// Inserting for a live entity puts the value under its index and leaves every
/// other index alone; for an entity that is not alive it leaves all alone.
pub proof fn law_insert_under_one_index<T>(
    entities: EntitiesRes,
    components: Map<Index, T>,
    e: Entity,
    value: T,
    k: Index,
)
    ensures
        ({
            let after = storage::after_insert(entities, components, e, value);
            if entities.alive(e) && k == e.0 {
                after.contains_key(k) && after[k] == value
            } else {
                &&& after.contains_key(k) <==> components.contains_key(k)
                &&& components.contains_key(k) ==> after[k] == components[k]
            }
        }),
{
}

/// Removing for a live entity leaves nothing under its index and every other
/// index alone; for an entity that is not alive it leaves all alone.
pub proof fn law_remove_under_one_index<T>(
    entities: EntitiesRes,
    components: Map<Index, T>,
    e: Entity,
    k: Index,
)
    ensures
        ({
            let after = storage::after_remove(entities, components, e);
            if entities.alive(e) && k == e.0 {
                !after.contains_key(k)
            } else {
                &&& after.contains_key(k) <==> components.contains_key(k)
                &&& components.contains_key(k) ==> after[k] == components[k]
            }
        }),
{
}

/// Inserting for a live entity gives back what was under its index, if
/// anything; for any other entity it gives an error.
pub proof fn law_insert_gives_back_what_was_there<T>(
    entities: EntitiesRes,
    components: Map<Index, T>,
    e: Entity,
)
    ensures
        match storage::insert_result(entities, components, e) {
            Ok(Some(replaced)) => entities.alive(e) && components.contains_key(e.0)
                && components[e.0] == replaced,
            Ok(None) => entities.alive(e) && !components.contains_key(e.0),
            Err(Error::WrongGeneration(refused)) => !entities.alive(e) && refused.entity == e,
        },
{
}

/// A refused insertion names its action and the entity, and reports the
/// generation of the entity in that place: the recorded one if it is alive, and
/// otherwise the one that comes next.
pub proof fn law_refused_insert_reports_place(entities: EntitiesRes, e: Entity)
    requires
        e.0 < entities.generations().len() ==> entities.generations()[e.0 as int].raisable(),
    ensures
        storage::refused_insert(entities, e).action == "insert component for entity",
        storage::refused_insert(entities, e).entity == e,
        storage::refused_insert(entities, e).actual_gen.0 == (if e.0
            >= entities.generations().len() {
            1
        } else if entities.generations()[e.0 as int].0 > 0 {
            entities.generations()[e.0 as int].0 as int
        } else {
            1 - entities.generations()[e.0 as int].0
        }),
{
}

/// A refused entry names its action and the entity, and reports the generation
/// recorded for that place, dead or alive.
pub proof fn law_refused_entry_reports_place(entities: EntitiesRes, e: Entity)
    ensures
        storage::refused_entry(entities, e).action == "attempting to get an entry to a storage",
        storage::refused_entry(entities, e).entity == e,
        storage::refused_entry(entities, e).actual_gen.0 == (if e.0
            >= entities.generations().len() {
            1
        } else {
            entities.generations()[e.0 as int].0 as int
        }),
{
}

/// A refused entity differs from the one in its place: where the reported
/// generation of a refused insertion is positive, it is not the generation of
/// the refused entity, unless the place was killed and is not in use again.
pub proof fn law_refused_generation_differs(entities: EntitiesRes, e: Entity)
    requires
        e.0 < entities.generations().len() ==> entities.generations()[e.0 as int].raisable(),
        !entities.alive(e),
        e.0 >= entities.generations().len() || entities.generations()[e.0 as int].0 > 0
            || entities.raised().contains(e.0),
    ensures
        storage::refused_insert(entities, e).actual_gen != e.1,
{
}

/// A storage reads through its access: the masked storage is the one that a
/// reference refers to.
pub proof fn law_shared_access_reads_target<'e, 'd, T: Component>(
    storage: Storage<'e, T, &'d MaskedStorage<T>>,
)
    ensures
        storage.masked() == *storage.data(),
{
}

/// A storage reads through its access: the masked storage is the one that a
/// mutable reference refers to.
pub proof fn law_mutable_access_reads_target<'e, 'd, T: Component>(
    storage: Storage<'e, T, &'d mut MaskedStorage<T>>,
)
    ensures
        storage.masked() == *storage.data(),
{
}

/// A storage reads through its access: the masked storage is the one in the
/// box.
pub proof fn law_boxed_access_reads_target<'e, T: Component>(
    storage: Storage<'e, T, Box<MaskedStorage<T>>>,
)
    ensures
        storage.masked() == *storage.data(),
{
}

/// A storage is valid when its masked storage is, and an entity reads from it
/// the data under its index, if the entity is alive and the mask has the index.
pub proof fn law_storage_reads_masked_data<'e, T: Component, D: MaskedRef<T>>(
    storage: Storage<'e, T, D>,
    e: Entity,
)
    ensures
        storage.masked() == storage.data().masked(),
        storage.wf() <==> storage.masked().wf(),
        storage.wf() ==> storage.component(e) == (if storage.entities().alive(e)
            && storage.masked().indices().contains(e.0) {
            Some(storage.masked().inner().contents()[e.0])
        } else {
            None
        }),
{
}

/// An entry is valid when its storage is, and has a component under the index of
/// the entity exactly for an occupied entry.
pub proof fn law_validity_of_entries<'a, 'b, T: Component, D: MaskedRef<T>>(
    occupied: OccupiedEntry<'a, 'b, T, D>,
    vacant: VacantEntry<'a, 'b, T, D>,
)
    ensures
        occupied.wf() <==> occupied.storage().wf()
            && occupied.storage().masked().indices().contains(occupied.entity().0),
        vacant.wf() <==> vacant.storage().wf()
            && !vacant.storage().masked().indices().contains(vacant.entity().0),
        StorageEntry::Occupied(occupied).wf() <==> occupied.wf(),
        StorageEntry::Vacant(vacant).wf() <==> vacant.wf(),
        StorageEntry::Occupied(occupied).entity() == occupied.entity(),
        StorageEntry::Vacant(vacant).entity() == vacant.entity(),
        StorageEntry::Occupied(occupied).storage() == occupied.storage(),
        StorageEntry::Vacant(vacant).storage() == vacant.storage(),
{
}

/// A shared join goes over the indices in its mask, and gives an item for every
/// index that the storage has data for.
pub proof fn law_shared_join_goes_over_mask<'a: 'v, 'e: 'a, 'v, T, D>(
    storage: &'a Storage<'e, T, D>,
    mask: &'a BitSet,
    value: &'a T::Storage,
    id: Index,
) where T: Component, T::Storage: 'v, D: MaskedRef<T>
    ensures
        <&'a Storage<'e, T, D> as Join<'v>>::joinable(storage) <==> storage.wf(),
        <&'a Storage<'e, T, D> as Join<'v>>::mask_has(mask, id) <==> bits::members(*mask).contains(
            id,
        ),
        <&'a Storage<'e, T, D> as Join<'v>>::value_has(value, id) <==> value.wf()
            && value.contents().contains_key(id),
{
}

/// A mutable join goes over the indices in its mask, and gives an item for every
/// index that the storage has data for.
pub proof fn law_mutable_join_goes_over_mask<'a: 'v, 'e: 'a, 'v, T, D>(
    storage: &'a mut Storage<'e, T, D>,
    mask: &'a BitSet,
    value: &'a mut T::Storage,
    id: Index,
) where T: Component, T::Storage: 'v, D: MaskedMut<T>
    ensures
        <&'a mut Storage<'e, T, D> as Join<'v>>::joinable(storage) <==> old(storage).wf(),
        <&'a mut Storage<'e, T, D> as Join<'v>>::mask_has(mask, id) <==> bits::members(
            *mask,
        ).contains(id),
        <&'a mut Storage<'e, T, D> as Join<'v>>::value_has(value, id) <==> old(value).wf()
            && old(value).contents().contains_key(id),
{
}

/// A draining join goes over the indices in its mask, and gives an item for
/// every index that still has a component.
pub proof fn law_draining_join_goes_over_mask<'a: 'v, 'v, T>(
    drain: Drain<'a, T>,
    mask: BitSet,
    value: &'a mut MaskedStorage<T>,
    id: Index,
) where T: Component + 'v, T::Storage: 'v
    ensures
        <Drain<'a, T> as Join<'v>>::joinable(drain) <==> old(drain.data).wf(),
        <Drain<'a, T> as Join<'v>>::mask_has(mask, id) <==> bits::members(mask).contains(id),
        <Drain<'a, T> as Join<'v>>::value_has(value, id) <==> old(value).wf()
            && old(value).indices().contains(id),
{
}

/// An inverted join can always be opened, goes over the indices in its inverted
/// mask, and gives its empty item for every index.
pub proof fn law_inverted_join_goes_over_mask<'a, 'v>(
    anti: AntiStorage<'a>,
    mask: InvertedMask<'a>,
    id: Index,
)
    ensures
        <AntiStorage<'a> as Join<'v>>::joinable(anti),
        <AntiStorage<'a> as Join<'v>>::mask_has(mask, id) <==> bits::inverted_members(
            mask,
        ).contains(id),
        <AntiStorage<'a> as Join<'v>>::value_has((), id),
{
}

/// Two entities in the same place which are both alive are the same entity.
pub proof fn law_one_live_entity_per_place(entities: EntitiesRes, a: Entity, b: Entity)
    requires
        entities.alive(a),
        entities.alive(b),
        a.id() == b.id(),
    ensures
        a == b,
{
}

/// A new place accepts entities of the first generation, and of no other.
pub proof fn law_new_place_has_first_generation(entities: EntitiesRes, e: Entity)
    requires
        e.id() >= entities.generations().len(),
    ensures
        entities.alive(e) <==> e.gen().id() == 1,
{
}

/// The mask of a storage is exactly the set of the indices with a component.
pub proof fn law_mask_is_domain<T: Component>(masked: MaskedStorage<T>)
    requires
        masked.wf(),
    ensures
        masked@.dom() == masked.indices(),
{
    assert(masked@.dom() =~= masked.indices());
}

/// What was inserted for a live entity is what it reads.
pub proof fn law_insert_is_read<T>(
    entities: EntitiesRes,
    components: Map<Index, T>,
    e: Entity,
    value: T,
)
    requires
        entities.alive(e),
    ensures
        storage::lookup(
            entities,
            storage::after_insert(entities, components, e, value),
            e,
        ) == Some(value),
{
}

/// Inserting for an entity does not change what entities in other places read.
pub proof fn law_insert_keeps_others<T>(
    entities: EntitiesRes,
    components: Map<Index, T>,
    e: Entity,
    value: T,
    other: Entity,
)
    requires
        other.id() != e.id(),
    ensures
        storage::lookup(
            entities,
            storage::after_insert(entities, components, e, value),
            other,
        ) == storage::lookup(entities, components, other),
{
}

/// Inserting succeeds exactly for live entities, and then returns the component
/// that the entity read before.
pub proof fn law_insert_returns_replaced<T>(
    entities: EntitiesRes,
    components: Map<Index, T>,
    e: Entity,
)
    ensures
        storage::insert_result(entities, components, e) is Ok <==> entities.alive(e),
        entities.alive(e) ==> storage::insert_result(entities, components, e) == Ok::<_, Error>(
            storage::lookup(entities, components, e),
        ),
{
}

/// Inserting for an entity which is not alive is refused, names the entity, and
/// changes nothing.
pub proof fn law_refused_insert_changes_nothing<T>(
    entities: EntitiesRes,
    components: Map<Index, T>,
    e: Entity,
    value: T,
)
    requires
        !entities.alive(e),
    ensures
        storage::insert_result(entities, components, e) == Err::<Option<T>, _>(
            Error::WrongGeneration(storage::refused_insert(entities, e)),
        ),
        storage::refused_insert(entities, e).entity == e,
        storage::after_insert(entities, components, e, value) == components,
{
}

/// Of two values inserted one after the other the second one stays, and the
/// first one comes back.
pub proof fn law_last_insert_stays<T>(
    entities: EntitiesRes,
    components: Map<Index, T>,
    e: Entity,
    first: T,
    second: T,
)
    requires
        entities.alive(e),
    ensures
        ({
            let between = storage::after_insert(entities, components, e, first);
            &&& storage::insert_result(entities, between, e) == Ok::<_, Error>(Some(first))
            &&& storage::after_insert(entities, between, e, second) == storage::after_insert(
                entities,
                components,
                e,
                second,
            )
        }),
{
    let between = storage::after_insert(entities, components, e, first);
    assert(storage::after_insert(entities, between, e, second) =~= storage::after_insert(
        entities,
        components,
        e,
        second,
    ));
}

/// After a removal the entity reads nothing, and entities in other places read
/// what they read before.
pub proof fn law_remove_is_read<T>(
    entities: EntitiesRes,
    components: Map<Index, T>,
    e: Entity,
    other: Entity,
)
    ensures
        storage::lookup(entities, storage::after_remove(entities, components, e), e) is None,
        other.id() != e.id() ==> storage::lookup(
            entities,
            storage::after_remove(entities, components, e),
            other,
        ) == storage::lookup(entities, components, other),
{
}

/// Removing what was inserted for an entity without a component gives back the
/// storage from before the insertion.
pub proof fn law_remove_undoes_insert<T>(
    entities: EntitiesRes,
    components: Map<Index, T>,
    e: Entity,
    value: T,
)
    requires
        !components.contains_key(e.id()),
    ensures
        storage::after_remove(
            entities,
            storage::after_insert(entities, components, e, value),
            e,
        ) == components,
{
    assert(storage::after_remove(
        entities,
        storage::after_insert(entities, components, e, value),
        e,
    ) =~= components);
}

/// Inserting what was removed gives back the storage from before the removal.
pub proof fn law_insert_undoes_remove<T>(
    entities: EntitiesRes,
    components: Map<Index, T>,
    e: Entity,
)
    requires
        storage::lookup(entities, components, e) is Some,
    ensures
        storage::after_insert(
            entities,
            storage::after_remove(entities, components, e),
            e,
            storage::lookup(entities, components, e)->0,
        ) == components,
{
    assert(storage::after_insert(
        entities,
        storage::after_remove(entities, components, e),
        e,
        storage::lookup(entities, components, e)->0,
    ) =~= components);
}

/// An entity which is not alive reads nothing and removes nothing, even where
/// another generation has a component in the same place.
pub proof fn law_stale_entity_is_powerless<T>(
    entities: EntitiesRes,
    components: Map<Index, T>,
    e: Entity,
)
    requires
        !entities.alive(e),
    ensures
        storage::lookup(entities, components, e) is None,
        storage::after_remove(entities, components, e) == components,
{
}

/// The component that an entry or a mutable reference leaves for a live entity
/// is the one that the entity reads, and nothing else changes: it is as if that
/// component had been inserted.
pub proof fn law_stored_is_inserted<T: Component>(
    entities: EntitiesRes,
    before: MaskedStorage<T>,
    after: MaskedStorage<T>,
    e: Entity,
    value: T,
)
    requires
        entities.alive(e),
        after.stores(before, e.id(), value),
    ensures
        after@ == storage::after_insert(entities, before@, e, value),
        storage::lookup(entities, after@, e) == Some(value),
{
}

/// An occupied entry whose component is left as it was changes nothing.
pub proof fn law_untouched_entry_changes_nothing<T: Component>(
    before: MaskedStorage<T>,
    after: MaskedStorage<T>,
    id: Index,
)
    requires
        before.wf(),
        before.indices().contains(id),
        after.stores(before, id, before@[id]),
    ensures
        after@ == before@,
        after.indices() == before.indices(),
{
    assert(after@ =~= before@);
    assert(after.indices() =~= before.indices());
}

/// Taking the component of a live entity out through an entry is the same as
/// removing it.
pub proof fn law_lacking_is_removed<T: Component>(
    entities: EntitiesRes,
    before: MaskedStorage<T>,
    after: MaskedStorage<T>,
    e: Entity,
)
    requires
        entities.alive(e),
        after.lacks(before, e.id()),
    ensures
        after@ == storage::after_remove(entities, before@, e),
        storage::lookup(entities, after@, e) is None,
{
}

/// In a cleared storage no entity reads anything.
pub proof fn law_cleared_is_empty<T: Component>(
    entities: EntitiesRes,
    before: MaskedStorage<T>,
    after: MaskedStorage<T>,
    e: Entity,
)
    requires
        after.cleared(before),
    ensures
        storage::lookup(entities, after@, e) is None,
{
}

/// Once the components of some entities were dropped, those in their places
/// read nothing, and all others read what they read before.
pub proof fn law_dropped_are_gone<T>(
    entities: EntitiesRes,
    components: Map<Index, T>,
    dropped: Seq<Entity>,
    e: Entity,
)
    ensures
        ({
            let left = components.remove_keys(storage::indices_of(dropped));
            if exists|i: int| 0 <= i < dropped.len() && (#[trigger] dropped[i]).id() == e.id() {
                storage::lookup(entities, left, e) is None
            } else {
                storage::lookup(entities, left, e) == storage::lookup(entities, components, e)
            }
        }),
{
}

/// A refused entry and a refused insertion name the same entity, and report the
/// same generation where the one recorded for the place is alive. Where it is
/// dead, the refused entry reports it, and the refused insertion reports the one
/// that comes next.
pub proof fn law_refusals_agree(entities: EntitiesRes, e: Entity)
    ensures
        storage::refused_entry(entities, e).entity == storage::refused_insert(entities, e).entity,
        entities.recorded(e.id()).is_alive() ==> storage::refused_entry(entities, e).actual_gen
            == storage::refused_insert(entities, e).actual_gen,
        !entities.recorded(e.id()).is_alive() ==> storage::refused_insert(entities, e).actual_gen
            == storage::refused_entry(entities, e).actual_gen.next(),
{
}

/// Every index is either in the mask of a storage or in the mask of its
/// inversion, and never in both.
pub proof fn law_inversion_is_complement<'a, 'e, T: Component, D: MaskedRef<T>>(
    storage: Storage<'e, T, D>,
    anti: AntiStorage<'a>,
    mask: InvertedMask<'a>,
    id: Index,
)
    requires
        anti.excluded() == storage.masked().indices(),
        bits::inverted_members(mask) == anti.excluded().complement(),
    ensures
        bits::inverted_members(mask).contains(id) <==> !storage.masked().indices().contains(id),
{
}

/// A join gives for the index of a live entity the component that the entity
/// reads.
pub proof fn law_join_gives_component<'e, T: Component, D: MaskedRef<T>>(
    storage: Storage<'e, T, D>,
    e: Entity,
)
    requires
        storage.wf(),
        storage.entities().alive(e),
        storage.masked().indices().contains(e.id()),
    ensures
        storage.component(e) == Some(storage.masked().inner().contents()[e.id()]),
{
}

/// The items of a mutable join for two distinct indices are disjoint. The first
/// item is lent while the data are `before` and written to before they are
/// `between`, the second one is lent then and written to before they are
/// `after`. The second item is what it was before the first one was written to,
/// writing to either changes no data but its own, and both orders of lending
/// end in the same data.
pub proof fn law_distinct_items_are_disjoint<T, S: UnprotectedStorage<T>>(
    before: S,
    i: Index,
    first_written: T,
    between: S,
    j: Index,
    second: T,
    second_written: T,
    after: S,
)
    requires
        i != j,
        before.contents().contains_key(i),
        before.contents().contains_key(j),
        between.contents() == before.contents().insert(i, first_written),
        second == between.contents()[j],
        after.contents() == between.contents().insert(j, second_written),
    ensures
        between.contents().contains_key(j),
        second == before.contents()[j],
        forall|k: Index|
            k != i ==> {
                &&& #[trigger] between.contents().contains_key(k) == before.contents().contains_key(
                    k,
                )
                &&& between.contents()[k] == before.contents()[k]
            },
        after.contents()[i] == first_written,
        after.contents()[j] == second_written,
        forall|k: Index|
            k != i && k != j ==> {
                &&& #[trigger] after.contents().contains_key(k) == before.contents().contains_key(k)
                &&& after.contents()[k] == before.contents()[k]
            },
        after.contents() == before.contents().insert(j, second_written).insert(i, first_written),
{
    assert(after.contents() =~= before.contents().insert(j, second_written).insert(
        i,
        first_written,
    ));
}

/// A new masked storage over an empty storage knows exactly what is stored.
pub proof fn law_new_mask_is_exact<T: Component>(masked: MaskedStorage<T>)
    requires
        masked.wf(),
        masked.indices() == Set::<Index>::empty(),
        masked.inner().contents() == Map::<Index, T>::empty(),
    ensures
        masked.exact(),
{
}

/// A mask that knows exactly what is stored still does after a component was
/// stored: by an insertion, through an entry, or through a mutable reference.
pub proof fn law_storing_keeps_mask_exact<T: Component>(
    before: MaskedStorage<T>,
    after: MaskedStorage<T>,
    id: Index,
    value: T,
)
    requires
        before.exact(),
        after.stores(before, id, value),
    ensures
        after.exact(),
{
}

/// A mask that knows exactly what is stored still does after a component was
/// removed, dropped or drained.
pub proof fn law_lacking_keeps_mask_exact<T: Component>(
    before: MaskedStorage<T>,
    after: MaskedStorage<T>,
    id: Index,
)
    requires
        before.exact(),
        after.lacks(before, id),
    ensures
        after.exact(),
{
    assert(after.indices() =~= after.inner().contents().dom());
}

/// A mask that knows exactly what is stored still does after the components of
/// some entities were dropped.
pub proof fn law_dropping_keeps_mask_exact<T: Component>(
    before: MaskedStorage<T>,
    after: MaskedStorage<T>,
    dropped: Seq<Entity>,
)
    requires
        before.exact(),
        after.wf(),
        after.indices() == before.indices().difference(storage::indices_of(dropped)),
        after.inner().contents() == before.inner().contents().remove_keys(
            before.indices().intersect(storage::indices_of(dropped)),
        ),
    ensures
        after.exact(),
{
    assert(after.indices() =~= after.inner().contents().dom());
}

/// A mask that knows exactly what is stored still does after an item of a
/// mutable join was written to.
pub proof fn law_joining_keeps_mask_exact<T: Component>(
    before: MaskedStorage<T>,
    after: MaskedStorage<T>,
    id: Index,
    value: T,
)
    requires
        before.exact(),
        before.indices().contains(id),
        after.indices() == before.indices(),
        after.inner().wf(),
        after.inner().contents() == before.inner().contents().insert(id, value),
    ensures
        after.exact(),
{
    assert(after.indices() =~= after.inner().contents().dom());
}

/// A mask that knows exactly what is stored still does after everything was
/// cleared, for storages that cleaning empties.
pub proof fn law_clearing_keeps_mask_exact<T: Component>(
    before: MaskedStorage<T>,
    after: MaskedStorage<T>,
)
    requires
        before.exact(),
        after.cleared(before),
        storage::unprotected::cleaning_empties::<T, T::Storage>(),
    ensures
        after.exact(),
{
}

/// Cleaning empties a dense vector storage.
pub proof fn law_cleaning_empties_dense<T>()
    ensures
        storage::unprotected::cleaning_empties::<T, DenseVecStorage<T>>(),
{
}

/// The masked storage after some of its components were taken out one after the
/// other: from each state to the next the component under one index is gone,
/// and it is the item that came out.
pub open spec fn drained_one_by_one<T: Component>(
    states: Seq<MaskedStorage<T>>,
    ids: Seq<Index>,
    items: Seq<T>,
) -> bool {
    &&& states.len() == ids.len() + 1
    &&& items.len() == ids.len()
    &&& forall|k: int|
        0 <= k < ids.len() ==> {
            &&& items[k] == states[k]@[#[trigger] ids[k]]
            &&& states[k + 1].lacks(states[k], ids[k])
        }
}

/// Joining a drain to its end, with each index of the mask once and in any
/// order, yields each component once, and leaves the storage empty. Every index
/// still has its component when its turn comes.
pub proof fn law_drain_joined_to_end<T: Component>(
    states: Seq<MaskedStorage<T>>,
    ids: Seq<Index>,
    items: Seq<T>,
)
    requires
        drained_one_by_one(states, ids, items),
        states[0].wf(),
        ids.no_duplicates(),
        ids.to_set() == states[0].indices(),
    ensures
        forall|k: int|
            0 <= k < ids.len() ==> {
                &&& states[k].indices().contains(#[trigger] ids[k])
                &&& items[k] == states[0]@[ids[k]]
            },
        states.last().wf(),
        states.last().indices() == Set::<Index>::empty(),
        states.last()@ == Map::<Index, T>::empty(),
{
    assert forall|k: int| 0 <= k < ids.len() implies {
        &&& states[k].indices().contains(#[trigger] ids[k])
        &&& items[k] == states[0]@[ids[k]]
    } by {
        lemma_drained_so_far(states, ids, items, k);
        assert(ids.to_set().contains(ids[k]));
        assert forall|j: int| 0 <= j < k implies ids[j] != ids[k] by {}
        assert(states[k].indices().contains(ids[k]));
        assert(states[k]@.contains_key(ids[k]));
    }
    let n = ids.len() as int;
    lemma_drained_so_far(states, ids, items, n);
    assert forall|id: Index| !states[n].indices().contains(id) by {
        if states[0].indices().contains(id) {
            assert(ids.to_set().contains(id));
            let j = choose|j: int| 0 <= j < ids.len() && ids[j] == id;
            assert(ids[j] == id);
        }
    }
    assert(states[n].indices() =~= Set::<Index>::empty());
    assert(states[n]@ =~= Map::<Index, T>::empty());
}

/// What is left of a storage after the first few components were taken out.
proof fn lemma_drained_so_far<T: Component>(
    states: Seq<MaskedStorage<T>>,
    ids: Seq<Index>,
    items: Seq<T>,
    n: int,
)
    requires
        drained_one_by_one(states, ids, items),
        states[0].wf(),
        0 <= n <= ids.len(),
    ensures
        states[n].wf(),
        forall|id: Index|
            #[trigger] states[n].indices().contains(id) <==> states[0].indices().contains(id) && (
            forall|j: int| 0 <= j < n ==> ids[j] != id),
        forall|id: Index|
            states[n].indices().contains(id) ==> #[trigger] states[n]@[id] == states[0]@[id],
    decreases n,
{
    if n > 0 {
        lemma_drained_so_far(states, ids, items, n - 1);
        let last = ids[n - 1];
        assert(states[n - 1 + 1].lacks(states[n - 1], last));
        assert forall|id: Index|
            #[trigger] states[n].indices().contains(id) <==> states[0].indices().contains(id) && (
            forall|j: int| 0 <= j < n ==> ids[j] != id) by {
            assert(states[n].indices().contains(id) <==> states[n - 1].indices().contains(id) && id
                != last);
        }
        assert forall|id: Index| states[n].indices().contains(id) implies #[trigger] states[n]@[id]
            == states[0]@[id] by {
            assert(states[n - 1].indices().contains(id));
            assert(states[n]@ == states[n - 1]@.remove(last));
        }
    }
}

} // verus!
