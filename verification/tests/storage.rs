use hibitset::{BitSet, BitSetLike, BitSetNot};
use masked_storage::bits::InvertedMask;
use masked_storage::error::Error;
use masked_storage::join::{Join, ParJoin};
use masked_storage::storage::{
    AnyStorage, DenseVecStorage, DistinctStorage, Drain, MaskedStorage, Storage, StorageEntry, TryDefault,
    UnprotectedStorage,
};
use masked_storage::world::{Component, EntitiesRes, Entity, Generation, Index};
use rayon::iter::{IntoParallelIterator, ParallelIterator};

struct Pos;

impl Component for Pos {
    type Storage = DenseVecStorage<Self>;
}

#[derive(Clone, Copy, Debug, PartialEq)]
struct Comp {
    field: u32,
}

impl Component for Comp {
    type Storage = DenseVecStorage<Self>;
}

fn bitset(ids: &[Index]) -> BitSet {
    let mut set = BitSet::new();
    for id in ids {
        set.add(*id);
    }
    set
}

/// Place 0 is alive in generation 1, place 1 dead since generation 1, place 2
/// alive in generation 3, place 3 dead since generation 2 and in use again.
fn entities() -> EntitiesRes {
    EntitiesRes::new(
        vec![Generation(1), Generation(-1), Generation(3), Generation(-2)],
        bitset(&[3]),
    )
}

fn entity(id: Index, gen: i32) -> Entity {
    Entity(id, Generation(gen))
}

fn masked<T>() -> MaskedStorage<T>
where
    T: Component,
    T::Storage: Default,
{
    MaskedStorage::new(<T::Storage as Default>::default())
}

#[test]
fn test_anti_par_join() {
    fn in_parallel<'a, 'v, J>(join: J) -> InvertedMask<'a>
    where
        J: ParJoin<'v> + Join<'v, Mask = InvertedMask<'a>, Value = ()>,
    {
        join.open().0
    }

    let world = EntitiesRes::new(vec![Generation(1)], BitSet::new());
    let data = masked::<Pos>();
    let pos: Storage<Pos, &MaskedStorage<Pos>> = Storage::new(&world, &data);
    let mask = in_parallel(!&pos);
    let present: Vec<Entity> = (0..1).map(|id: Index| world.entity(id)).filter(|e| mask.contains(e.id())).collect();
    assert_eq!(present, vec![entity(0, 1)]);
    present.into_par_iter().for_each(|ent| {
        println!("Processing entity: {:?}", ent);
    });
}

#[test]
fn entry_or_insert_example() {
    let world = entities();
    let mut data = masked::<Comp>();
    let mut storage = Storage::new(&world, &mut data);
    let e = entity(0, 1);
    if let Ok(entry) = storage.entry(e) {
        entry.or_insert(Comp { field: 55 });
    }
    assert_eq!(storage.get(e), Some(&Comp { field: 55 }));
    // An occupied entry keeps its component.
    if let Ok(entry) = storage.entry(e) {
        let slot = entry.or_insert(Comp { field: 56 });
        assert_eq!(slot.field, 55);
        slot.field = 57;
    }
    assert_eq!(storage.get(e), Some(&Comp { field: 57 }));
}

#[test]
fn or_insert_with_is_lazy() {
    let world = entities();
    let mut data = masked::<Comp>();
    let mut storage = Storage::new(&world, &mut data);
    let e = entity(2, 3);
    let mut calls = 0;
    for _ in 0..3 {
        let slot = storage.entry(e).ok().unwrap().or_insert_with(|| {
            calls += 1;
            Comp { field: 7 }
        });
        assert_eq!(slot.field, 7);
    }
    assert_eq!(calls, 1);
}

#[test]
fn generations_decide_who_is_alive() {
    let world = entities();
    assert!(world.is_alive(entity(0, 1)));
    assert!(!world.is_alive(entity(0, 2)));
    assert!(!world.is_alive(entity(1, 1)));
    assert!(!world.is_alive(entity(1, 2)));
    assert!(world.is_alive(entity(2, 3)));
    assert!(!world.is_alive(entity(3, 2)));
    assert!(world.is_alive(entity(3, 3)));
    // Places that were never used.
    assert!(world.is_alive(entity(4, 1)));
    assert!(!world.is_alive(entity(4, 2)));
    assert_eq!(world.entity(0), entity(0, 1));
    assert_eq!(world.entity(1), entity(1, 2));
    assert_eq!(world.entity(3), entity(3, 3));
    assert_eq!(world.entity(4), entity(4, 1));
    assert_eq!(world.generation(1), Generation(-1));
    assert_eq!(world.generation(4), Generation(1));
    assert_eq!(Generation(-4).raised(), Generation(5));
    assert_eq!(Generation(-4).id(), -4);
}

#[test]
fn inserted_is_read() {
    let world = entities();
    let mut data = masked::<Comp>();
    let mut storage = Storage::new(&world, &mut data);
    let (a, b) = (entity(0, 1), entity(2, 3));
    assert!(matches!(storage.insert(a, Comp { field: 1 }), Ok(None)));
    assert!(matches!(storage.insert(b, Comp { field: 2 }), Ok(None)));
    assert_eq!(storage.get(a), Some(&Comp { field: 1 }));
    assert_eq!(storage.get(b), Some(&Comp { field: 2 }));
    assert!(matches!(storage.insert(a, Comp { field: 3 }), Ok(Some(Comp { field: 1 }))));
    assert_eq!(storage.get(a), Some(&Comp { field: 3 }));
    assert_eq!(storage.get(b), Some(&Comp { field: 2 }));
    assert!(storage.contains(a));
    assert!(storage.mask().contains(0));
    assert!(!storage.mask().contains(1));
    assert!(storage.mask().contains(2));
}

#[test]
fn refused_insert() {
    let world = entities();
    let mut data = masked::<Comp>();
    let mut storage = Storage::new(&world, &mut data);
    match storage.insert(entity(1, 1), Comp { field: 1 }) {
        Err(Error::WrongGeneration(refused)) => {
            assert_eq!(refused.action, "insert component for entity");
            assert_eq!(refused.actual_gen, Generation(2));
            assert_eq!(refused.entity, entity(1, 1));
        }
        Ok(_) => unreachable!(),
    }
    match storage.insert(entity(2, 2), Comp { field: 1 }) {
        Err(Error::WrongGeneration(refused)) => assert_eq!(refused.actual_gen, Generation(3)),
        Ok(_) => unreachable!(),
    }
    match storage.insert(entity(9, 2), Comp { field: 1 }) {
        Err(Error::WrongGeneration(refused)) => assert_eq!(refused.actual_gen, Generation(1)),
        Ok(_) => unreachable!(),
    }
    assert!(!storage.mask().contains(1));
    assert!(!storage.mask().contains(2));
    assert!(!storage.mask().contains(9));
}

#[test]
fn refused_entry() {
    let world = entities();
    let mut data = masked::<Comp>();
    let mut storage = Storage::new(&world, &mut data);
    let refused = storage.entry(entity(1, 1)).err().unwrap();
    assert_eq!(refused.action, "attempting to get an entry to a storage");
    assert_eq!(refused.actual_gen, Generation(-1));
    assert_eq!(refused.entity, entity(1, 1));
    let refused = storage.entry(entity(0, 5)).err().unwrap();
    assert_eq!(refused.actual_gen, Generation(1));
    let refused = storage.entry(entity(77, 5)).err().unwrap();
    assert_eq!(refused.actual_gen, Generation(1));
    assert_eq!(refused.entity, entity(77, 5));
}

#[test]
fn stale_entities_read_nothing() {
    let before = EntitiesRes::new(vec![Generation(1)], BitSet::new());
    let after = EntitiesRes::new(vec![Generation(2)], BitSet::new());
    let mut data = masked::<Comp>();
    assert!(Storage::new(&before, &mut data).insert(entity(0, 1), Comp { field: 1 }).is_ok());
    let mut storage = Storage::new(&after, &mut data);
    assert_eq!(storage.get(entity(0, 1)), None);
    assert!(!storage.contains(entity(0, 1)));
    assert!(storage.get_mut(entity(0, 1)).is_none());
    assert_eq!(storage.remove(entity(0, 1)), None);
    assert_eq!(storage.get(entity(0, 2)), Some(&Comp { field: 1 }));
}

#[test]
fn get_mut_writes() {
    let world = entities();
    let mut data = masked::<Comp>();
    let mut storage = Storage::new(&world, &mut data);
    let e = entity(3, 3);
    assert!(storage.get_mut(e).is_none());
    assert!(storage.insert(e, Comp { field: 1 }).is_ok());
    storage.get_mut(e).unwrap().field = 9;
    assert_eq!(storage.get(e), Some(&Comp { field: 9 }));
}

#[test]
fn removed_is_gone() {
    let world = entities();
    let mut data = masked::<Comp>();
    let mut storage = Storage::new(&world, &mut data);
    let (a, b) = (entity(0, 1), entity(2, 3));
    assert_eq!(storage.remove(a), None);
    assert!(storage.insert(a, Comp { field: 1 }).is_ok());
    assert!(storage.insert(b, Comp { field: 2 }).is_ok());
    assert_eq!(storage.remove(a), Some(Comp { field: 1 }));
    assert_eq!(storage.get(a), None);
    assert_eq!(storage.get(b), Some(&Comp { field: 2 }));
    assert!(matches!(storage.insert(a, Comp { field: 1 }), Ok(None)));
    assert_eq!(storage.get(a), Some(&Comp { field: 1 }));
}

#[test]
fn occupied_entry() {
    let world = entities();
    let mut data = masked::<Comp>();
    let mut storage = Storage::new(&world, &mut data);
    let e = entity(0, 1);
    match storage.entry(e) {
        Ok(StorageEntry::Vacant(vacant)) => vacant.insert(Comp { field: 1 }).field += 1,
        _ => unreachable!(),
    }
    match storage.entry(e) {
        Ok(StorageEntry::Occupied(mut occupied)) => {
            assert_eq!(occupied.get(), &Comp { field: 2 });
            assert_eq!(occupied.insert(Comp { field: 3 }), Comp { field: 2 });
            occupied.get_mut().field += 1;
            occupied.into_mut().field += 1;
        }
        _ => unreachable!(),
    }
    assert_eq!(storage.get(e), Some(&Comp { field: 5 }));
    match storage.entry(e) {
        Ok(StorageEntry::Occupied(occupied)) => assert_eq!(occupied.remove(), Comp { field: 5 }),
        _ => unreachable!(),
    }
    assert!(!storage.contains(e));
}

#[test]
fn clear_empties() {
    let world = entities();
    let mut data = masked::<Comp>();
    let mut storage = Storage::new(&world, &mut data);
    let (a, b) = (entity(0, 1), entity(2, 3));
    assert!(storage.insert(a, Comp { field: 1 }).is_ok());
    assert!(storage.insert(b, Comp { field: 2 }).is_ok());
    storage.clear();
    assert_eq!(storage.get(a), None);
    assert_eq!(storage.get(b), None);
    assert!(!storage.mask().contains(0));
    assert!(matches!(storage.insert(a, Comp { field: 4 }), Ok(None)));
    assert_eq!(storage.get(a), Some(&Comp { field: 4 }));
}

#[test]
fn data_outside_the_mask_are_not_seen() {
    let world = entities();
    let mut inner = DenseVecStorage::default();
    inner.insert(5, Comp { field: 50 });
    let mut data = MaskedStorage::<Comp>::new(inner);
    let mut storage = Storage::new(&world, &mut data);
    let e = entity(5, 1);
    assert_eq!(storage.get(e), None);
    assert_eq!(storage.unprotected_storage().get(5), &Comp { field: 50 });
    assert!(matches!(storage.insert(e, Comp { field: 51 }), Ok(None)));
    assert_eq!(storage.get(e), Some(&Comp { field: 51 }));
    storage.unprotected_storage_mut().get_mut(5).field += 1;
    assert_eq!(storage.get(e), Some(&Comp { field: 52 }));
}

#[test]
fn defaults() {
    assert_eq!(u32::try_default(), Ok(0));
    assert_eq!(u32::unwrap_default(), 0);
    let world = entities();
    let data = MaskedStorage::<Comp>::default();
    let storage = Storage::new(&world, &data);
    assert_eq!(storage.get(entity(0, 1)), None);
}

#[test]
fn drop_of_entities() {
    let world = entities();
    let mut data = masked::<Comp>();
    {
        let mut storage = Storage::new(&world, &mut data);
        for (i, e) in [entity(0, 1), entity(2, 3), entity(3, 3), entity(4, 1)].iter().enumerate() {
            assert!(storage.insert(*e, Comp { field: i as u32 }).is_ok());
        }
    }
    {
        let any: &mut dyn AnyStorage = &mut data;
        // The generation plays no part, and an entity may occur twice.
        any.drop(&[entity(0, 9), entity(1, 1), entity(4, 1), entity(0, 1)]);
    }
    let storage = Storage::new(&world, &data);
    assert_eq!(storage.get(entity(0, 1)), None);
    assert_eq!(storage.get(entity(2, 3)), Some(&Comp { field: 1 }));
    assert_eq!(storage.get(entity(3, 3)), Some(&Comp { field: 2 }));
    assert_eq!(storage.get(entity(4, 1)), None);
}

#[test]
fn masked_storage_by_index() {
    let mut data = masked::<Comp>();
    assert_eq!(data.remove(0), None);
    let world = entities();
    assert!(Storage::new(&world, &mut data).insert(entity(0, 1), Comp { field: 1 }).is_ok());
    assert!(Storage::new(&world, &mut data).insert(entity(7, 1), Comp { field: 2 }).is_ok());
    data.drop(0);
    data.drop(0);
    assert_eq!(data.remove(0), None);
    assert_eq!(data.remove(7), Some(Comp { field: 2 }));
    assert_eq!(data.remove(7), None);
}

#[test]
fn drain_takes_components_out() {
    let world = entities();
    let mut data = masked::<Comp>();
    let mut storage = Storage::new(&world, &mut data);
    assert!(storage.insert(entity(0, 1), Comp { field: 1 }).is_ok());
    assert_eq!(storage.drain().data.remove(0), Some(Comp { field: 1 }));
    assert!(!storage.contains(entity(0, 1)));
}

#[test]
fn drain_joined_to_its_end() {
    let world = entities();
    let mut data = masked::<Comp>();
    let mut storage = Storage::new(&world, &mut data);
    for (i, e) in [entity(0, 1), entity(2, 3), entity(70, 1)].iter().enumerate() {
        assert!(storage.insert(*e, Comp { field: i as u32 }).is_ok());
    }
    let mut seen: Vec<(Index, u32)> = Vec::new();
    {
        let (mask, mut value) = Join::open(storage.drain());
        for id in 0..100 {
            if mask.contains(id) {
                let item = <Drain<Comp> as Join>::get(&mut value, id);
                // The mask was copied, so it does not follow the draining.
                assert!(mask.contains(id));
                seen.push((id, item.field));
            }
        }
    }
    assert_eq!(seen, vec![(0, 0), (2, 1), (70, 2)]);
    for id in 0..100 {
        assert!(!storage.mask().contains(id));
    }
    assert!(matches!(storage.insert(entity(2, 3), Comp { field: 9 }), Ok(None)));
}

#[test]
fn drain_dropped_unused_changes_nothing() {
    let world = entities();
    let mut data = masked::<Comp>();
    let mut storage = Storage::new(&world, &mut data);
    assert!(storage.insert(entity(0, 1), Comp { field: 1 }).is_ok());
    {
        let _drain = storage.drain();
    }
    assert_eq!(storage.get(entity(0, 1)), Some(&Comp { field: 1 }));
}

#[test]
fn default_storage_is_usable() {
    let world = entities();
    let mut data = MaskedStorage::<Comp>::new(TryDefault::unwrap_default());
    let mut storage = Storage::new(&world, &mut data);
    assert!(matches!(storage.insert(entity(0, 1), Comp { field: 1 }), Ok(None)));
    assert_eq!(storage.get(entity(0, 1)), Some(&Comp { field: 1 }));
}

#[test]
fn join_reads_and_writes() {
    let world = entities();
    let mut data = masked::<Comp>();
    let mut storage = Storage::new(&world, &mut data);
    assert!(storage.insert(entity(0, 1), Comp { field: 1 }).is_ok());
    assert!(storage.insert(entity(2, 3), Comp { field: 2 }).is_ok());
    {
        let (mask, mut value) = Join::open(&mut storage);
        for id in 0..4 {
            if mask.contains(id) {
                let item = <&mut Storage<Comp, &mut MaskedStorage<Comp>> as Join>::get(&mut value, id);
                item.field += 10;
            }
        }
    }
    let (mask, mut value) = Join::open(&storage);
    let mut seen: Vec<u32> = Vec::new();
    for id in 0..4 {
        if mask.contains(id) {
            seen.push(<&Storage<Comp, &mut MaskedStorage<Comp>> as Join>::get(&mut value, id).field);
        }
    }
    assert_eq!(seen, vec![11, 12]);
}

#[test]
fn inversion_is_complement() {
    let world = entities();
    let mut data = masked::<Comp>();
    let mut storage = Storage::new(&world, &mut data);
    assert!(storage.insert(entity(2, 3), Comp { field: 2 }).is_ok());
    let (mask, _) = Join::open(!&storage);
    for id in [0, 1, 2, 3, 64, 5000, 16_777_216, u32::MAX] {
        assert_eq!(mask.contains(id), id != 2);
    }
}

#[test]
fn inversion_can_be_walked() {
    let world = entities();
    let mut data = masked::<Comp>();
    let mut storage = Storage::new(&world, &mut data);
    assert!(storage.insert(entity(0, 1), Comp { field: 0 }).is_ok());
    assert!(storage.insert(entity(2, 3), Comp { field: 2 }).is_ok());
    let anti = !&storage;
    let without: Vec<Index> = BitSetNot(anti.mask()).iter().take(4).collect();
    assert_eq!(without, vec![1, 3, 4, 5]);
}

#[test]
fn storage_over_an_owned_box() {
    let world = entities();
    let mut storage = Storage::new(&world, Box::new(masked::<Comp>()));
    let e = entity(0, 1);
    assert!(matches!(storage.insert(e, Comp { field: 1 }), Ok(None)));
    storage.get_mut(e).unwrap().field += 1;
    storage.entry(e).ok().unwrap().or_insert(Comp { field: 7 }).field += 1;
    assert_eq!(storage.get(e), Some(&Comp { field: 3 }));
    assert_eq!(storage.drain().data.remove(0), Some(Comp { field: 3 }));
    assert_eq!(storage.remove(e), None);
}

#[test]
fn distinct_storages() {
    fn distinct<S: DistinctStorage>() -> bool {
        true
    }

    assert!(distinct::<DenseVecStorage<Comp>>());
    assert!(distinct::<Storage<Comp, &mut MaskedStorage<Comp>>>());
    let mut dense = DenseVecStorage::<u32>::default();
    dense.insert(3, 30);
    dense.insert(8, 80);
    *dense.get_mut(3) += 1;
    *dense.get_mut(8) += 2;
    assert_eq!((*dense.get(3), *dense.get(8)), (31, 82));
}

#[test]
fn dense_storage_moves_the_last() {
    let mut dense = DenseVecStorage::<u32>::default();
    for id in [5, 1, 900, 0] {
        dense.insert(id, id + 100);
    }
    assert_eq!(dense.remove(1), 101);
    assert_eq!((*dense.get(0), *dense.get(5), *dense.get(900)), (100, 105, 1000));
    dense.insert(5, 7);
    assert_eq!(*dense.get(5), 7);
    UnprotectedStorage::drop(&mut dense, 0);
    assert_eq!(dense.remove(5), 7);
    assert_eq!(dense.remove(900), 1000);
    dense.insert(0, 1);
    assert_eq!(*dense.get(0), 1);
}

#[test]
fn largest_index() {
    let world = entities();
    let mut data = masked::<Comp>();
    let mut storage = Storage::new(&world, &mut data);
    let e = entity(0x10_0000, 1);
    assert!(matches!(storage.insert(e, Comp { field: 1 }), Ok(None)));
    assert_eq!(storage.get(e), Some(&Comp { field: 1 }));
    assert_eq!(storage.remove(e), Some(Comp { field: 1 }));
}
