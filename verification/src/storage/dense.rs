//! A storage without holes.

use hibitset::BitSet;
use vstd::prelude::*;

use super::{DistinctStorage, UnprotectedStorage};
use crate::world::Index;

verus! {

/// Dense vector storage. Has a redirection 2-way table between entities and
/// components, allowing to leave no gaps within the data vector.
pub struct DenseVecStorage<T> {
    /// The components, in no particular order.
    data: Vec<T>,
    /// For each component, the index that it belongs to.
    entity_id: Vec<Index>,
    /// For each index, the place of its component in `data`. Means nothing for
    /// an index without a component.
    data_id: Vec<usize>,
}

impl<T> DenseVecStorage<T> {
    /// The place noted for an index is the place of its component.
    closed spec fn present(&self, id: Index) -> bool {
        &&& id < self.data_id@.len()
        &&& self.data_id@[id as int] < self.entity_id@.len()
        &&& self.entity_id@[self.data_id@[id as int] as int] == id
    }

    /// Finds the place of the component of an index.
    fn place(&self, id: Index) -> (place: Option<usize>)
        ensures
            place == (if self.present(id) {
                Some(self.data_id@[id as int])
            } else {
                None
            }),
    {
        if (id as usize) < self.data_id.len() {
            let place = self.data_id[id as usize];
            if place < self.entity_id.len() && self.entity_id[place] == id {
                return Some(place);
            }
        }
        None
    }
}

impl<T> Default for DenseVecStorage<T> {
    fn default() -> (storage: Self)
        ensures
            storage.wf(),
            storage.contents() == Map::<Index, T>::empty(),
    {
        let storage = DenseVecStorage {
            data: Vec::new(),
            entity_id: Vec::new(),
            data_id: Vec::new(),
        };
        assert(storage.contents() =~= Map::<Index, T>::empty());
        storage
    }
}

impl<T> UnprotectedStorage<T> for DenseVecStorage<T> {
    closed spec fn contents(&self) -> Map<Index, T> {
        Map::new(
            |id: Index| self.present(id),
            |id: Index| self.data@[self.data_id@[id as int] as int],
        )
    }

    closed spec fn wf(&self) -> bool {
        &&& self.data@.len() == self.entity_id@.len()
        &&& forall|k: int|
            0 <= k < self.entity_id@.len() ==> {
                &&& (#[trigger] self.entity_id@[k]) < self.data_id@.len()
                &&& self.data_id@[self.entity_id@[k] as int] == k
            }
    }

    open spec fn cleaned(before: Self, has: Set<Index>, after: Self) -> bool {
        after.contents() == Map::<Index, T>::empty()
    }

    proof fn default_is_valid(storage: Self) {
    }

    fn clean(&mut self, _has: &BitSet) {
        self.data.clear();
        self.entity_id.clear();
        self.data_id.clear();
        assert(self.contents() =~= Map::<Index, T>::empty());
    }

    fn get(&self, id: Index) -> (value: &T) {
        &self.data[self.data_id[id as usize]]
    }

    fn get_mut(&mut self, id: Index) -> (value: &mut T) {
        let place = self.data_id[id as usize];
        proof {
            let before = *self;
            assert forall|after: Self|
                after.entity_id == before.entity_id && after.data_id == before.data_id
                    && #[trigger] after.data@ == before.data@.update(
                    place as int,
                    after.data@[place as int],
                ) implies after.contents() == before.contents().insert(
                id,
                after.data@[place as int],
            ) by {
                assert(after.contents() =~= before.contents().insert(
                    id,
                    after.data@[place as int],
                ));
            }
        }
        &mut self.data[place]
    }

    fn insert(&mut self, id: Index, value: T) {
        match self.place(id) {
            Some(place) => {
                self.data[place] = value;
            },
            None => {
                while self.data_id.len() <= id as usize
                    invariant
                        self.wf(),
                        self.contents() == old(self).contents(),
                        self.data == old(self).data,
                        self.entity_id == old(self).entity_id,
                        !self.present(id),
                    decreases id + 1 - self.data_id@.len(),
                {
                    let ghost before = *self;
                    self.data_id.push(usize::MAX);
                    assert(self.contents() =~= before.contents());
                }
                self.data_id[id as usize] = self.data.len();
                self.entity_id.push(id);
                self.data.push(value);
            },
        }
        assert(self.contents() =~= old(self).contents().insert(id, value));
    }

    fn remove(&mut self, id: Index) -> (value: T) {
        let place = self.data_id[id as usize];
        let last = self.entity_id[self.entity_id.len() - 1];
        self.data_id[last as usize] = place;
        self.entity_id.swap_remove(place);
        let value = self.data.swap_remove(place);
        assert(self.contents() =~= old(self).contents().remove(id));
        value
    }
}

impl<T> DistinctStorage for DenseVecStorage<T> {

}

} // verus!
