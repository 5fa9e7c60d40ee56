//! Entities, their generations, and the components that they can have.

use hibitset::BitSet;
use vstd::prelude::*;

use crate::bits;
use crate::storage::UnprotectedStorage;

verus! {

/// An index which identifies the place of an entity, and which the storages
/// keep components under.
pub type Index = u32;

/// How often the place of an entity has been used. Positive while the entity
/// is alive, otherwise it was killed and the next user of the place gets a
/// raised generation.
#[derive(Clone, Copy, Debug, Hash, PartialEq, Eq, Structural)]
pub struct Generation(pub i32);

impl Generation {
    /// Returns the number of this generation.
    #[verifier::allow_in_spec]
    pub fn id(&self) -> i32
        returns
            self.0,
    {
        self.0
    }

    /// Returns `true` if entities of this generation are alive.
    #[verifier::allow_in_spec]
    pub fn is_alive(&self) -> bool
        returns
            self.0 > 0,
    {
        self.0 > 0
    }

    /// Whether the generation that follows this one is a number that fits.
    pub open spec fn raisable(self) -> bool {
        self.0 > -i32::MAX
    }

    /// The generation that the place gets when it is used again.
    pub open spec fn next(self) -> Generation {
        Generation((1 - self.0) as i32)
    }

    /// Revives a dead generation: the result is alive and new.
    pub fn raised(self) -> (next: Generation)
        requires
            !self.is_alive(),
            self.raisable(),
        ensures
            next == self.next(),
            next.id() == 1 - self.id(),
            next.is_alive(),
    {
        Generation(1 - self.0)
    }
}

/// An entity: a place, and the generation of the entity in that place.
#[derive(Clone, Copy, Debug, Hash, PartialEq, Eq, Structural)]
pub struct Entity(pub Index, pub Generation);

impl Entity {
    /// Returns the index of the entity.
    #[verifier::allow_in_spec]
    pub fn id(&self) -> Index
        returns
            self.0,
    {
        self.0
    }

    /// Returns the generation of the entity.
    #[verifier::allow_in_spec]
    pub fn gen(&self) -> Generation
        returns
            self.1,
    {
        self.1
    }
}

/// The entities of a world: the generation last recorded for each place, and
/// the places that were taken into use again since.
pub struct EntitiesRes {
    generations: Vec<Generation>,
    raised: BitSet,
}

impl EntitiesRes {
    /// The generation recorded for each place, up to the last place ever used.
    pub closed spec fn generations(&self) -> Seq<Generation> {
        self.generations@
    }

    /// The places that were taken into use again, but whose generation has not
    /// been recorded yet.
    pub closed spec fn raised(&self) -> Set<Index> {
        bits::members(self.raised)
    }

    #[verifier::type_invariant]
    closed spec fn well_formed(&self) -> bool {
        forall|i: int| 0 <= i < self.generations@.len() ==> (#[trigger] self.generations@[i]).raisable()
    }

    /// The generation recorded for a place; the first one for a new place.
    pub open spec fn recorded(&self, id: Index) -> Generation {
        if id < self.generations().len() {
            self.generations()[id as int]
        } else {
            Generation(1)
        }
    }

    /// The one generation that an entity in this place has if it is alive.
    pub open spec fn live_generation(&self, id: Index) -> Generation {
        if id < self.generations().len() && !self.recorded(id).is_alive() && self.raised().contains(
            id,
        ) {
            self.recorded(id).next()
        } else {
            self.recorded(id)
        }
    }

    /// Whether an entity is alive.
    pub open spec fn alive(&self, e: Entity) -> bool {
        e.gen() == self.live_generation(e.id())
    }

    /// The entity that is in a place, or that comes into it next.
    pub open spec fn current(&self, id: Index) -> Entity {
        Entity(
            id,
            if self.recorded(id).is_alive() {
                self.recorded(id)
            } else {
                self.recorded(id).next()
            },
        )
    }

    /// Creates the entities from the recorded generations, and the places in
    /// use again.
    pub fn new(generations: Vec<Generation>, raised: BitSet) -> (entities: EntitiesRes)
        requires
            forall|i: int| 0 <= i < generations@.len() ==> (#[trigger] generations@[i]).raisable(),
        ensures
            entities.generations() == generations@,
            entities.raised() == bits::members(raised),
    {
        EntitiesRes { generations, raised }
    }

    /// Returns the generation recorded for a place.
    pub fn generation(&self, id: Index) -> (gen: Generation)
        ensures
            gen == self.recorded(id),
    {
        if (id as usize) < self.generations.len() {
            self.generations[id as usize]
        } else {
            Generation(1)
        }
    }

    /// Returns `true` if the entity is alive.
    pub fn is_alive(&self, e: Entity) -> (alive: bool)
        ensures
            alive == self.alive(e),
    {
        proof {
            use_type_invariant(self);
        }
        let id = e.id();
        let gen = self.generation(id);
        if (id as usize) < self.generations.len() && !gen.is_alive() && bits::bitset_contains(
            &self.raised,
            id,
        ) {
            e.gen() == gen.raised()
        } else {
            e.gen() == gen
        }
    }

    /// Returns the entity in a place. The entity need not be alive.
    pub fn entity(&self, id: Index) -> (e: Entity)
        ensures
            e == self.current(id),
    {
        proof {
            use_type_invariant(self);
        }
        let gen = self.generation(id);
        if gen.is_alive() {
            Entity(id, gen)
        } else {
            Entity(id, gen.raised())
        }
    }
}

/// A type that entities can have values of, and the storage that keeps them.
pub trait Component: Sized {
    /// The storage that keeps components of this type.
    type Storage: UnprotectedStorage<Self>;
}

} // verus!
