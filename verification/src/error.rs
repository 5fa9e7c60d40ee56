//! What can go wrong with a storage.

use vstd::prelude::*;

use crate::world::{Entity, Generation};

verus! {

/// An action was tried for an entity which is not alive.
#[derive(Clone, Copy, Debug)]
pub struct WrongGeneration {
    /// The action that was tried.
    pub action: &'static str,
    /// The generation that the place of the entity has.
    pub actual_gen: Generation,
    /// The entity that the action was tried for.
    pub entity: Entity,
}

/// The errors of this crate.
#[derive(Clone, Copy, Debug)]
pub enum Error {
    /// An entity was used after its place went to another generation.
    WrongGeneration(WrongGeneration),
}

} // verus!
