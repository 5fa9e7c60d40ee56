//! Component storages of an entity component system.
//!
//! A component is kept in a storage of its own kind, under the index of the
//! entity that it belongs to. A bit mask beside the storage knows which indices
//! hold a component, and the generations of the entities decide whether an
//! entity may still reach what is kept under its index.

pub mod bits;
pub mod calls;
pub mod error;
pub mod join;
pub mod laws;
pub mod storage;
pub mod world;
