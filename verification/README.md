# masked_storage

Verified component storages for an entity component system.

A `Storage` gives entities access to the components of one type. It consists of
a `MaskedStorage`, which keeps a bit mask beside the storage proper, and of the
entities, whose generations decide who is alive. An entity reads, replaces and
removes the component under its index only while it is alive.

- `src/storage/` holds the storages, the entries, the inverted storage and the
  traits that a storage proper implements. Contracts are stated over the
  components by index, a `Map<Index, T>`.
- `src/world.rs` holds entities and generations, `src/error.rs` the errors,
  `src/join.rs` the joining of storages.
- `src/laws.rs` proves what holds across several operations.
- `src/bits.rs` states what is relied on of the `hibitset` crate. It is the only
  file with statements that are not proved.
- `app/` keeps the storages as resources of a `shred` world.
