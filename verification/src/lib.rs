//! Runtime core of an entity-component-system data engine: a registry of
//! per-kind storages guarded by a non-blocking shared/exclusive borrow
//! primitive, an entity liveness authority, and a scheduler that compiles
//! declared storage accesses into conflict-free batches and runs them.

pub mod access_guard;
pub mod all_storages;
pub mod builder;
pub mod entities;
pub mod entity_id;
pub mod error;
pub mod scheduler;
pub mod storage;
pub mod text;
pub mod world;

pub use entity_id::EntityId;
pub use storage::StorageId;
pub use builder::WorldBuilder;
pub use world::World;
