//! Builder for `World`, for callers that want to configure the root object
//! before it exists.
//!
//! The registry arbitrates all access through its reference-counted guards,
//! so the lock choice is configuration only: it changes no observable
//! behaviour of the built world.

use crate::world::World;
use vstd::prelude::*;

verus! {

/// Builder for `World` when one wants a custom lock for the registry.
pub struct WorldBuilder {
    /// Whether a custom lock was chosen for the registry.
    pub custom_lock: bool,
}

impl World {
    /// Returns a builder for `World` when one wants a custom lock for the
    /// registry.
    pub fn builder() -> (b: WorldBuilder)
        ensures
            !b.custom_lock,
    {
        WorldBuilder { custom_lock: false }
    }
}

impl WorldBuilder {
    /// Marks the registry to be built over the caller's own lock.
    pub fn with_custom_lock(self) -> (b: WorldBuilder)
        ensures
            b.custom_lock,
    {
        WorldBuilder { custom_lock: true }
    }

    /// Creates a new `World` based on the builder's configuration: empty,
    /// with no storages and no workloads, both root guards fresh and free.
    pub fn build(self) -> (w: World)
        ensures
            w.wf(),
            w.all_storages.counts_ok(),
            w.all_storages.guard == crate::access_guard::AccessGuard::new_spec(0, true, true),
            w.all_storages.entities_guard == crate::access_guard::AccessGuard::new_spec(
                0,
                true,
                true,
            ),
            w.all_storages.entities.slots@.len() == 0,
            w.all_storages.entities.free@.len() == 0,
            w.all_storages.storages@.len() == 0,
            w.workloads@.len() == 0,
            w.thread_id == 0,
    {
        World::new()
    }
}

} // verus!
