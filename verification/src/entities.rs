//! The liveness and identity authority: allocates entity identifiers and
//! tracks alive/dead state with a generation counter per index.

use crate::entity_id::EntityId;
use vstd::prelude::*;

verus! {

/// State of one index of the registry.
#[derive(Clone, Copy, PartialEq, Eq, Structural, Debug)]
pub struct EntitySlot {
    /// Whether an entity currently occupies the index.
    pub alive: bool,
    /// How many times the index has been recycled. An identifier is alive
    /// only while its generation matches this one.
    pub generation: u64,
}

/// The entity registry. Dead indices whose generation can still grow wait on
/// the free list; an index whose generation is exhausted is retired and never
/// reused.
pub struct Entities {
    /// One slot per index ever allocated.
    pub slots: Vec<EntitySlot>,
    /// Dead indices available for reuse.
    pub free: Vec<usize>,
}

impl Entities {
    /// What allocation guarantees: the identifier is fresh (never alive and
    /// never deleted before), every other identifier keeps its state, and the
    /// lowest free index is reused first, else a fresh index opens at
    /// generation zero.
    pub open spec fn allocate_post(pre: Entities, post: Entities, id: EntityId) -> bool {
        &&& post.wf()
        &&& post.is_alive_spec(id)
        &&& !pre.is_alive_spec(id)
        &&& !pre.deleted_spec(id)
        &&& forall|e: EntityId| pre.is_alive_spec(e) ==> post.is_alive_spec(e)
        &&& forall|e: EntityId| post.is_alive_spec(e) ==> pre.is_alive_spec(e) || e == id
        &&& forall|e: EntityId| pre.deleted_spec(e) ==> post.deleted_spec(e)
        &&& (pre.free@.len() == 0 ==> id == (EntityId {
            index: pre.slots@.len() as usize,
            generation: 0,
        }))
        &&& (pre.free@.len() > 0 ==> pre.free@.contains(id.index) && (forall|j: usize|
            pre.free@.contains(j) ==> id.index <= j))
    }

    /// What deletion guarantees: `r` says whether `id` was alive; afterwards
    /// it is deleted for good, and every other identifier keeps its state.
    pub open spec fn delete_post(pre: Entities, post: Entities, id: EntityId, r: bool) -> bool {
        &&& post.wf()
        &&& r == pre.is_alive_spec(id)
        &&& !post.is_alive_spec(id)
        &&& (r ==> post.deleted_spec(id))
        &&& (!r ==> post == pre)
        &&& forall|e: EntityId| e != id ==> post.is_alive_spec(e) == pre.is_alive_spec(e)
        &&& forall|e: EntityId| pre.deleted_spec(e) ==> post.deleted_spec(e)
    }

    /// The registry is well formed: every free index points at a dead slot,
    /// and no index is on the free list twice.
    pub open spec fn wf(self) -> bool {
        &&& forall|i: int|
            0 <= i < self.free@.len() ==> #[trigger] self.free@[i] < self.slots@.len()
                && !self.slots@[self.free@[i] as int].alive
        &&& forall|i: int, j: int|
            0 <= i < self.free@.len() && 0 <= j < self.free@.len() && i != j
                ==> #[trigger] self.free@[i] != #[trigger] self.free@[j]
    }

    /// Whether `id` is alive: its index is occupied and the occupant carries
    /// the same generation.
    pub open spec fn is_alive_spec(self, id: EntityId) -> bool {
        &&& id.index < self.slots@.len()
        &&& self.slots@[id.index as int].alive
        &&& self.slots@[id.index as int].generation == id.generation
    }

    /// Whether `id` was handed out once and has since been deleted: its slot
    /// has moved past it (a later generation), or holds its generation dead
    /// and unrecyclable. A deleted identifier can never report alive again.
    pub open spec fn deleted_spec(self, id: EntityId) -> bool {
        &&& id.index < self.slots@.len()
        &&& (self.slots@[id.index as int].generation > id.generation || (
            self.slots@[id.index as int].generation == id.generation
                && !self.slots@[id.index as int].alive && !self.free@.contains(id.index)
        ))
    }

    /// An empty registry.
    pub fn new() -> (r: Entities)
        ensures
            r.wf(),
            r.slots@.len() == 0,
            r.free@.len() == 0,
    {
        Entities { slots: Vec::new(), free: Vec::new() }
    }

    /// Whether `id` is alive.
    pub fn is_alive(&self, id: EntityId) -> (r: bool)
        ensures
            r == self.is_alive_spec(id),
    {
        if id.index < self.slots.len() {
            let slot = self.slots[id.index];
            slot.alive && slot.generation == id.generation
        } else {
            false
        }
    }

    /// Allocates an entity: reuses the lowest free index, keeping the
    /// generation its last deletion advanced it to, or opens a fresh index at
    /// generation zero. The returned identifier was never alive before; every
    /// other identifier keeps its state.
    pub fn allocate(&mut self) -> (id: EntityId)
        requires
            old(self).wf(),
        ensures
            Entities::allocate_post(*old(self), *final(self), id),
    {
        if self.free.len() == 0 {
            let index = self.slots.len();
            self.slots.push(EntitySlot { alive: true, generation: 0 });
            let id = EntityId { index, generation: 0 };
            proof {
                assert forall|e: EntityId| old(self).deleted_spec(e) implies self.deleted_spec(
                    e,
                ) by {
                    assert(e.index < old(self).slots@.len());
                    assert(self.slots@[e.index as int] == old(self).slots@[e.index as int]);
                }
            }
            id
        } else {
            // Position of the lowest free index.
            let mut best: usize = 0;
            let mut k: usize = 1;
            while k < self.free.len()
                invariant
                    0 < self.free@.len(),
                    best < self.free@.len(),
                    k <= self.free@.len(),
                    forall|j: int| 0 <= j < k ==> self.free@[best as int] <= #[trigger] self.free@[j],
                decreases self.free@.len() - k,
            {
                if self.free[k] < self.free[best] {
                    best = k;
                }
                k = k + 1;
            }
            let index = self.free[best];
            self.free.remove(best);
            let generation = self.slots[index].generation;
            self.slots[index].alive = true;
            let id = EntityId { index, generation };
            proof {
                let of = old(self).free@;
                assert forall|j: usize| of.contains(j) implies id.index <= j by {
                    let jj = choose|jj: int| 0 <= jj < of.len() && of[jj] == j;
                    assert(of[best as int] <= of[jj]);
                }
                assert(self.free@ == of.remove(best as int));
                assert forall|e: EntityId| old(self).deleted_spec(e) implies self.deleted_spec(
                    e,
                ) by {
                    if e.index == index {
                        // The reused index sat on the free list, so only the
                        // generation disjunct can have held of `e`.
                        assert(of.contains(index));
                        assert(old(self).slots@[index as int].generation > e.generation || !of.contains(e.index));
                    } else {
                        assert(self.slots@[e.index as int] == old(self).slots@[e.index as int]);
                        if !of.contains(e.index) {
                            assert(!self.free@.contains(e.index)) by {
                                if self.free@.contains(e.index) {
                                    let jj = choose|jj: int|
                                        0 <= jj < self.free@.len() && self.free@[jj]
                                            == e.index;
                                    if jj < best {
                                        assert(of[jj] == e.index);
                                    } else {
                                        assert(of[jj + 1] == e.index);
                                    }
                                }
                            }
                        }
                    }
                }
                assert forall|e: EntityId| self.is_alive_spec(e) implies old(
                    self,
                ).is_alive_spec(e) || e == id by {}
                assert(!old(self).deleted_spec(id)) by {
                    assert(of.contains(id.index));
                }
            }
            id
        }
    }

    /// Deletes `id` if it is alive: clears the liveness flag and, when the
    /// generation can still grow, advances it and returns the index to the
    /// free list. Returns whether anything was deleted; a dead identifier is
    /// a no-op. A deleted identifier never reports alive again.
    pub fn delete(&mut self, id: EntityId) -> (r: bool)
        requires
            old(self).wf(),
        ensures
            Entities::delete_post(*old(self), *final(self), id, r),
    {
        if id.index >= self.slots.len() {
            return false;
        }
        let slot = self.slots[id.index];
        if !slot.alive || slot.generation != id.generation {
            return false;
        }
        self.slots[id.index].alive = false;
        if slot.generation < u64::MAX {
            self.slots[id.index].generation = slot.generation + 1;
            // The slot was alive, so its index cannot sit on the free list.
            proof {
                assert(!old(self).free@.contains(id.index)) by {
                    if old(self).free@.contains(id.index) {
                        let jj = choose|jj: int|
                            0 <= jj < old(self).free@.len() && old(self).free@[jj] == id.index;
                        assert(!old(self).slots@[id.index as int].alive);
                    }
                }
            }
            self.free.push(id.index);
        }
        proof {
            assert forall|e: EntityId| old(self).deleted_spec(e) implies self.deleted_spec(
                e,
            ) by {
                if e.index == id.index {
                    assert(old(self).slots@[e.index as int].generation > e.generation);
                } else {
                    assert(self.slots@[e.index as int] == old(self).slots@[e.index as int]);
                    if self.free@.contains(e.index) && !old(self).free@.contains(e.index) {
                        assert(self.free@[self.free@.len() - 1] == id.index);
                        assert(self.free@.drop_last() == old(self).free@);
                        let jj = choose|jj: int|
                            0 <= jj < self.free@.len() && self.free@[jj] == e.index;
                        assert(jj < self.free@.len() - 1 ==> old(self).free@[jj] == e.index);
                    }
                }
            }
        }
        true
    }
}

/// Law: no two simultaneously-alive identifiers share an index; an alive
/// index determines the identifier.
pub proof fn lemma_alive_ids_unique(s: Entities, a: EntityId, b: EntityId)
    requires
        s.is_alive_spec(a),
        s.is_alive_spec(b),
        a.index == b.index,
    ensures
        a == b,
{
}

/// Law: a deleted identifier never reports alive, however often its index
/// has been recycled since.
pub proof fn lemma_deleted_never_alive(s: Entities, id: EntityId)
    requires
        s.deleted_spec(id),
    ensures
        !s.is_alive_spec(id),
{
}

} // verus!
