//! The storage registry: a kind-indexed collection of guarded storages,
//! itself guarded as a whole, together with the entity registry.
//!
//! The whole-registry guard must be held shared to take any individual
//! storage guard, and exclusively to add or remove storage kinds.

use crate::access_guard::AccessGuard;
use crate::entities::Entities;
use crate::entity_id::EntityId;
use crate::error::{AddComponent, Borrow, GetComponent, GetStorage, MissingComponent, NewEntity};
use crate::error::storage_label_spec;
use crate::storage::{Storage, StorageId};
use vstd::prelude::*;

verus! {

fn clone_name(n: &Option<String>) -> (r: Option<String>)
    ensures
        r == *n,
{
    match n {
        Some(s) => Some(s.clone()),
        None => None,
    }
}

/// The registry of all storages, the entity registry among them, each behind
/// its own guard, the whole behind one more.
pub struct AllStorages {
    /// The whole-registry guard.
    pub guard: AccessGuard,
    /// The guard of the entities storage.
    pub entities_guard: AccessGuard,
    /// The entity registry.
    pub entities: Entities,
    /// The registered storages, one per kind identity.
    pub storages: Vec<Storage>,
}

impl AllStorages {
    /// The registry is well formed: every part is, and no storage kind is
    /// registered twice.
    pub open spec fn wf(self) -> bool {
        &&& self.guard.wf()
        &&& self.entities_guard.wf()
        &&& self.entities.wf()
        &&& forall|i: int| 0 <= i < self.storages@.len() ==> (#[trigger] self.storages@[i]).wf()
        &&& forall|i: int, j: int|
            0 <= i < self.storages@.len() && 0 <= j < self.storages@.len() && i != j
                ==> (#[trigger] self.storages@[i]).id != (#[trigger] self.storages@[j]).id
    }

    /// No reference count is about to overflow its machine word.
    pub open spec fn counts_ok(self) -> bool {
        &&& self.guard.count < i64::MAX
        &&& self.entities_guard.count < i64::MAX
        &&& forall|i: int|
            0 <= i < self.storages@.len() ==> (#[trigger] self.storages@[i]).guard.count
                < i64::MAX
    }

    /// Whether a storage of kind `sid` is registered.
    pub open spec fn has_storage(self, sid: StorageId) -> bool {
        exists|i: int| 0 <= i < self.storages@.len() && (#[trigger] self.storages@[i]).id == sid
    }

    /// Where the storage of kind `sid` sits.
    pub open spec fn storage_index_spec(self, sid: StorageId) -> int {
        choose|i: int| 0 <= i < self.storages@.len() && (#[trigger] self.storages@[i]).id == sid
    }

    /// The storage of kind `sid`.
    pub open spec fn storage_spec(self, sid: StorageId) -> Storage {
        self.storages@[self.storage_index_spec(sid)]
    }

    /// Whether entity `e` owns a component in the storage of kind `sid`.
    pub open spec fn storage_has(self, sid: StorageId, e: EntityId) -> bool {
        self.has_storage(sid) && self.storage_spec(sid).has_component(e)
    }

    /// The component entity `e` owns in the storage of kind `sid`.
    pub open spec fn storage_value(self, sid: StorageId, e: EntityId) -> u64 {
        self.storage_spec(sid).component_value(e)
    }

    /// In a well-formed registry a kind sits at one place only.
    pub proof fn lemma_storage_index_unique(self, sid: StorageId, i: int)
        requires
            self.wf(),
            0 <= i < self.storages@.len(),
            self.storages@[i].id == sid,
        ensures
            self.storage_index_spec(sid) == i,
            self.has_storage(sid),
    {
        let w = self.storage_index_spec(sid);
        assert(0 <= w < self.storages@.len() && self.storages@[w].id == sid);
    }

    /// An empty registry whose guards live on thread `tid`. The registry and
    /// the entities storage may be used from any thread.
    pub fn new(tid: u64) -> (r: AllStorages)
        ensures
            r.wf(),
            r.counts_ok(),
            r.guard == AccessGuard::new_spec(tid, true, true),
            r.entities_guard == AccessGuard::new_spec(tid, true, true),
            r.entities.slots@.len() == 0,
            r.entities.free@.len() == 0,
            r.storages@.len() == 0,
    {
        AllStorages {
            guard: AccessGuard::new(tid, true, true),
            entities_guard: AccessGuard::new(tid, true, true),
            entities: Entities::new(),
            storages: Vec::new(),
        }
    }

    /// Where the storage of kind `sid` sits, if it is registered.
    fn find_storage(&self, sid: StorageId) -> (r: Option<usize>)
        requires
            self.wf(),
        ensures
            match r {
                Some(i) => self.has_storage(sid) && i == self.storage_index_spec(sid),
                None => !self.has_storage(sid),
            },
    {
        let mut i: usize = 0;
        while i < self.storages.len()
            invariant
                self.wf(),
                i <= self.storages@.len(),
                forall|j: int| 0 <= j < i ==> (#[trigger] self.storages@[j]).id != sid,
            decreases self.storages@.len() - i,
        {
            if self.storages[i].id == sid {
                proof {
                    self.lemma_storage_index_unique(sid, i as int);
                }
                return Some(i);
            }
            i = i + 1;
        }
        None
    }

    /// Whether `id` is alive.
    pub fn is_alive(&self, id: EntityId) -> (r: bool)
        ensures
            r == self.entities.is_alive_spec(id),
    {
        self.entities.is_alive(id)
    }

    /// Registers a storage of kind `sid`, a no-op if one already is. Needs
    /// the whole-registry guard exclusively; the conflict is reported
    /// otherwise and nothing changes.
    pub fn add_storage(
        &mut self,
        sid: StorageId,
        name: Option<String>,
        send: bool,
        sync: bool,
        tid: u64,
    ) -> (r: Result<(), GetStorage>)
        requires
            old(self).wf(),
        ensures
            final(self).wf(),
            match old(self).guard.exclusive_outcome(tid) {
                Err(b) => r == Err::<(), GetStorage>(GetStorage::AllStoragesBorrow(b)) && *final(self) == *old(self),
                Ok(_) => {
                    &&& r is Ok
                    &&& final(self).guard == old(self).guard.with_holder(tid)
                    &&& final(self).entities == old(self).entities
                    &&& final(self).entities_guard == old(self).entities_guard
                    &&& (old(self).has_storage(sid) ==> final(self).storages == old(self).storages)
                    &&& (!old(self).has_storage(sid) ==> {
                        let n = old(self).storages@.len() as int;
                        &&& final(self).storages@.len() == n + 1
                        &&& (forall|j: int|
                            0 <= j < n ==> final(self).storages@[j] == old(self).storages@[j])
                        &&& final(self).storages@[n].id == sid
                        &&& final(self).storages@[n].name == name
                        &&& final(self).storages@[n].guard == AccessGuard::new_spec(
                            tid,
                            send,
                            sync,
                        )
                        &&& final(self).storages@[n].components@ == Seq::<(EntityId, u64)>::empty()
                    })
                },
            },
    {
        if let Err(b) = self.guard.try_exclusive(tid) {
            return Err(GetStorage::AllStoragesBorrow(b));
        }
        if self.find_storage(sid).is_none() {
            let st = Storage::new(sid, name, tid, send, sync);
            proof {
                assert(st.components@ =~= Seq::<(EntityId, u64)>::empty());
            }
            self.storages.push(st);
        }

        self.guard.release_exclusive();
        Ok(())
    }

    /// Unregisters the storage of kind `sid`, dropping its contents; says
    /// whether one was registered. Needs the whole-registry guard
    /// exclusively; the conflict is reported otherwise and nothing changes.
    pub fn delete_storage(&mut self, sid: StorageId, tid: u64) -> (r: Result<bool, GetStorage>)
        requires
            old(self).wf(),
        ensures
            final(self).wf(),
            match old(self).guard.exclusive_outcome(tid) {
                Err(b) => r == Err::<bool, GetStorage>(GetStorage::AllStoragesBorrow(b)) && *final(self) == *old(self),
                Ok(_) => {
                    &&& final(self).guard == old(self).guard.with_holder(tid)
                    &&& final(self).entities == old(self).entities
                    &&& final(self).entities_guard == old(self).entities_guard
                    &&& !final(self).has_storage(sid)
                    &&& (old(self).has_storage(sid) ==> r == Ok::<bool, GetStorage>(true) && final(self).storages@ == old(self).storages@.remove(old(self).storage_index_spec(sid)))
                    &&& (!old(self).has_storage(sid) ==> r == Ok::<bool, GetStorage>(false)
                        && final(self).storages == old(self).storages)
                },
            },
    {
        if let Err(b) = self.guard.try_exclusive(tid) {
            return Err(GetStorage::AllStoragesBorrow(b));
        }
        let r = match self.find_storage(sid) {
            Some(i) => {
                self.storages.remove(i);
                proof {
                    assert forall|j: int|
                        0 <= j < self.storages@.len() implies (#[trigger] self.storages@[j]).id
                        != sid by {
                        let gi = old(self).storage_index_spec(sid);
                        if j < gi {
                            assert(self.storages@[j] == old(self).storages@[j]);
                        } else {
                            assert(self.storages@[j] == old(self).storages@[j + 1]);
                        }
                    }
                }
                true
            },
            None => false,
        };
        self.guard.release_exclusive();
        Ok(r)
    }

    /// Takes the whole-registry guard itself, shared or exclusively, for an
    /// ad-hoc caller. The conflict is reported otherwise and nothing changes.
    pub fn borrow_all(&mut self, exclusive: bool, tid: u64) -> (r: Result<(), Borrow>)
        requires
            old(self).counts_ok(),
        ensures
            final(self).entities == old(self).entities,
            final(self).entities_guard == old(self).entities_guard,
            final(self).storages == old(self).storages,
            match (if exclusive {
                old(self).guard.exclusive_outcome(tid)
            } else {
                old(self).guard.shared_outcome(tid)
            }) {
                Err(b) => r == Err::<(), Borrow>(b) && final(self).guard == old(self).guard,
                Ok(g) => r is Ok && final(self).guard == g,
            },
    {
        if exclusive {
            self.guard.try_exclusive(tid)
        } else {
            self.guard.try_shared(tid)
        }
    }

    /// Returns the whole-registry borrow that `borrow_all` granted.
    pub fn release_all(&mut self, exclusive: bool)
        requires
            exclusive ==> old(self).guard.exclusive_held(),
            !exclusive ==> old(self).guard.count > 0,
        ensures
            final(self).entities == old(self).entities,
            final(self).entities_guard == old(self).entities_guard,
            final(self).storages == old(self).storages,
            exclusive ==> final(self).guard == (AccessGuard { count: 0, ..old(self).guard }),
            !exclusive ==> final(self).guard == (AccessGuard {
                count: (old(self).guard.count - 1) as i64,
                ..old(self).guard
            }),
    {
        if exclusive {
            self.guard.release_exclusive();
        } else {
            self.guard.release_shared();
        }
    }

    /// Takes the whole-registry guard shared and then the guard of the
    /// storage of kind `sid`, shared or exclusively, for an ad-hoc caller.
    /// On success both stay held until `release_borrow`. On any failure
    /// nothing stays held and the reason says which step was denied.
    pub fn borrow(&mut self, sid: StorageId, exclusive: bool, tid: u64) -> (r: Result<
        (),
        GetStorage,
    >)
        requires
            old(self).wf(),
            old(self).counts_ok(),
        ensures
            final(self).wf(),
            final(self).entities == old(self).entities,
            final(self).entities_guard == old(self).entities_guard,
            match old(self).guard.shared_outcome(tid) {
                Err(b) => r == Err::<(), GetStorage>(GetStorage::AllStoragesBorrow(b)) && *final(self) == *old(self),
                Ok(g1) => {
                    if !old(self).has_storage(sid) {
                        &&& r == Err::<(), GetStorage>(
                            GetStorage::MissingStorage { name: None, id: sid },
                        )
                        &&& final(self).guard == old(self).guard.with_holder(tid)
                        &&& final(self).storages@ == old(self).storages@
                    } else {
                        let i = old(self).storage_index_spec(sid);
                        let st = old(self).storages@[i];
                        match (if exclusive {
                            st.guard.exclusive_outcome(tid)
                        } else {
                            st.guard.shared_outcome(tid)
                        }) {
                            Err(b) => {
                                &&& r == Err::<(), GetStorage>(
                                    GetStorage::StorageBorrow { name: st.name, id: sid, borrow: b },
                                )
                                &&& final(self).guard == old(self).guard.with_holder(tid)
                                &&& final(self).storages@ == old(self).storages@
                            },
                            Ok(sg) => {
                                &&& r is Ok
                                &&& final(self).guard == g1
                                &&& final(self).storages@ == old(self).storages@.update(
                                    i,
                                    Storage { guard: sg, ..st },
                                )
                            },
                        }
                    }
                },
            },
    {
        if let Err(b) = self.guard.try_shared(tid) {
            return Err(GetStorage::AllStoragesBorrow(b));
        }
        match self.find_storage(sid) {
            None => {
                self.guard.release_shared();
                Err(GetStorage::MissingStorage { name: None, id: sid })
            },
            Some(i) => {
                let outcome = if exclusive {
                    self.storages[i].guard.try_exclusive(tid)
                } else {
                    self.storages[i].guard.try_shared(tid)
                };
                match outcome {
                    Err(b) => {
                        proof {
                            assert(self.storages@ =~= old(self).storages@);
                        }
                        let name = clone_name(&self.storages[i].name);
                        self.guard.release_shared();
                        Err(GetStorage::StorageBorrow { name, id: sid, borrow: b })
                    },
                    Ok(()) => {
                        proof {
                            let gi = old(self).storage_index_spec(sid);
                            assert(self.storages@ =~= old(self).storages@.update(
                                gi,
                                Storage { guard: self.storages@[gi].guard, ..old(self).storages@[gi] },
                            ));
                        }
                        Ok(())
                    },
                }
            },
        }
    }

    /// Returns the pair of borrows that `borrow` granted: the storage's own
    /// and the whole-registry shared one.
    pub fn release_borrow(&mut self, sid: StorageId, exclusive: bool)
        requires
            old(self).wf(),
            old(self).guard.count > 0,
            old(self).has_storage(sid),
            exclusive ==> old(self).storage_spec(sid).guard.exclusive_held(),
            !exclusive ==> old(self).storage_spec(sid).guard.count > 0,
        ensures
            final(self).wf(),
            final(self).entities == old(self).entities,
            final(self).entities_guard == old(self).entities_guard,
            final(self).guard == (AccessGuard {
                count: (old(self).guard.count - 1) as i64,
                ..old(self).guard
            }),
            ({
                let i = old(self).storage_index_spec(sid);
                let st = old(self).storages@[i];
                final(self).storages@ == old(self).storages@.update(
                    i,
                    Storage {
                        guard: AccessGuard {
                            count: if exclusive {
                                0
                            } else {
                                (st.guard.count - 1) as i64
                            },
                            ..st.guard
                        },
                        ..st
                    },
                )
            }),
    {
        let i = self.find_storage(sid).unwrap();
        if exclusive {
            self.storages[i].guard.release_exclusive();
        } else {
            self.storages[i].guard.release_shared();
        }
        self.guard.release_shared();
        proof {
            let gi = old(self).storage_index_spec(sid);
            assert(self.storages@ =~= old(self).storages@.update(
                gi,
                Storage { guard: self.storages@[gi].guard, ..old(self).storages@[gi] },
            ));
        }
    }

    /// Allocates an entity. Needs the whole-registry guard shared and the
    /// entities guard exclusively, both returned before this call ends; the
    /// conflict is reported otherwise and nothing changes.
    pub fn add_entity(&mut self, tid: u64) -> (r: Result<EntityId, NewEntity>)
        requires
            old(self).wf(),
            old(self).counts_ok(),
        ensures
            final(self).wf(),
            final(self).storages == old(self).storages,
            match old(self).guard.shared_outcome(tid) {
                Err(b) => r == Err::<EntityId, NewEntity>(NewEntity::AllStoragesBorrow(b))
                    && *final(self) == *old(self),
                Ok(_) => match old(self).entities_guard.exclusive_outcome(tid) {
                    Err(b) => {
                        &&& r == Err::<EntityId, NewEntity>(NewEntity::Entities(b))
                        &&& final(self).guard == old(self).guard.with_holder(tid)
                        &&& final(self).entities_guard == old(self).entities_guard
                        &&& final(self).entities == old(self).entities
                    },
                    Ok(_) => {
                        &&& r is Ok
                        &&& final(self).guard == old(self).guard.with_holder(tid)
                        &&& final(self).entities_guard == (AccessGuard {
                            count: 0,
                            ..old(self).entities_guard.with_holder(tid)
                        })
                        &&& (r matches Ok(id) ==> Entities::allocate_post(
                            old(self).entities,
                            final(self).entities,
                            id,
                        ))
                    },
                },
            },
    {
        if let Err(b) = self.guard.try_shared(tid) {
            return Err(NewEntity::AllStoragesBorrow(b));
        }
        if let Err(b) = self.entities_guard.try_exclusive(tid) {
            self.guard.release_shared();
            return Err(NewEntity::Entities(b));
        }
        let id = self.entities.allocate();
        self.entities_guard.release_exclusive();
        self.guard.release_shared();
        Ok(id)
    }

    /// Deletes `id` and strips its components from every storage; says
    /// whether it was alive. Needs the whole-registry guard exclusively; the
    /// conflict is reported otherwise and nothing changes. A dead identifier
    /// is a no-op returning false.
    pub fn delete_entity(&mut self, id: EntityId, tid: u64) -> (r: Result<bool, GetStorage>)
        requires
            old(self).wf(),
        ensures
            final(self).wf(),
            match old(self).guard.exclusive_outcome(tid) {
                Err(b) => r == Err::<bool, GetStorage>(GetStorage::AllStoragesBorrow(b)) && *final(self) == *old(self),
                Ok(_) => {
                    &&& final(self).guard == old(self).guard.with_holder(tid)
                    &&& final(self).entities_guard == old(self).entities_guard
                    &&& (r matches Ok(was) ==> Entities::delete_post(
                        old(self).entities,
                        final(self).entities,
                        id,
                        was,
                    ))
                    &&& r is Ok
                    &&& final(self).storages@.len() == old(self).storages@.len()
                    &&& forall|j: int|
                        0 <= j < old(self).storages@.len() ==> (#[trigger] final(self).storages@[j]).same_but_removed(old(self).storages@[j], id)
                },
            },
    {
        if let Err(b) = self.guard.try_exclusive(tid) {
            return Err(GetStorage::AllStoragesBorrow(b));
        }
        let was = self.entities.delete(id);
        let mut k: usize = 0;
        while k < self.storages.len()
            invariant
                k <= self.storages@.len(),
                self.storages@.len() == old(self).storages@.len(),
                self.guard == (AccessGuard { count: -1 as i64, holder: tid, ..old(self).guard }),
                old(self).guard.exclusive_outcome(tid) is Ok,
                self.entities_guard == old(self).entities_guard,
                Entities::delete_post(old(self).entities, self.entities, id, was),
                forall|i: int| 0 <= i < self.storages@.len() ==> (#[trigger] self.storages@[i]).wf(),
                forall|j: int|
                    k <= j < self.storages@.len() ==> #[trigger] self.storages@[j] == old(self).storages@[j],
                forall|j: int|
                    0 <= j < k ==> (#[trigger] self.storages@[j]).same_but_removed(
                        old(self).storages@[j],
                        id,
                    ),
            decreases self.storages@.len() - k,
        {
            self.storages[k].remove(id);
            k = k + 1;
        }
        self.guard.release_exclusive();
        proof {
            assert forall|i: int, j: int|
                0 <= i < self.storages@.len() && 0 <= j < self.storages@.len() && i
                    != j implies (#[trigger] self.storages@[i]).id != (
            #[trigger] self.storages@[j]).id by {
                assert(self.storages@[i].id == old(self).storages@[i].id);
                assert(self.storages@[j].id == old(self).storages@[j].id);
            }
        }
        Ok(was)
    }

    /// Gives `entity` the component `value` in the storage of kind `sid`,
    /// registering the storage on the spot when the kind is new. Fails, and
    /// touches nothing, when the entity is not alive. Goes through this
    /// owned reference, so no guard is consulted.
    pub fn add_component(&mut self, sid: StorageId, entity: EntityId, value: u64, tid: u64) -> (r:
        Result<(), AddComponent>)
        requires
            old(self).wf(),
        ensures
            final(self).wf(),
            !old(self).entities.is_alive_spec(entity) ==> r == Err::<(), AddComponent>(
                AddComponent::EntityIsNotAlive,
            ) && *final(self) == *old(self),
            old(self).entities.is_alive_spec(entity) ==> {
                &&& r is Ok
                &&& final(self).guard == old(self).guard
                &&& final(self).entities_guard == old(self).entities_guard
                &&& final(self).entities == old(self).entities
                &&& final(self).storages@.len() <= old(self).storages@.len() + 1
                &&& final(self).has_storage(sid)
                &&& forall|s2: StorageId|
                    #[trigger] final(self).has_storage(s2) <==> old(self).has_storage(s2) || s2
                        == sid
                &&& final(self).storage_has(sid, entity)
                &&& final(self).storage_value(sid, entity) == value
                &&& forall|s2: StorageId, e2: EntityId|
                    !(s2 == sid && e2 == entity) && old(self).storage_has(s2, e2)
                        ==> #[trigger] final(self).storage_has(s2, e2) && final(self).storage_value(s2, e2) == old(self).storage_value(s2, e2)
                &&& forall|s2: StorageId, e2: EntityId|
                    #[trigger] final(self).storage_has(s2, e2) ==> old(self).storage_has(s2, e2)
                        || (s2 == sid && e2 == entity)
            },
    {
        if !self.entities.is_alive(entity) {
            return Err(AddComponent::EntityIsNotAlive);
        }
        let i = match self.find_storage(sid) {
            Some(i) => i,
            None => {
                let st = Storage::new(sid, None, tid, true, true);
                self.storages.push(st);
                proof {
                    self.lemma_storage_index_unique(sid, old(self).storages@.len() as int);
                }
                self.storages.len() - 1
            },
        };
        proof {
            self.lemma_storage_index_unique(sid, i as int);
        }
        self.storages[i].set(entity, value);
        proof {
            self.lemma_storage_index_unique(sid, i as int);
            assert forall|s2: StorageId|
                #[trigger] self.has_storage(s2) <==> old(self).has_storage(s2) || s2 == sid by {
                if self.has_storage(s2) {
                    let w = self.storage_index_spec(s2);
                    if w < old(self).storages@.len() && w != i {
                        assert(old(self).storages@[w].id == s2);
                    }
                }
                if old(self).has_storage(s2) {
                    let w = old(self).storage_index_spec(s2);
                    assert(self.storages@[w].id == s2);
                }
            }
            assert forall|s2: StorageId, e2: EntityId|
                !(s2 == sid && e2 == entity) && old(self).storage_has(s2, e2) implies
                #[trigger] self.storage_has(s2, e2) && self.storage_value(s2, e2) == old(self).storage_value(s2, e2) by {
                let w = old(self).storage_index_spec(s2);
                assert(old(self).storages@[w].id == s2);
                assert(self.storages@[w].id == s2);
                self.lemma_storage_index_unique(s2, w);
            }
            assert forall|s2: StorageId, e2: EntityId|
                #[trigger] self.storage_has(s2, e2) implies old(self).storage_has(s2, e2) || (s2
                == sid && e2 == entity) by {
                let w = self.storage_index_spec(s2);
                if w < old(self).storages@.len() && w != i {
                    assert(old(self).storages@[w].id == s2);
                    old(self).lemma_storage_index_unique(s2, w);
                }
            }
        }
        Ok(())
    }

    /// Reads entity `entity`'s component from the storage of kind `sid`,
    /// through this owned reference.
    pub fn get_component(&self, sid: StorageId, entity: EntityId) -> (r: Result<u64, GetComponent>)
        requires
            self.wf(),
        ensures
            !self.has_storage(sid) ==> r == Err::<u64, GetComponent>(
                GetComponent::StorageBorrow(GetStorage::MissingStorage { name: None, id: sid }),
            ),
            self.has_storage(sid) && !self.storage_has(sid, entity) ==> (r matches Err(e) && e
                matches GetComponent::MissingComponent(m) && m.id == entity && m.name@
                == storage_label_spec(self.storage_spec(sid).name, sid)),
            self.storage_has(sid, entity) ==> r == Ok::<u64, GetComponent>(
                self.storage_value(sid, entity),
            ),
    {
        match self.find_storage(sid) {
            None => Err(GetComponent::StorageBorrow(
                GetStorage::MissingStorage { name: None, id: sid },
            )),
            Some(i) => match self.storages[i].get(entity) {
                Some(v) => Ok(v),
                None => {
                    let name = self.storages[i].label();
                    Err(GetComponent::MissingComponent(MissingComponent { id: entity, name }))
                },
            },
        }
    }
}

} // verus!
