//! The root object: the storage registry, the compiled named workloads, and
//! the batch executor that walks a compiled plan in order, evaluates each
//! system's run-condition, dispatches the system, and attributes any failure
//! to the system it came from.

use crate::all_storages::AllStorages;
use crate::entities::Entities;
use crate::entity_id::EntityId;
use crate::error::{
    AddComponent, GetComponent, GetStorage, InvalidSystem, NewEntity, Run, RunWorkload,
};
use crate::scheduler::{
    compile_batches_spec, first_invalid, flat, views_of, Batches, SystemDescriptor,
};
use crate::storage::StorageId;
use vstd::prelude::*;

verus! {

/// A task run against the world: user code behind this interface. Nothing is
/// assumed of what it does.
pub trait System {
    /// Runs the task against the world.
    fn run(&self, world: &mut World) -> Result<(), Run>;
}

/// A predicate gating one system of a workload, itself run against the
/// world. Nothing is assumed of what it does.
pub trait RunCondition {
    /// Decides whether the gated system runs this time.
    fn check(&self, world: &mut World) -> Result<bool, Run>;
}

/// One compiled, named workload: the labels of its systems, in declaration
/// order, and the compiled plan over their indices.
pub struct Workload {
    /// The workload's name.
    pub name: String,
    /// The systems' labels, indexed like the declared list.
    pub labels: Vec<String>,
    /// The compiled plan.
    pub batches: Batches,
}

impl Workload {
    /// The plan only names declared systems.
    pub open spec fn wf(self) -> bool {
        forall|i: int|
            0 <= i < self.batches.sequential@.len() ==> (#[trigger] self.batches.sequential@[i])
                < self.labels@.len()
    }
}

/// What the executor decides for one slot of a plan, from the slot's
/// run-condition outcome alone.
pub enum SlotAction {
    /// Run the system.
    Proceed,
    /// Skip exactly this system; this is no error.
    Skip,
    /// Stop the run; the condition itself failed.
    Abort(Run),
}

/// The decision for one slot: no condition or a true one proceeds, a false
/// one skips, a failing one aborts.
pub open spec fn decide_slot_spec(cond: Option<Result<bool, Run>>) -> SlotAction {
    match cond {
        None => SlotAction::Proceed,
        Some(Ok(true)) => SlotAction::Proceed,
        Some(Ok(false)) => SlotAction::Skip,
        Some(Err(e)) => SlotAction::Abort(e),
    }
}

/// Decides one slot of a plan from its run-condition outcome.
pub fn decide_slot(cond: Option<Result<bool, Run>>) -> (a: SlotAction)
    ensures
        a == decide_slot_spec(cond),
{
    match cond {
        None => SlotAction::Proceed,
        Some(Ok(true)) => SlotAction::Proceed,
        Some(Ok(false)) => SlotAction::Skip,
        Some(Err(e)) => SlotAction::Abort(e),
    }
}

/// Whether one plan slot lets the run continue: it is skipped, or it runs
/// and succeeds.
pub open spec fn slot_passes(cond: Option<Result<bool, Run>>, run: Result<(), Run>) -> bool {
    decide_slot_spec(cond) is Skip || (decide_slot_spec(cond) is Proceed && run == Ok::<(), Run>(
        (),
    ))
}

/// The outcome of a sequential run from plan position `k` on, given at every
/// position the slot's run-condition and system outcomes: the first slot
/// whose condition fails, or whose system fails after its condition passed,
/// aborts the run with the failure attributed to that slot's system; a false
/// condition skips exactly its own slot.
pub open spec fn outcome_from(
    names: Seq<String>,
    order: Seq<usize>,
    conds: Seq<Option<Result<bool, Run>>>,
    runs: Seq<Result<(), Run>>,
    k: int,
) -> Result<(), RunWorkload>
    decreases order.len() - k,
{
    if k < 0 || k >= order.len() {
        Ok(())
    } else {
        match decide_slot_spec(conds[k]) {
            SlotAction::Skip => outcome_from(names, order, conds, runs, k + 1),
            SlotAction::Abort(e) => Err(RunWorkload::Run((names[order[k] as int], e))),
            SlotAction::Proceed => match runs[k] {
                Err(e) => Err(RunWorkload::Run((names[order[k] as int], e))),
                Ok(_) => outcome_from(names, order, conds, runs, k + 1),
            },
        }
    }
}

/// The outcome of a whole sequential run.
pub open spec fn workload_outcome_spec(
    names: Seq<String>,
    order: Seq<usize>,
    conds: Seq<Option<Result<bool, Run>>>,
    runs: Seq<Result<(), Run>>,
) -> Result<(), RunWorkload> {
    outcome_from(names, order, conds, runs, 0)
}

/// A prefix of passing slots drops out of the fold: the run's outcome is
/// decided from position `k` on.
proof fn lemma_passing_prefix(
    names: Seq<String>,
    order: Seq<usize>,
    conds: Seq<Option<Result<bool, Run>>>,
    runs: Seq<Result<(), Run>>,
    k: int,
)
    requires
        0 <= k <= order.len(),
        forall|j: int| 0 <= j < k ==> #[trigger] slot_passes(conds[j], runs[j]),
    ensures
        workload_outcome_spec(names, order, conds, runs) == outcome_from(
            names,
            order,
            conds,
            runs,
            k,
        ),
    decreases k,
{
    if k > 0 {
        lemma_passing_prefix(names, order, conds, runs, k - 1);
        assert(slot_passes(conds[k - 1], runs[k - 1]));
    }
}

/// Folding from position `k` of the full plan is folding from `k - 1` of the
/// plan with its first slot taken off.
proof fn lemma_outcome_drop_first(
    names: Seq<String>,
    order: Seq<usize>,
    conds: Seq<Option<Result<bool, Run>>>,
    runs: Seq<Result<(), Run>>,
    k: int,
)
    requires
        1 <= k <= order.len(),
        conds.len() == order.len(),
        runs.len() == order.len(),
    ensures
        outcome_from(names, order, conds, runs, k) == outcome_from(
            names,
            order.drop_first(),
            conds.drop_first(),
            runs.drop_first(),
            k - 1,
        ),
    decreases order.len() - k,
{
    if k < order.len() {
        lemma_outcome_drop_first(names, order, conds, runs, k + 1);
        assert(order.drop_first()[k - 1] == order[k]);
        assert(conds.drop_first()[k - 1] == conds[k]);
        assert(runs.drop_first()[k - 1] == runs[k]);
    }
}

/// Law: a run-condition returning false skips exactly its own slot — the
/// run's outcome is the outcome of the same plan with that slot left out, so
/// it is no error and every later slot still runs.
pub proof fn lemma_false_condition_skips_exactly(
    names: Seq<String>,
    order: Seq<usize>,
    conds: Seq<Option<Result<bool, Run>>>,
    runs: Seq<Result<(), Run>>,
    k: int,
)
    requires
        0 <= k < order.len(),
        conds.len() == order.len(),
        runs.len() == order.len(),
        conds[k] == Some(Ok::<bool, Run>(false)),
    ensures
        workload_outcome_spec(names, order, conds, runs) == workload_outcome_spec(
            names,
            order.remove(k),
            conds.remove(k),
            runs.remove(k),
        ),
    decreases k,
{
    let ro = order.remove(k);
    let rc = conds.remove(k);
    let rr = runs.remove(k);
    if k == 0 {
        assert(ro =~= order.drop_first());
        assert(rc =~= conds.drop_first());
        assert(rr =~= runs.drop_first());
        lemma_outcome_drop_first(names, order, conds, runs, 1);
    } else {
        lemma_false_condition_skips_exactly(
            names,
            order.drop_first(),
            conds.drop_first(),
            runs.drop_first(),
            k - 1,
        );
        assert(ro.drop_first() =~= order.drop_first().remove(k - 1));
        assert(rc.drop_first() =~= conds.drop_first().remove(k - 1));
        assert(rr.drop_first() =~= runs.drop_first().remove(k - 1));
        assert(ro[0] == order[0] && rc[0] == conds[0] && rr[0] == runs[0]);
        match decide_slot_spec(conds[0]) {
            SlotAction::Skip => {
                lemma_outcome_drop_first(names, order, conds, runs, 1);
                lemma_outcome_drop_first(names, ro, rc, rr, 1);
            },
            SlotAction::Abort(_) => {},
            SlotAction::Proceed => {
                if runs[0] is Ok {
                    lemma_outcome_drop_first(names, order, conds, runs, 1);
                    lemma_outcome_drop_first(names, ro, rc, rr, 1);
                }
            },
        }
    }
}

/// The root object: the guarded storage registry and the compiled, named
/// workloads.
pub struct World {
    /// The storage registry, entities included.
    pub all_storages: AllStorages,
    /// The compiled workloads, by name.
    pub workloads: Vec<Workload>,
    /// The thread this world works on.
    pub thread_id: u64,
}

impl World {
    /// The world is well formed: the registry is, every workload's plan
    /// names only its own systems, and no name is registered twice.
    pub open spec fn wf(self) -> bool {
        &&& self.all_storages.wf()
        &&& forall|i: int| 0 <= i < self.workloads@.len() ==> (#[trigger] self.workloads@[i]).wf()
        &&& forall|i: int, j: int|
            0 <= i < self.workloads@.len() && 0 <= j < self.workloads@.len() && i != j ==> (
            #[trigger] self.workloads@[i]).name@ != (#[trigger] self.workloads@[j]).name@
    }

    /// Whether a workload of this name is registered.
    pub open spec fn has_workload(self, name: Seq<char>) -> bool {
        exists|i: int| 0 <= i < self.workloads@.len() && (#[trigger] self.workloads@[i]).name@ == name
    }

    /// Where the workload of this name sits.
    pub open spec fn workload_index_spec(self, name: Seq<char>) -> int {
        choose|i: int| 0 <= i < self.workloads@.len() && (#[trigger] self.workloads@[i]).name@ == name
    }

    /// The workload of this name.
    pub open spec fn workload_spec(self, name: Seq<char>) -> Workload {
        self.workloads@[self.workload_index_spec(name)]
    }

    /// In a well-formed world a name names one workload only.
    pub proof fn lemma_workload_index_unique(self, name: Seq<char>, i: int)
        requires
            self.wf(),
            0 <= i < self.workloads@.len(),
            self.workloads@[i].name@ == name,
        ensures
            self.workload_index_spec(name) == i,
            self.has_workload(name),
    {
        let w = self.workload_index_spec(name);
        assert(0 <= w < self.workloads@.len() && self.workloads@[w].name@ == name);
    }

    /// A fresh, empty world.
    pub fn new() -> (w: World)
        ensures
            w.wf(),
            w.all_storages.counts_ok(),
            w.all_storages.guard == crate::access_guard::AccessGuard::new_spec(0, true, true),
            w.all_storages.entities_guard == crate::access_guard::AccessGuard::new_spec(
                0,
                true,
                true,
            ),
            w.all_storages.entities.slots@.len() == 0,
            w.all_storages.entities.free@.len() == 0,
            w.all_storages.storages@.len() == 0,
            w.workloads@.len() == 0,
            w.thread_id == 0,
    {
        World { all_storages: AllStorages::new(0), workloads: Vec::new(), thread_id: 0 }
    }

    /// Where the workload of this name sits, if one is registered.
    fn find_workload(&self, name: &String) -> (r: Option<usize>)
        requires
            self.wf(),
        ensures
            match r {
                Some(i) => self.has_workload(name@) && i == self.workload_index_spec(name@),
                None => !self.has_workload(name@),
            },
    {
        let mut i: usize = 0;
        while i < self.workloads.len()
            invariant
                self.wf(),
                i <= self.workloads@.len(),
                forall|j: int| 0 <= j < i ==> (#[trigger] self.workloads@[j]).name@ != name@,
            decreases self.workloads@.len() - i,
        {
            if self.workloads[i].name == *name {
                proof {
                    self.lemma_workload_index_unique(name@, i as int);
                }
                return Some(i);
            }
            i = i + 1;
        }
        None
    }

    /// Whether `id` is alive.
    pub fn is_alive(&self, id: EntityId) -> (r: bool)
        ensures
            r == self.all_storages.entities.is_alive_spec(id),
    {
        self.all_storages.is_alive(id)
    }

    /// Allocates an entity through the registry's guards.
    pub fn add_entity(&mut self) -> (r: Result<EntityId, NewEntity>)
        requires
            old(self).wf(),
            old(self).all_storages.counts_ok(),
        ensures
            final(self).wf(),
            final(self).workloads == old(self).workloads,
            final(self).thread_id == old(self).thread_id,
            final(self).all_storages.storages == old(self).all_storages.storages,
            final(self).all_storages.counts_ok(),
            match old(self).all_storages.guard.shared_outcome(old(self).thread_id) {
                Err(b) => r == Err::<EntityId, NewEntity>(NewEntity::AllStoragesBorrow(b))
                    && *final(self) == *old(self),
                Ok(_) => match old(self).all_storages.entities_guard.exclusive_outcome(
                    old(self).thread_id,
                ) {
                    Err(b) => {
                        &&& r == Err::<EntityId, NewEntity>(NewEntity::Entities(b))
                        &&& final(self).all_storages.entities == old(self).all_storages.entities
                        &&& final(self).all_storages.guard == old(
                            self,
                        ).all_storages.guard.with_holder(old(self).thread_id)
                        &&& final(self).all_storages.entities_guard == old(
                            self,
                        ).all_storages.entities_guard
                    },
                    Ok(_) => {
                        &&& r is Ok
                        &&& (r matches Ok(id) ==> Entities::allocate_post(
                            old(self).all_storages.entities,
                            final(self).all_storages.entities,
                            id,
                        ))
                        &&& final(self).all_storages.guard == old(
                            self,
                        ).all_storages.guard.with_holder(old(self).thread_id)
                        &&& final(self).all_storages.entities_guard == (
                        crate::access_guard::AccessGuard {
                            count: 0,
                            ..old(self).all_storages.entities_guard.with_holder(
                                old(self).thread_id,
                            )
                        })
                    },
                },
            },
    {
        let tid = self.thread_id;
        let r = self.all_storages.add_entity(tid);
        r
    }

    /// Deletes `id` and strips its components from every storage; says
    /// whether it was alive.
    pub fn delete_entity(&mut self, id: EntityId) -> (r: Result<bool, GetStorage>)
        requires
            old(self).wf(),
        ensures
            final(self).wf(),
            final(self).workloads == old(self).workloads,
            final(self).thread_id == old(self).thread_id,
            match old(self).all_storages.guard.exclusive_outcome(old(self).thread_id) {
                Err(b) => r == Err::<bool, GetStorage>(GetStorage::AllStoragesBorrow(b)) && *final(self) == *old(self),
                Ok(_) => {
                    &&& r == Ok::<bool, GetStorage>(old(self).all_storages.entities.is_alive_spec(
                        id,
                    ))
                    &&& (r matches Ok(was) ==> Entities::delete_post(
                        old(self).all_storages.entities,
                        final(self).all_storages.entities,
                        id,
                        was,
                    ))
                    &&& final(self).all_storages.guard == old(self).all_storages.guard.with_holder(
                        old(self).thread_id,
                    )
                    &&& final(self).all_storages.entities_guard == old(
                        self,
                    ).all_storages.entities_guard
                    &&& final(self).all_storages.storages@.len() == old(
                        self,
                    ).all_storages.storages@.len()
                    &&& forall|j: int|
                        0 <= j < old(self).all_storages.storages@.len() ==> (#[trigger] final(self).all_storages.storages@[j]).same_but_removed(
                            old(self).all_storages.storages@[j],
                            id,
                        )
                },
            },
    {
        let tid = self.thread_id;
        let r = self.all_storages.delete_entity(id, tid);
        r
    }

    /// Registers a storage of kind `sid`, a no-op if one already is.
    pub fn add_storage(&mut self, sid: StorageId, name: Option<String>, send: bool, sync: bool) -> (r:
        Result<(), GetStorage>)
        requires
            old(self).wf(),
        ensures
            final(self).wf(),
            final(self).workloads == old(self).workloads,
            final(self).thread_id == old(self).thread_id,
            r is Ok ==> final(self).all_storages.has_storage(sid),
            match old(self).all_storages.guard.exclusive_outcome(old(self).thread_id) {
                Err(b) => r == Err::<(), GetStorage>(GetStorage::AllStoragesBorrow(b)) && *final(self) == *old(self),
                Ok(_) => {
                    &&& r is Ok
                    &&& final(self).all_storages.entities == old(self).all_storages.entities
                    &&& (forall|s2: StorageId|
                        #[trigger] final(self).all_storages.has_storage(s2) <==> old(self).all_storages.has_storage(s2) || s2 == sid)
                    &&& (old(self).all_storages.has_storage(sid) ==> final(self).all_storages.storages
                        == old(self).all_storages.storages)
                },
            },
    {
        let tid = self.thread_id;
        let r = self.all_storages.add_storage(sid, name, send, sync, tid);
        proof {
            if r is Ok {
                if !old(self).all_storages.has_storage(sid) {
                    self.all_storages.lemma_storage_index_unique(
                        sid,
                        old(self).all_storages.storages@.len() as int,
                    );
                }
            }
        }
        r
    }

    /// Unregisters the storage of kind `sid`, dropping its contents; says
    /// whether one was registered.
    pub fn delete_storage(&mut self, sid: StorageId) -> (r: Result<bool, GetStorage>)
        requires
            old(self).wf(),
        ensures
            final(self).wf(),
            final(self).workloads == old(self).workloads,
            final(self).thread_id == old(self).thread_id,
            match old(self).all_storages.guard.exclusive_outcome(old(self).thread_id) {
                Err(b) => r == Err::<bool, GetStorage>(GetStorage::AllStoragesBorrow(b)) && *final(self) == *old(self),
                Ok(_) => {
                    &&& r == Ok::<bool, GetStorage>(old(self).all_storages.has_storage(sid))
                    &&& !final(self).all_storages.has_storage(sid)
                    &&& final(self).all_storages.entities == old(self).all_storages.entities
                    &&& (forall|s2: StorageId|
                        s2 != sid ==> (#[trigger] final(self).all_storages.has_storage(s2) <==> old(self).all_storages.has_storage(s2)))
                },
            },
    {
        let tid = self.thread_id;
        let r = self.all_storages.delete_storage(sid, tid);
        proof {
            if old(self).all_storages.guard.exclusive_outcome(tid) is Ok && old(
                self,
            ).all_storages.has_storage(sid) {
                let gi = old(self).all_storages.storage_index_spec(sid);
                assert forall|s2: StorageId| s2 != sid implies (
                #[trigger] self.all_storages.has_storage(s2) <==> old(
                    self,
                ).all_storages.has_storage(s2)) by {
                    if self.all_storages.has_storage(s2) {
                        let w = self.all_storages.storage_index_spec(s2);
                        if w < gi {
                            assert(old(self).all_storages.storages@[w].id == s2);
                        } else {
                            assert(old(self).all_storages.storages@[w + 1].id == s2);
                        }
                    }
                    if old(self).all_storages.has_storage(s2) {
                        let w = old(self).all_storages.storage_index_spec(s2);
                        if w < gi {
                            assert(self.all_storages.storages@[w].id == s2);
                        } else {
                            assert(w != gi);
                            assert(self.all_storages.storages@[w - 1].id == s2);
                        }
                    }
                }
            }
        }
        r
    }

    /// Takes the whole-registry guard shared and the given storage's guard
    /// in the requested mode, for ad-hoc access; both stay held until
    /// `release_borrow`. The conflict, or the missing storage, is reported
    /// otherwise and nothing stays held.
    pub fn borrow(&mut self, sid: StorageId, exclusive: bool) -> (r: Result<(), GetStorage>)
        requires
            old(self).wf(),
            old(self).all_storages.counts_ok(),
        ensures
            final(self).wf(),
            final(self).workloads == old(self).workloads,
            final(self).thread_id == old(self).thread_id,
            final(self).all_storages.entities == old(self).all_storages.entities,
            match old(self).all_storages.guard.shared_outcome(old(self).thread_id) {
                Err(b) => r == Err::<(), GetStorage>(GetStorage::AllStoragesBorrow(b))
                    && final(self).all_storages == old(self).all_storages,
                Ok(g1) => {
                    if !old(self).all_storages.has_storage(sid) {
                        &&& r == Err::<(), GetStorage>(
                            GetStorage::MissingStorage { name: None, id: sid },
                        )
                        &&& final(self).all_storages.guard == old(self).all_storages.guard.with_holder(old(self).thread_id)
                        &&& final(self).all_storages.storages@ == old(self).all_storages.storages@
                    } else {
                        let i = old(self).all_storages.storage_index_spec(sid);
                        let st = old(self).all_storages.storages@[i];
                        match (if exclusive {
                            st.guard.exclusive_outcome(old(self).thread_id)
                        } else {
                            st.guard.shared_outcome(old(self).thread_id)
                        }) {
                            Err(b) => {
                                &&& r == Err::<(), GetStorage>(
                                    GetStorage::StorageBorrow { name: st.name, id: sid, borrow: b },
                                )
                                &&& final(self).all_storages.guard == old(self).all_storages.guard.with_holder(old(self).thread_id)
                                &&& final(self).all_storages.storages@ == old(self).all_storages.storages@
                            },
                            Ok(sg) => {
                                &&& r is Ok
                                &&& final(self).all_storages.guard == g1
                                &&& final(self).all_storages.storages@ == old(self).all_storages.storages@.update(
                                    i,
                                    crate::storage::Storage { guard: sg, ..st },
                                )
                            },
                        }
                    }
                },
            },
    {
        let tid = self.thread_id;
        let r = self.all_storages.borrow(sid, exclusive, tid);
        r
    }

    /// Returns the pair of borrows that `borrow` granted.
    pub fn release_borrow(&mut self, sid: StorageId, exclusive: bool)
        requires
            old(self).wf(),
            old(self).all_storages.guard.count > 0,
            old(self).all_storages.has_storage(sid),
            exclusive ==> old(self).all_storages.storage_spec(sid).guard.exclusive_held(),
            !exclusive ==> old(self).all_storages.storage_spec(sid).guard.count > 0,
        ensures
            final(self).wf(),
            final(self).workloads == old(self).workloads,
            final(self).thread_id == old(self).thread_id,
            final(self).all_storages.entities == old(self).all_storages.entities,
            final(self).all_storages.guard == (crate::access_guard::AccessGuard {
                count: (old(self).all_storages.guard.count - 1) as i64,
                ..old(self).all_storages.guard
            }),
            ({
                let i = old(self).all_storages.storage_index_spec(sid);
                let st = old(self).all_storages.storages@[i];
                final(self).all_storages.storages@ == old(self).all_storages.storages@.update(
                    i,
                    crate::storage::Storage {
                        guard: crate::access_guard::AccessGuard {
                            count: if exclusive {
                                0
                            } else {
                                (st.guard.count - 1) as i64
                            },
                            ..st.guard
                        },
                        ..st
                    },
                )
            }),
    {
        self.all_storages.release_borrow(sid, exclusive);
    }

    /// Gives `entity` the component `value` in the storage of kind `sid`,
    /// registering the storage on the spot when the kind is new. Fails, and
    /// touches nothing, when the entity is not alive.
    pub fn add_component(&mut self, sid: StorageId, entity: EntityId, value: u64) -> (r: Result<
        (),
        AddComponent,
    >)
        requires
            old(self).wf(),
        ensures
            final(self).wf(),
            final(self).workloads == old(self).workloads,
            final(self).thread_id == old(self).thread_id,
            !old(self).all_storages.entities.is_alive_spec(entity) ==> r == Err::<(), AddComponent>(
                AddComponent::EntityIsNotAlive,
            ) && *final(self) == *old(self),
            old(self).all_storages.entities.is_alive_spec(entity) ==> {
                &&& r is Ok
                &&& final(self).all_storages.guard == old(self).all_storages.guard
                &&& final(self).all_storages.entities_guard == old(self).all_storages.entities_guard
                &&& final(self).all_storages.entities == old(self).all_storages.entities
                &&& final(self).all_storages.storages@.len() <= old(
                    self,
                ).all_storages.storages@.len() + 1
                &&& final(self).all_storages.storage_has(sid, entity)
                &&& final(self).all_storages.storage_value(sid, entity) == value
                &&& forall|s2: StorageId, e2: EntityId|
                    !(s2 == sid && e2 == entity) && old(self).all_storages.storage_has(s2, e2)
                        ==> #[trigger] final(self).all_storages.storage_has(s2, e2) && final(self).all_storages.storage_value(s2, e2) == old(self).all_storages.storage_value(
                        s2,
                        e2,
                    )
                &&& forall|s2: StorageId, e2: EntityId|
                    #[trigger] final(self).all_storages.storage_has(s2, e2) ==> old(self).all_storages.storage_has(s2, e2) || (s2 == sid && e2 == entity)
            },
    {
        let tid = self.thread_id;
        let r = self.all_storages.add_component(sid, entity, value, tid);
        r
    }

    /// Reads `entity`'s component from the storage of kind `sid`.
    pub fn get_component(&self, sid: StorageId, entity: EntityId) -> (r: Result<u64, GetComponent>)
        requires
            self.wf(),
        ensures
            self.all_storages.storage_has(sid, entity) ==> r == Ok::<u64, GetComponent>(
                self.all_storages.storage_value(sid, entity),
            ),
            !self.all_storages.has_storage(sid) ==> r == Err::<u64, GetComponent>(
                GetComponent::StorageBorrow(GetStorage::MissingStorage { name: None, id: sid }),
            ),
            self.all_storages.has_storage(sid) && !self.all_storages.storage_has(sid, entity)
                ==> (r matches Err(e) && e matches GetComponent::MissingComponent(m) && m.id
                == entity && m.name@ == crate::error::storage_label_spec(
                self.all_storages.storage_spec(sid).name,
                sid,
            )),
    {
        self.all_storages.get_component(sid, entity)
    }

    /// Compiles the declared systems into a named workload and registers it.
    /// An invalid system aborts the compilation with its reason and the
    /// workload is never registered: the world is exactly as it was.
    pub fn add_workload(&mut self, name: String, systems: &Vec<SystemDescriptor>) -> (r: Result<
        (),
        InvalidSystem,
    >)
        requires
            old(self).wf(),
        ensures
            final(self).wf(),
            final(self).all_storages == old(self).all_storages,
            final(self).thread_id == old(self).thread_id,
            match first_invalid(systems@) {
                Some(e) => r == Err::<(), InvalidSystem>(e) && *final(self) == *old(self),
                None => {
                    &&& r is Ok
                    &&& final(self).has_workload(name@)
                    &&& views_of(final(self).workload_spec(name@).batches.parallel)
                        == compile_batches_spec(systems@)
                    &&& final(self).workload_spec(name@).batches.sequential@ == flat(
                        compile_batches_spec(systems@),
                    )
                    &&& final(self).workload_spec(name@).labels@.len() == systems@.len()
                    &&& forall|j: int|
                        0 <= j < systems@.len() ==> final(self).workload_spec(name@).labels@[j]
                            == (#[trigger] systems@[j]).label
                    &&& forall|n2: Seq<char>|
                        n2 != name@ ==> #[trigger] final(self).has_workload(n2) == old(self).has_workload(n2)
                    &&& forall|n2: Seq<char>|
                        n2 != name@ && old(self).has_workload(n2) ==> #[trigger] final(self).workload_spec(n2) == old(self).workload_spec(n2)
                },
            },
    {
        let batches = match Batches::compile(systems) {
            Ok(b) => b,
            Err(e) => {
                return Err(e);
            },
        };
        let mut labels: Vec<String> = Vec::new();
        let mut i: usize = 0;
        while i < systems.len()
            invariant
                i <= systems@.len(),
                labels@.len() == i,
                forall|j: int| 0 <= j < i ==> labels@[j] == (#[trigger] systems@[j]).label,
            decreases systems@.len() - i,
        {
            labels.push(systems[i].label.clone());
            i = i + 1;
        }
        let w = Workload { name, batches, labels };
        match self.find_workload(&w.name) {
            Some(i) => {
                let ghost pre = self.workloads@;
                self.workloads[i] = w;
                proof {
                    assert(self.workloads@ =~= pre.update(
                        old(self).workload_index_spec(self.workloads@[i as int].name@),
                        self.workloads@[i as int],
                    ));
                    self.lemma_workload_index_unique(self.workloads@[i as int].name@, i as int);
                    assert forall|n2: Seq<char>| n2 != self.workloads@[i as int].name@ implies
                        #[trigger] self.has_workload(n2) == old(self).has_workload(n2) by {
                        if self.has_workload(n2) {
                            let x = self.workload_index_spec(n2);
                            assert(old(self).workloads@[x].name@ == n2);
                        }
                        if old(self).has_workload(n2) {
                            let x = old(self).workload_index_spec(n2);
                            assert(self.workloads@[x].name@ == n2);
                        }
                    }
                    assert forall|n2: Seq<char>|
                        n2 != self.workloads@[i as int].name@ && old(self).has_workload(
                            n2,
                        ) implies #[trigger] self.workload_spec(n2) == old(self).workload_spec(
                        n2,
                    ) by {
                        let x = old(self).workload_index_spec(n2);
                        assert(self.workloads@[x].name@ == n2);
                        self.lemma_workload_index_unique(n2, x);
                        old(self).lemma_workload_index_unique(n2, x);
                    }
                }
                Ok(())
            },
            None => {
                let ghost pre = self.workloads@;
                let ghost nm = w.name@;
                self.workloads.push(w);
                proof {
                    self.lemma_workload_index_unique(nm, pre.len() as int);
                    assert forall|n2: Seq<char>| n2 != nm implies #[trigger] self.has_workload(n2)
                        == old(self).has_workload(n2) by {
                        if self.has_workload(n2) {
                            let x = self.workload_index_spec(n2);
                            assert(x < pre.len() && old(self).workloads@[x].name@ == n2);
                        }
                        if old(self).has_workload(n2) {
                            let x = old(self).workload_index_spec(n2);
                            assert(self.workloads@[x].name@ == n2);
                        }
                    }
                    assert forall|n2: Seq<char>| n2 != nm && old(self).has_workload(n2) implies
                        #[trigger] self.workload_spec(n2) == old(self).workload_spec(n2) by {
                        let x = old(self).workload_index_spec(n2);
                        assert(self.workloads@[x].name@ == n2);
                        self.lemma_workload_index_unique(n2, x);
                        old(self).lemma_workload_index_unique(n2, x);
                    }
                }
                Ok(())
            },
        }
    }

    /// Runs one system of the list against the world, wrapping any failure
    /// with the system's label.
    pub fn run_single_system<S: System>(
        &mut self,
        systems: &Vec<S>,
        system_names: &Vec<String>,
        index: usize,
    ) -> (r: Result<(), RunWorkload>)
        requires
            index < systems@.len(),
            systems@.len() == system_names@.len(),
        ensures
            r is Err ==> (r matches Err(e) && e matches RunWorkload::Run((label, _)) && label
                == system_names@[index as int]),
    {
        match systems[index].run(self) {
            Ok(()) => Ok(()),
            Err(err) => Err(RunWorkload::Run((system_names[index].clone(), err))),
        }
    }

    /// Walks a compiled plan in sequential order: evaluates each slot's
    /// run-condition, skips exactly the systems whose condition returns
    /// false, dispatches the rest in plan order, and stops at the first
    /// failure, attributed to the system it came from. Each decision follows
    /// `decide_slot_spec`; any reported failure carries the label of a
    /// system of the plan.
    #[allow(unused_variables)]
    pub fn run_batches_sequential<S: System, C: RunCondition>(
        &mut self,
        systems: &Vec<S>,
        system_names: &Vec<String>,
        run_ifs: &Vec<Option<C>>,
        batches: &Batches,
        workload_name: &String,
    ) -> (r: Result<(), RunWorkload>)
        requires
            systems@.len() == system_names@.len(),
            run_ifs@.len() == systems@.len(),
            forall|i: int|
                0 <= i < batches.sequential@.len() ==> (#[trigger] batches.sequential@[i])
                    < systems@.len(),
        ensures
            r is Err ==> (r matches Err(e) && e matches RunWorkload::Run((label, _)) && exists|
                i: int,
            |
                0 <= i < batches.sequential@.len() && label == system_names@[(
                #[trigger] batches.sequential@[i]) as int]),
            batches.sequential@.len() == 0 ==> r == Ok::<(), RunWorkload>(()),
            exists|conds: Seq<Option<Result<bool, Run>>>, runs: Seq<Result<(), Run>>|
                #![auto]
                conds.len() == batches.sequential@.len() && runs.len()
                    == batches.sequential@.len() && r == workload_outcome_spec(
                    system_names@,
                    batches.sequential@,
                    conds,
                    runs,
                ),
    {
        let n = batches.sequential.len();
        let ghost order = batches.sequential@;
        let ghost mut conds: Seq<Option<Result<bool, Run>>> = Seq::new(n as nat, |i: int| None);
        let ghost mut runs: Seq<Result<(), Run>> = Seq::new(n as nat, |i: int| Ok(()));
        let mut pos: usize = 0;
        while pos < n
            invariant
                n == order.len(),
                order == batches.sequential@,
                pos <= n,
                systems@.len() == system_names@.len(),
                run_ifs@.len() == systems@.len(),
                forall|i: int| 0 <= i < order.len() ==> (#[trigger] order[i]) < systems@.len(),
                conds.len() == n,
                runs.len() == n,
                forall|j: int| 0 <= j < pos ==> #[trigger] slot_passes(conds[j], runs[j]),
            decreases n - pos,
        {
            let index = batches.sequential[pos];
            let cond_outcome: Option<Result<bool, Run>> = match &run_ifs[index] {
                Some(c) => Some(c.check(self)),
                None => None,
            };
            proof {
                conds = conds.update(pos as int, cond_outcome);
            }
            match decide_slot(cond_outcome) {
                SlotAction::Skip => {},
                SlotAction::Abort(e) => {
                    proof {
                        lemma_passing_prefix(system_names@, order, conds, runs, pos as int);
                    }
                    return Err(RunWorkload::Run((system_names[index].clone(), e)));
                },
                SlotAction::Proceed => {
                    match systems[index].run(self) {
                        Ok(()) => {
                            proof {
                                runs = runs.update(pos as int, Ok::<(), Run>(()));
                            }
                        },
                        Err(err) => {
                            proof {
                                runs = runs.update(pos as int, Err::<(), Run>(err));
                                lemma_passing_prefix(
                                    system_names@,
                                    order,
                                    conds,
                                    runs,
                                    pos as int,
                                );
                            }
                            return Err(RunWorkload::Run((system_names[index].clone(), err)));
                        },
                    }
                },
            }
            pos = pos + 1;
        }
        proof {
            lemma_passing_prefix(system_names@, order, conds, runs, n as int);
        }
        Ok(())
    }

    /// Runs the named workload: looks its compiled plan up and walks it
    /// sequentially. The callables and conditions are handed in, indexed as
    /// the declared list the workload was compiled from.
    pub fn run_workload<S: System, C: RunCondition>(
        &mut self,
        name: &String,
        systems: &Vec<S>,
        run_ifs: &Vec<Option<C>>,
    ) -> (r: Result<(), RunWorkload>)
        requires
            old(self).wf(),
            old(self).has_workload(name@) ==> systems@.len() == old(self).workload_spec(
                name@,
            ).labels@.len() && run_ifs@.len() == systems@.len(),
        ensures
            r == Err::<(), RunWorkload>(RunWorkload::MissingWorkload) <==> !old(
                self,
            ).has_workload(name@),
            !old(self).has_workload(name@) ==> *final(self) == *old(self),
            r matches Err(e) ==> e matches RunWorkload::MissingWorkload || (e matches RunWorkload::Run(
                (label, _),
            ) && exists|j: int|
                0 <= j < old(self).workload_spec(name@).labels@.len() && label == old(self).workload_spec(name@).labels@[j]),
            old(self).has_workload(name@) && old(self).workload_spec(
                name@,
            ).batches.sequential@.len() == 0 ==> r == Ok::<(), RunWorkload>(()),
    {
        let wi = match self.find_workload(name) {
            None => {
                return Err(RunWorkload::MissingWorkload);
            },
            Some(i) => i,
        };
        let batches = self.workloads[wi].batches.duplicate();
        let mut labels: Vec<String> = Vec::new();
        let mut i: usize = 0;
        while i < self.workloads[wi].labels.len()
            invariant
                wi < self.workloads@.len(),
                i <= self.workloads@[wi as int].labels@.len(),
                labels@.len() == i,
                forall|j: int|
                    0 <= j < i ==> labels@[j] == self.workloads@[wi as int].labels@[j],
            decreases self.workloads@[wi as int].labels@.len() - i,
        {
            labels.push(self.workloads[wi].labels[i].clone());
            i = i + 1;
        }
        let name_copy = name.clone();
        proof {
            assert(old(self).workload_spec(name@) == self.workloads@[wi as int]);
        }
        self.run_batches_sequential(systems, &labels, run_ifs, &batches, &name_copy)
    }
}

} // verus!
