//! One registered storage: its kind identity, its guard, and its contents.

use crate::access_guard::AccessGuard;
use crate::entity_id::EntityId;
use crate::error::storage_label_spec;
use crate::text::u64_to_dec;
use vstd::prelude::*;
use vstd::string::StringExecFns;

verus! {

/// Identity of one storage kind, unique within a registry.
#[derive(Clone, Copy, PartialEq, Eq, Structural, Debug, Hash)]
pub struct StorageId(pub u64);

/// One storage of the registry: a guard and the components it holds, one per
/// entity at most.
pub struct Storage {
    /// Identity of the storage's kind.
    pub id: StorageId,
    /// Human-readable name, for diagnostics.
    pub name: Option<String>,
    /// The storage's borrow state.
    pub guard: AccessGuard,
    /// The components, keyed by the entity that owns each.
    pub components: Vec<(EntityId, u64)>,
}

impl Storage {
    /// The storage is well formed: no entity owns two components in it.
    pub open spec fn wf(self) -> bool {
        &&& self.guard.wf()
        &&& forall|i: int, j: int|
            0 <= i < self.components@.len() && 0 <= j < self.components@.len() && i != j
                ==> (#[trigger] self.components@[i]).0 != (#[trigger] self.components@[j]).0
    }

    /// Whether entity `e` owns a component in this storage.
    pub open spec fn has_component(self, e: EntityId) -> bool {
        exists|i: int| 0 <= i < self.components@.len() && (#[trigger] self.components@[i]).0 == e
    }

    /// Where entity `e`'s component sits.
    pub open spec fn component_index(self, e: EntityId) -> int {
        choose|i: int| 0 <= i < self.components@.len() && (#[trigger] self.components@[i]).0 == e
    }

    /// The component entity `e` owns.
    pub open spec fn component_value(self, e: EntityId) -> u64 {
        self.components@[self.component_index(e)].1
    }

    /// Whether this storage is `pre` with entity `e`'s component taken out:
    /// identity, name and guard kept, every other entity's component kept.
    pub open spec fn same_but_removed(self, pre: Storage, e: EntityId) -> bool {
        &&& self.id == pre.id
        &&& self.name == pre.name
        &&& self.guard == pre.guard
        &&& !self.has_component(e)
        &&& forall|e2: EntityId|
            e2 != e ==> (#[trigger] self.has_component(e2)) == pre.has_component(e2)
        &&& forall|e2: EntityId|
            e2 != e && pre.has_component(e2) ==> (#[trigger] self.component_value(e2))
                == pre.component_value(e2)
    }

    /// In a well-formed storage an entity's component sits at one place only.
    pub proof fn lemma_component_index_unique(self, e: EntityId, i: int)
        requires
            self.wf(),
            0 <= i < self.components@.len(),
            self.components@[i].0 == e,
        ensures
            self.component_index(e) == i,
            self.has_component(e),
    {
        let w = self.component_index(e);
        assert(0 <= w < self.components@.len() && self.components@[w].0 == e);
    }

    /// A fresh, empty storage whose guard is created on `creation_thread`.
    pub fn new(id: StorageId, name: Option<String>, creation_thread: u64, send: bool, sync: bool) -> (r:
        Storage)
        ensures
            r.wf(),
            r.id == id,
            r.name == name,
            r.guard == AccessGuard::new_spec(creation_thread, send, sync),
            r.components@.len() == 0,
    {
        Storage { id, name, guard: AccessGuard::new(creation_thread, send, sync), components: Vec::new() }
    }

    /// The label under which this storage appears in diagnostics.
    pub fn label(&self) -> (r: String)
        ensures
            r@ == storage_label_spec(self.name, self.id),
    {
        match &self.name {
            Some(n) => n.clone(),
            None => {
                let mut r = "StorageId(".to_owned();
                r.append(u64_to_dec(self.id.0).as_str());
                r.append(")");
                proof {
                    assert(r@ =~= storage_label_spec(self.name, self.id));
                }
                r
            },
        }
    }

    /// Where entity `e`'s component sits, if it owns one.
    fn find_component(&self, e: EntityId) -> (r: Option<usize>)
        requires
            self.wf(),
        ensures
            match r {
                Some(i) => self.has_component(e) && i == self.component_index(e),
                None => !self.has_component(e),
            },
    {
        let mut i: usize = 0;
        while i < self.components.len()
            invariant
                self.wf(),
                i <= self.components@.len(),
                forall|j: int| 0 <= j < i ==> (#[trigger] self.components@[j]).0 != e,
            decreases self.components@.len() - i,
        {
            if self.components[i].0 == e {
                proof {
                    self.lemma_component_index_unique(e, i as int);
                }
                return Some(i);
            }
            i = i + 1;
        }
        None
    }

    /// Whether entity `e` owns a component here.
    pub fn contains(&self, e: EntityId) -> (r: bool)
        requires
            self.wf(),
        ensures
            r == self.has_component(e),
    {
        self.find_component(e).is_some()
    }

    /// Reads entity `e`'s component.
    pub fn get(&self, e: EntityId) -> (r: Option<u64>)
        requires
            self.wf(),
        ensures
            match r {
                Some(v) => self.has_component(e) && v == self.component_value(e),
                None => !self.has_component(e),
            },
    {
        match self.find_component(e) {
            Some(i) => Some(self.components[i].1),
            None => None,
        }
    }

    /// Gives entity `e` the component `v`, replacing any it already owns.
    /// Every other entity's component is untouched.
    pub fn set(&mut self, e: EntityId, v: u64)
        requires
            old(self).wf(),
        ensures
            final(self).wf(),
            final(self).has_component(e),
            final(self).component_value(e) == v,
            forall|e2: EntityId|
                e2 != e ==> final(self).has_component(e2) == old(self).has_component(e2),
            forall|e2: EntityId|
                e2 != e && old(self).has_component(e2) ==> final(self).component_value(e2) == old(
                    self,
                ).component_value(e2),
            final(self).id == old(self).id,
            final(self).name == old(self).name,
            final(self).guard == old(self).guard,
    {
        match self.find_component(e) {
            Some(i) => {
                self.components[i].1 = v;
                proof {
                    let gi = old(self).component_index(e);
                    assert(self.components@ == old(self).components@.update(gi, (e, v)));
                    self.lemma_component_index_unique(e, gi);
                    assert forall|e2: EntityId| e2 != e && old(self).has_component(e2) implies {
                        &&& self.has_component(e2)
                        &&& self.component_value(e2) == old(self).component_value(e2)
                    } by {
                        let j = old(self).component_index(e2);
                        assert(self.components@[j].0 == e2);
                        self.lemma_component_index_unique(e2, j);
                    }
                    assert forall|e2: EntityId| e2 != e && self.has_component(e2) implies old(
                        self,
                    ).has_component(e2) by {
                        let j = self.component_index(e2);
                        assert(old(self).components@[j].0 == e2);
                    }
                }
            },
            None => {
                self.components.push((e, v));
                proof {
                    let n = old(self).components@.len() as int;
                    self.lemma_component_index_unique(e, n);
                    assert forall|e2: EntityId| e2 != e && old(self).has_component(e2) implies {
                        &&& self.has_component(e2)
                        &&& self.component_value(e2) == old(self).component_value(e2)
                    } by {
                        let j = old(self).component_index(e2);
                        assert(self.components@[j].0 == e2);
                        self.lemma_component_index_unique(e2, j);
                    }
                    assert forall|e2: EntityId| e2 != e && self.has_component(e2) implies old(
                        self,
                    ).has_component(e2) by {
                        let j = self.component_index(e2);
                        assert(old(self).components@[j] == self.components@[j]);
                    }
                }
            },
        }
    }

    /// Takes entity `e`'s component out, if it owns one. Every other
    /// entity's component is untouched.
    pub fn remove(&mut self, e: EntityId) -> (had: bool)
        requires
            old(self).wf(),
        ensures
            final(self).wf(),
            had == old(self).has_component(e),
            final(self).same_but_removed(*old(self), e),
    {
        match self.find_component(e) {
            Some(i) => {
                self.components.remove(i);
                proof {
                    let gi = old(self).component_index(e);
                    assert(self.components@ == old(self).components@.remove(gi));
                    assert forall|k: int| 0 <= k < self.components@.len() implies (
                    #[trigger] self.components@[k]).0 != e by {
                        if k < gi {
                            assert(self.components@[k] == old(self).components@[k]);
                        } else {
                            assert(self.components@[k] == old(self).components@[k + 1]);
                        }
                    }
                    assert forall|e2: EntityId| e2 != e && old(self).has_component(e2) implies {
                        &&& self.has_component(e2)
                        &&& self.component_value(e2) == old(self).component_value(e2)
                    } by {
                        let j = old(self).component_index(e2);
                        let j2 = if j < gi {
                            j
                        } else {
                            j - 1
                        };
                        assert(self.components@[j2].0 == e2);
                        self.lemma_component_index_unique(e2, j2);
                    }
                    assert forall|e2: EntityId| e2 != e && self.has_component(e2) implies old(
                        self,
                    ).has_component(e2) by {
                        let j = self.component_index(e2);
                        if j < gi {
                            assert(old(self).components@[j].0 == e2);
                        } else {
                            assert(old(self).components@[j + 1].0 == e2);
                        }
                    }
                }
                true
            },
            None => false,
        }
    }
}

} // verus!
