//! The shared/exclusive borrow primitive guarding one storage slot.
//!
//! Acquisition never blocks: a request is granted or denied at once, with a
//! typed conflict reason on denial, so callers can tell "try again later"
//! from "never from this thread".

use crate::error::Borrow;
use vstd::prelude::*;

verus! {

/// Borrow state of one storage slot: a signed reference count (positive:
/// that many shared borrows outstanding, `-1`: one exclusive borrow
/// outstanding, `0`: free), the thread the storage was created on, the
/// storage's thread capabilities, and the thread holding the current borrows
/// (meaningful only while a borrow is outstanding and the storage is not
/// concurrent-safe).
pub struct AccessGuard {
    /// Signed reference count.
    pub count: i64,
    /// Thread the storage was created on.
    pub creation_thread: u64,
    /// Whether the storage may be accessed from other threads at all.
    pub send: bool,
    /// Whether the storage may be accessed from several threads at the same
    /// time.
    pub sync: bool,
    /// Thread whose borrows are outstanding, while any are.
    pub holder: u64,
}

impl AccessGuard {
    /// The state is well formed: the count is at least `-1`, and a storage
    /// that cannot leave its creation thread is only ever borrowed there.
    pub open spec fn wf(self) -> bool {
        &&& self.count >= -1
        &&& (!self.send && self.count != 0 ==> self.holder == self.creation_thread)
    }

    /// No borrow is outstanding.
    pub open spec fn is_free(self) -> bool {
        self.count == 0
    }

    /// One exclusive borrow is outstanding.
    pub open spec fn exclusive_held(self) -> bool {
        self.count == -1
    }

    /// Whether thread `tid` may touch the storage at all.
    pub open spec fn thread_compatible(self, tid: u64) -> bool {
        self.send || tid == self.creation_thread
    }

    /// The outcome of a shared request from thread `tid`: the new state on
    /// success, the conflict on denial.
    pub open spec fn shared_outcome(self, tid: u64) -> Result<AccessGuard, Borrow> {
        if !self.thread_compatible(tid) {
            Err(Borrow::WrongThread)
        } else if self.exclusive_held() {
            Err(Borrow::Unique)
        } else if !self.sync && self.count > 0 && self.holder != tid {
            Err(Borrow::MultipleThreads)
        } else {
            Ok(AccessGuard { count: (self.count + 1) as i64, holder: tid, ..self })
        }
    }

    /// The outcome of an exclusive request from thread `tid`.
    pub open spec fn exclusive_outcome(self, tid: u64) -> Result<AccessGuard, Borrow> {
        if !self.thread_compatible(tid) {
            Err(Borrow::WrongThread)
        } else if self.exclusive_held() {
            Err(Borrow::Unique)
        } else if self.count > 0 {
            Err(Borrow::Shared)
        } else {
            Ok(AccessGuard { count: -1 as i64, holder: tid, ..self })
        }
    }

    /// The same state with the holder marker pointing at `tid`: what a
    /// grant-then-release round trip leaves behind.
    pub open spec fn with_holder(self, tid: u64) -> AccessGuard {
        AccessGuard { holder: tid, ..self }
    }

    /// The state of a fresh, free guard for a storage created on
    /// `creation_thread`.
    pub open spec fn new_spec(creation_thread: u64, send: bool, sync: bool) -> AccessGuard {
        AccessGuard { count: 0, creation_thread, send, sync, holder: creation_thread }
    }

    /// A fresh, free guard for a storage created on `creation_thread`.
    pub fn new(creation_thread: u64, send: bool, sync: bool) -> (g: AccessGuard)
        ensures
            g == AccessGuard::new_spec(creation_thread, send, sync),
            g.wf(),
            g.is_free(),
    {
        AccessGuard { count: 0, creation_thread, send, sync, holder: creation_thread }
    }

    /// Grants or denies a shared borrow for thread `tid` without blocking.
    /// On denial the state is unchanged.
    pub fn try_shared(&mut self, tid: u64) -> (r: Result<(), Borrow>)
        requires
            old(self).count < i64::MAX,
        ensures
            match old(self).shared_outcome(tid) {
                Ok(g) => r == Ok::<(), Borrow>(()) && *final(self) == g,
                Err(e) => r == Err::<(), Borrow>(e) && *final(self) == *old(self),
            },
            old(self).wf() ==> final(self).wf(),
    {
        if !self.send && tid != self.creation_thread {
            Err(Borrow::WrongThread)
        } else if self.count == -1 {
            Err(Borrow::Unique)
        } else if !self.sync && self.count > 0 && self.holder != tid {
            Err(Borrow::MultipleThreads)
        } else {
            self.count = self.count + 1;
            self.holder = tid;
            Ok(())
        }
    }

    /// Grants or denies an exclusive borrow for thread `tid` without
    /// blocking. On denial the state is unchanged.
    pub fn try_exclusive(&mut self, tid: u64) -> (r: Result<(), Borrow>)
        ensures
            match old(self).exclusive_outcome(tid) {
                Ok(g) => r == Ok::<(), Borrow>(()) && *final(self) == g,
                Err(e) => r == Err::<(), Borrow>(e) && *final(self) == *old(self),
            },
            old(self).wf() ==> final(self).wf(),
    {
        if !self.send && tid != self.creation_thread {
            Err(Borrow::WrongThread)
        } else if self.count == -1 {
            Err(Borrow::Unique)
        } else if self.count > 0 {
            Err(Borrow::Shared)
        } else {
            self.count = -1;
            self.holder = tid;
            Ok(())
        }
    }

    /// Returns one shared borrow. Every acquired borrow must be returned on
    /// every exit path of its holder.
    pub fn release_shared(&mut self)
        requires
            old(self).count > 0,
        ensures
            *final(self) == (AccessGuard { count: (old(self).count - 1) as i64, ..*old(self) }),
            old(self).wf() ==> final(self).wf(),
    {
        self.count = self.count - 1;
    }

    /// Returns the exclusive borrow. Every acquired borrow must be returned
    /// on every exit path of its holder.
    pub fn release_exclusive(&mut self)
        requires
            old(self).exclusive_held(),
        ensures
            *final(self) == (AccessGuard { count: 0, ..*old(self) }),
            old(self).wf() ==> final(self).wf(),
    {
        self.count = 0;
    }
}

/// Law: while an exclusive borrow is outstanding, every further request on
/// the same storage is denied, and a thread-compatible one is denied with
/// the `Unique` conflict.
pub proof fn lemma_exclusive_excludes_all(g: AccessGuard, t1: u64, t2: u64)
    requires
        g.exclusive_outcome(t1) is Ok,
    ensures
        g.exclusive_outcome(t1) matches Ok(g1) ==> {
            &&& g1.shared_outcome(t2) is Err
            &&& g1.exclusive_outcome(t2) is Err
            &&& g1.thread_compatible(t2) ==> g1.shared_outcome(t2) == Err::<AccessGuard, Borrow>(
                Borrow::Unique,
            ) && g1.exclusive_outcome(t2) == Err::<AccessGuard, Borrow>(Borrow::Unique)
        },
{
}

/// Law: while a shared borrow is outstanding, an exclusive request on the
/// same storage is denied, and a thread-compatible one is denied with the
/// `Shared` conflict.
pub proof fn lemma_shared_excludes_exclusive(g: AccessGuard, t1: u64, t2: u64)
    requires
        g.wf(),
        g.count < i64::MAX,
        g.shared_outcome(t1) is Ok,
    ensures
        g.shared_outcome(t1) matches Ok(g1) ==> {
            &&& g1.exclusive_outcome(t2) is Err
            &&& g1.thread_compatible(t2) ==> g1.exclusive_outcome(t2) == Err::<AccessGuard, Borrow>(
                Borrow::Shared,
            )
        },
{
}

/// Law: two shared requests never conflict. This holds whenever both
/// requests can be granted at all: no exclusive borrow is outstanding, both
/// threads may touch the storage, and on a storage that is not
/// concurrent-safe the two requests come from the one thread already holding
/// it (from different threads the second is denied `MultipleThreads`, a
/// thread-capability denial, not a shared/shared conflict).
pub proof fn lemma_shared_never_conflicts(g: AccessGuard, t1: u64, t2: u64)
    requires
        g.wf(),
        g.count < i64::MAX - 1,
        !g.exclusive_held(),
        g.thread_compatible(t1),
        g.thread_compatible(t2),
        !g.sync ==> t1 == t2 && (g.count == 0 || g.holder == t1),
    ensures
        g.shared_outcome(t1) is Ok,
        g.shared_outcome(t1) matches Ok(g1) ==> g1.shared_outcome(t2) is Ok,
{
}

} // verus!
