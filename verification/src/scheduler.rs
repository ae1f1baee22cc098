//! The workload compiler: static conflict analysis over the systems'
//! declared storage accesses, producing ordered batches that can run
//! concurrently without ever tripping the runtime borrow primitive.
//!
//! Systems are taken in declared order and each goes to the earliest batch
//! whose accumulated accesses it does not conflict with; declaration order is
//! never violated across a conflict boundary. Compilation is a function of
//! the declared list alone, so it is deterministic.

use crate::error::InvalidSystem;
use crate::storage::StorageId;
use vstd::prelude::*;

verus! {

/// How a system asks for a storage.
#[derive(Clone, Copy, PartialEq, Eq, Structural, Debug)]
pub enum AccessMode {
    /// Read access, shareable.
    Shared,
    /// Write access, exclusive.
    Exclusive,
}

/// One declared access of a system.
#[derive(Clone, Copy, PartialEq, Eq, Structural, Debug)]
pub enum Access {
    /// One storage, in the given mode.
    Storage(StorageId, AccessMode),
    /// The whole registry, exclusively.
    AllStorages,
}

/// What the compiler knows of one system: its label for diagnostics, its
/// declared accesses, and whether it is really a compiled workload mistakenly
/// used as a system.
pub struct SystemDescriptor {
    /// Label for diagnostics.
    pub label: String,
    /// The declared storage accesses.
    pub accesses: Vec<Access>,
    /// Whether the descriptor stands for a whole workload, which cannot be
    /// run as one system.
    pub is_workload: bool,
}

/// A compiled plan: batches of mutually non-conflicting system indices, in
/// order, and the same indices flattened for sequential execution.
#[derive(PartialEq, Eq, Debug)]
pub struct Batches {
    /// The batches, each an ordered list of system indices.
    pub parallel: Vec<Vec<usize>>,
    /// All system indices in batch order.
    pub sequential: Vec<usize>,
}

/// Whether two single declared accesses cannot be granted at the same time:
/// the same storage with an exclusive side, or the whole registry against
/// anything.
pub open spec fn access_conflict(a: Access, b: Access) -> bool {
    match (a, b) {
        (Access::AllStorages, _) => true,
        (_, Access::AllStorages) => true,
        (Access::Storage(s1, m1), Access::Storage(s2, m2)) => s1 == s2 && (m1
            == AccessMode::Exclusive || m2 == AccessMode::Exclusive),
    }
}

fn access_conflict_exec(a: &Access, b: &Access) -> (r: bool)
    ensures
        r == access_conflict(*a, *b),
{
    match (a, b) {
        (Access::AllStorages, _) => true,
        (_, Access::AllStorages) => true,
        (Access::Storage(s1, m1), Access::Storage(s2, m2)) => s1 == s2 && (matches!(
            m1,
            AccessMode::Exclusive,
        ) || matches!(m2, AccessMode::Exclusive)),
    }
}

/// Whether two access sets conflict: some pair of their accesses does.
pub open spec fn systems_conflict(a: Seq<Access>, b: Seq<Access>) -> bool {
    exists|i: int, j: int|
        0 <= i < a.len() && 0 <= j < b.len() && access_conflict(#[trigger] a[i], #[trigger] b[j])
}

/// Conflict between access sets does not depend on their order.
pub proof fn lemma_conflict_symmetric(a: Seq<Access>, b: Seq<Access>)
    ensures
        systems_conflict(a, b) == systems_conflict(b, a),
{
    if systems_conflict(a, b) {
        let (i, j) = choose|i: int, j: int|
            0 <= i < a.len() && 0 <= j < b.len() && access_conflict(#[trigger] a[i], #[trigger] b[j]);
        assert(access_conflict(b[j], a[i]));
    }
    if systems_conflict(b, a) {
        let (i, j) = choose|i: int, j: int|
            0 <= i < b.len() && 0 <= j < a.len() && access_conflict(#[trigger] b[i], #[trigger] a[j]);
        assert(access_conflict(a[j], b[i]));
    }
}

/// Whether two declared access sets conflict: some pair of their accesses
/// cannot be granted at the same time.
pub fn systems_conflict_check(a: &Vec<Access>, b: &Vec<Access>) -> (r: bool)
    ensures
        r == systems_conflict(a@, b@),
{
    let mut i: usize = 0;
    while i < a.len()
        invariant
            i <= a@.len(),
            forall|x: int, y: int|
                0 <= x < i && 0 <= y < b@.len() ==> !access_conflict(
                    #[trigger] a@[x],
                    #[trigger] b@[y],
                ),
        decreases a@.len() - i,
    {
        let mut j: usize = 0;
        while j < b.len()
            invariant
                i < a@.len(),
                j <= b@.len(),
                forall|x: int, y: int|
                    0 <= x < i && 0 <= y < b@.len() ==> !access_conflict(
                        #[trigger] a@[x],
                        #[trigger] b@[y],
                    ),
                forall|y: int| 0 <= y < j ==> !access_conflict(a@[i as int], #[trigger] b@[y]),
            decreases b@.len() - j,
        {
            if access_conflict_exec(&a[i], &b[j]) {
                return true;
            }
            j = j + 1;
        }
        i = i + 1;
    }
    false
}

/// Whether the access names a single storage exclusively.
pub open spec fn is_exclusive(a: Access) -> bool {
    match a {
        Access::Storage(_, m) => m == AccessMode::Exclusive,
        Access::AllStorages => false,
    }
}

/// Whether the access names a single storage shared.
pub open spec fn is_shared(a: Access) -> bool {
    match a {
        Access::Storage(_, m) => m == AccessMode::Shared,
        Access::AllStorages => false,
    }
}

/// Whether the two accesses name the same single storage.
pub open spec fn same_storage(a: Access, b: Access) -> bool {
    match (a, b) {
        (Access::Storage(s1, _), Access::Storage(s2, _)) => s1 == s2,
        _ => false,
    }
}

/// Whether the first `i` accesses name the whole registry somewhere.
pub open spec fn all_upto(acc: Seq<Access>, i: int) -> bool {
    exists|x: int| 0 <= x < i && (#[trigger] acc[x]) is AllStorages
}

/// Whether the first `i` accesses name a single storage somewhere.
pub open spec fn indiv_upto(acc: Seq<Access>, i: int) -> bool {
    exists|x: int| 0 <= x < i && (#[trigger] acc[x]) is Storage
}

/// Whether the first `i` accesses name one storage exclusively twice.
pub open spec fn dup_excl_upto(acc: Seq<Access>, i: int) -> bool {
    exists|x: int, y: int|
        0 <= x < i && 0 <= y < i && x != y && is_exclusive(#[trigger] acc[x]) && is_exclusive(
            #[trigger] acc[y],
        ) && same_storage(acc[x], acc[y])
}

/// Whether the first `i` accesses name one storage both shared and
/// exclusively.
pub open spec fn mixed_upto(acc: Seq<Access>, i: int) -> bool {
    exists|x: int, y: int|
        0 <= x < i && 0 <= y < i && is_shared(#[trigger] acc[x]) && is_exclusive(#[trigger] acc[y])
            && same_storage(acc[x], acc[y])
}

/// Whether the system's own declaration is self-contradictory: the whole
/// registry beside an individual storage.
pub open spec fn declares_all_and_storage(acc: Seq<Access>) -> bool {
    all_upto(acc, acc.len() as int) && indiv_upto(acc, acc.len() as int)
}

/// Whether the system declares the same storage exclusively twice.
pub open spec fn declares_dup_exclusive(acc: Seq<Access>) -> bool {
    dup_excl_upto(acc, acc.len() as int)
}

/// Whether the system declares the same storage both shared and exclusively.
pub open spec fn declares_mixed_dup(acc: Seq<Access>) -> bool {
    mixed_upto(acc, acc.len() as int)
}

/// Why one system cannot join any workload, if it cannot.
pub open spec fn invalid_reason(s: SystemDescriptor) -> Option<InvalidSystem> {
    if s.is_workload {
        Some(InvalidSystem::WorkloadUsedAsSystem(s.label))
    } else if declares_all_and_storage(s.accesses@) {
        Some(InvalidSystem::AllStorages)
    } else if declares_dup_exclusive(s.accesses@) {
        Some(InvalidSystem::MultipleViewsMut)
    } else if declares_mixed_dup(s.accesses@) {
        Some(InvalidSystem::MultipleViews)
    } else {
        None
    }
}

fn validate_system(s: &SystemDescriptor) -> (r: Option<InvalidSystem>)
    ensures
        r == invalid_reason(*s),
{
    if s.is_workload {
        return Some(InvalidSystem::WorkloadUsedAsSystem(s.label.clone()));
    }
    let acc = &s.accesses;
    let mut has_all: bool = false;
    let mut has_indiv: bool = false;
    let mut dup_excl: bool = false;
    let mut mixed: bool = false;
    let n = acc.len();
    let mut i: usize = 0;
    while i < n
        invariant
            n == acc@.len(),
            i <= n,
            has_all == all_upto(acc@, i as int),
            has_indiv == indiv_upto(acc@, i as int),
            dup_excl == dup_excl_upto(acc@, i as int),
            mixed == mixed_upto(acc@, i as int),
        decreases n - i,
    {
        match acc[i] {
            Access::AllStorages => {
                has_all = true;
                proof {
                    assert(dup_excl_upto(acc@, i + 1) == dup_excl_upto(acc@, i as int)) by {
                        if dup_excl_upto(acc@, i + 1) {
                            let (x, y) = choose|x: int, y: int|
                                0 <= x < i + 1 && 0 <= y < i + 1 && x != y && is_exclusive(
                                    #[trigger] acc@[x],
                                ) && is_exclusive(#[trigger] acc@[y]) && same_storage(
                                    acc@[x],
                                    acc@[y],
                                );
                            assert(x < i && y < i);
                        }
                    }
                    assert(mixed_upto(acc@, i + 1) == mixed_upto(acc@, i as int)) by {
                        if mixed_upto(acc@, i + 1) {
                            let (x, y) = choose|x: int, y: int|
                                0 <= x < i + 1 && 0 <= y < i + 1 && is_shared(#[trigger] acc@[x])
                                    && is_exclusive(#[trigger] acc@[y]) && same_storage(
                                    acc@[x],
                                    acc@[y],
                                );
                            assert(x < i && y < i);
                        }
                    }
                }
            },
            Access::Storage(_, _) => {
                has_indiv = true;
                let mut j: usize = 0;
                while j < i
                    invariant
                        n == acc@.len(),
                        i < n,
                        j <= i,
                        acc@[i as int] is Storage,
                        dup_excl == (dup_excl_upto(acc@, i as int) || exists|y: int|
                            0 <= y < j && is_exclusive(acc@[i as int]) && is_exclusive(
                                #[trigger] acc@[y],
                            ) && same_storage(acc@[i as int], acc@[y])),
                        mixed == (mixed_upto(acc@, i as int) || exists|y: int|
                            0 <= y < j && same_storage(acc@[i as int], #[trigger] acc@[y]) && ((
                            is_shared(acc@[i as int]) && is_exclusive(acc@[y])) || (is_exclusive(
                                acc@[i as int],
                            ) && is_shared(acc@[y])))),
                    decreases i - j,
                {
                    let a_i = acc[i];
                    let a_j = acc[j];
                    if access_same_storage(&a_i, &a_j) {
                        if access_is_exclusive(&a_i) && access_is_exclusive(&a_j) {
                            dup_excl = true;
                        }
                        if (access_is_shared(&a_i) && access_is_exclusive(&a_j)) || (
                        access_is_exclusive(&a_i) && access_is_shared(&a_j)) {
                            mixed = true;
                        }
                    }
                    j = j + 1;
                }
                proof {
                    assert(dup_excl == dup_excl_upto(acc@, i + 1)) by {
                        if dup_excl {
                            if !dup_excl_upto(acc@, i as int) {
                                let y = choose|y: int|
                                    0 <= y < i && is_exclusive(acc@[i as int]) && is_exclusive(
                                        #[trigger] acc@[y],
                                    ) && same_storage(acc@[i as int], acc@[y]);
                                assert(same_storage(acc@[y], acc@[i as int]));
                                assert(dup_excl_upto(acc@, i + 1));
                            }
                        } else {
                            if dup_excl_upto(acc@, i + 1) {
                                let (x, y) = choose|x: int, y: int|
                                    0 <= x < i + 1 && 0 <= y < i + 1 && x != y && is_exclusive(
                                        #[trigger] acc@[x],
                                    ) && is_exclusive(#[trigger] acc@[y]) && same_storage(
                                        acc@[x],
                                        acc@[y],
                                    );
                                if x == i {
                                    assert(is_exclusive(acc@[i as int]) && is_exclusive(acc@[y])
                                        && same_storage(acc@[i as int], acc@[y]));
                                } else if y == i {
                                    assert(same_storage(acc@[i as int], acc@[x]));
                                    assert(is_exclusive(acc@[i as int]) && is_exclusive(acc@[x])
                                        && same_storage(acc@[i as int], acc@[x]));
                                } else {
                                    assert(dup_excl_upto(acc@, i as int));
                                }
                            }
                        }
                    }
                    assert(mixed == mixed_upto(acc@, i + 1)) by {
                        if mixed {
                            if !mixed_upto(acc@, i as int) {
                                let y = choose|y: int|
                                    0 <= y < i && same_storage(acc@[i as int], #[trigger] acc@[y])
                                        && ((is_shared(acc@[i as int]) && is_exclusive(acc@[y]))
                                        || (is_exclusive(acc@[i as int]) && is_shared(acc@[y])));
                                assert(same_storage(acc@[y], acc@[i as int]));
                                assert(mixed_upto(acc@, i + 1));
                            }
                        } else {
                            if mixed_upto(acc@, i + 1) {
                                let (x, y) = choose|x: int, y: int|
                                    0 <= x < i + 1 && 0 <= y < i + 1 && is_shared(
                                        #[trigger] acc@[x],
                                    ) && is_exclusive(#[trigger] acc@[y]) && same_storage(
                                        acc@[x],
                                        acc@[y],
                                    );
                                if x == i && y == i {
                                    assert(false);
                                } else if x == i {
                                    assert(same_storage(acc@[i as int], acc@[y]));
                                } else if y == i {
                                    assert(same_storage(acc@[i as int], acc@[x]));
                                } else {
                                    assert(mixed_upto(acc@, i as int));
                                }
                            }
                        }
                    }
                }
            },
        }
        i = i + 1;
    }
    if has_all && has_indiv {
        Some(InvalidSystem::AllStorages)
    } else if dup_excl {
        Some(InvalidSystem::MultipleViewsMut)
    } else if mixed {
        Some(InvalidSystem::MultipleViews)
    } else {
        None
    }
}

fn access_is_exclusive(a: &Access) -> (r: bool)
    ensures
        r == is_exclusive(*a),
{
    matches!(a, Access::Storage(_, AccessMode::Exclusive))
}

fn access_is_shared(a: &Access) -> (r: bool)
    ensures
        r == is_shared(*a),
{
    matches!(a, Access::Storage(_, AccessMode::Shared))
}

fn access_same_storage(a: &Access, b: &Access) -> (r: bool)
    ensures
        r == same_storage(*a, *b),
{
    match (a, b) {
        (Access::Storage(s1, _), Access::Storage(s2, _)) => s1 == s2,
        _ => false,
    }
}

/// The reason the workload cannot be built, if a system is invalid: the
/// first invalid system's, in declared order, starting at position `k`.
pub open spec fn first_invalid_from(systems: Seq<SystemDescriptor>, k: int) -> Option<
    InvalidSystem,
>
    decreases systems.len() - k,
{
    if k < 0 || k >= systems.len() {
        None
    } else {
        match invalid_reason(systems[k]) {
            Some(e) => Some(e),
            None => first_invalid_from(systems, k + 1),
        }
    }
}

/// The reason the workload cannot be built, if a system is invalid.
pub open spec fn first_invalid(systems: Seq<SystemDescriptor>) -> Option<InvalidSystem> {
    first_invalid_from(systems, 0)
}

/// Whether system `k` conflicts with a member of `batch`.
pub open spec fn batch_conflicts(
    systems: Seq<SystemDescriptor>,
    batch: Seq<usize>,
    k: usize,
) -> bool {
    exists|m: int|
        0 <= m < batch.len() && systems_conflict(
            systems[(#[trigger] batch[m]) as int].accesses@,
            systems[k as int].accesses@,
        )
}

/// Where greedy placement puts system `k`: the earliest batch it does not
/// conflict with, else a new batch at the end.
pub open spec fn place_in(
    batches: Seq<Seq<usize>>,
    systems: Seq<SystemDescriptor>,
    k: usize,
) -> Seq<Seq<usize>>
    decreases batches.len(),
{
    if batches.len() == 0 {
        seq![seq![k]]
    } else if !batch_conflicts(systems, batches[0], k) {
        batches.update(0, batches[0].push(k))
    } else {
        seq![batches[0]] + place_in(batches.drop_first(), systems, k)
    }
}

/// The batches after the first `k` systems have been placed.
pub open spec fn batches_after(systems: Seq<SystemDescriptor>, k: int) -> Seq<Seq<usize>>
    decreases k,
{
    if k <= 0 {
        Seq::empty()
    } else {
        place_in(batches_after(systems, k - 1), systems, (k - 1) as usize)
    }
}

/// The compiled batch partition of the whole list.
pub open spec fn compile_batches_spec(systems: Seq<SystemDescriptor>) -> Seq<Seq<usize>> {
    batches_after(systems, systems.len() as int)
}

/// The flattening of the batches into one sequential order.
pub open spec fn flat(batches: Seq<Seq<usize>>) -> Seq<usize>
    decreases batches.len(),
{
    if batches.len() == 0 {
        Seq::empty()
    } else {
        batches[0] + flat(batches.drop_first())
    }
}

/// The batches of a plan as mathematical sequences.
pub open spec fn views_of(v: Vec<Vec<usize>>) -> Seq<Seq<usize>> {
    Seq::new(v@.len(), |i: int| v@[i]@)
}

/// Placement lands exactly at the first non-conflicting batch. `b` is that
/// batch's position, or the length when every batch conflicts.
proof fn lemma_place_in_at(
    batches: Seq<Seq<usize>>,
    systems: Seq<SystemDescriptor>,
    k: usize,
    b: int,
)
    requires
        0 <= b <= batches.len(),
        forall|j: int| 0 <= j < b ==> batch_conflicts(systems, #[trigger] batches[j], k),
        b < batches.len() ==> !batch_conflicts(systems, batches[b], k),
    ensures
        place_in(batches, systems, k) == if b == batches.len() {
            batches.push(seq![k])
        } else {
            batches.update(b, batches[b].push(k))
        },
    decreases batches.len(),
{
    if batches.len() == 0 {
        assert(place_in(batches, systems, k) =~= batches.push(seq![k]));
    } else if !batch_conflicts(systems, batches[0], k) {
        assert(batches[0 as int] == batches[0]);
        assert(b == 0);
    } else {
        lemma_place_in_at(batches.drop_first(), systems, k, b - 1);
        if b == batches.len() {
            assert(place_in(batches, systems, k) =~= batches.push(seq![k]));
        } else {
            assert(place_in(batches, systems, k) =~= batches.update(b, batches[b].push(k)));
        }
    }
}

/// Soundness of a partial partition: every member is an earlier system index
/// and no two members of one batch conflict.
pub open spec fn batches_sound(
    batches: Seq<Seq<usize>>,
    systems: Seq<SystemDescriptor>,
    k: int,
) -> bool {
    &&& forall|b: int, m: int|
        0 <= b < batches.len() && 0 <= m < batches[b].len() ==> (#[trigger] batches[b][m]) < k
    &&& forall|b: int, x: int, y: int|
        0 <= b < batches.len() && 0 <= x < batches[b].len() && 0 <= y < batches[b].len() && x != y
            ==> !systems_conflict(
            systems[(#[trigger] batches[b][x]) as int].accesses@,
            systems[(#[trigger] batches[b][y]) as int].accesses@,
        )
}

proof fn lemma_place_in_sound(batches: Seq<Seq<usize>>, systems: Seq<SystemDescriptor>, k: usize)
    requires
        batches_sound(batches, systems, k as int),
        (k as int) < systems.len(),
    ensures
        batches_sound(place_in(batches, systems, k), systems, k + 1),
    decreases batches.len(),
{
    let placed = place_in(batches, systems, k);
    if batches.len() == 0 {
        assert(placed =~= seq![seq![k]]);
    } else if !batch_conflicts(systems, batches[0], k) {
        let nb = batches[0].push(k);
        assert forall|x: int, y: int|
            0 <= x < nb.len() && 0 <= y < nb.len() && x != y implies !systems_conflict(
            systems[(#[trigger] nb[x]) as int].accesses@,
            systems[(#[trigger] nb[y]) as int].accesses@,
        ) by {
            if x < batches[0].len() && y < batches[0].len() {
                assert(nb[x] == batches[0][x] && nb[y] == batches[0][y]);
            } else if y == batches[0].len() {
                assert(nb[x] == batches[0][x] && nb[y] == k);
                assert(!systems_conflict(
                    systems[batches[0][x] as int].accesses@,
                    systems[k as int].accesses@,
                ));
            } else {
                assert(x == batches[0].len());
                assert(nb[x] == k && nb[y] == batches[0][y]);
                assert(!systems_conflict(
                    systems[batches[0][y] as int].accesses@,
                    systems[k as int].accesses@,
                ));
                lemma_conflict_symmetric(
                    systems[k as int].accesses@,
                    systems[batches[0][y] as int].accesses@,
                );
            }
        }
        assert(placed == batches.update(0, nb));
    } else {
        lemma_place_in_sound(batches.drop_first(), systems, k);
        let rest = place_in(batches.drop_first(), systems, k);
        assert(placed == seq![batches[0]] + rest);
        assert forall|b: int, m: int|
            0 <= b < placed.len() && 0 <= m < placed[b].len() implies (#[trigger] placed[b][m]) < k
            + 1 by {
            if b == 0 {
                assert(placed[b] == batches[0]);
            } else {
                assert(placed[b] == rest[b - 1]);
            }
        }
        assert forall|b: int, x: int, y: int|
            0 <= b < placed.len() && 0 <= x < placed[b].len() && 0 <= y < placed[b].len() && x
                != y implies !systems_conflict(
            systems[(#[trigger] placed[b][x]) as int].accesses@,
            systems[(#[trigger] placed[b][y]) as int].accesses@,
        ) by {
            if b == 0 {
                assert(placed[b] == batches[0]);
            } else {
                assert(placed[b] == rest[b - 1]);
            }
        }
    }
}

proof fn lemma_batches_after_sound(systems: Seq<SystemDescriptor>, k: int)
    requires
        0 <= k <= systems.len(),
        systems.len() <= usize::MAX,
    ensures
        batches_sound(batches_after(systems, k), systems, k),
    decreases k,
{
    if k > 0 {
        lemma_batches_after_sound(systems, k - 1);
        lemma_place_in_sound(batches_after(systems, k - 1), systems, (k - 1) as usize);
    }
}

/// Law: in a compiled plan every batch member is a declared system's index
/// and no two systems placed in the same batch have conflicting declared
/// access sets.
pub proof fn lemma_compiled_batches_nonconflicting(systems: Seq<SystemDescriptor>)
    requires
        systems.len() <= usize::MAX,
    ensures
        batches_sound(compile_batches_spec(systems), systems, systems.len() as int),
{
    lemma_batches_after_sound(systems, systems.len() as int);
}

/// Law: compilation is deterministic — the compiled partition is a function
/// of the declared system list alone, so equal lists compile to equal plans.
pub proof fn lemma_compile_deterministic(a: Seq<SystemDescriptor>, b: Seq<SystemDescriptor>)
    requires
        a == b,
    ensures
        compile_batches_spec(a) == compile_batches_spec(b),
        first_invalid(a) == first_invalid(b),
{
}

fn conflicts_with_batch(systems: &Vec<SystemDescriptor>, batch: &Vec<usize>, k: usize) -> (r: bool)
    requires
        forall|m: int| 0 <= m < batch@.len() ==> (#[trigger] batch@[m]) < systems@.len(),
        k < systems@.len(),
    ensures
        r == batch_conflicts(systems@, batch@, k),
{
    let mut m: usize = 0;
    while m < batch.len()
        invariant
            m <= batch@.len(),
            k < systems@.len(),
            forall|j: int| 0 <= j < batch@.len() ==> (#[trigger] batch@[j]) < systems@.len(),
            forall|j: int|
                0 <= j < m ==> !systems_conflict(
                    systems@[(#[trigger] batch@[j]) as int].accesses@,
                    systems@[k as int].accesses@,
                ),
        decreases batch@.len() - m,
    {
        if systems_conflict_check(&systems[batch[m]].accesses, &systems[k].accesses) {
            return true;
        }
        m = m + 1;
    }
    false
}

fn copy_usizes(v: &Vec<usize>) -> (r: Vec<usize>)
    ensures
        r@ == v@,
{
    let mut r: Vec<usize> = Vec::new();
    let mut i: usize = 0;
    while i < v.len()
        invariant
            i <= v@.len(),
            r@ == v@.take(i as int),
        decreases v@.len() - i,
    {
        r.push(v[i]);
        proof {
            assert(v@.take(i + 1) =~= v@.take(i as int).push(v@[i as int]));
        }
        i = i + 1;
    }
    proof {
        assert(v@.take(v@.len() as int) =~= v@);
    }
    r
}

impl Batches {
    /// An identical plan, for handing out while the original stays stored.
    pub fn duplicate(&self) -> (r: Batches)
        ensures
            views_of(r.parallel) == views_of(self.parallel),
            r.sequential@ == self.sequential@,
    {
        let mut parallel: Vec<Vec<usize>> = Vec::new();
        let mut b: usize = 0;
        while b < self.parallel.len()
            invariant
                b <= self.parallel@.len(),
                views_of(parallel) == views_of(self.parallel).take(b as int),
            decreases self.parallel@.len() - b,
        {
            let ghost pre = views_of(parallel);
            parallel.push(copy_usizes(&self.parallel[b]));
            proof {
                assert(views_of(parallel) =~= pre.push(self.parallel@[b as int]@));
                assert(views_of(self.parallel).take(b + 1) =~= views_of(self.parallel).take(
                    b as int,
                ).push(self.parallel@[b as int]@));
            }
            b = b + 1;
        }
        proof {
            assert(views_of(self.parallel).take(self.parallel@.len() as int) =~= views_of(
                self.parallel,
            ));
            assert(views_of(parallel) == views_of(self.parallel));
        }
        Batches { parallel, sequential: copy_usizes(&self.sequential) }
    }

    /// Compiles the declared system list into batches: each system is
    /// validated, then goes to the earliest batch whose accumulated accesses
    /// it does not conflict with. The first invalid system, in declared
    /// order, aborts the whole compilation with its reason.
    pub fn compile(systems: &Vec<SystemDescriptor>) -> (r: Result<Batches, InvalidSystem>)
        ensures
            match first_invalid(systems@) {
                Some(e) => r == Err::<Batches, InvalidSystem>(e),
                None => match r {
                    Ok(b) => {
                        &&& views_of(b.parallel) == compile_batches_spec(systems@)
                        &&& b.sequential@ == flat(compile_batches_spec(systems@))
                        &&& forall|i: int|
                            0 <= i < b.sequential@.len() ==> (#[trigger] b.sequential@[i])
                                < systems@.len()
                    },
                    Err(_) => false,
                },
            },
    {
        let n = systems.len();
        let mut k: usize = 0;
        while k < n
            invariant
                n == systems@.len(),
                k <= n,
                first_invalid_from(systems@, 0) == first_invalid_from(systems@, k as int),
            decreases n - k,
        {
            if let Some(e) = validate_system(&systems[k]) {
                proof {
                    assert(first_invalid_from(systems@, k as int) == Some(e));
                }
                return Err(e);
            }
            k = k + 1;
        }
        let mut parallel: Vec<Vec<usize>> = Vec::new();
        let mut k: usize = 0;
        while k < n
            invariant
                n == systems@.len(),
                k <= n,
                views_of(parallel) == batches_after(systems@, k as int),
                forall|b: int, m: int|
                    0 <= b < parallel@.len() && 0 <= m < parallel@[b]@.len() ==> (
                    #[trigger] parallel@[b]@[m]) < k,
            decreases n - k,
        {
            let mut b: usize = 0;
            let mut found: bool = false;
            while b < parallel.len() && !found
                invariant
                    n == systems@.len(),
                    k < n,
                    b <= parallel@.len(),
                    forall|bb: int, m: int|
                        0 <= bb < parallel@.len() && 0 <= m < parallel@[bb]@.len() ==> (
                        #[trigger] parallel@[bb]@[m]) < k,
                    forall|j: int|
                        0 <= j < b ==> batch_conflicts(systems@, views_of(parallel)[j], k),
                    found ==> b < parallel@.len() && !batch_conflicts(
                        systems@,
                        views_of(parallel)[b as int],
                        k,
                    ),
                decreases parallel@.len() - b + (if found { 0int } else { 1int }),
            {
                proof {
                    assert(views_of(parallel)[b as int] == parallel@[b as int]@);
                }
                if !conflicts_with_batch(systems, &parallel[b], k) {
                    found = true;
                } else {
                    b = b + 1;
                }
            }
            proof {
                lemma_place_in_at(views_of(parallel), systems@, k, b as int);
            }
            if b < parallel.len() {
                let ghost pre = views_of(parallel);
                parallel[b].push(k);
                proof {
                    assert(views_of(parallel) =~= pre.update(b as int, pre[b as int].push(k)));
                }
            } else {
                let ghost pre = views_of(parallel);
                let mut nb: Vec<usize> = Vec::new();
                nb.push(k);
                parallel.push(nb);
                proof {
                    assert(nb@ =~= seq![k]);
                    assert(views_of(parallel) =~= pre.push(seq![k]));
                }
            }
            k = k + 1;
        }
        let mut sequential: Vec<usize> = Vec::new();
        let mut b: usize = 0;
        while b < parallel.len()
            invariant
                b <= parallel@.len(),
                views_of(parallel) == compile_batches_spec(systems@),
                sequential@ == flat(views_of(parallel).take(b as int)),
                forall|bb: int, m: int|
                    0 <= bb < parallel@.len() && 0 <= m < parallel@[bb]@.len() ==> (
                    #[trigger] parallel@[bb]@[m]) < systems@.len(),
                forall|i: int|
                    0 <= i < sequential@.len() ==> (#[trigger] sequential@[i]) < systems@.len(),
            decreases parallel@.len() - b,
        {
            let mut m: usize = 0;
            while m < parallel[b].len()
                invariant
                    b < parallel@.len(),
                    m <= parallel@[b as int]@.len(),
                    views_of(parallel) == compile_batches_spec(systems@),
                    sequential@ == flat(views_of(parallel).take(b as int)) + parallel@[b as int]@.take(
                        m as int,
                    ),
                    forall|bb: int, mm: int|
                        0 <= bb < parallel@.len() && 0 <= mm < parallel@[bb]@.len() ==> (
                        #[trigger] parallel@[bb]@[mm]) < systems@.len(),
                    forall|i: int|
                        0 <= i < sequential@.len() ==> (#[trigger] sequential@[i]) < systems@.len(),
                decreases parallel@[b as int]@.len() - m,
            {
                sequential.push(parallel[b][m]);
                proof {
                    assert(parallel@[b as int]@.take(m + 1) =~= parallel@[b as int]@.take(m as int).push(
                        parallel@[b as int]@[m as int],
                    ));
                }
                m = m + 1;
            }
            b = b + 1;
            proof {
                lemma_flat_take_step(views_of(parallel), b as int);
                assert(parallel@[b - 1]@.take(parallel@[b - 1]@.len() as int) =~= views_of(parallel)[b
                    - 1]);
            }
        }
        proof {
            assert(views_of(parallel).take(parallel@.len() as int) =~= views_of(parallel));
        }
        Ok(Batches { parallel, sequential })
    }
}

/// One more batch extends the flattening by exactly that batch.
proof fn lemma_flat_take_step(batches: Seq<Seq<usize>>, b: int)
    requires
        0 < b <= batches.len(),
    ensures
        flat(batches.take(b)) == flat(batches.take(b - 1)) + batches[b - 1],
    decreases b,
{
    if b == 1 {
        assert(batches.take(1).drop_first() =~= Seq::<Seq<usize>>::empty());
        assert(batches.take(1)[0] == batches[0]);
        assert(flat(Seq::<Seq<usize>>::empty()) =~= Seq::<usize>::empty());
        assert(flat(batches.take(0)) =~= Seq::<usize>::empty());
        assert(flat(batches.take(1)) =~= batches[0]);
    } else {
        lemma_flat_take_step(batches.drop_first(), b - 1);
        assert(batches.take(b).drop_first() =~= batches.drop_first().take(b - 1));
        assert(batches.take(b - 1).drop_first() =~= batches.drop_first().take(b - 2));
        assert(batches.take(b)[0] == batches[0]);
        assert(batches.take(b - 1)[0] == batches[0]);
        assert(flat(batches.take(b)) == batches[0] + flat(batches.drop_first().take(b - 1)));
        assert(flat(batches.take(b - 1)) == batches[0] + flat(batches.drop_first().take(b - 2)));
        assert(batches.drop_first()[b - 2] == batches[b - 1]);
        assert(flat(batches.take(b)) =~= flat(batches.take(b - 1)) + batches[b - 1]);
    }
}

} // verus!
