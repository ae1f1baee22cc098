//! Tests for the workload compiler and the batch executor.

use shipyard::error::{Borrow, GetStorage, InvalidSystem, Run, RunWorkload};
use shipyard::scheduler::{systems_conflict_check, Access, AccessMode, Batches, SystemDescriptor};
use shipyard::storage::StorageId;
use shipyard::world::{RunCondition, System, World};

fn sys(label: &str, accesses: Vec<Access>) -> SystemDescriptor {
    SystemDescriptor { label: label.to_string(), accesses, is_workload: false }
}

#[test]
fn two_exclusive_systems_compile_to_two_batches() {
    let a = StorageId(1);
    let systems = vec![
        sys("sys_a", vec![Access::Storage(a, AccessMode::Exclusive)]),
        sys("sys_b", vec![Access::Storage(a, AccessMode::Exclusive)]),
    ];
    let batches = Batches::compile(&systems).unwrap();
    assert_eq!(batches.parallel, vec![vec![0], vec![1]]);
    assert_eq!(batches.sequential, vec![0, 1]);
}

#[test]
fn two_shared_systems_compile_to_one_batch() {
    let a = StorageId(1);
    let systems = vec![
        sys("sys_c", vec![Access::Storage(a, AccessMode::Shared)]),
        sys("sys_d", vec![Access::Storage(a, AccessMode::Shared)]),
    ];
    let batches = Batches::compile(&systems).unwrap();
    assert_eq!(batches.parallel, vec![vec![0, 1]]);
    assert_eq!(batches.sequential, vec![0, 1]);
}

#[test]
fn compilation_is_idempotent_and_deterministic() {
    let a = StorageId(1);
    let b = StorageId(2);
    let systems = vec![
        sys("s0", vec![Access::Storage(a, AccessMode::Exclusive)]),
        sys("s1", vec![Access::Storage(a, AccessMode::Shared)]),
        sys("s2", vec![Access::Storage(b, AccessMode::Exclusive)]),
        sys("s3", vec![]),
        sys("s4", vec![Access::AllStorages]),
    ];
    let first = Batches::compile(&systems).unwrap();
    let second = Batches::compile(&systems).unwrap();
    assert_eq!(first, second);
}

#[test]
fn greedy_placement_fills_the_earliest_batch() {
    let a = StorageId(1);
    let b = StorageId(2);
    let systems = vec![
        sys("s0", vec![Access::Storage(a, AccessMode::Exclusive)]),
        sys("s1", vec![Access::Storage(a, AccessMode::Shared)]),
        sys("s2", vec![Access::Storage(b, AccessMode::Exclusive)]),
    ];
    let batches = Batches::compile(&systems).unwrap();
    // s2 does not conflict with s0, so it joins the first batch
    assert_eq!(batches.parallel, vec![vec![0, 2], vec![1]]);
    assert_eq!(batches.sequential, vec![0, 2, 1]);
}

#[test]
fn whole_registry_conflicts_with_everything() {
    let a = StorageId(1);
    let systems = vec![
        sys("s0", vec![Access::AllStorages]),
        sys("s1", vec![Access::AllStorages]),
        sys("s2", vec![Access::Storage(a, AccessMode::Shared)]),
        sys("s3", vec![]),
    ];
    let batches = Batches::compile(&systems).unwrap();
    // the system with no declared access fits anywhere, even beside the
    // whole-registry one
    assert_eq!(batches.parallel, vec![vec![0, 3], vec![1], vec![2]]);
}

#[test]
fn no_batch_holds_a_conflicting_pair() {
    let a = StorageId(1);
    let b = StorageId(2);
    let c = StorageId(3);
    let systems = vec![
        sys("s0", vec![Access::Storage(a, AccessMode::Exclusive)]),
        sys("s1", vec![Access::Storage(b, AccessMode::Shared)]),
        sys(
            "s2",
            vec![
                Access::Storage(a, AccessMode::Shared),
                Access::Storage(c, AccessMode::Exclusive),
            ],
        ),
        sys("s3", vec![Access::Storage(b, AccessMode::Shared)]),
        sys("s4", vec![Access::AllStorages]),
        sys(
            "s5",
            vec![
                Access::Storage(b, AccessMode::Exclusive),
                Access::Storage(c, AccessMode::Shared),
            ],
        ),
        sys("s6", vec![]),
    ];
    let batches = Batches::compile(&systems).unwrap();
    // every declared system appears exactly once
    let mut seen = vec![false; systems.len()];
    for batch in &batches.parallel {
        for &i in batch {
            assert!(!seen[i]);
            seen[i] = true;
        }
    }
    assert!(seen.iter().all(|&s| s));
    // and no two systems of one batch conflict
    for batch in &batches.parallel {
        for (x, &i) in batch.iter().enumerate() {
            for &j in &batch[x + 1..] {
                assert!(!systems_conflict_check(
                    &systems[i].accesses,
                    &systems[j].accesses
                ));
            }
        }
    }
}

#[test]
fn invalid_systems_abort_compilation() {
    let a = StorageId(1);
    let e = Batches::compile(&vec![sys(
        "s0",
        vec![Access::AllStorages, Access::Storage(a, AccessMode::Shared)],
    )])
    .unwrap_err();
    assert_eq!(e, InvalidSystem::AllStorages);

    let e = Batches::compile(&vec![sys(
        "s0",
        vec![
            Access::Storage(a, AccessMode::Shared),
            Access::Storage(a, AccessMode::Exclusive),
        ],
    )])
    .unwrap_err();
    assert_eq!(e, InvalidSystem::MultipleViews);

    let e = Batches::compile(&vec![sys(
        "s0",
        vec![
            Access::Storage(a, AccessMode::Exclusive),
            Access::Storage(a, AccessMode::Exclusive),
        ],
    )])
    .unwrap_err();
    assert_eq!(e, InvalidSystem::MultipleViewsMut);

    let mut w = sys("physics", vec![]);
    w.is_workload = true;
    let e = Batches::compile(&vec![w]).unwrap_err();
    assert_eq!(e, InvalidSystem::WorkloadUsedAsSystem("physics".to_string()));

    // the first invalid system, in declared order, is the one reported
    let mut w = sys("physics", vec![]);
    w.is_workload = true;
    let e = Batches::compile(&vec![
        sys("ok", vec![Access::Storage(a, AccessMode::Shared)]),
        sys(
            "bad",
            vec![
                Access::Storage(a, AccessMode::Exclusive),
                Access::Storage(a, AccessMode::Exclusive),
            ],
        ),
        w,
    ])
    .unwrap_err();
    assert_eq!(e, InvalidSystem::MultipleViewsMut);
}

#[test]
fn invalid_workload_is_never_registered() {
    let mut world = World::new();
    let a = StorageId(1);
    let bad = vec![sys(
        "s0",
        vec![Access::AllStorages, Access::Storage(a, AccessMode::Shared)],
    )];
    let e = world.add_workload("broken".to_string(), &bad).unwrap_err();
    assert_eq!(e, InvalidSystem::AllStorages);

    // the workload does not exist for execution
    let systems: Vec<Marker> = vec![Marker { sid: a, value: 0 }];
    let run_ifs: Vec<Option<Gate>> = vec![None];
    let r = world.run_workload(&"broken".to_string(), &systems, &run_ifs);
    assert!(matches!(r, Err(RunWorkload::MissingWorkload)));
}

/// A system that exercises the borrow-pair discipline on one storage of the
/// world it is handed: shared pairs coexist, conflicting requests are denied
/// at once with the matching kind.
struct BorrowProbe {
    sid: StorageId,
}

impl System for BorrowProbe {
    fn run(&self, world: &mut World) -> Result<(), Run> {
        // two shared requests on one storage never conflict
        if world.borrow(self.sid, false).is_err() {
            return Err(Run::from_custom("first shared request denied".to_string()));
        }
        if world.borrow(self.sid, false).is_err() {
            return Err(Run::from_custom("second shared request denied".to_string()));
        }
        // an exclusive request while shared borrows are outstanding fails at
        // once with the Shared conflict
        match world.borrow(self.sid, true) {
            Err(GetStorage::StorageBorrow { borrow: Borrow::Shared, .. }) => {},
            _ => return Err(Run::from_custom("expected the Shared conflict".to_string())),
        }
        world.release_borrow(self.sid, false);
        world.release_borrow(self.sid, false);
        // any request while an exclusive borrow is outstanding fails at once
        // with the Unique conflict
        if world.borrow(self.sid, true).is_err() {
            return Err(Run::from_custom("exclusive request on a free storage denied".to_string()));
        }
        match world.borrow(self.sid, false) {
            Err(GetStorage::StorageBorrow { borrow: Borrow::Unique, .. }) => {},
            _ => return Err(Run::from_custom("expected the Unique conflict".to_string())),
        }
        match world.borrow(self.sid, true) {
            Err(GetStorage::StorageBorrow { borrow: Borrow::Unique, .. }) => {},
            _ => return Err(Run::from_custom("expected the Unique conflict".to_string())),
        }
        world.release_borrow(self.sid, true);
        Ok(())
    }
}

#[test]
fn dispatched_system_sees_the_borrow_pair_discipline() {
    let mut world = World::new();
    let sid = StorageId(8);
    world
        .add_storage(sid, Some("probe".to_string()), true, true)
        .unwrap();
    world
        .add_workload(
            "probe".to_string(),
            &vec![sys("borrow_probe", vec![Access::Storage(sid, AccessMode::Shared)])],
        )
        .unwrap();
    let systems = vec![BorrowProbe { sid }];
    let run_ifs: Vec<Option<Gate>> = vec![None];
    // the probe reports any deviation as its own failure, which would come
    // back labelled; a clean run means every pair behaved as stated
    assert_eq!(
        world.run_workload(&"probe".to_string(), &systems, &run_ifs),
        Ok(())
    );
}

/// A system that writes its value into its storage for entity zero.
struct Marker {
    sid: StorageId,
    value: u64,
}

impl System for Marker {
    fn run(&self, world: &mut World) -> Result<(), Run> {
        let e = shipyard::entity_id::EntityId::new(0, 0);
        world
            .add_component(self.sid, e, self.value)
            .map_err(|err| Run::from_custom(err.message()))
    }
}

/// A system that always fails with its label.
struct Failing;

impl System for Failing {
    fn run(&self, _world: &mut World) -> Result<(), Run> {
        Err(Run::from_custom("broke".to_string()))
    }
}

/// A run-condition with a fixed verdict.
struct Gate {
    verdict: Result<bool, ()>,
}

impl RunCondition for Gate {
    fn check(&self, _world: &mut World) -> Result<bool, Run> {
        match &self.verdict {
            Ok(v) => Ok(*v),
            Err(()) => Err(Run::from_custom("gate failed".to_string())),
        }
    }
}

enum AnySystem {
    Marker(Marker),
    Failing(Failing),
}

impl System for AnySystem {
    fn run(&self, world: &mut World) -> Result<(), Run> {
        match self {
            AnySystem::Marker(m) => m.run(world),
            AnySystem::Failing(f) => f.run(world),
        }
    }
}

#[test]
fn false_condition_skips_exactly_its_system() {
    let mut world = World::new();
    let e = world.add_entity().unwrap();
    assert_eq!(e, shipyard::entity_id::EntityId::new(0, 0));

    let descriptors = vec![sys("m0", vec![]), sys("m1", vec![]), sys("m2", vec![])];
    world.add_workload("mark".to_string(), &descriptors).unwrap();

    let systems = vec![
        Marker { sid: StorageId(0), value: 1 },
        Marker { sid: StorageId(1), value: 2 },
        Marker { sid: StorageId(2), value: 3 },
    ];
    let run_ifs = vec![
        None,
        Some(Gate { verdict: Ok(false) }),
        Some(Gate { verdict: Ok(true) }),
    ];
    // a false condition skips only its own system; it is not an error
    let r = world.run_workload(&"mark".to_string(), &systems, &run_ifs);
    assert_eq!(r, Ok(()));
    assert_eq!(world.get_component(StorageId(0), e), Ok(1));
    assert!(world.get_component(StorageId(1), e).is_err());
    assert_eq!(world.get_component(StorageId(2), e), Ok(3));
}

#[test]
fn failing_system_aborts_with_its_label() {
    let mut world = World::new();
    let e = world.add_entity().unwrap();

    let descriptors = vec![sys("m0", vec![]), sys("boom", vec![]), sys("m2", vec![])];
    world.add_workload("mixed".to_string(), &descriptors).unwrap();

    let systems = vec![
        AnySystem::Marker(Marker { sid: StorageId(0), value: 1 }),
        AnySystem::Failing(Failing),
        AnySystem::Marker(Marker { sid: StorageId(2), value: 3 }),
    ];
    let run_ifs: Vec<Option<Gate>> = vec![None, None, None];
    let r = world.run_workload(&"mixed".to_string(), &systems, &run_ifs);
    match r {
        Err(RunWorkload::Run((label, _))) => assert_eq!(label, "boom"),
        other => panic!("expected an attributed failure, got {:?}", other.is_ok()),
    }
    // the failure stops sequential progression
    assert_eq!(world.get_component(StorageId(0), e), Ok(1));
    assert!(world.get_component(StorageId(2), e).is_err());
}

#[test]
fn failing_condition_aborts_with_the_gated_system_label() {
    let mut world = World::new();
    let e = world.add_entity().unwrap();

    let descriptors = vec![sys("m0", vec![]), sys("gated", vec![])];
    world.add_workload("gates".to_string(), &descriptors).unwrap();

    let systems = vec![
        Marker { sid: StorageId(0), value: 1 },
        Marker { sid: StorageId(1), value: 2 },
    ];
    let run_ifs = vec![None, Some(Gate { verdict: Err(()) })];
    let r = world.run_workload(&"gates".to_string(), &systems, &run_ifs);
    match r {
        Err(RunWorkload::Run((label, _))) => assert_eq!(label, "gated"),
        _ => panic!("expected an attributed failure"),
    }
    // the gated system itself never ran
    assert!(world.get_component(StorageId(1), e).is_err());
}

#[test]
fn run_single_system_wraps_the_failure_with_its_label() {
    let mut world = World::new();
    let e = world.add_entity().unwrap();
    let systems = vec![
        AnySystem::Marker(Marker { sid: StorageId(0), value: 9 }),
        AnySystem::Failing(Failing),
    ];
    let names = vec!["m0".to_string(), "boom".to_string()];
    assert_eq!(world.run_single_system(&systems, &names, 0), Ok(()));
    assert_eq!(world.get_component(StorageId(0), e), Ok(9));
    match world.run_single_system(&systems, &names, 1) {
        Err(RunWorkload::Run((label, _))) => assert_eq!(label, "boom"),
        _ => panic!("expected an attributed failure"),
    }
}

#[test]
fn run_batches_sequential_walks_a_plan_directly() {
    let mut world = World::new();
    let e = world.add_entity().unwrap();

    let systems = vec![
        Marker { sid: StorageId(0), value: 5 },
        Marker { sid: StorageId(1), value: 6 },
    ];
    let names = vec!["m0".to_string(), "m1".to_string()];
    let run_ifs: Vec<Option<Gate>> = vec![None, None];
    let batches = Batches { parallel: vec![vec![0, 1]], sequential: vec![0, 1] };
    let r = world.run_batches_sequential(
        &systems,
        &names,
        &run_ifs,
        &batches,
        &"adhoc".to_string(),
    );
    assert_eq!(r, Ok(()));
    assert_eq!(world.get_component(StorageId(0), e), Ok(5));
    assert_eq!(world.get_component(StorageId(1), e), Ok(6));
}

#[test]
fn replacing_a_workload_keeps_others() {
    let mut world = World::new();
    let a = StorageId(1);
    world
        .add_workload(
            "first".to_string(),
            &vec![sys("s0", vec![Access::Storage(a, AccessMode::Shared)])],
        )
        .unwrap();
    world
        .add_workload("second".to_string(), &vec![sys("t0", vec![]), sys("t1", vec![])])
        .unwrap();
    // re-adding under the same name replaces the plan
    world
        .add_workload(
            "first".to_string(),
            &vec![sys("s0", vec![]), sys("s1", vec![])],
        )
        .unwrap();

    let e = world.add_entity().unwrap();
    let systems = vec![
        Marker { sid: StorageId(0), value: 1 },
        Marker { sid: StorageId(1), value: 2 },
    ];
    let run_ifs: Vec<Option<Gate>> = vec![None, None];
    assert_eq!(
        world.run_workload(&"first".to_string(), &systems, &run_ifs),
        Ok(())
    );
    assert_eq!(world.get_component(StorageId(0), e), Ok(1));
    assert_eq!(world.get_component(StorageId(1), e), Ok(2));
}
