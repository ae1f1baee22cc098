//! Tests for the borrow primitive, the entity registry, the storage
//! registry, and the error taxonomy.

use shipyard::access_guard::AccessGuard;
use shipyard::entity_id::EntityId;
use shipyard::error::{
    AddComponent, Apply, Borrow, CustomStorageView, GetComponent, GetStorage, InvalidSystem,
    MissingComponent, NewEntity, Run, RunWorkload, UniqueRemove,
};
use shipyard::storage::{Storage, StorageId};
use shipyard::world::World;

#[test]
fn shared_borrows_coexist() {
    let mut g = AccessGuard::new(0, true, true);
    assert_eq!(g.try_shared(0), Ok(()));
    assert_eq!(g.try_shared(1), Ok(()));
    // an exclusive request while shared borrows are outstanding
    assert_eq!(g.try_exclusive(0), Err(Borrow::Shared));
    g.release_shared();
    g.release_shared();
    assert_eq!(g.try_exclusive(0), Ok(()));
    // any request while an exclusive borrow is outstanding
    assert_eq!(g.try_shared(0), Err(Borrow::Unique));
    assert_eq!(g.try_exclusive(1), Err(Borrow::Unique));
    g.release_exclusive();
    assert_eq!(g.try_shared(0), Ok(()));
}

#[test]
fn wrong_thread_is_not_contention() {
    // a storage that must stay on its creation thread
    let mut g = AccessGuard::new(7, false, false);
    assert_eq!(g.try_shared(8), Err(Borrow::WrongThread));
    assert_eq!(g.try_exclusive(8), Err(Borrow::WrongThread));
    assert_eq!(g.try_shared(7), Ok(()));
}

#[test]
fn multiple_threads_on_non_concurrent_storage() {
    // movable, but not concurrently accessible
    let mut g = AccessGuard::new(0, true, false);
    assert_eq!(g.try_shared(1), Ok(()));
    // a second thread while thread 1 still holds a borrow
    assert_eq!(g.try_shared(2), Err(Borrow::MultipleThreads));
    // the same thread may pile up shared borrows
    assert_eq!(g.try_shared(1), Ok(()));
    g.release_shared();
    g.release_shared();
    assert_eq!(g.try_shared(2), Ok(()));
}

#[test]
fn allocate_reuses_lowest_free_index_with_new_generation() {
    let mut world = World::new();
    let a = world.add_entity().unwrap();
    let b = world.add_entity().unwrap();
    let c = world.add_entity().unwrap();
    assert_eq!(a, EntityId::new(0, 0));
    assert_eq!(b, EntityId::new(1, 0));
    assert_eq!(c, EntityId::new(2, 0));

    assert_eq!(world.delete_entity(c), Ok(true));
    assert_eq!(world.delete_entity(a), Ok(true));
    assert!(!world.is_alive(a));
    assert!(!world.is_alive(c));
    assert!(world.is_alive(b));

    // lowest free index first, generation advanced
    let d = world.add_entity().unwrap();
    assert_eq!(d, EntityId::new(0, 1));
    let e = world.add_entity().unwrap();
    assert_eq!(e, EntityId::new(2, 1));

    // the recycled index never revives the deleted identifier
    assert!(!world.is_alive(a));
    assert!(!world.is_alive(c));
    assert!(world.is_alive(d));
    assert!(world.is_alive(e));
}

#[test]
fn delete_twice_is_a_noop() {
    let mut world = World::new();
    let a = world.add_entity().unwrap();
    assert_eq!(world.delete_entity(a), Ok(true));
    assert_eq!(world.delete_entity(a), Ok(false));
}

#[test]
fn add_component_to_stale_identifier_fails_and_mutates_nothing() {
    let mut world = World::new();
    let sid = StorageId(1);
    let a = world.add_entity().unwrap();
    let b = world.add_entity().unwrap();
    assert_eq!(world.add_component(sid, a, 10), Ok(()));
    assert_eq!(world.add_component(sid, b, 20), Ok(()));
    assert_eq!(world.get_component(sid, a), Ok(10));

    assert_eq!(world.delete_entity(a), Ok(true));
    // deleting strips the entity's components
    assert!(world.get_component(sid, a).is_err());

    // adding through the stale identifier fails with the typed error
    let err = world.add_component(sid, a, 99).unwrap_err();
    assert_eq!(err, AddComponent::EntityIsNotAlive);
    assert_eq!(
        err.message(),
        "Entity has to be alive to add component to it."
    );
    // and nothing was written
    assert!(world.get_component(sid, a).is_err());
    assert_eq!(world.get_component(sid, b), Ok(20));

    // even after the index is recycled
    let a2 = world.add_entity().unwrap();
    assert_eq!(a2.index, a.index);
    assert!(world.add_component(sid, a, 99).is_err());
    assert_eq!(world.add_component(sid, a2, 42), Ok(()));
    assert_eq!(world.get_component(sid, a2), Ok(42));
}

#[test]
fn missing_storage_is_reported() {
    let mut world = World::new();
    let a = world.add_entity().unwrap();
    let sid = StorageId(9);
    let err = world.get_component(sid, a).unwrap_err();
    assert_eq!(
        err,
        GetComponent::StorageBorrow(GetStorage::MissingStorage { name: None, id: sid })
    );
    assert_eq!(
        err.message(),
        "StorageId(9) storage was not found in the World. You can register unique storage with: world.add_unique(your_unique);"
    );
    assert_eq!(
        world.borrow(sid, false),
        Err(GetStorage::MissingStorage { name: None, id: sid })
    );
}

#[test]
fn borrow_conflicts_through_the_registry() {
    let mut world = World::new();
    let sid = StorageId(3);
    world
        .add_storage(sid, Some("positions".to_string()), true, true)
        .unwrap();

    assert_eq!(world.borrow(sid, true), Ok(()));
    // a second request on the exclusively held storage
    let err = world.borrow(sid, true).unwrap_err();
    assert_eq!(
        err,
        GetStorage::StorageBorrow {
            name: Some("positions".to_string()),
            id: sid,
            borrow: Borrow::Unique,
        }
    );
    assert_eq!(
        err.message(),
        "Cannot borrow positions storage while it's already mutably borrowed."
    );

    // adding a storage needs the whole registry exclusively, but the borrow
    // above still holds it shared
    let err = world
        .add_storage(StorageId(4), None, true, true)
        .unwrap_err();
    assert_eq!(err, GetStorage::AllStoragesBorrow(Borrow::Shared));

    world.release_borrow(sid, true);
    assert_eq!(world.borrow(sid, false), Ok(()));
    let err = world.borrow(sid, true).unwrap_err();
    assert!(matches!(
        err,
        GetStorage::StorageBorrow { borrow: Borrow::Shared, .. }
    ));
    world.release_borrow(sid, false);
    assert_eq!(world.add_storage(StorageId(4), None, true, true), Ok(()));
}

#[test]
fn whole_registry_borrow_excludes_storage_access() {
    let mut world = World::new();
    let sid = StorageId(3);
    world.add_storage(sid, None, true, true).unwrap();

    // holding the whole registry exclusively excludes every individual
    // storage borrow, transitively
    assert_eq!(world.all_storages.borrow_all(true, 0), Ok(()));
    let err = world.borrow(sid, false).unwrap_err();
    assert_eq!(err, GetStorage::AllStoragesBorrow(Borrow::Unique));
    world.all_storages.release_all(true);
    assert_eq!(world.borrow(sid, false), Ok(()));
    world.release_borrow(sid, false);
}

#[test]
fn delete_storage_unregisters_the_kind() {
    let mut world = World::new();
    let sid = StorageId(5);
    let a = world.add_entity().unwrap();
    world.add_component(sid, a, 11).unwrap();
    assert_eq!(world.get_component(sid, a), Ok(11));
    assert_eq!(world.delete_storage(sid), Ok(true));
    assert_eq!(
        world.get_component(sid, a),
        Err(GetComponent::StorageBorrow(GetStorage::MissingStorage { name: None, id: sid }))
    );
    assert_eq!(world.delete_storage(sid), Ok(false));
}

#[test]
fn storage_holds_one_component_per_entity() {
    let mut st = Storage::new(StorageId(0), Some("usizes".to_string()), 0, true, true);
    let a = EntityId::new(0, 0);
    let b = EntityId::new(1, 0);
    assert!(!st.contains(a));
    st.set(a, 4);
    st.set(b, 5);
    assert!(st.contains(a));
    assert_eq!(st.get(a), Some(4));
    // setting again replaces, never duplicates
    st.set(a, 6);
    assert_eq!(st.get(a), Some(6));
    assert_eq!(st.get(b), Some(5));
    assert!(st.remove(a));
    assert!(!st.contains(a));
    assert!(!st.remove(a));
    assert_eq!(st.label(), "usizes");
}

#[test]
fn borrow_messages() {
    assert_eq!(
        Borrow::Unique.message(),
        "Cannot borrow while already mutably borrowed."
    );
    assert_eq!(
        Borrow::Shared.message(),
        "Cannot mutably borrow while already borrowed."
    );
    assert_eq!(
        Borrow::WrongThread.message(),
        "Can't access from another thread because it's !Send and !Sync."
    );
    assert_eq!(
        Borrow::MultipleThreads.message(),
        "Can't access from multiple threads at the same time because it's !Sync."
    );
}

#[test]
fn error_messages_carry_names_and_identities() {
    let e = GetStorage::StorageBorrow {
        name: Some("usizes".to_string()),
        id: StorageId(0),
        borrow: Borrow::Shared,
    };
    assert_eq!(
        e.message(),
        "Cannot mutably borrow usizes storage while it's already borrowed."
    );
    let e = GetStorage::MissingStorage { name: None, id: StorageId(1234567890) };
    assert_eq!(
        e.message(),
        "StorageId(1234567890) storage was not found in the World. You can register unique storage with: world.add_unique(your_unique);"
    );
    let e = GetStorage::TrackingNotEnabled {
        name: Some("usizes".to_string()),
        id: StorageId(0),
        tracking: "modification".to_string(),
    };
    assert_eq!(
        e.message(),
        "modification tracking is not enabled for usizes storage."
    );
    let e = MissingComponent { id: EntityId::new(3, 1), name: "USIZE".to_string() };
    assert_eq!(e.message(), "EId(3.1) does not have a USIZE component.");
    let e = Apply::MissingComponent(EntityId::new(0, 0));
    assert_eq!(
        e.message(),
        "Entity EId(0.0) does not have any component in this storage."
    );
    assert_eq!(
        Apply::IdenticalIds.message(),
        "Cannot use apply with identical components."
    );
    let e = UniqueRemove::MissingUnique("Camera".to_string());
    assert_eq!(e.message(), "No unique storage exists for Camera.\n");
    let e = NewEntity::Entities(Borrow::Unique);
    assert_eq!(
        e.message(),
        "Cannot borrow entities while it's already mutably borrowed."
    );
    let e = CustomStorageView::WrongType("NonSendSync".to_string());
    assert_eq!(
        e.message(),
        "Cannot convert, custom storage is of type: \"NonSendSync\""
    );
    let e = InvalidSystem::WorkloadUsedAsSystem("physics".to_string());
    assert_eq!(
        e.message(),
        "Workload used as a system, you should call it `physics()`."
    );
    let e = RunWorkload::Run((
        "sys_a".to_string(),
        Run::Custom("boom".to_string()),
    ));
    assert_eq!(
        e.message(),
        "System sys_a failed: run failed with a custom error, boom."
    );
}

#[test]
fn custom_errors_wrap_but_never_compare_equal() {
    let a = GetStorage::from_custom("boom".to_string());
    assert!(matches!(&a, GetStorage::Custom(s) if s == "boom"));
    let b = GetStorage::from_custom("boom".to_string());
    // custom reports are opaque: never equal, even to themselves
    assert!(a != b);
    assert_eq!(a.message(), "Storage borrow failed with a custom error, boom.");

    let r = Run::from_custom("boom".to_string());
    assert!(matches!(&r, Run::Custom(s) if s == "boom"));
    assert!(r != Run::from_custom("boom".to_string()));

    let g = Run::from(GetStorage::Entities(Borrow::Unique));
    assert_eq!(g, Run::GetStorage(GetStorage::Entities(Borrow::Unique)));
    assert_eq!(
        g.message(),
        "Cannot borrow Entities storage while it's already mutably borrowed."
    );

    let c = CustomStorageView::from(GetStorage::AllStoragesBorrow(Borrow::Unique));
    assert!(matches!(c, CustomStorageView::GetStorage(_)));
    let gc = GetComponent::from(MissingComponent {
        id: EntityId::new(1, 0),
        name: "U32".to_string(),
    });
    assert_eq!(
        gc,
        GetComponent::MissingComponent(MissingComponent {
            id: EntityId::new(1, 0),
            name: "U32".to_string(),
        })
    );
}

#[test]
fn error_equality_compares_fields() {
    let a = GetStorage::StorageBorrow {
        name: Some("usizes".to_string()),
        id: StorageId(0),
        borrow: Borrow::Unique,
    };
    let b = GetStorage::StorageBorrow {
        name: Some("usizes".to_string()),
        id: StorageId(0),
        borrow: Borrow::Unique,
    };
    let c = GetStorage::StorageBorrow {
        name: Some("u32s".to_string()),
        id: StorageId(0),
        borrow: Borrow::Unique,
    };
    assert_eq!(a, b);
    assert!(a != c);
    assert!(a != GetStorage::Entities(Borrow::Unique));

    let u = UniqueRemove::StorageBorrow(("Camera".to_string(), Borrow::Unique));
    assert_eq!(u.clone(), u);
    assert_eq!(
        InvalidSystem::MultipleViews.clone(),
        InvalidSystem::MultipleViews
    );
    let m = MissingComponent { id: EntityId::new(2, 0), name: "USIZE".to_string() };
    assert_eq!(m.clone(), m);
}

#[test]
fn builder_builds_an_empty_world() {
    let mut world = World::builder().with_custom_lock().build();
    let a = world.add_entity().unwrap();
    assert!(world.is_alive(a));
    assert_eq!(a, EntityId::new(0, 0));
}

#[test]
fn entity_label_renders_index_and_generation() {
    assert_eq!(EntityId::new(0, 0).label(), "EId(0.0)");
    assert_eq!(EntityId::new(12, 34).label(), "EId(12.34)");
    assert_eq!(
        EntityId::new(1000000, 18446744073709551615).label(),
        "EId(1000000.18446744073709551615)"
    );
}
