//! All error types.
//!
//! Every type renders its diagnostic through a `message` method whose
//! contract pins the exact text.

use crate::entity_id::EntityId;
use crate::storage::StorageId;
use crate::text::{dec_digits, u64_to_dec};
use vstd::prelude::*;
use vstd::string::StringExecFns;

verus! {

/// A storage guard's borrow error. The variant names the kind of borrow that
/// was outstanding when the conflicting request arrived.
#[derive(Clone, Copy, PartialEq, Eq, Structural, Debug)]
pub enum Borrow {
    /// An exclusive borrow was outstanding when a new borrow occurred.
    Unique,
    /// Shared borrows were outstanding when an exclusive borrow occurred.
    Shared,
    /// The storage of a non-`Send` component was accessed from another thread.
    WrongThread,
    /// The storage of a non-`Sync` component was accessed from multiple
    /// threads at the same time.
    MultipleThreads,
}

impl Borrow {
    /// The diagnostic message for this conflict.
    pub open spec fn message_spec(self) -> Seq<char> {
        match self {
            Borrow::Unique => "Cannot borrow while already mutably borrowed."@,
            Borrow::Shared => "Cannot mutably borrow while already borrowed."@,
            Borrow::WrongThread => "Can't access from another thread because it's !Send and !Sync."@,
            Borrow::MultipleThreads => "Can't access from multiple threads at the same time because it's !Sync."@,
        }
    }

    /// Renders the conflict for diagnostics.
    pub fn message(&self) -> (r: String)
        ensures
            r@ == self.message_spec(),
    {
        match self {
            Borrow::Unique => "Cannot borrow while already mutably borrowed.".to_owned(),
            Borrow::Shared => "Cannot mutably borrow while already borrowed.".to_owned(),
            Borrow::WrongThread => "Can't access from another thread because it's !Send and !Sync.".to_owned(),
            Borrow::MultipleThreads => "Can't access from multiple threads at the same time because it's !Sync.".to_owned(),
        }
    }
}

/// The label under which a storage appears in diagnostics: its name when it
/// has one, else its identity in decimal.
pub open spec fn storage_label_spec(name: Option<String>, id: StorageId) -> Seq<char> {
    match name {
        Some(n) => n@,
        None => "StorageId("@ + dec_digits(id.0 as nat) + ")"@,
    }
}

fn storage_label(name: &Option<String>, id: StorageId) -> (r: String)
    ensures
        r@ == storage_label_spec(*name, id),
{
    match name {
        Some(n) => n.clone(),
        None => {
            let mut r = "StorageId(".to_owned();
            r.append(u64_to_dec(id.0).as_str());
            r.append(")");
            proof {
                assert(r@ =~= storage_label_spec(*name, id));
            }
            r
        },
    }
}

/// The message for a borrow conflict on the storage called `label`.
pub open spec fn borrowed_message_spec(label: Seq<char>, borrow: Borrow) -> Seq<char> {
    match borrow {
        Borrow::Unique => "Cannot borrow "@ + label + " storage while it's already mutably borrowed."@,
        Borrow::Shared => "Cannot mutably borrow "@ + label + " storage while it's already borrowed."@,
        Borrow::WrongThread => "Cannot borrow "@ + label
            + " storage from another thread than the one it was created in because it's !Send and !Sync."@,
        Borrow::MultipleThreads => "Cannot borrow "@ + label
            + " storage from multiple threads at the same time because it's !Sync."@,
    }
}

fn borrowed_message(label: String, borrow: &Borrow) -> (r: String)
    ensures
        r@ == borrowed_message_spec(label@, *borrow),
{
    let r = match borrow {
        Borrow::Unique => "Cannot borrow ".to_owned().concat(label.as_str()).concat(
            " storage while it's already mutably borrowed.",
        ),
        Borrow::Shared => "Cannot mutably borrow ".to_owned().concat(label.as_str()).concat(
            " storage while it's already borrowed.",
        ),
        Borrow::WrongThread => "Cannot borrow ".to_owned().concat(label.as_str()).concat(
            " storage from another thread than the one it was created in because it's !Send and !Sync.",
        ),
        Borrow::MultipleThreads => "Cannot borrow ".to_owned().concat(label.as_str()).concat(
            " storage from multiple threads at the same time because it's !Sync.",
        ),
    };
    proof {
        assert(r@ =~= borrowed_message_spec(label@, *borrow));
    }
    r
}

/// Whether two optional storage names carry the same text.
pub open spec fn opt_name_eq(a: Option<String>, b: Option<String>) -> bool {
    match (a, b) {
        (Some(x), Some(y)) => x@ == y@,
        (None, None) => true,
        _ => false,
    }
}

fn opt_name_eq_exec(a: &Option<String>, b: &Option<String>) -> (r: bool)
    ensures
        r == opt_name_eq(*a, *b),
{
    match (a, b) {
        (Some(x), Some(y)) => *x == *y,
        (None, None) => true,
        _ => false,
    }
}

/// Error related to acquiring a storage.
#[derive(Debug)]
pub enum GetStorage {
    /// The whole-registry guard could not be taken.
    AllStoragesBorrow(Borrow),
    /// One storage's guard could not be taken.
    StorageBorrow {
        /// Name of the storage, when it has one.
        name: Option<String>,
        /// Identity of the storage.
        id: StorageId,
        /// The conflict the guard reported.
        borrow: Borrow,
    },
    /// The entities storage's guard could not be taken.
    Entities(Borrow),
    /// No storage with this identity is registered.
    MissingStorage {
        /// Name of the storage, when it is known.
        name: Option<String>,
        /// Identity of the storage.
        id: StorageId,
    },
    /// The storage does not record the requested kind of change.
    TrackingNotEnabled {
        /// Name of the storage, when it has one.
        name: Option<String>,
        /// Identity of the storage.
        id: StorageId,
        /// The kind of tracking that was requested.
        tracking: String,
    },
    /// Error reported by a custom view.
    Custom(String),
}

impl GetStorage {
    /// Wraps a custom view's error report.
    pub fn from_custom(error: String) -> (r: GetStorage)
        ensures
            r == GetStorage::Custom(error),
    {
        GetStorage::Custom(error)
    }

    /// The diagnostic message for this error.
    pub open spec fn message_spec(self) -> Seq<char> {
        match self {
            GetStorage::AllStoragesBorrow(borrow) => match borrow {
                Borrow::Unique => "Cannot borrow AllStorages while it's already mutably borrowed."@,
                Borrow::Shared => "Cannot mutably borrow AllStorages while it's already borrowed (AllStorages is borrowed to access any storage)."@,
                _ => borrow.message_spec(),
            },
            GetStorage::StorageBorrow { name, id, borrow } => borrowed_message_spec(
                storage_label_spec(name, id),
                borrow,
            ),
            GetStorage::Entities(borrow) => borrowed_message_spec("Entities"@, borrow),
            GetStorage::MissingStorage { name, id } => storage_label_spec(name, id)
                + " storage was not found in the World. You can register unique storage with: world.add_unique(your_unique);"@,
            GetStorage::TrackingNotEnabled { name, id, tracking } => tracking@
                + " tracking is not enabled for "@ + storage_label_spec(name, id) + " storage."@,
            GetStorage::Custom(msg) => "Storage borrow failed with a custom error, "@ + msg@
                + "."@,
        }
    }

    /// Renders the error for diagnostics.
    pub fn message(&self) -> (r: String)
        ensures
            r@ == self.message_spec(),
    {
        match self {
            GetStorage::AllStoragesBorrow(borrow) => match borrow {
                Borrow::Unique => "Cannot borrow AllStorages while it's already mutably borrowed.".to_owned(),
                Borrow::Shared => "Cannot mutably borrow AllStorages while it's already borrowed (AllStorages is borrowed to access any storage).".to_owned(),
                _ => borrow.message(),
            },
            GetStorage::StorageBorrow { name, id, borrow } => borrowed_message(
                storage_label(name, *id),
                borrow,
            ),
            GetStorage::Entities(borrow) => borrowed_message("Entities".to_owned(), borrow),
            GetStorage::MissingStorage { name, id } => {
                let r = storage_label(name, *id).concat(
                    " storage was not found in the World. You can register unique storage with: world.add_unique(your_unique);",
                );
                proof {
                    assert(r@ =~= self.message_spec());
                }
                r
            },
            GetStorage::TrackingNotEnabled { name, id, tracking } => {
                let mut r = tracking.clone();
                r.append(" tracking is not enabled for ");
                r.append(storage_label(name, *id).as_str());
                r.append(" storage.");
                proof {
                    assert(r@ =~= self.message_spec());
                }
                r
            },
            GetStorage::Custom(msg) => {
                let mut r = "Storage borrow failed with a custom error, ".to_owned();
                r.append(msg.as_str());
                r.append(".");
                proof {
                    assert(r@ =~= self.message_spec());
                }
                r
            },
        }
    }
}

impl PartialEq for GetStorage {
    fn eq(&self, other: &GetStorage) -> (r: bool) {
        match (self, other) {
            (GetStorage::AllStoragesBorrow(l0), GetStorage::AllStoragesBorrow(r0)) => l0 == r0,
            (
                GetStorage::StorageBorrow { name: l_name, id: l_id, borrow: l_borrow },
                GetStorage::StorageBorrow { name: r_name, id: r_id, borrow: r_borrow },
            ) => opt_name_eq_exec(l_name, r_name) && l_id == r_id && l_borrow == r_borrow,
            (GetStorage::Entities(l0), GetStorage::Entities(r0)) => l0 == r0,
            (
                GetStorage::MissingStorage { name: l_name, id: l_id },
                GetStorage::MissingStorage { name: r_name, id: r_id },
            ) => opt_name_eq_exec(l_name, r_name) && l_id == r_id,
            (
                GetStorage::TrackingNotEnabled { name: l_name, id: l_id, tracking: l_tracking },
                GetStorage::TrackingNotEnabled { name: r_name, id: r_id, tracking: r_tracking },
            ) => opt_name_eq_exec(l_name, r_name) && l_id == r_id && *l_tracking == *r_tracking,
            _ => false,
        }
    }
}

impl GetStorage {
    /// Whether the two errors carry the same information; custom reports
    /// never compare equal.
    pub open spec fn same_error(self, other: GetStorage) -> bool {
        match (self, other) {
            (GetStorage::AllStoragesBorrow(l0), GetStorage::AllStoragesBorrow(r0)) => l0 == r0,
            (
                GetStorage::StorageBorrow { name: l_name, id: l_id, borrow: l_borrow },
                GetStorage::StorageBorrow { name: r_name, id: r_id, borrow: r_borrow },
            ) => opt_name_eq(l_name, r_name) && l_id == r_id && l_borrow == r_borrow,
            (GetStorage::Entities(l0), GetStorage::Entities(r0)) => l0 == r0,
            (
                GetStorage::MissingStorage { name: l_name, id: l_id },
                GetStorage::MissingStorage { name: r_name, id: r_id },
            ) => opt_name_eq(l_name, r_name) && l_id == r_id,
            (
                GetStorage::TrackingNotEnabled { name: l_name, id: l_id, tracking: l_tracking },
                GetStorage::TrackingNotEnabled { name: r_name, id: r_id, tracking: r_tracking },
            ) => opt_name_eq(l_name, r_name) && l_id == r_id && l_tracking@ == r_tracking@,
            _ => false,
        }
    }
}

impl vstd::std_specs::cmp::PartialEqSpecImpl for GetStorage {
    open spec fn obeys_eq_spec() -> bool {
        true
    }

    open spec fn eq_spec(&self, other: &GetStorage) -> bool {
        self.same_error(*other)
    }
}

impl Eq for GetStorage {

}

/// Error related to adding an entity.
#[derive(Clone, Copy, PartialEq, Eq, Structural, Debug)]
pub enum NewEntity {
    /// The whole-registry guard was already taken.
    AllStoragesBorrow(Borrow),
    /// The entities storage was already borrowed.
    Entities(Borrow),
}

impl NewEntity {
    /// The diagnostic message for this error.
    pub open spec fn message_spec(self) -> Seq<char> {
        match self {
            NewEntity::AllStoragesBorrow(borrow) => match borrow {
                Borrow::Unique => "Cannot borrow all storages while it's already mutably borrowed."@,
                Borrow::Shared => "Cannot mutably borrow all storages while it's already borrowed (this includes component storage)."@,
                _ => borrow.message_spec(),
            },
            NewEntity::Entities(borrow) => match borrow {
                Borrow::Unique => "Cannot borrow entities while it's already mutably borrowed."@,
                Borrow::Shared => "Cannot mutably borrow entities while it's already borrowed."@,
                _ => borrow.message_spec(),
            },
        }
    }

    /// Renders the error for diagnostics.
    pub fn message(&self) -> (r: String)
        ensures
            r@ == self.message_spec(),
    {
        match self {
            NewEntity::AllStoragesBorrow(borrow) => match borrow {
                Borrow::Unique => "Cannot borrow all storages while it's already mutably borrowed.".to_owned(),
                Borrow::Shared => "Cannot mutably borrow all storages while it's already borrowed (this includes component storage).".to_owned(),
                _ => borrow.message(),
            },
            NewEntity::Entities(borrow) => match borrow {
                Borrow::Unique => "Cannot borrow entities while it's already mutably borrowed.".to_owned(),
                Borrow::Shared => "Cannot mutably borrow entities while it's already borrowed.".to_owned(),
                _ => borrow.message(),
            },
        }
    }
}

/// Returned when trying to add components to an entity that is not alive.
#[derive(Clone, Copy, PartialEq, Eq, Structural, Debug)]
pub enum AddComponent {
    /// The target entity is not alive.
    EntityIsNotAlive,
}

impl AddComponent {
    /// The diagnostic message for this error.
    pub open spec fn message_spec(self) -> Seq<char> {
        "Entity has to be alive to add component to it."@
    }

    /// Renders the error for diagnostics.
    pub fn message(&self) -> (r: String)
        ensures
            r@ == self.message_spec(),
    {
        "Entity has to be alive to add component to it.".to_owned()
    }
}

/// Error returned when running an ad-hoc task against the registry: an
/// invalid storage borrow, or the task's own report.
#[derive(Debug)]
pub enum Run {
    /// Failed to borrow one of the storages.
    GetStorage(GetStorage),
    /// Error reported by the task itself.
    Custom(String),
}

impl From<GetStorage> for Run {
    fn from(get_storage: GetStorage) -> (r: Run) {
        Run::GetStorage(get_storage)
    }
}

impl vstd::std_specs::convert::FromSpecImpl<GetStorage> for Run {
    open spec fn obeys_from_spec() -> bool {
        true
    }

    open spec fn from_spec(get_storage: GetStorage) -> Run {
        Run::GetStorage(get_storage)
    }
}

impl Run {
    /// Wraps a task's own error report.
    pub fn from_custom(error: String) -> (r: Run)
        ensures
            r == Run::Custom(error),
    {
        Run::Custom(error)
    }

    /// The diagnostic message for this error.
    pub open spec fn message_spec(self) -> Seq<char> {
        match self {
            Run::GetStorage(get_storage) => get_storage.message_spec(),
            Run::Custom(msg) => "run failed with a custom error, "@ + msg@ + "."@,
        }
    }

    /// Renders the error for diagnostics.
    pub fn message(&self) -> (r: String)
        ensures
            r@ == self.message_spec(),
    {
        match self {
            Run::GetStorage(get_storage) => get_storage.message(),
            Run::Custom(msg) => {
                let mut r = "run failed with a custom error, ".to_owned();
                r.append(msg.as_str());
                r.append(".");
                proof {
                    assert(r@ =~= self.message_spec());
                }
                r
            },
        }
    }
}

impl PartialEq for Run {
    fn eq(&self, other: &Run) -> (r: bool) {
        match (self, other) {
            (Run::GetStorage(l_get_storage), Run::GetStorage(r_get_storage)) => l_get_storage
                == r_get_storage,
            _ => false,
        }
    }
}

impl Run {
    /// Whether the two errors carry the same information; custom reports
    /// never compare equal.
    pub open spec fn same_error(self, other: Run) -> bool {
        match (self, other) {
            (Run::GetStorage(l_get_storage), Run::GetStorage(r_get_storage)) => l_get_storage.same_error(
                r_get_storage,
            ),
            _ => false,
        }
    }
}

impl vstd::std_specs::cmp::PartialEqSpecImpl for Run {
    open spec fn obeys_eq_spec() -> bool {
        true
    }

    open spec fn eq_spec(&self, other: &Run) -> bool {
        self.same_error(*other)
    }
}

/// Returned when an entity does not have a component in the requested
/// storage.
#[derive(Debug)]
pub struct MissingComponent {
    /// `EntityId` of the component.
    pub id: EntityId,
    /// Name of the component.
    pub name: String,
}

impl MissingComponent {
    /// The diagnostic message for this error.
    pub open spec fn message_spec(self) -> Seq<char> {
        self.id.label_spec() + " does not have a "@ + self.name@ + " component."@
    }

    /// Renders the error for diagnostics.
    pub fn message(&self) -> (r: String)
        ensures
            r@ == self.message_spec(),
    {
        let mut r = self.id.label();
        r.append(" does not have a ");
        r.append(self.name.as_str());
        r.append(" component.");
        proof {
            assert(r@ =~= self.message_spec());
        }
        r
    }
}

impl Clone for MissingComponent {
    fn clone(&self) -> (r: Self)
        ensures
            r.id == self.id,
            r.name@ == self.name@,
    {
        MissingComponent { id: self.id, name: self.name.clone() }
    }
}

impl PartialEq for MissingComponent {
    fn eq(&self, other: &MissingComponent) -> (r: bool) {
        self.id == other.id && self.name == other.name
    }
}

impl MissingComponent {
    /// Whether the two errors carry the same information.
    pub open spec fn same_error(self, other: MissingComponent) -> bool {
        self.id == other.id && self.name@ == other.name@
    }
}

impl vstd::std_specs::cmp::PartialEqSpecImpl for MissingComponent {
    open spec fn obeys_eq_spec() -> bool {
        true
    }

    open spec fn eq_spec(&self, other: &MissingComponent) -> bool {
        self.same_error(*other)
    }
}

impl Eq for MissingComponent {

}

/// Returned when trying to add an invalid system to a workload.
#[derive(Debug)]
pub enum InvalidSystem {
    /// The whole registry requested alongside an individual storage.
    AllStorages,
    /// Multiple accesses to the same storage including an exclusive one.
    MultipleViews,
    /// Multiple exclusive accesses to the same storage.
    MultipleViewsMut,
    /// A compiled workload was used where a single system was expected.
    WorkloadUsedAsSystem(String),
}

impl InvalidSystem {
    /// The diagnostic message for this error.
    pub open spec fn message_spec(self) -> Seq<char> {
        match self {
            InvalidSystem::AllStorages => "A system borrowing both AllStorages and a storage can't run. You can borrow the storage inside the system with AllStorages::borrow or AllStorages::run instead."@,
            InvalidSystem::MultipleViews => "Multiple views of the same storage including an exclusive borrow, consider removing the shared borrow."@,
            InvalidSystem::MultipleViewsMut => "Multiple exclusive views of the same storage, consider removing one."@,
            InvalidSystem::WorkloadUsedAsSystem(system_name) => "Workload used as a system, you should call it `"@
                + system_name@ + "()`."@,
        }
    }

    /// Renders the error for diagnostics.
    pub fn message(&self) -> (r: String)
        ensures
            r@ == self.message_spec(),
    {
        match self {
            InvalidSystem::AllStorages => "A system borrowing both AllStorages and a storage can't run. You can borrow the storage inside the system with AllStorages::borrow or AllStorages::run instead.".to_owned(),
            InvalidSystem::MultipleViews => "Multiple views of the same storage including an exclusive borrow, consider removing the shared borrow.".to_owned(),
            InvalidSystem::MultipleViewsMut => "Multiple exclusive views of the same storage, consider removing one.".to_owned(),
            InvalidSystem::WorkloadUsedAsSystem(system_name) => {
                let mut r = "Workload used as a system, you should call it `".to_owned();
                r.append(system_name.as_str());
                r.append("()`.");
                proof {
                    assert(r@ =~= self.message_spec());
                }
                r
            },
        }
    }
}

impl Clone for InvalidSystem {
    fn clone(&self) -> (r: Self)
        ensures
            r.same_error(*self),
    {
        match self {
            InvalidSystem::AllStorages => InvalidSystem::AllStorages,
            InvalidSystem::MultipleViews => InvalidSystem::MultipleViews,
            InvalidSystem::MultipleViewsMut => InvalidSystem::MultipleViewsMut,
            InvalidSystem::WorkloadUsedAsSystem(system_name) => InvalidSystem::WorkloadUsedAsSystem(
                system_name.clone(),
            ),
        }
    }
}

impl PartialEq for InvalidSystem {
    fn eq(&self, other: &InvalidSystem) -> (r: bool) {
        match (self, other) {
            (InvalidSystem::AllStorages, InvalidSystem::AllStorages) => true,
            (InvalidSystem::MultipleViews, InvalidSystem::MultipleViews) => true,
            (InvalidSystem::MultipleViewsMut, InvalidSystem::MultipleViewsMut) => true,
            (
                InvalidSystem::WorkloadUsedAsSystem(l0),
                InvalidSystem::WorkloadUsedAsSystem(r0),
            ) => *l0 == *r0,
            _ => false,
        }
    }
}

impl InvalidSystem {
    /// Whether the two errors carry the same information.
    pub open spec fn same_error(self, other: InvalidSystem) -> bool {
        match (self, other) {
            (InvalidSystem::AllStorages, InvalidSystem::AllStorages) => true,
            (InvalidSystem::MultipleViews, InvalidSystem::MultipleViews) => true,
            (InvalidSystem::MultipleViewsMut, InvalidSystem::MultipleViewsMut) => true,
            (
                InvalidSystem::WorkloadUsedAsSystem(l0),
                InvalidSystem::WorkloadUsedAsSystem(r0),
            ) => l0@ == r0@,
            _ => false,
        }
    }
}

impl vstd::std_specs::cmp::PartialEqSpecImpl for InvalidSystem {
    open spec fn obeys_eq_spec() -> bool {
        true
    }

    open spec fn eq_spec(&self, other: &InvalidSystem) -> bool {
        self.same_error(*other)
    }
}

impl Eq for InvalidSystem {

}

/// Error returned when removing a unique storage.
#[derive(Debug)]
pub enum UniqueRemove {
    /// The whole-registry guard was already taken.
    AllStorages,
    /// No unique storage of this kind exists.
    MissingUnique(String),
    /// The unique storage is already borrowed.
    StorageBorrow((String, Borrow)),
}

impl UniqueRemove {
    /// The diagnostic message for this error.
    pub open spec fn message_spec(self) -> Seq<char> {
        match self {
            UniqueRemove::AllStorages => "Cannot borrow AllStorages while it's already exclusively borrowed."@,
            UniqueRemove::MissingUnique(name) => "No unique storage exists for "@ + name@ + ".\n"@,
            UniqueRemove::StorageBorrow((name, borrow)) => borrowed_message_spec(name@, borrow),
        }
    }

    /// Renders the error for diagnostics.
    pub fn message(&self) -> (r: String)
        ensures
            r@ == self.message_spec(),
    {
        match self {
            UniqueRemove::AllStorages => "Cannot borrow AllStorages while it's already exclusively borrowed.".to_owned(),
            UniqueRemove::MissingUnique(name) => {
                let mut r = "No unique storage exists for ".to_owned();
                r.append(name.as_str());
                r.append(".\n");
                proof {
                    assert(r@ =~= self.message_spec());
                }
                r
            },
            UniqueRemove::StorageBorrow((name, borrow)) => borrowed_message(name.clone(), borrow),
        }
    }
}

impl Clone for UniqueRemove {
    fn clone(&self) -> (r: Self)
        ensures
            r.same_error(*self),
    {
        match self {
            UniqueRemove::AllStorages => UniqueRemove::AllStorages,
            UniqueRemove::MissingUnique(name) => UniqueRemove::MissingUnique(name.clone()),
            UniqueRemove::StorageBorrow((name, borrow)) => UniqueRemove::StorageBorrow(
                (name.clone(), *borrow),
            ),
        }
    }
}

impl PartialEq for UniqueRemove {
    fn eq(&self, other: &UniqueRemove) -> (r: bool) {
        match (self, other) {
            (UniqueRemove::AllStorages, UniqueRemove::AllStorages) => true,
            (UniqueRemove::MissingUnique(l0), UniqueRemove::MissingUnique(r0)) => *l0 == *r0,
            (
                UniqueRemove::StorageBorrow((l_name, l_borrow)),
                UniqueRemove::StorageBorrow((r_name, r_borrow)),
            ) => *l_name == *r_name && l_borrow == r_borrow,
            _ => false,
        }
    }
}

impl UniqueRemove {
    /// Whether the two errors carry the same information.
    pub open spec fn same_error(self, other: UniqueRemove) -> bool {
        match (self, other) {
            (UniqueRemove::AllStorages, UniqueRemove::AllStorages) => true,
            (UniqueRemove::MissingUnique(l0), UniqueRemove::MissingUnique(r0)) => l0@ == r0@,
            (
                UniqueRemove::StorageBorrow((l_name, l_borrow)),
                UniqueRemove::StorageBorrow((r_name, r_borrow)),
            ) => l_name@ == r_name@ && l_borrow == r_borrow,
            _ => false,
        }
    }
}

impl vstd::std_specs::cmp::PartialEqSpecImpl for UniqueRemove {
    open spec fn obeys_eq_spec() -> bool {
        true
    }

    open spec fn eq_spec(&self, other: &UniqueRemove) -> bool {
        self.same_error(*other)
    }
}

impl Eq for UniqueRemove {

}

/// Error returned when applying an operation to two components of one
/// storage.
#[derive(Clone, Copy, PartialEq, Eq, Structural, Debug)]
pub enum Apply {
    /// The two identifiers are the same.
    IdenticalIds,
    /// An entity does not have the required component.
    MissingComponent(EntityId),
}

impl Apply {
    /// The diagnostic message for this error.
    pub open spec fn message_spec(self) -> Seq<char> {
        match self {
            Apply::IdenticalIds => "Cannot use apply with identical components."@,
            Apply::MissingComponent(id) => "Entity "@ + id.label_spec()
                + " does not have any component in this storage."@,
        }
    }

    /// Renders the error for diagnostics.
    pub fn message(&self) -> (r: String)
        ensures
            r@ == self.message_spec(),
    {
        match self {
            Apply::IdenticalIds => "Cannot use apply with identical components.".to_owned(),
            Apply::MissingComponent(id) => {
                let mut r = "Entity ".to_owned();
                r.append(id.label().as_str());
                r.append(" does not have any component in this storage.");
                proof {
                    assert(r@ =~= self.message_spec());
                }
                r
            },
        }
    }
}

/// Returned when trying to create views for custom storages.
#[derive(Debug)]
pub enum CustomStorageView {
    /// The storage could not be acquired.
    GetStorage(GetStorage),
    /// The custom storage has another type than the requested one.
    WrongType(String),
}

impl From<GetStorage> for CustomStorageView {
    fn from(get_storage: GetStorage) -> (r: CustomStorageView) {
        CustomStorageView::GetStorage(get_storage)
    }
}

impl vstd::std_specs::convert::FromSpecImpl<GetStorage> for CustomStorageView {
    open spec fn obeys_from_spec() -> bool {
        true
    }

    open spec fn from_spec(get_storage: GetStorage) -> CustomStorageView {
        CustomStorageView::GetStorage(get_storage)
    }
}

impl CustomStorageView {
    /// The diagnostic message for this error.
    pub open spec fn message_spec(self) -> Seq<char> {
        match self {
            CustomStorageView::GetStorage(get_storage) => get_storage.message_spec(),
            CustomStorageView::WrongType(name) => "Cannot convert, custom storage is of type: \""@
                + name@ + "\""@,
        }
    }

    /// Renders the error for diagnostics.
    pub fn message(&self) -> (r: String)
        ensures
            r@ == self.message_spec(),
    {
        match self {
            CustomStorageView::GetStorage(get_storage) => get_storage.message(),
            CustomStorageView::WrongType(name) => {
                let mut r = "Cannot convert, custom storage is of type: \"".to_owned();
                r.append(name.as_str());
                r.append("\"");
                proof {
                    assert(r@ =~= self.message_spec());
                }
                r
            },
        }
    }
}

/// Returned when reading one entity's component from a storage.
#[derive(Debug)]
pub enum GetComponent {
    /// The storage could not be acquired.
    StorageBorrow(GetStorage),
    /// The entity has no component in the storage.
    MissingComponent(MissingComponent),
}

impl From<GetStorage> for GetComponent {
    fn from(get_storage: GetStorage) -> (r: GetComponent) {
        GetComponent::StorageBorrow(get_storage)
    }
}

impl vstd::std_specs::convert::FromSpecImpl<GetStorage> for GetComponent {
    open spec fn obeys_from_spec() -> bool {
        true
    }

    open spec fn from_spec(get_storage: GetStorage) -> GetComponent {
        GetComponent::StorageBorrow(get_storage)
    }
}

impl From<MissingComponent> for GetComponent {
    fn from(missing_component: MissingComponent) -> (r: GetComponent) {
        GetComponent::MissingComponent(missing_component)
    }
}

impl vstd::std_specs::convert::FromSpecImpl<MissingComponent> for GetComponent {
    open spec fn obeys_from_spec() -> bool {
        true
    }

    open spec fn from_spec(missing_component: MissingComponent) -> GetComponent {
        GetComponent::MissingComponent(missing_component)
    }
}

impl GetComponent {
    /// The diagnostic message for this error.
    pub open spec fn message_spec(self) -> Seq<char> {
        match self {
            GetComponent::StorageBorrow(err) => err.message_spec(),
            GetComponent::MissingComponent(err) => err.message_spec(),
        }
    }

    /// Renders the error for diagnostics.
    pub fn message(&self) -> (r: String)
        ensures
            r@ == self.message_spec(),
    {
        match self {
            GetComponent::StorageBorrow(err) => err.message(),
            GetComponent::MissingComponent(err) => err.message(),
        }
    }
}

impl PartialEq for GetComponent {
    fn eq(&self, other: &GetComponent) -> (r: bool) {
        match (self, other) {
            (GetComponent::StorageBorrow(l0), GetComponent::StorageBorrow(r0)) => l0 == r0,
            (GetComponent::MissingComponent(l0), GetComponent::MissingComponent(r0)) => l0 == r0,
            _ => false,
        }
    }
}

impl GetComponent {
    /// Whether the two errors carry the same information.
    pub open spec fn same_error(self, other: GetComponent) -> bool {
        match (self, other) {
            (GetComponent::StorageBorrow(l0), GetComponent::StorageBorrow(r0)) => l0.same_error(r0),
            (GetComponent::MissingComponent(l0), GetComponent::MissingComponent(r0)) => l0.same_error(
                r0,
            ),
            _ => false,
        }
    }
}

impl vstd::std_specs::cmp::PartialEqSpecImpl for GetComponent {
    open spec fn obeys_eq_spec() -> bool {
        true
    }

    open spec fn eq_spec(&self, other: &GetComponent) -> bool {
        self.same_error(*other)
    }
}

/// Error returned when running a compiled workload.
#[derive(Debug)]
pub enum RunWorkload {
    /// The scheduler itself could not be borrowed.
    Scheduler(Borrow),
    /// No workload with this name is registered.
    MissingWorkload,
    /// A system, or its run-condition, failed; the label says which one.
    Run((String, Run)),
}

impl RunWorkload {
    /// The diagnostic message for this error.
    pub open spec fn message_spec(self) -> Seq<char> {
        match self {
            RunWorkload::Scheduler(borrow) => "Cannot borrow the scheduler: "@
                + borrow.message_spec(),
            RunWorkload::MissingWorkload => "No workload with this name is registered."@,
            RunWorkload::Run((name, err)) => "System "@ + name@ + " failed: "@
                + err.message_spec(),
        }
    }

    /// Renders the error for diagnostics.
    pub fn message(&self) -> (r: String)
        ensures
            r@ == self.message_spec(),
    {
        match self {
            RunWorkload::Scheduler(borrow) => {
                let mut r = "Cannot borrow the scheduler: ".to_owned();
                r.append(borrow.message().as_str());
                proof {
                    assert(r@ =~= self.message_spec());
                }
                r
            },
            RunWorkload::MissingWorkload => "No workload with this name is registered.".to_owned(),
            RunWorkload::Run((name, err)) => {
                let mut r = "System ".to_owned();
                r.append(name.as_str());
                r.append(" failed: ");
                r.append(err.message().as_str());
                proof {
                    assert(r@ =~= self.message_spec());
                }
                r
            },
        }
    }
}

impl PartialEq for RunWorkload {
    fn eq(&self, other: &RunWorkload) -> (r: bool) {
        match (self, other) {
            (RunWorkload::Scheduler(l0), RunWorkload::Scheduler(r0)) => l0 == r0,
            (RunWorkload::MissingWorkload, RunWorkload::MissingWorkload) => true,
            (RunWorkload::Run((l_name, l_err)), RunWorkload::Run((r_name, r_err))) => *l_name
                == *r_name && *l_err == *r_err,
            _ => false,
        }
    }
}

impl RunWorkload {
    /// Whether the two errors carry the same information.
    pub open spec fn same_error(self, other: RunWorkload) -> bool {
        match (self, other) {
            (RunWorkload::Scheduler(l0), RunWorkload::Scheduler(r0)) => l0 == r0,
            (RunWorkload::MissingWorkload, RunWorkload::MissingWorkload) => true,
            (RunWorkload::Run((l_name, l_err)), RunWorkload::Run((r_name, r_err))) => l_name@
                == r_name@ && l_err.same_error(r_err),
            _ => false,
        }
    }
}

impl vstd::std_specs::cmp::PartialEqSpecImpl for RunWorkload {
    open spec fn obeys_eq_spec() -> bool {
        true
    }

    open spec fn eq_spec(&self, other: &RunWorkload) -> bool {
        self.same_error(*other)
    }
}

} // verus!
