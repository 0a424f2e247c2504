//! The pool registry state machine: pools partitioned into Active, Locked
//! and Stopped, with every pool UUID and every pool name in exactly one
//! partition, and atomic moves between partitions.

use vstd::prelude::*;

use crate::capacity::{FS_LOGICAL_SIZE_MAX, FS_LOGICAL_SIZE_MIN};
use crate::errors::{ConflictCause, StratisError, ValidationCause};
use crate::pool::{
    check_enc_info_eqv, check_paths_unique, check_same_device_paths, clevis_eqv, contains_path,
    enc_info_eqv, has_path, key_desc_eqv, paths_unique, same_device_paths, sum_dev_sectors,
    BlockDev, BlockDevTier, EncryptionInfo, Filesystem, Pool, PoolIdentifier, PoolUuid,
    UnlockMethod,
};
use crate::units::{Bytes, Sectors, SECTOR_SIZE, SECTORS_LIMIT};

verus! {

/// Outcome of creating something: a genuine creation or an idempotent
/// repeat of an earlier one.
#[derive(Clone, Copy, Debug, PartialEq, Eq, Structural)]
pub enum CreateAction {
    Created(PoolUuid),
    Identity,
}

impl CreateAction {
    /// True when the operation changed the registry.
    pub fn is_changed(&self) -> (r: bool)
        ensures
            r == (self is Created),
    {
        match self {
            CreateAction::Created(_) => true,
            CreateAction::Identity => false,
        }
    }
}

/// Outcome of a rename: a genuine change of name or an idempotent repeat.
#[derive(Clone, Copy, Debug, PartialEq, Eq, Structural)]
pub enum RenameAction {
    Renamed,
    Identity,
}

impl RenameAction {
    /// True when the operation changed the registry.
    pub fn is_changed(&self) -> (r: bool)
        ensures
            r == (self is Renamed),
    {
        match self {
            RenameAction::Renamed => true,
            RenameAction::Identity => false,
        }
    }
}

/// Outcome of a mutating operation: a genuine state change or an
/// idempotent repeat.
#[derive(Clone, Copy, Debug, PartialEq, Eq, Structural)]
pub enum ChangedAction {
    Changed,
    Identity,
}

impl ChangedAction {
    /// True when the operation changed the registry.
    pub fn is_changed(&self) -> (r: bool)
        ensures
            r == (self is Changed),
    {
        match self {
            ChangedAction::Changed => true,
            ChangedAction::Identity => false,
        }
    }
}

/// One registered pool: its UUID and its state.
#[derive(Clone, Debug, PartialEq, Eq)]
pub struct RegistryEntry {
    pub uuid: PoolUuid,
    pub pool: Pool,
}

/// No two entries of `s` carry the same UUID.
pub open spec fn uuids_unique(s: Seq<RegistryEntry>) -> bool {
    forall|i: int, j: int|
        0 <= i < s.len() && 0 <= j < s.len() && i != j
            ==> (#[trigger] s[i]).uuid != (#[trigger] s[j]).uuid
}

/// No two entries of `s` carry the same pool name.
pub open spec fn names_unique(s: Seq<RegistryEntry>) -> bool {
    forall|i: int, j: int|
        0 <= i < s.len() && 0 <= j < s.len() && i != j
            ==> (#[trigger] s[i]).pool.name@ != (#[trigger] s[j]).pool.name@
}

/// No UUID occurs in both `a` and `b`.
pub open spec fn disjoint_uuids(a: Seq<RegistryEntry>, b: Seq<RegistryEntry>) -> bool {
    forall|i: int, j: int|
        0 <= i < a.len() && 0 <= j < b.len()
            ==> (#[trigger] a[i]).uuid != (#[trigger] b[j]).uuid
}

/// No pool name occurs in both `a` and `b`.
pub open spec fn disjoint_names(a: Seq<RegistryEntry>, b: Seq<RegistryEntry>) -> bool {
    forall|i: int, j: int|
        0 <= i < a.len() && 0 <= j < b.len()
            ==> (#[trigger] a[i]).pool.name@ != (#[trigger] b[j]).pool.name@
}

/// Every pool of `s` is well-formed.
pub open spec fn pools_wf(s: Seq<RegistryEntry>) -> bool {
    forall|i: int| 0 <= i < s.len() ==> (#[trigger] s[i]).pool.wf()
}

/// Some entry of `s` carries the UUID `u`.
pub open spec fn has_uuid(s: Seq<RegistryEntry>, u: PoolUuid) -> bool {
    exists|i: int| 0 <= i < s.len() && (#[trigger] s[i]).uuid == u
}

/// Some entry of `s` carries the pool name `n`.
pub open spec fn has_name(s: Seq<RegistryEntry>, n: Seq<char>) -> bool {
    exists|i: int| 0 <= i < s.len() && (#[trigger] s[i]).pool.name@ == n
}

/// The entry of `s` carrying the UUID `u`; meaningful under `has_uuid`.
pub open spec fn entry_by_uuid(s: Seq<RegistryEntry>, u: PoolUuid) -> RegistryEntry {
    s[choose|i: int| 0 <= i < s.len() && (#[trigger] s[i]).uuid == u]
}

/// The entry `e` answers to the identifier `id`.
pub open spec fn id_matches(e: RegistryEntry, id: PoolIdentifier) -> bool {
    match id {
        PoolIdentifier::Uuid(u) => e.uuid == u,
        PoolIdentifier::Name(n) => e.pool.name@ == n@,
    }
}

/// Some entry of `s` answers to the identifier `id`.
pub open spec fn has_id(s: Seq<RegistryEntry>, id: PoolIdentifier) -> bool {
    exists|i: int| 0 <= i < s.len() && id_matches(#[trigger] s[i], id)
}

/// The entry of `s` answering to `id`; meaningful under `has_id`.
pub open spec fn entry_by_id(s: Seq<RegistryEntry>, id: PoolIdentifier) -> RegistryEntry {
    s[choose|i: int| 0 <= i < s.len() && id_matches(#[trigger] s[i], id)]
}

/// The registry: pools partitioned into Active (live), Locked (encrypted,
/// discovered on disk, key not yet available) and Stopped (deliberately
/// deactivated, metadata retained).
pub struct PoolRegistry {
    pub active: Vec<RegistryEntry>,
    pub locked: Vec<RegistryEntry>,
    pub stopped: Vec<RegistryEntry>,
}

impl PoolRegistry {
    /// The registry invariant: within and across the three partitions no
    /// UUID and no name occurs twice — a pool is in exactly one partition
    /// at any observable instant — every pool is well-formed, and every
    /// locked pool is encrypted.
    pub open spec fn wf(self) -> bool {
        &&& uuids_unique(self.active@)
        &&& uuids_unique(self.locked@)
        &&& uuids_unique(self.stopped@)
        &&& names_unique(self.active@)
        &&& names_unique(self.locked@)
        &&& names_unique(self.stopped@)
        &&& disjoint_uuids(self.active@, self.locked@)
        &&& disjoint_uuids(self.active@, self.stopped@)
        &&& disjoint_uuids(self.locked@, self.stopped@)
        &&& disjoint_names(self.active@, self.locked@)
        &&& disjoint_names(self.active@, self.stopped@)
        &&& disjoint_names(self.locked@, self.stopped@)
        &&& pools_wf(self.active@)
        &&& pools_wf(self.locked@)
        &&& pools_wf(self.stopped@)
        &&& (forall|i: int|
            0 <= i < self.locked@.len()
                ==> (#[trigger] self.locked@[i]).pool.encryption_info is Some)
    }

    /// The UUID `u` occurs somewhere in the registry.
    pub open spec fn knows_uuid(self, u: PoolUuid) -> bool {
        has_uuid(self.active@, u) || has_uuid(self.locked@, u) || has_uuid(self.stopped@, u)
    }

    /// The name `n` occurs somewhere in the registry.
    pub open spec fn knows_name(self, n: Seq<char>) -> bool {
        has_name(self.active@, n) || has_name(self.locked@, n) || has_name(self.stopped@, n)
    }

    /// An empty registry.
    pub fn new() -> (r: Self)
        ensures
            r.wf(),
            r.active@.len() == 0,
            r.locked@.len() == 0,
            r.stopped@.len() == 0,
    {
        PoolRegistry { active: Vec::new(), locked: Vec::new(), stopped: Vec::new() }
    }
}

/// The index of the entry of `v` carrying the UUID `u`, if any.
fn find_uuid_in(v: &Vec<RegistryEntry>, u: PoolUuid) -> (r: Option<usize>)
    ensures
        r matches Some(i) ==> 0 <= i < v@.len() && v@[i as int].uuid == u,
        r is Some <==> has_uuid(v@, u),
{
    let n = v.len();
    let mut i: usize = 0;
    while i < n
        invariant
            n == v@.len(),
            0 <= i <= n,
            forall|j: int| 0 <= j < i ==> (#[trigger] v@[j]).uuid != u,
        decreases n - i,
    {
        if v[i].uuid == u {
            return Some(i);
        }
        i = i + 1;
    }
    None
}

/// The index of the entry of `v` carrying the pool name `name`, if any.
fn find_name_in(v: &Vec<RegistryEntry>, name: &String) -> (r: Option<usize>)
    ensures
        r matches Some(i) ==> 0 <= i < v@.len() && v@[i as int].pool.name@ == name@,
        r is Some <==> has_name(v@, name@),
{
    let n = v.len();
    let mut i: usize = 0;
    while i < n
        invariant
            n == v@.len(),
            0 <= i <= n,
            forall|j: int| 0 <= j < i ==> (#[trigger] v@[j]).pool.name@ != name@,
        decreases n - i,
    {
        if v[i].pool.name == *name {
            return Some(i);
        }
        i = i + 1;
    }
    None
}

/// The index of the entry of `v` answering to `id`, if any.
fn find_id_in(v: &Vec<RegistryEntry>, id: &PoolIdentifier) -> (r: Option<usize>)
    ensures
        r matches Some(i) ==> 0 <= i < v@.len() && id_matches(v@[i as int], *id),
        r is Some <==> has_id(v@, *id),
{
    match id {
        PoolIdentifier::Uuid(u) => find_uuid_in(v, *u),
        PoolIdentifier::Name(n) => find_name_in(v, n),
    }
}

/// Combined whole-sector count of `devs`, or `None` when it exceeds what a
/// byte count can express.
fn checked_dev_sectors(devs: &Vec<BlockDev>) -> (r: Option<u128>)
    ensures
        r matches Some(t) ==> t == sum_dev_sectors(devs@) && t <= SECTORS_LIMIT,
        r is None <==> sum_dev_sectors(devs@) > SECTORS_LIMIT,
{
    proof {
        assert(devs@.take(0) =~= Seq::<BlockDev>::empty());
    }
    let n = devs.len();
    let mut acc: u128 = 0;
    let mut i: usize = 0;
    while i < n
        invariant
            n == devs@.len(),
            0 <= i <= n,
            acc == sum_dev_sectors(devs@.take(i as int)),
            acc <= SECTORS_LIMIT,
        decreases n - i,
    {
        let d = devs[i].size.0 / SECTOR_SIZE;
        proof {
            assert(devs@.take(i as int + 1).drop_last() =~= devs@.take(i as int));
            assert(devs@.take(i as int + 1).last() == devs@[i as int]);
        }
        if d > SECTORS_LIMIT - acc {
            proof {
                lemma_sum_dev_sectors_take_le(devs@, i as int + 1);
            }
            return None;
        }
        acc = acc + d;
        i = i + 1;
    }
    proof {
        assert(devs@.take(n as int) =~= devs@);
    }
    Some(acc)
}

proof fn lemma_sum_dev_sectors_nonneg(devs: Seq<BlockDev>)
    ensures
        sum_dev_sectors(devs) >= 0,
    decreases devs.len(),
{
    if devs.len() > 0 {
        lemma_sum_dev_sectors_nonneg(devs.drop_last());
    }
}

proof fn lemma_sum_dev_sectors_take_le(devs: Seq<BlockDev>, i: int)
    requires
        0 <= i <= devs.len(),
    ensures
        sum_dev_sectors(devs.take(i)) <= sum_dev_sectors(devs),
    decreases devs.len() - i,
{
    if i == devs.len() {
        assert(devs.take(i) =~= devs);
    } else {
        assert(devs.take(i + 1).drop_last() =~= devs.take(i));
        lemma_sum_dev_sectors_take_le(devs, i + 1);
    }
}

impl PoolRegistry {
    /// An active pool identical to the requested one already exists: same
    /// name, same set of device paths, same encryption settings.
    pub open spec fn create_identity_case(
        self,
        name: Seq<char>,
        devices: Seq<BlockDev>,
        enc: Option<EncryptionInfo>,
    ) -> bool {
        exists|i: int|
            0 <= i < self.active@.len() && {
                let e = #[trigger] self.active@[i];
                &&& e.pool.name@ == name
                &&& same_device_paths(e.pool.data_devices@, devices)
                &&& enc_info_eqv(e.pool.encryption_info, enc)
            }
    }

    /// What creating a pool returns, as a function of the registry and the
    /// request.
    pub open spec fn spec_create_outcome(
        self,
        uuid: PoolUuid,
        name: Seq<char>,
        devices: Seq<BlockDev>,
        enc: Option<EncryptionInfo>,
    ) -> Result<CreateAction, StratisError> {
        if self.create_identity_case(name, devices, enc) {
            Ok(CreateAction::Identity)
        } else if self.knows_name(name) {
            Err(StratisError::Conflict(ConflictCause::NameInUse))
        } else if self.knows_uuid(uuid) {
            Err(StratisError::Conflict(ConflictCause::UuidInUse))
        } else if devices.len() == 0 {
            Err(StratisError::Validation(ValidationCause::EmptyDeviceList))
        } else if !paths_unique(devices) {
            Err(StratisError::Validation(ValidationCause::DuplicateDevicePaths))
        } else if sum_dev_sectors(devices) > SECTORS_LIMIT {
            Err(StratisError::Validation(ValidationCause::TotalSizeOverflow))
        } else {
            Ok(CreateAction::Created(uuid))
        }
    }

    /// Create a pool over the given devices and insert it into the Active
    /// partition. Repeating a creation that already succeeded is reported
    /// as `Identity` and changes nothing; every failure changes nothing.
    #[verifier::loop_isolation(false)]
    pub fn create_pool(
        &mut self,
        uuid: PoolUuid,
        name: String,
        devices: Vec<BlockDev>,
        enc: Option<EncryptionInfo>,
    ) -> (r: Result<CreateAction, StratisError>)
        requires
            old(self).wf(),
        ensures
            final(self).wf(),
            r == old(self).spec_create_outcome(uuid, name@, devices@, enc),
            !(r == Ok::<CreateAction, StratisError>(CreateAction::Created(uuid)))
                ==> *final(self) == *old(self),
            r == Ok::<CreateAction, StratisError>(CreateAction::Created(uuid)) ==> {
                &&& final(self).active@.len() == old(self).active@.len() + 1
                &&& final(self).active@.drop_last() == old(self).active@
                &&& final(self).locked@ == old(self).locked@
                &&& final(self).stopped@ == old(self).stopped@
                &&& ({
                    let e = final(self).active@.last();
                    &&& e.uuid == uuid
                    &&& e.pool.name@ == name@
                    &&& e.pool.data_devices@ == devices@
                    &&& e.pool.cache_devices is None
                    &&& e.pool.filesystems@.len() == 0
                    &&& e.pool.encryption_info == enc
                    &&& e.pool.total_physical_size.0 == sum_dev_sectors(devices@)
                    &&& e.pool.total_physical_used is None
                })
            },
    {
        // Identity or name conflict, among the active pools first.
        match find_name_in(&self.active, &name) {
            Some(i) => {
                let e = &self.active[i];
                if check_same_device_paths(&e.pool.data_devices, &devices)
                    && check_enc_info_eqv(&e.pool.encryption_info, &enc) {
                    return Ok(CreateAction::Identity);
                }
                proof {
                    assert(!self.create_identity_case(name@, devices@, enc));
                }
                return Err(StratisError::Conflict(ConflictCause::NameInUse));
            },
            None => {
                proof {
                    assert(!self.create_identity_case(name@, devices@, enc));
                }
            },
        }
        if find_name_in(&self.locked, &name).is_some()
            || find_name_in(&self.stopped, &name).is_some() {
            return Err(StratisError::Conflict(ConflictCause::NameInUse));
        }
        if find_uuid_in(&self.active, uuid).is_some()
            || find_uuid_in(&self.locked, uuid).is_some()
            || find_uuid_in(&self.stopped, uuid).is_some() {
            return Err(StratisError::Conflict(ConflictCause::UuidInUse));
        }
        if devices.len() == 0 {
            return Err(StratisError::Validation(ValidationCause::EmptyDeviceList));
        }
        if !check_paths_unique(&devices) {
            return Err(StratisError::Validation(ValidationCause::DuplicateDevicePaths));
        }
        let total = match checked_dev_sectors(&devices) {
            Some(t) => t,
            None => {
                return Err(StratisError::Validation(ValidationCause::TotalSizeOverflow));
            },
        };
        let pool = Pool {
            name,
            data_devices: devices,
            cache_devices: None,
            filesystems: Vec::new(),
            encryption_info: enc,
            total_physical_size: Sectors(total),
            total_physical_used: None,
        };
        proof {
            assert(pool.all_devices() =~= pool.data_devices@);
        }
        let entry = RegistryEntry { uuid, pool };
        self.active.push(entry);
        proof {
            assert(self.active@.drop_last() =~= old(self).active@);
        }
        Ok(CreateAction::Created(uuid))
    }
}


/// Entries matching an identifier are unique in a well-formed partition.
proof fn lemma_id_unique(s: Seq<RegistryEntry>, id: PoolIdentifier, i: int)
    requires
        uuids_unique(s),
        names_unique(s),
        0 <= i < s.len(),
        id_matches(s[i], id),
    ensures
        has_id(s, id),
        entry_by_id(s, id) == s[i],
{
    assert(id_matches(s[i], id));
    assert(has_id(s, id));
    let j = choose|j: int| 0 <= j < s.len() && id_matches(#[trigger] s[j], id);
    if j != i {
        match id {
            PoolIdentifier::Uuid(u) => {
                assert(s[j].uuid == s[i].uuid);
                assert(false);
            },
            PoolIdentifier::Name(n) => {
                assert(s[j].pool.name@ == s[i].pool.name@);
                assert(false);
            },
        }
    }
}

/// Entries carrying a UUID are unique in a well-formed partition.
proof fn lemma_uuid_unique(s: Seq<RegistryEntry>, u: PoolUuid, i: int)
    requires
        uuids_unique(s),
        0 <= i < s.len(),
        s[i].uuid == u,
    ensures
        has_uuid(s, u),
        entry_by_uuid(s, u) == s[i],
{
    assert(has_uuid(s, u));
    let j = choose|j: int| 0 <= j < s.len() && (#[trigger] s[j]).uuid == u;
    if j != i {
        assert(false);
    }
}

/// The unlock request fits the pool's encryption settings: an unencrypted
/// pool takes no unlock method, an encrypted one takes a method whose
/// binding it carries.
pub open spec fn unlock_ok(enc: Option<EncryptionInfo>, m: Option<UnlockMethod>) -> bool {
    match enc {
        None => m is None,
        Some(ei) => match m {
            Some(UnlockMethod::Keyring) => ei.key_description is Some,
            Some(UnlockMethod::Clevis) => ei.clevis_info is Some,
            None => false,
        },
    }
}

/// True when the unlock request fits the encryption settings.
fn check_unlock_ok(enc: &Option<EncryptionInfo>, m: Option<UnlockMethod>) -> (r: bool)
    ensures
        r == unlock_ok(*enc, m),
{
    match enc {
        None => m.is_none(),
        Some(ei) => match m {
            Some(UnlockMethod::Keyring) => ei.key_description.is_some(),
            Some(UnlockMethod::Clevis) => ei.clevis_info.is_some(),
            None => false,
        },
    }
}

impl PoolRegistry {
    /// What stopping a pool returns, as a function of the registry.
    pub open spec fn spec_stop_outcome(self, uuid: PoolUuid) -> Result<ChangedAction,
        StratisError> {
        if has_uuid(self.active@, uuid) {
            Ok(ChangedAction::Changed)
        } else if has_uuid(self.stopped@, uuid) {
            Ok(ChangedAction::Identity)
        } else if has_uuid(self.locked@, uuid) {
            Err(StratisError::Conflict(ConflictCause::PoolNotActive))
        } else {
            Err(StratisError::NotFound)
        }
    }

    /// Deactivate a pool: move it from Active to Stopped in one atomic
    /// step, retaining its metadata unchanged. Stopping an already stopped
    /// pool is `Identity`.
    pub fn stop_pool(&mut self, uuid: PoolUuid) -> (r: Result<ChangedAction, StratisError>)
        requires
            old(self).wf(),
        ensures
            final(self).wf(),
            r == old(self).spec_stop_outcome(uuid),
            !(r == Ok::<ChangedAction, StratisError>(ChangedAction::Changed))
                ==> *final(self) == *old(self),
            r == Ok::<ChangedAction, StratisError>(ChangedAction::Changed) ==> exists|i: int|
                0 <= i < old(self).active@.len()
                && (#[trigger] old(self).active@[i]).uuid == uuid
                && final(self).active@ == old(self).active@.remove(i)
                && final(self).stopped@ == old(self).stopped@.push(old(self).active@[i])
                && final(self).locked@ == old(self).locked@,
    {
        match find_uuid_in(&self.active, uuid) {
            Some(i) => {
                let e = self.active.remove(i);
                self.stopped.push(e);
                proof {
                    old(self).active@.remove_ensures(i as int);
                    let ghost na = self.active@;
                    let ghost oa = old(self).active@;
                    assert(forall|k: int| 0 <= k < na.len()
                        ==> #[trigger] na[k] == (if k < i { oa[k] } else { oa[k + 1] }));
                }
                Ok(ChangedAction::Changed)
            },
            None => {
                if find_uuid_in(&self.stopped, uuid).is_some() {
                    Ok(ChangedAction::Identity)
                } else if find_uuid_in(&self.locked, uuid).is_some() {
                    Err(StratisError::Conflict(ConflictCause::PoolNotActive))
                } else {
                    Err(StratisError::NotFound)
                }
            },
        }
    }

    /// What starting a pool returns, as a function of the registry.
    pub open spec fn spec_start_outcome(self, id: PoolIdentifier, m: Option<UnlockMethod>)
        -> Result<ChangedAction, StratisError> {
        if has_id(self.active@, id) {
            Ok(ChangedAction::Identity)
        } else if has_id(self.stopped@, id) {
            if unlock_ok(entry_by_id(self.stopped@, id).pool.encryption_info, m) {
                Ok(ChangedAction::Changed)
            } else {
                Err(StratisError::Conflict(ConflictCause::UnlockMismatch))
            }
        } else if has_id(self.locked@, id) {
            if unlock_ok(entry_by_id(self.locked@, id).pool.encryption_info, m) {
                Ok(ChangedAction::Changed)
            } else {
                Err(StratisError::Conflict(ConflictCause::UnlockMismatch))
            }
        } else {
            Err(StratisError::NotFound)
        }
    }

    /// Start a pool: move it from Stopped or Locked to Active in one
    /// atomic step. An encrypted pool is unlocked first; an unlock request
    /// that does not fit the pool's bindings aborts the transition.
    /// Starting an already active pool is `Identity`.
    pub fn start_pool(&mut self, id: &PoolIdentifier, unlock_method: Option<UnlockMethod>)
        -> (r: Result<ChangedAction, StratisError>)
        requires
            old(self).wf(),
        ensures
            final(self).wf(),
            r == old(self).spec_start_outcome(*id, unlock_method),
            !(r == Ok::<ChangedAction, StratisError>(ChangedAction::Changed))
                ==> *final(self) == *old(self),
            r == Ok::<ChangedAction, StratisError>(ChangedAction::Changed)
                && has_id(old(self).stopped@, *id) ==> exists|i: int|
                0 <= i < old(self).stopped@.len()
                && id_matches(#[trigger] old(self).stopped@[i], *id)
                && final(self).stopped@ == old(self).stopped@.remove(i)
                && final(self).active@ == old(self).active@.push(old(self).stopped@[i])
                && final(self).locked@ == old(self).locked@,
            r == Ok::<ChangedAction, StratisError>(ChangedAction::Changed)
                && !has_id(old(self).stopped@, *id) ==> exists|i: int|
                0 <= i < old(self).locked@.len()
                && id_matches(#[trigger] old(self).locked@[i], *id)
                && final(self).locked@ == old(self).locked@.remove(i)
                && final(self).active@ == old(self).active@.push(old(self).locked@[i])
                && final(self).stopped@ == old(self).stopped@,
    {
        if find_id_in(&self.active, id).is_some() {
            return Ok(ChangedAction::Identity);
        }
        match find_id_in(&self.stopped, id) {
            Some(i) => {
                proof {
                    lemma_id_unique(self.stopped@, *id, i as int);
                }
                if !check_unlock_ok(&self.stopped[i].pool.encryption_info, unlock_method) {
                    return Err(StratisError::Conflict(ConflictCause::UnlockMismatch));
                }
                let e = self.stopped.remove(i);
                self.active.push(e);
                proof {
                    old(self).stopped@.remove_ensures(i as int);
                    let ghost ns = self.stopped@;
                    let ghost os = old(self).stopped@;
                    assert(forall|k: int| 0 <= k < ns.len()
                        ==> #[trigger] ns[k] == (if k < i { os[k] } else { os[k + 1] }));
                }
                return Ok(ChangedAction::Changed);
            },
            None => {},
        }
        match find_id_in(&self.locked, id) {
            Some(i) => {
                proof {
                    lemma_id_unique(self.locked@, *id, i as int);
                }
                if !check_unlock_ok(&self.locked[i].pool.encryption_info, unlock_method) {
                    return Err(StratisError::Conflict(ConflictCause::UnlockMismatch));
                }
                let e = self.locked.remove(i);
                self.active.push(e);
                proof {
                    old(self).locked@.remove_ensures(i as int);
                    let ghost nl = self.locked@;
                    let ghost ol = old(self).locked@;
                    assert(forall|k: int| 0 <= k < nl.len()
                        ==> #[trigger] nl[k] == (if k < i { ol[k] } else { ol[k + 1] }));
                }
                Ok(ChangedAction::Changed)
            },
            None => Err(StratisError::NotFound),
        }
    }

    /// What destroying a pool returns, as a function of the registry.
    pub open spec fn spec_destroy_outcome(self, uuid: PoolUuid) -> Result<ChangedAction,
        StratisError> {
        if has_uuid(self.active@, uuid) {
            if entry_by_uuid(self.active@, uuid).pool.filesystems@.len() > 0 {
                Err(StratisError::Conflict(ConflictCause::PoolNotEmpty))
            } else {
                Ok(ChangedAction::Changed)
            }
        } else if has_uuid(self.locked@, uuid) || has_uuid(self.stopped@, uuid) {
            Err(StratisError::Conflict(ConflictCause::PoolNotActive))
        } else {
            Ok(ChangedAction::Identity)
        }
    }

    /// Remove a pool permanently. Only an active pool that owns no
    /// filesystems can be destroyed; destroying an unknown pool is
    /// `Identity`.
    pub fn destroy_pool(&mut self, uuid: PoolUuid) -> (r: Result<ChangedAction, StratisError>)
        requires
            old(self).wf(),
        ensures
            final(self).wf(),
            r == old(self).spec_destroy_outcome(uuid),
            !(r == Ok::<ChangedAction, StratisError>(ChangedAction::Changed))
                ==> *final(self) == *old(self),
            r == Ok::<ChangedAction, StratisError>(ChangedAction::Changed) ==> exists|i: int|
                0 <= i < old(self).active@.len()
                && (#[trigger] old(self).active@[i]).uuid == uuid
                && final(self).active@ == old(self).active@.remove(i)
                && final(self).locked@ == old(self).locked@
                && final(self).stopped@ == old(self).stopped@,
    {
        match find_uuid_in(&self.active, uuid) {
            Some(i) => {
                proof {
                    lemma_uuid_unique(self.active@, uuid, i as int);
                }
                if self.active[i].pool.filesystems.len() > 0 {
                    return Err(StratisError::Conflict(ConflictCause::PoolNotEmpty));
                }
                let _ = self.active.remove(i);
                proof {
                    old(self).active@.remove_ensures(i as int);
                    let ghost na = self.active@;
                    let ghost oa = old(self).active@;
                    assert(forall|k: int| 0 <= k < na.len()
                        ==> #[trigger] na[k] == (if k < i { oa[k] } else { oa[k + 1] }));
                }
                Ok(ChangedAction::Changed)
            },
            None => {
                if find_uuid_in(&self.locked, uuid).is_some()
                    || find_uuid_in(&self.stopped, uuid).is_some() {
                    Err(StratisError::Conflict(ConflictCause::PoolNotActive))
                } else {
                    Ok(ChangedAction::Identity)
                }
            },
        }
    }
}


/// A concatenation keeps paths unique when each part does and the parts
/// share no path.
proof fn lemma_paths_unique_concat(a: Seq<BlockDev>, b: Seq<BlockDev>)
    requires
        paths_unique(a),
        paths_unique(b),
        forall|j: int| 0 <= j < b.len() ==> !has_path(a, (#[trigger] b[j]).path@),
    ensures
        paths_unique(a + b),
{
    let c = a + b;
    assert forall|i: int, j: int|
        0 <= i < c.len() && 0 <= j < c.len() && i != j implies (#[trigger] c[i]).path@ != (
    #[trigger] c[j]).path@ by {
        if i < a.len() {
            assert(c[i] == a[i]);
        } else {
            assert(c[i] == b[i - a.len()]);
        }
        if j < a.len() {
            assert(c[j] == a[j]);
        } else {
            assert(c[j] == b[j - a.len()]);
        }
        if i < a.len() && j >= a.len() {
            assert(!has_path(a, b[j - a.len()].path@));
        }
        if j < a.len() && i >= a.len() {
            assert(!has_path(a, b[i - a.len()].path@));
        }
    }
}

/// Unique paths in a concatenation are unique in each part, and the parts
/// share no path.
proof fn lemma_paths_unique_split(a: Seq<BlockDev>, b: Seq<BlockDev>)
    requires
        paths_unique(a + b),
    ensures
        paths_unique(a),
        paths_unique(b),
        forall|j: int| 0 <= j < b.len() ==> !has_path(a, (#[trigger] b[j]).path@),
{
    let c = a + b;
    assert forall|i: int, j: int|
        0 <= i < a.len() && 0 <= j < a.len() && i != j implies (#[trigger] a[i]).path@ != (
    #[trigger] a[j]).path@ by {
        assert(c[i] == a[i] && c[j] == a[j]);
    }
    assert forall|i: int, j: int|
        0 <= i < b.len() && 0 <= j < b.len() && i != j implies (#[trigger] b[i]).path@ != (
    #[trigger] b[j]).path@ by {
        assert(c[a.len() + i] == b[i] && c[a.len() + j] == b[j]);
    }
    assert forall|j: int| 0 <= j < b.len() implies !has_path(a, (#[trigger] b[j]).path@) by {
        assert(c[a.len() + j] == b[j]);
        if has_path(a, b[j].path@) {
            let w = choose|w: int| 0 <= w < a.len() && (#[trigger] a[w]).path@ == b[j].path@;
            assert(c[w] == a[w]);
            assert(false);
        }
    }
}

/// A path occurs in a concatenation exactly when it occurs in a part.
proof fn lemma_has_path_add(a: Seq<BlockDev>, b: Seq<BlockDev>, p: Seq<char>)
    ensures
        has_path(a + b, p) <==> (has_path(a, p) || has_path(b, p)),
{
    let c = a + b;
    if has_path(c, p) {
        let w = choose|w: int| 0 <= w < c.len() && (#[trigger] c[w]).path@ == p;
        if w < a.len() {
            assert(a[w] == c[w]);
            assert(has_path(a, p));
        } else {
            assert(b[w - a.len()] == c[w]);
            assert(has_path(b, p));
        }
    }
    if has_path(a, p) {
        let w = choose|w: int| 0 <= w < a.len() && (#[trigger] a[w]).path@ == p;
        assert(c[w] == a[w]);
        assert(has_path(c, p));
    }
    if has_path(b, p) {
        let w = choose|w: int| 0 <= w < b.len() && (#[trigger] b[w]).path@ == p;
        assert(c[a.len() + w] == b[w]);
        assert(has_path(c, p));
    }
}

/// The sector sum of a concatenation is the sum of the parts' sums.
proof fn lemma_sum_dev_add(a: Seq<BlockDev>, b: Seq<BlockDev>)
    ensures
        sum_dev_sectors(a + b) == sum_dev_sectors(a) + sum_dev_sectors(b),
    decreases b.len(),
{
    if b.len() == 0 {
        assert(a + b =~= a);
    } else {
        assert((a + b).drop_last() =~= a + b.drop_last());
        assert((a + b).last() == b.last());
        lemma_sum_dev_add(a, b.drop_last());
    }
}

impl PoolRegistry {
    /// The entry `e` with its pool's name replaced by `new_name`.
    pub open spec fn renamed_entry(e: RegistryEntry, new_name: String) -> RegistryEntry {
        RegistryEntry {
            uuid: e.uuid,
            pool: Pool {
                name: new_name,
                data_devices: e.pool.data_devices,
                cache_devices: e.pool.cache_devices,
                filesystems: e.pool.filesystems,
                encryption_info: e.pool.encryption_info,
                total_physical_size: e.pool.total_physical_size,
                total_physical_used: e.pool.total_physical_used,
            },
        }
    }

    /// The entry carrying `uuid`, in whichever partition holds it;
    /// meaningful when the registry knows the UUID.
    pub open spec fn entry_anywhere(self, uuid: PoolUuid) -> RegistryEntry {
        if has_uuid(self.active@, uuid) {
            entry_by_uuid(self.active@, uuid)
        } else if has_uuid(self.locked@, uuid) {
            entry_by_uuid(self.locked@, uuid)
        } else {
            entry_by_uuid(self.stopped@, uuid)
        }
    }

    /// What renaming a pool returns, as a function of the registry.
    pub open spec fn spec_rename_outcome(self, uuid: PoolUuid, new_name: Seq<char>) -> Result<
        RenameAction, StratisError> {
        if !self.knows_uuid(uuid) {
            Err(StratisError::NotFound)
        } else if self.entry_anywhere(uuid).pool.name@ == new_name {
            Ok(RenameAction::Identity)
        } else if self.knows_name(new_name) {
            Err(StratisError::Conflict(ConflictCause::NameInUse))
        } else {
            Ok(RenameAction::Renamed)
        }
    }

    /// Rename a pool, in whichever partition holds it. Renaming to the
    /// current name is `Identity`; a name another pool holds is a
    /// conflict. The pool accepts an already-resolved UUID only.
    pub fn rename_pool(&mut self, uuid: PoolUuid, new_name: String) -> (r: Result<RenameAction,
        StratisError>)
        requires
            old(self).wf(),
        ensures
            final(self).wf(),
            r == old(self).spec_rename_outcome(uuid, new_name@),
            !(r == Ok::<RenameAction, StratisError>(RenameAction::Renamed))
                ==> *final(self) == *old(self),
            r == Ok::<RenameAction, StratisError>(RenameAction::Renamed)
                && has_uuid(old(self).active@, uuid) ==> exists|i: int|
                0 <= i < old(self).active@.len()
                && (#[trigger] old(self).active@[i]).uuid == uuid
                && final(self).active@ == old(self).active@.update(i, Self::renamed_entry(
                    old(self).active@[i], new_name))
                && final(self).locked@ == old(self).locked@
                && final(self).stopped@ == old(self).stopped@,
            r == Ok::<RenameAction, StratisError>(RenameAction::Renamed)
                && has_uuid(old(self).locked@, uuid) ==> exists|i: int|
                0 <= i < old(self).locked@.len()
                && (#[trigger] old(self).locked@[i]).uuid == uuid
                && final(self).locked@ == old(self).locked@.update(i, Self::renamed_entry(
                    old(self).locked@[i], new_name))
                && final(self).active@ == old(self).active@
                && final(self).stopped@ == old(self).stopped@,
            r == Ok::<RenameAction, StratisError>(RenameAction::Renamed)
                && has_uuid(old(self).stopped@, uuid) ==> exists|i: int|
                0 <= i < old(self).stopped@.len()
                && (#[trigger] old(self).stopped@[i]).uuid == uuid
                && final(self).stopped@ == old(self).stopped@.update(i, Self::renamed_entry(
                    old(self).stopped@[i], new_name))
                && final(self).active@ == old(self).active@
                && final(self).locked@ == old(self).locked@,
    {
        let in_active = find_uuid_in(&self.active, uuid);
        let in_locked = find_uuid_in(&self.locked, uuid);
        let in_stopped = find_uuid_in(&self.stopped, uuid);
        if in_active.is_none() && in_locked.is_none() && in_stopped.is_none() {
            return Err(StratisError::NotFound);
        }
        let same: bool = match in_active {
            Some(i) => {
                proof {
                    lemma_uuid_unique(self.active@, uuid, i as int);
                }
                self.active[i].pool.name == new_name
            },
            None => match in_locked {
                Some(i) => {
                    proof {
                        lemma_uuid_unique(self.locked@, uuid, i as int);
                    }
                    self.locked[i].pool.name == new_name
                },
                None => match in_stopped {
                    Some(i) => {
                        proof {
                            lemma_uuid_unique(self.stopped@, uuid, i as int);
                        }
                        self.stopped[i].pool.name == new_name
                    },
                    None => false,
                },
            },
        };
        if same {
            return Ok(RenameAction::Identity);
        }
        if find_name_in(&self.active, &new_name).is_some()
            || find_name_in(&self.locked, &new_name).is_some()
            || find_name_in(&self.stopped, &new_name).is_some() {
            return Err(StratisError::Conflict(ConflictCause::NameInUse));
        }
        match in_active {
            Some(i) => {
                let e = vstd::std_specs::vec::vec_index_mut(&mut self.active, i);
                e.pool.name = new_name;
                return Ok(RenameAction::Renamed);
            },
            None => {},
        }
        match in_locked {
            Some(i) => {
                let e = vstd::std_specs::vec::vec_index_mut(&mut self.locked, i);
                e.pool.name = new_name;
                return Ok(RenameAction::Renamed);
            },
            None => {},
        }
        match in_stopped {
            Some(i) => {
                let e = vstd::std_specs::vec::vec_index_mut(&mut self.stopped, i);
                e.pool.name = new_name;
                return Ok(RenameAction::Renamed);
            },
            None => {},
        }
        proof {
            assert(false);
        }
        Err(StratisError::NotFound)
    }
}


/// True when some device of the pool, in either tier, has the path `p`.
fn pool_contains_path(p: &Pool, path: &String) -> (r: bool)
    ensures
        r == has_path(p.all_devices(), path@),
{
    proof {
        lemma_has_path_add(p.data_devices@, p.spec_cache_devices(), path@);
    }
    if contains_path(&p.data_devices, path) {
        return true;
    }
    match &p.cache_devices {
        Some(c) => contains_path(c, path),
        None => false,
    }
}

impl PoolRegistry {
    /// What adding block devices returns, as a function of the registry.
    pub open spec fn spec_add_outcome(
        self,
        uuid: PoolUuid,
        tier: BlockDevTier,
        devices: Seq<BlockDev>,
    ) -> Result<ChangedAction, StratisError> {
        if has_uuid(self.active@, uuid) {
            let p = entry_by_uuid(self.active@, uuid).pool;
            if tier is Cache && p.cache_devices is None {
                Err(StratisError::Conflict(ConflictCause::CacheNotInitialized))
            } else if !paths_unique(devices) {
                Err(StratisError::Validation(ValidationCause::DuplicateDevicePaths))
            } else if forall|j: int|
                0 <= j < devices.len() ==> has_path(p.all_devices(), (#[trigger] devices[j]).path@) {
                Ok(ChangedAction::Identity)
            } else if exists|j: int|
                0 <= j < devices.len() && has_path(p.all_devices(), (#[trigger] devices[j]).path@) {
                Err(StratisError::Conflict(ConflictCause::DeviceInUse))
            } else if p.total_physical_size.0 + sum_dev_sectors(devices) > SECTORS_LIMIT {
                Err(StratisError::Validation(ValidationCause::TotalSizeOverflow))
            } else {
                Ok(ChangedAction::Changed)
            }
        } else if has_uuid(self.locked@, uuid) || has_uuid(self.stopped@, uuid) {
            Err(StratisError::Conflict(ConflictCause::PoolNotActive))
        } else {
            Err(StratisError::NotFound)
        }
    }

    /// Append block devices to a tier of an active pool. Cache devices
    /// need an initialized cache tier first; the conflict is reported
    /// before any device list changes. A request whose devices are all
    /// members already is `Identity`.
    #[verifier::rlimit(30)]
    pub fn add_blockdevs(
        &mut self,
        uuid: PoolUuid,
        tier: BlockDevTier,
        devices: Vec<BlockDev>,
    ) -> (r: Result<ChangedAction, StratisError>)
        requires
            old(self).wf(),
        ensures
            final(self).wf(),
            r == old(self).spec_add_outcome(uuid, tier, devices@),
            !(r == Ok::<ChangedAction, StratisError>(ChangedAction::Changed))
                ==> *final(self) == *old(self),
            r == Ok::<ChangedAction, StratisError>(ChangedAction::Changed) ==> exists|i: int|
                0 <= i < old(self).active@.len()
                && (#[trigger] old(self).active@[i]).uuid == uuid
                && ({
                    let oe = old(self).active@[i];
                    let ne = final(self).active@[i];
                    &&& final(self).active@.len() == old(self).active@.len()
                    &&& (forall|j: int|
                        0 <= j < old(self).active@.len() && j != i
                            ==> final(self).active@[j] == old(self).active@[j])
                    &&& ne.uuid == uuid
                    &&& ne.pool.name == oe.pool.name
                    &&& (tier is Data ==> ne.pool.data_devices@ == oe.pool.data_devices@
                        + devices@ && ne.pool.cache_devices == oe.pool.cache_devices)
                    &&& (tier is Cache ==> ne.pool.data_devices == oe.pool.data_devices
                        && ne.pool.spec_cache_devices() == oe.pool.spec_cache_devices()
                        + devices@)
                    &&& ne.pool.filesystems == oe.pool.filesystems
                    &&& ne.pool.encryption_info == oe.pool.encryption_info
                    &&& ne.pool.total_physical_size.0 == oe.pool.total_physical_size.0
                        + sum_dev_sectors(devices@)
                    &&& ne.pool.total_physical_used == oe.pool.total_physical_used
                    &&& final(self).locked@ == old(self).locked@
                    &&& final(self).stopped@ == old(self).stopped@
                }),
    {
        let ghost dv = devices@;
        let i = match find_uuid_in(&self.active, uuid) {
            Some(i) => i,
            None => {
                if find_uuid_in(&self.locked, uuid).is_some()
                    || find_uuid_in(&self.stopped, uuid).is_some() {
                    return Err(StratisError::Conflict(ConflictCause::PoolNotActive));
                }
                return Err(StratisError::NotFound);
            },
        };
        proof {
            lemma_uuid_unique(self.active@, uuid, i as int);
        }
        let is_cache = match tier {
            BlockDevTier::Cache => true,
            BlockDevTier::Data => false,
        };
        if is_cache && self.active[i].pool.cache_devices.is_none() {
            return Err(StratisError::Conflict(ConflictCause::CacheNotInitialized));
        }
        if !check_paths_unique(&devices) {
            return Err(StratisError::Validation(ValidationCause::DuplicateDevicePaths));
        }
        let ghost pall = self.active@[i as int].pool.all_devices();
        let n = devices.len();
        let mut all_in = true;
        let mut any_in = false;
        let mut t: usize = 0;
        while t < n
            invariant
                n == dv.len(),
                dv == devices@,
                0 <= t <= n,
                0 <= i < self.active@.len(),
                pall == self.active@[i as int].pool.all_devices(),
                all_in <==> (forall|j: int|
                    0 <= j < t ==> has_path(pall, (#[trigger] dv[j]).path@)),
                any_in <==> (exists|j: int|
                    0 <= j < t && has_path(pall, (#[trigger] dv[j]).path@)),
            decreases n - t,
        {
            if pool_contains_path(&self.active[i].pool, &devices[t].path) {
                any_in = true;
            } else {
                all_in = false;
            }
            t = t + 1;
        }
        if all_in {
            return Ok(ChangedAction::Identity);
        }
        if any_in {
            return Err(StratisError::Conflict(ConflictCause::DeviceInUse));
        }
        let added = match checked_dev_sectors(&devices) {
            Some(s) => s,
            None => {
                proof {
                    lemma_sum_dev_sectors_nonneg(dv);
                }
                return Err(StratisError::Validation(ValidationCause::TotalSizeOverflow));
            },
        };
        let cur = self.active[i].pool.total_physical_size.0;
        if added > SECTORS_LIMIT - cur {
            return Err(StratisError::Validation(ValidationCause::TotalSizeOverflow));
        }
        let ghost oldpool = self.active@[i as int].pool;
        let mut devices = devices;
        let e = vstd::std_specs::vec::vec_index_mut(&mut self.active, i);
        if is_cache {
            match &mut e.pool.cache_devices {
                Some(c) => {
                    c.append(&mut devices);
                },
                None => {
                    proof {
                        assert(false);
                    }
                },
            }
        } else {
            e.pool.data_devices.append(&mut devices);
        }
        e.pool.total_physical_size = Sectors(cur + added);
        proof {
            let np = e.pool;
            let data = oldpool.data_devices@;
            let cache = oldpool.spec_cache_devices();
            lemma_paths_unique_split(data, cache);
            assert forall|j: int| 0 <= j < dv.len() implies !has_path(data, (
            #[trigger] dv[j]).path@) && !has_path(cache, dv[j].path@) by {
                lemma_has_path_add(data, cache, dv[j].path@);
            }
            if is_cache {
                // New arrangement: data + (cache + dv).
                lemma_paths_unique_concat(cache, dv);
                assert forall|j: int| 0 <= j < (cache + dv).len() implies !has_path(data, (
                #[trigger] (cache + dv)[j]).path@) by {
                    if j < cache.len() {
                        assert((cache + dv)[j] == cache[j]);
                        if has_path(data, cache[j].path@) {
                            let w = choose|w: int|
                                0 <= w < data.len() && (#[trigger] data[w]).path@
                                    == cache[j].path@;
                            assert(has_path(cache, data[w].path@));
                            assert(false);
                        }
                    } else {
                        assert((cache + dv)[j] == dv[j - cache.len()]);
                    }
                }
                lemma_paths_unique_concat(data, cache + dv);
                assert(np.all_devices() =~= data + (cache + dv));
                lemma_sum_dev_add(cache, dv);
                lemma_sum_dev_add(data, cache + dv);
                lemma_sum_dev_add(data, cache);
            } else {
                // New arrangement: (data + dv) + cache.
                lemma_paths_unique_concat(data, dv);
                assert forall|j: int| 0 <= j < cache.len() implies !has_path(data + dv, (
                #[trigger] cache[j]).path@) by {
                    lemma_has_path_add(data, dv, cache[j].path@);
                    if has_path(data, cache[j].path@) {
                        let w = choose|w: int|
                            0 <= w < data.len() && (#[trigger] data[w]).path@ == cache[j].path@;
                        assert(has_path(cache, data[w].path@));
                        assert(false);
                    }
                    if has_path(dv, cache[j].path@) {
                        let w = choose|w: int|
                            0 <= w < dv.len() && (#[trigger] dv[w]).path@ == cache[j].path@;
                        assert(has_path(cache, dv[w].path@));
                        assert(false);
                    }
                }
                lemma_paths_unique_concat(data + dv, cache);
                assert(np.all_devices() =~= (data + dv) + cache);
                lemma_sum_dev_add(data, dv);
                lemma_sum_dev_add(data + dv, cache);
                lemma_sum_dev_add(data, cache);
            }
            assert(np.wf());
        }
        Ok(ChangedAction::Changed)
    }
}


/// Some filesystem of `fss` carries the name `n`.
pub open spec fn has_fs_name(fss: Seq<Filesystem>, n: Seq<char>) -> bool {
    exists|i: int| 0 <= i < fss.len() && (#[trigger] fss[i]).name@ == n
}

/// The filesystem of `fss` carrying the name `n`; meaningful under
/// `has_fs_name`.
pub open spec fn fs_by_name(fss: Seq<Filesystem>, n: Seq<char>) -> Filesystem {
    fss[choose|i: int| 0 <= i < fss.len() && (#[trigger] fss[i]).name@ == n]
}

/// Filesystems of a well-formed pool carry unique names.
proof fn lemma_fs_name_unique(fss: Seq<Filesystem>, n: Seq<char>, i: int)
    requires
        forall|x: int, y: int|
            0 <= x < fss.len() && 0 <= y < fss.len() && x != y
                ==> (#[trigger] fss[x]).name@ != (#[trigger] fss[y]).name@,
        0 <= i < fss.len(),
        fss[i].name@ == n,
    ensures
        has_fs_name(fss, n),
        fs_by_name(fss, n) == fss[i],
{
    assert(has_fs_name(fss, n));
    let j = choose|j: int| 0 <= j < fss.len() && (#[trigger] fss[j]).name@ == n;
    if j != i {
        assert(false);
    }
}

/// The index of the filesystem of `v` carrying `name`, if any.
fn find_fs_in(v: &Vec<Filesystem>, name: &String) -> (r: Option<usize>)
    ensures
        r matches Some(i) ==> 0 <= i < v@.len() && v@[i as int].name@ == name@,
        r is Some <==> has_fs_name(v@, name@),
{
    let n = v.len();
    let mut i: usize = 0;
    while i < n
        invariant
            n == v@.len(),
            0 <= i <= n,
            forall|j: int| 0 <= j < i ==> (#[trigger] v@[j]).name@ != name@,
        decreases n - i,
    {
        if v[i].name == *name {
            return Some(i);
        }
        i = i + 1;
    }
    None
}

impl PoolRegistry {
    /// What initializing a cache tier returns, as a function of the
    /// registry.
    pub open spec fn spec_init_cache_outcome(self, uuid: PoolUuid, devices: Seq<BlockDev>)
        -> Result<ChangedAction, StratisError> {
        if has_uuid(self.active@, uuid) {
            let p = entry_by_uuid(self.active@, uuid).pool;
            match p.cache_devices {
                Some(c) => if same_device_paths(c@, devices) {
                    Ok(ChangedAction::Identity)
                } else {
                    Err(StratisError::Conflict(ConflictCause::CacheAlreadyInitialized))
                },
                None => if devices.len() == 0 {
                    Err(StratisError::Validation(ValidationCause::EmptyDeviceList))
                } else if !paths_unique(devices) {
                    Err(StratisError::Validation(ValidationCause::DuplicateDevicePaths))
                } else if exists|j: int|
                    0 <= j < devices.len() && has_path(p.all_devices(), (
                    #[trigger] devices[j]).path@) {
                    Err(StratisError::Conflict(ConflictCause::DeviceInUse))
                } else if p.total_physical_size.0 + sum_dev_sectors(devices) > SECTORS_LIMIT {
                    Err(StratisError::Validation(ValidationCause::TotalSizeOverflow))
                } else {
                    Ok(ChangedAction::Changed)
                },
            }
        } else if has_uuid(self.locked@, uuid) || has_uuid(self.stopped@, uuid) {
            Err(StratisError::Conflict(ConflictCause::PoolNotActive))
        } else {
            Err(StratisError::NotFound)
        }
    }

    /// Create the cache tier of an active pool with the given devices.
    /// A pool whose cache tier already holds exactly these device paths
    /// reports `Identity`; one with a different cache tier conflicts.
    #[verifier::rlimit(30)]
    pub fn init_cache(&mut self, uuid: PoolUuid, devices: Vec<BlockDev>) -> (r: Result<
        ChangedAction, StratisError>)
        requires
            old(self).wf(),
        ensures
            final(self).wf(),
            r == old(self).spec_init_cache_outcome(uuid, devices@),
            !(r == Ok::<ChangedAction, StratisError>(ChangedAction::Changed))
                ==> *final(self) == *old(self),
            r == Ok::<ChangedAction, StratisError>(ChangedAction::Changed) ==> exists|i: int|
                0 <= i < old(self).active@.len()
                && (#[trigger] old(self).active@[i]).uuid == uuid
                && ({
                    let oe = old(self).active@[i];
                    let ne = final(self).active@[i];
                    &&& final(self).active@.len() == old(self).active@.len()
                    &&& (forall|j: int|
                        0 <= j < old(self).active@.len() && j != i
                            ==> final(self).active@[j] == old(self).active@[j])
                    &&& ne.uuid == uuid
                    &&& ne.pool.name == oe.pool.name
                    &&& ne.pool.data_devices == oe.pool.data_devices
                    &&& ne.pool.spec_cache_devices() == devices@
                    &&& ne.pool.cache_devices is Some
                    &&& ne.pool.filesystems == oe.pool.filesystems
                    &&& ne.pool.encryption_info == oe.pool.encryption_info
                    &&& ne.pool.total_physical_size.0 == oe.pool.total_physical_size.0
                        + sum_dev_sectors(devices@)
                    &&& ne.pool.total_physical_used == oe.pool.total_physical_used
                    &&& final(self).locked@ == old(self).locked@
                    &&& final(self).stopped@ == old(self).stopped@
                }),
    {
        let ghost dv = devices@;
        let i = match find_uuid_in(&self.active, uuid) {
            Some(i) => i,
            None => {
                if find_uuid_in(&self.locked, uuid).is_some()
                    || find_uuid_in(&self.stopped, uuid).is_some() {
                    return Err(StratisError::Conflict(ConflictCause::PoolNotActive));
                }
                return Err(StratisError::NotFound);
            },
        };
        proof {
            lemma_uuid_unique(self.active@, uuid, i as int);
        }
        match &self.active[i].pool.cache_devices {
            Some(c) => {
                if check_same_device_paths(c, &devices) {
                    return Ok(ChangedAction::Identity);
                }
                return Err(StratisError::Conflict(ConflictCause::CacheAlreadyInitialized));
            },
            None => {},
        }
        if devices.len() == 0 {
            return Err(StratisError::Validation(ValidationCause::EmptyDeviceList));
        }
        if !check_paths_unique(&devices) {
            return Err(StratisError::Validation(ValidationCause::DuplicateDevicePaths));
        }
        let ghost pall = self.active@[i as int].pool.all_devices();
        let n = devices.len();
        let mut any_in = false;
        let mut t: usize = 0;
        while t < n
            invariant
                n == dv.len(),
                dv == devices@,
                0 <= t <= n,
                0 <= i < self.active@.len(),
                pall == self.active@[i as int].pool.all_devices(),
                any_in <==> (exists|j: int|
                    0 <= j < t && has_path(pall, (#[trigger] dv[j]).path@)),
            decreases n - t,
        {
            if pool_contains_path(&self.active[i].pool, &devices[t].path) {
                any_in = true;
            }
            t = t + 1;
        }
        if any_in {
            return Err(StratisError::Conflict(ConflictCause::DeviceInUse));
        }
        let added = match checked_dev_sectors(&devices) {
            Some(s) => s,
            None => {
                proof {
                    lemma_sum_dev_sectors_nonneg(dv);
                }
                return Err(StratisError::Validation(ValidationCause::TotalSizeOverflow));
            },
        };
        let cur = self.active[i].pool.total_physical_size.0;
        if added > SECTORS_LIMIT - cur {
            return Err(StratisError::Validation(ValidationCause::TotalSizeOverflow));
        }
        let ghost oldpool = self.active@[i as int].pool;
        let e = vstd::std_specs::vec::vec_index_mut(&mut self.active, i);
        e.pool.cache_devices = Some(devices);
        e.pool.total_physical_size = Sectors(cur + added);
        proof {
            let np = e.pool;
            let data = oldpool.data_devices@;
            assert(oldpool.all_devices() =~= data);
            assert forall|j: int| 0 <= j < dv.len() implies !has_path(data, (
            #[trigger] dv[j]).path@) by {}
            lemma_paths_unique_concat(data, dv);
            assert(np.all_devices() =~= data + dv);
            lemma_sum_dev_add(data, dv);
            assert(np.wf());
        }
        Ok(ChangedAction::Changed)
    }

    /// What creating a filesystem returns, as a function of the registry.
    pub open spec fn spec_create_fs_outcome(self, uuid: PoolUuid, fs_name: Seq<char>,
        size: Bytes) -> Result<ChangedAction, StratisError> {
        if has_uuid(self.active@, uuid) {
            let p = entry_by_uuid(self.active@, uuid).pool;
            if !(FS_LOGICAL_SIZE_MIN <= size.0 < FS_LOGICAL_SIZE_MAX) {
                Err(StratisError::Validation(ValidationCause::FilesystemSizeOutOfBounds))
            } else if size.0 % SECTOR_SIZE != 0 {
                Err(StratisError::Validation(ValidationCause::FilesystemSizeNotSectorMultiple))
            } else if has_fs_name(p.filesystems@, fs_name) {
                if fs_by_name(p.filesystems@, fs_name).size == size {
                    Ok(ChangedAction::Identity)
                } else {
                    Err(StratisError::Conflict(ConflictCause::NameInUse))
                }
            } else {
                Ok(ChangedAction::Changed)
            }
        } else if has_uuid(self.locked@, uuid) || has_uuid(self.stopped@, uuid) {
            Err(StratisError::Conflict(ConflictCause::PoolNotActive))
        } else {
            Err(StratisError::NotFound)
        }
    }

    /// Carve a filesystem out of an active pool. The requested size must
    /// lie in the supported range and be an exact number of sectors; a
    /// rejected request leaves the registry untouched. Repeating a
    /// creation with the same name and size is `Identity`.
    pub fn create_filesystem(&mut self, uuid: PoolUuid, fs_name: String, size: Bytes) -> (r:
        Result<ChangedAction, StratisError>)
        requires
            old(self).wf(),
        ensures
            final(self).wf(),
            r == old(self).spec_create_fs_outcome(uuid, fs_name@, size),
            !(r == Ok::<ChangedAction, StratisError>(ChangedAction::Changed))
                ==> *final(self) == *old(self),
            r == Ok::<ChangedAction, StratisError>(ChangedAction::Changed) ==> exists|i: int|
                0 <= i < old(self).active@.len()
                && (#[trigger] old(self).active@[i]).uuid == uuid
                && ({
                    let oe = old(self).active@[i];
                    let ne = final(self).active@[i];
                    &&& final(self).active@.len() == old(self).active@.len()
                    &&& (forall|j: int|
                        0 <= j < old(self).active@.len() && j != i
                            ==> final(self).active@[j] == old(self).active@[j])
                    &&& ne.uuid == uuid
                    &&& ne.pool.name == oe.pool.name
                    &&& ne.pool.data_devices == oe.pool.data_devices
                    &&& ne.pool.cache_devices == oe.pool.cache_devices
                    &&& ne.pool.filesystems@ == oe.pool.filesystems@.push(
                        (Filesystem { name: fs_name, size }))
                    &&& ne.pool.encryption_info == oe.pool.encryption_info
                    &&& ne.pool.total_physical_size == oe.pool.total_physical_size
                    &&& ne.pool.total_physical_used == oe.pool.total_physical_used
                    &&& final(self).locked@ == old(self).locked@
                    &&& final(self).stopped@ == old(self).stopped@
                }),
    {
        let i = match find_uuid_in(&self.active, uuid) {
            Some(i) => i,
            None => {
                if find_uuid_in(&self.locked, uuid).is_some()
                    || find_uuid_in(&self.stopped, uuid).is_some() {
                    return Err(StratisError::Conflict(ConflictCause::PoolNotActive));
                }
                return Err(StratisError::NotFound);
            },
        };
        proof {
            lemma_uuid_unique(self.active@, uuid, i as int);
        }
        if !(FS_LOGICAL_SIZE_MIN <= size.0 && size.0 < FS_LOGICAL_SIZE_MAX) {
            return Err(StratisError::Validation(ValidationCause::FilesystemSizeOutOfBounds));
        }
        if size.0 % SECTOR_SIZE != 0 {
            return Err(StratisError::Validation(
                ValidationCause::FilesystemSizeNotSectorMultiple));
        }
        match find_fs_in(&self.active[i].pool.filesystems, &fs_name) {
            Some(k) => {
                proof {
                    lemma_fs_name_unique(self.active@[i as int].pool.filesystems@, fs_name@,
                        k as int);
                }
                if self.active[i].pool.filesystems[k].size.0 == size.0 {
                    return Ok(ChangedAction::Identity);
                }
                return Err(StratisError::Conflict(ConflictCause::NameInUse));
            },
            None => {},
        }
        let e = vstd::std_specs::vec::vec_index_mut(&mut self.active, i);
        e.pool.filesystems.push(Filesystem { name: fs_name, size });
        proof {
            assert(e.pool.wf());
        }
        Ok(ChangedAction::Changed)
    }
}


/// The pin name of the clevis binding, when the settings carry one.
pub open spec fn clevis_pin_of(enc: Option<EncryptionInfo>) -> Option<Seq<char>> {
    match enc {
        Some(ei) => match ei.clevis_info {
            Some(ci) => Some(ci.pin@),
            None => None,
        },
        None => None,
    }
}

/// The settings carry a clevis binding.
pub open spec fn is_bound(enc: Option<EncryptionInfo>) -> bool {
    enc matches Some(ei) && ei.clevis_info is Some
}

/// The settings carry a passphrase key description.
pub open spec fn has_passphrase(enc: Option<EncryptionInfo>) -> bool {
    enc matches Some(ei) && ei.key_description is Some
}

impl PoolRegistry {
    /// What inserting a discovered locked pool returns, as a function of
    /// the registry.
    pub open spec fn spec_insert_locked_outcome(
        self,
        uuid: PoolUuid,
        name: Seq<char>,
        devices: Seq<BlockDev>,
    ) -> Result<(), StratisError> {
        if self.knows_name(name) {
            Err(StratisError::Conflict(ConflictCause::NameInUse))
        } else if self.knows_uuid(uuid) {
            Err(StratisError::Conflict(ConflictCause::UuidInUse))
        } else if devices.len() == 0 {
            Err(StratisError::Validation(ValidationCause::EmptyDeviceList))
        } else if !paths_unique(devices) {
            Err(StratisError::Validation(ValidationCause::DuplicateDevicePaths))
        } else if sum_dev_sectors(devices) > SECTORS_LIMIT {
            Err(StratisError::Validation(ValidationCause::TotalSizeOverflow))
        } else {
            Ok(())
        }
    }

    /// Record an encrypted pool discovered on disk whose key is not yet
    /// available: it enters the Locked partition. Used at process
    /// discovery time only.
    #[verifier::loop_isolation(false)]
    pub fn insert_locked(
        &mut self,
        uuid: PoolUuid,
        name: String,
        devices: Vec<BlockDev>,
        enc: EncryptionInfo,
    ) -> (r: Result<(), StratisError>)
        requires
            old(self).wf(),
        ensures
            final(self).wf(),
            r == old(self).spec_insert_locked_outcome(uuid, name@, devices@),
            r is Err ==> *final(self) == *old(self),
            r is Ok ==> {
                &&& final(self).locked@.len() == old(self).locked@.len() + 1
                &&& final(self).locked@.drop_last() == old(self).locked@
                &&& final(self).active@ == old(self).active@
                &&& final(self).stopped@ == old(self).stopped@
                &&& ({
                    let e = final(self).locked@.last();
                    &&& e.uuid == uuid
                    &&& e.pool.name@ == name@
                    &&& e.pool.data_devices@ == devices@
                    &&& e.pool.cache_devices is None
                    &&& e.pool.filesystems@.len() == 0
                    &&& e.pool.encryption_info == Some(enc)
                    &&& e.pool.total_physical_size.0 == sum_dev_sectors(devices@)
                    &&& e.pool.total_physical_used is None
                })
            },
    {
        if find_name_in(&self.active, &name).is_some()
            || find_name_in(&self.locked, &name).is_some()
            || find_name_in(&self.stopped, &name).is_some() {
            return Err(StratisError::Conflict(ConflictCause::NameInUse));
        }
        if find_uuid_in(&self.active, uuid).is_some()
            || find_uuid_in(&self.locked, uuid).is_some()
            || find_uuid_in(&self.stopped, uuid).is_some() {
            return Err(StratisError::Conflict(ConflictCause::UuidInUse));
        }
        if devices.len() == 0 {
            return Err(StratisError::Validation(ValidationCause::EmptyDeviceList));
        }
        if !check_paths_unique(&devices) {
            return Err(StratisError::Validation(ValidationCause::DuplicateDevicePaths));
        }
        let total = match checked_dev_sectors(&devices) {
            Some(t) => t,
            None => {
                return Err(StratisError::Validation(ValidationCause::TotalSizeOverflow));
            },
        };
        let pool = Pool {
            name,
            data_devices: devices,
            cache_devices: None,
            filesystems: Vec::new(),
            encryption_info: Some(enc),
            total_physical_size: Sectors(total),
            total_physical_used: None,
        };
        proof {
            assert(pool.all_devices() =~= pool.data_devices@);
        }
        self.locked.push(RegistryEntry { uuid, pool });
        proof {
            assert(self.locked@.drop_last() =~= old(self).locked@);
        }
        Ok(())
    }

    /// Whether the identified pool is encrypted. An active pool answers
    /// from its settings, a locked pool is encrypted by construction; a
    /// stopped or unknown pool does not resolve here.
    pub fn pool_is_encrypted(&self, id: &PoolIdentifier) -> (r: Result<bool, StratisError>)
        requires
            self.wf(),
        ensures
            has_id(self.active@, *id) ==> r == Ok::<bool, StratisError>(
                entry_by_id(self.active@, *id).pool.encryption_info is Some),
            !has_id(self.active@, *id) && has_id(self.locked@, *id) ==> r == Ok::<bool,
                StratisError>(true),
            !has_id(self.active@, *id) && !has_id(self.locked@, *id) ==> r == Err::<bool,
                StratisError>(StratisError::NotFound),
    {
        match find_id_in(&self.active, id) {
            Some(i) => {
                proof {
                    lemma_id_unique(self.active@, *id, i as int);
                }
                Ok(self.active[i].pool.encryption_info.is_some())
            },
            None => {
                if find_id_in(&self.locked, id).is_some() {
                    Ok(true)
                } else {
                    Err(StratisError::NotFound)
                }
            },
        }
    }

    /// Whether the identified pool is stopped. An active pool answers
    /// false, a stopped one true; a locked or unknown pool does not
    /// resolve here.
    pub fn pool_is_stopped(&self, id: &PoolIdentifier) -> (r: Result<bool, StratisError>)
        requires
            self.wf(),
        ensures
            has_id(self.active@, *id) ==> r == Ok::<bool, StratisError>(false),
            !has_id(self.active@, *id) && has_id(self.stopped@, *id) ==> r == Ok::<bool,
                StratisError>(true),
            !has_id(self.active@, *id) && !has_id(self.stopped@, *id) ==> r == Err::<bool,
                StratisError>(StratisError::NotFound),
    {
        if find_id_in(&self.active, id).is_some() {
            Ok(false)
        } else if find_id_in(&self.stopped, id).is_some() {
            Ok(true)
        } else {
            Err(StratisError::NotFound)
        }
    }

    /// Whether the identified pool carries an automated-unlock binding.
    pub fn pool_is_bound(&self, id: &PoolIdentifier) -> (r: Result<bool, StratisError>)
        requires
            self.wf(),
        ensures
            has_id(self.active@, *id) ==> r == Ok::<bool, StratisError>(
                is_bound(entry_by_id(self.active@, *id).pool.encryption_info)),
            !has_id(self.active@, *id) && has_id(self.locked@, *id) ==> r == Ok::<bool,
                StratisError>(is_bound(entry_by_id(self.locked@, *id).pool.encryption_info)),
            !has_id(self.active@, *id) && !has_id(self.locked@, *id) ==> r == Err::<bool,
                StratisError>(StratisError::NotFound),
    {
        match find_id_in(&self.active, id) {
            Some(i) => {
                proof {
                    lemma_id_unique(self.active@, *id, i as int);
                }
                match &self.active[i].pool.encryption_info {
                    Some(ei) => Ok(ei.clevis_info.is_some()),
                    None => Ok(false),
                }
            },
            None => match find_id_in(&self.locked, id) {
                Some(i) => {
                    proof {
                        lemma_id_unique(self.locked@, *id, i as int);
                    }
                    match &self.locked[i].pool.encryption_info {
                        Some(ei) => Ok(ei.clevis_info.is_some()),
                        None => Ok(false),
                    }
                },
                None => Err(StratisError::NotFound),
            },
        }
    }

    /// Whether the identified pool can be unlocked with a passphrase.
    pub fn pool_has_passphrase(&self, id: &PoolIdentifier) -> (r: Result<bool, StratisError>)
        requires
            self.wf(),
        ensures
            has_id(self.active@, *id) ==> r == Ok::<bool, StratisError>(
                has_passphrase(entry_by_id(self.active@, *id).pool.encryption_info)),
            !has_id(self.active@, *id) && has_id(self.locked@, *id) ==> r == Ok::<bool,
                StratisError>(has_passphrase(entry_by_id(self.locked@,
                *id).pool.encryption_info)),
            !has_id(self.active@, *id) && !has_id(self.locked@, *id) ==> r == Err::<bool,
                StratisError>(StratisError::NotFound),
    {
        match find_id_in(&self.active, id) {
            Some(i) => {
                proof {
                    lemma_id_unique(self.active@, *id, i as int);
                }
                match &self.active[i].pool.encryption_info {
                    Some(ei) => Ok(ei.key_description.is_some()),
                    None => Ok(false),
                }
            },
            None => match find_id_in(&self.locked, id) {
                Some(i) => {
                    proof {
                        lemma_id_unique(self.locked@, *id, i as int);
                    }
                    match &self.locked[i].pool.encryption_info {
                        Some(ei) => Ok(ei.key_description.is_some()),
                        None => Ok(false),
                    }
                },
                None => Err(StratisError::NotFound),
            },
        }
    }

    /// The pin name of the identified pool's automated-unlock binding,
    /// when bound.
    pub fn pool_clevis_pin(&self, id: &PoolIdentifier) -> (r: Result<Option<String>,
        StratisError>)
        requires
            self.wf(),
        ensures
            has_id(self.active@, *id) ==> (r matches Ok(op) && (match op {
                Some(p) => Some(p@),
                None => None,
            }) == clevis_pin_of(entry_by_id(self.active@, *id).pool.encryption_info)),
            !has_id(self.active@, *id) && has_id(self.locked@, *id) ==> (r matches Ok(op)
                && (match op {
                Some(p) => Some(p@),
                None => None,
            }) == clevis_pin_of(entry_by_id(self.locked@, *id).pool.encryption_info)),
            !has_id(self.active@, *id) && !has_id(self.locked@, *id) ==> r == Err::<
                Option<String>, StratisError>(StratisError::NotFound),
    {
        match find_id_in(&self.active, id) {
            Some(i) => {
                proof {
                    lemma_id_unique(self.active@, *id, i as int);
                }
                match &self.active[i].pool.encryption_info {
                    Some(ei) => match &ei.clevis_info {
                        Some(ci) => Ok(Some(ci.pin.clone())),
                        None => Ok(None),
                    },
                    None => Ok(None),
                }
            },
            None => match find_id_in(&self.locked, id) {
                Some(i) => {
                    proof {
                        lemma_id_unique(self.locked@, *id, i as int);
                    }
                    match &self.locked[i].pool.encryption_info {
                        Some(ei) => match &ei.clevis_info {
                            Some(ci) => Ok(Some(ci.pin.clone())),
                            None => Ok(None),
                        },
                        None => Ok(None),
                    }
                },
                None => Err(StratisError::NotFound),
            },
        }
    }

    /// One row per active pool, rows correlated by position: name, total
    /// size and consumed size in bytes, cache and encryption flags, and
    /// UUID. Ordering reflects the partition's current iteration order.
    pub fn pool_list(&self) -> (r: (Vec<String>, Vec<(u128, Option<u128>)>, Vec<(bool, bool)>,
        Vec<PoolUuid>))
        requires
            self.wf(),
        ensures
            r.0@.len() == self.active@.len(),
            r.1@.len() == self.active@.len(),
            r.2@.len() == self.active@.len(),
            r.3@.len() == self.active@.len(),
            forall|i: int| 0 <= i < self.active@.len() ==> {
                let e = #[trigger] self.active@[i];
                &&& r.0@[i]@ == e.pool.name@
                &&& r.1@[i].0 == e.pool.total_physical_size.0 * 512
                &&& (match (r.1@[i].1, e.pool.total_physical_used) {
                    (Some(u), Some(su)) => u == su.0 * 512,
                    (None, None) => true,
                    _ => false,
                })
                &&& r.2@[i] == (((e.pool.cache_devices is Some), (
                e.pool.encryption_info is Some)))
                &&& r.3@[i] == e.uuid
            },
    {
        let n = self.active.len();
        let mut names: Vec<String> = Vec::new();
        let mut sizes: Vec<(u128, Option<u128>)> = Vec::new();
        let mut props: Vec<(bool, bool)> = Vec::new();
        let mut uuids: Vec<PoolUuid> = Vec::new();
        let mut i: usize = 0;
        while i < n
            invariant
                n == self.active@.len(),
                self.wf(),
                0 <= i <= n,
                names@.len() == i,
                sizes@.len() == i,
                props@.len() == i,
                uuids@.len() == i,
                forall|j: int| 0 <= j < i ==> {
                    let e = #[trigger] self.active@[j];
                    &&& names@[j]@ == e.pool.name@
                    &&& sizes@[j].0 == e.pool.total_physical_size.0 * 512
                    &&& (match (sizes@[j].1, e.pool.total_physical_used) {
                        (Some(u), Some(su)) => u == su.0 * 512,
                        (None, None) => true,
                        _ => false,
                    })
                    &&& props@[j] == (((e.pool.cache_devices is Some), (
                    e.pool.encryption_info is Some)))
                    &&& uuids@[j] == e.uuid
                },
            decreases n - i,
        {
            let e = &self.active[i];
            names.push(e.pool.name.clone());
            let total = e.pool.total_physical_size.bytes().0;
            let used = match &e.pool.total_physical_used {
                Some(u) => Some(u.bytes().0),
                None => None,
            };
            sizes.push((total, used));
            props.push((e.pool.cache_devices.is_some(), e.pool.encryption_info.is_some()));
            uuids.push(e.uuid);
            i = i + 1;
        }
        (names, sizes, props, uuids)
    }
}


/// Creating a pool and then repeating the identical request: on a registry
/// that does not know the name or the UUID, a valid creation is accepted
/// as `Created`; against the resulting registry the same request is
/// `Identity`, whatever fresh UUID it offers; and exactly one active pool
/// carries the name.
pub proof fn lemma_create_then_identity(
    r0: PoolRegistry,
    r1: PoolRegistry,
    uuid: PoolUuid,
    uuid2: PoolUuid,
    name: String,
    devices: Vec<BlockDev>,
    enc: Option<EncryptionInfo>,
)
    requires
        r0.wf(),
        !r0.knows_name(name@),
        !r0.knows_uuid(uuid),
        devices@.len() > 0,
        paths_unique(devices@),
        sum_dev_sectors(devices@) <= SECTORS_LIMIT,
        r1.active@.len() == r0.active@.len() + 1,
        r1.active@.drop_last() == r0.active@,
        r1.locked@ == r0.locked@,
        r1.stopped@ == r0.stopped@,
        r1.active@.last().uuid == uuid,
        r1.active@.last().pool.name@ == name@,
        r1.active@.last().pool.data_devices@ == devices@,
        r1.active@.last().pool.encryption_info == enc,
    ensures
        r0.spec_create_outcome(uuid, name@, devices@, enc) == Ok::<CreateAction, StratisError>(
            CreateAction::Created(uuid)),
        r1.spec_create_outcome(uuid2, name@, devices@, enc) == Ok::<CreateAction, StratisError>(
            CreateAction::Identity),
        forall|i: int|
            0 <= i < r1.active@.len() && (#[trigger] r1.active@[i]).pool.name@ == name@
                ==> i == r1.active@.len() - 1,
{
    // The first request is accepted: nothing in the registry carries the
    // name, so in particular no identical active pool does.
    if r0.create_identity_case(name@, devices@, enc) {
        let w = choose|w: int|
            0 <= w < r0.active@.len() && {
                let e = #[trigger] r0.active@[w];
                &&& e.pool.name@ == name@
                &&& same_device_paths(e.pool.data_devices@, devices@)
                &&& enc_info_eqv(e.pool.encryption_info, enc)
            };
        assert(has_name(r0.active@, name@));
        assert(false);
    }
    // The repeated request finds the pool just created, with the same
    // device paths and the same encryption settings.
    let last = r1.active@.len() - 1;
    assert forall|k: int| 0 <= k < devices@.len() implies has_path(devices@, (
    #[trigger] devices@[k]).path@) by {
        assert(0 <= k < devices@.len() && devices@[k].path@ == devices@[k].path@);
    }
    assert(same_device_paths(r1.active@[last].pool.data_devices@, devices@));
    match enc {
        None => {},
        Some(ei) => {
            assert(key_desc_eqv(ei.key_description, ei.key_description));
            assert(clevis_eqv(ei.clevis_info, ei.clevis_info));
        },
    }
    assert(enc_info_eqv(r1.active@[last].pool.encryption_info, enc));
    assert(r1.create_identity_case(name@, devices@, enc));
    // The name occurs exactly once among the active pools.
    assert forall|i: int|
        0 <= i < r1.active@.len() && (#[trigger] r1.active@[i]).pool.name@ == name@ implies i
            == last by {
        if i < last {
            assert(r1.active@.drop_last()[i] == r1.active@[i]);
            assert(has_name(r0.active@, name@));
        }
    }
}

/// A pool taken Active → Stopped → Active comes back as the very entry
/// that left: UUID, name, device membership, filesystems and settings all
/// unchanged.
pub proof fn lemma_stop_start_roundtrip(
    r0: PoolRegistry,
    r1: PoolRegistry,
    r2: PoolRegistry,
    uuid: PoolUuid,
    i: int,
    j: int,
)
    requires
        r0.wf(),
        0 <= i < r0.active@.len(),
        r0.active@[i].uuid == uuid,
        r1.active@ == r0.active@.remove(i),
        r1.stopped@ == r0.stopped@.push(r0.active@[i]),
        r1.locked@ == r0.locked@,
        0 <= j < r1.stopped@.len(),
        id_matches(r1.stopped@[j], PoolIdentifier::Uuid(uuid)),
        r2.stopped@ == r1.stopped@.remove(j),
        r2.active@ == r1.active@.push(r1.stopped@[j]),
        r2.locked@ == r1.locked@,
    ensures
        r2.active@.last() == r0.active@[i],
        r2.stopped@ == r0.stopped@,
        r2.locked@ == r0.locked@,
{
    // The only stopped entry carrying the UUID is the one just moved.
    assert(r1.stopped@[j].uuid == uuid);
    if j < r0.stopped@.len() {
        assert(r1.stopped@[j] == r0.stopped@[j]);
        assert(false);
    }
    assert(j == r0.stopped@.len());
    assert(r1.stopped@[j] == r0.active@[i]);
    assert(r2.stopped@ =~= r0.stopped@);
}

/// Adding cache devices to a pool whose cache tier was never initialized
/// is refused as a conflict, whatever the devices; the operation's
/// contract then leaves the registry untouched.
pub proof fn lemma_add_cache_requires_init(
    r: PoolRegistry,
    uuid: PoolUuid,
    devices: Seq<BlockDev>,
)
    requires
        has_uuid(r.active@, uuid),
        entry_by_uuid(r.active@, uuid).pool.cache_devices is None,
    ensures
        r.spec_add_outcome(uuid, BlockDevTier::Cache, devices) == Err::<ChangedAction,
            StratisError>(StratisError::Conflict(ConflictCause::CacheNotInitialized)),
{
}


impl PoolRegistry {
    /// One row per locked pool: its UUID and its name. What discovery
    /// reported and unlock has not yet released.
    pub fn locked_pools(&self) -> (r: Vec<(PoolUuid, String)>)
        ensures
            r@.len() == self.locked@.len(),
            forall|i: int| 0 <= i < self.locked@.len() ==> {
                let e = #[trigger] self.locked@[i];
                &&& r@[i].0 == e.uuid
                &&& r@[i].1@ == e.pool.name@
            },
    {
        let n = self.locked.len();
        let mut rows: Vec<(PoolUuid, String)> = Vec::new();
        let mut i: usize = 0;
        while i < n
            invariant
                n == self.locked@.len(),
                0 <= i <= n,
                rows@.len() == i,
                forall|j: int| 0 <= j < i ==> {
                    let e = #[trigger] self.locked@[j];
                    &&& rows@[j].0 == e.uuid
                    &&& rows@[j].1@ == e.pool.name@
                },
            decreases n - i,
        {
            let e = &self.locked[i];
            rows.push((e.uuid, e.pool.name.clone()));
            i = i + 1;
        }
        rows
    }
}
} // verus!
