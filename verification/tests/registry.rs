use stratisd::errors::{ConflictCause, StratisError, ValidationCause};
use stratisd::pool::{
    BlockDev, BlockDevTier, ClevisInfo, EncryptionInfo, KeyDescription, PoolIdentifier,
    UnlockMethod,
};
use stratisd::registry::{ChangedAction, CreateAction, PoolRegistry, RenameAction};
use stratisd::units::Bytes;

const GIB: u128 = 1 << 30;

fn dev(path: &str, size: u128) -> BlockDev {
    BlockDev { path: path.to_string(), size: Bytes(size) }
}

fn devs() -> Vec<BlockDev> {
    vec![dev("/dev/sda", 10 * GIB), dev("/dev/sdb", 10 * GIB)]
}

fn enc_with_both() -> EncryptionInfo {
    EncryptionInfo {
        key_description: Some(KeyDescription("krd".to_string())),
        clevis_info: Some(ClevisInfo { pin: "tang".to_string(), config: "{}".to_string() }),
    }
}

#[test]
fn create_pool_then_identity() {
    let mut reg = PoolRegistry::new();
    let r = reg.create_pool(1, "p1".to_string(), devs(), None).unwrap();
    assert_eq!(r, CreateAction::Created(1));
    // The identical request, even under a fresh UUID, is an identity.
    let r = reg.create_pool(2, "p1".to_string(), devs(), None).unwrap();
    assert_eq!(r, CreateAction::Identity);
    // The registry holds exactly one pool.
    let (names, _, _, uuids) = reg.pool_list();
    assert_eq!(names, vec!["p1".to_string()]);
    assert_eq!(uuids, vec![1]);
}

#[test]
fn create_pool_name_conflict() {
    let mut reg = PoolRegistry::new();
    reg.create_pool(1, "p1".to_string(), devs(), None).unwrap();
    let r = reg.create_pool(2, "p1".to_string(), vec![dev("/dev/sdz", GIB)], None);
    assert_eq!(r.unwrap_err(), StratisError::Conflict(ConflictCause::NameInUse));
}

#[test]
fn create_pool_uuid_conflict() {
    let mut reg = PoolRegistry::new();
    reg.create_pool(1, "p1".to_string(), devs(), None).unwrap();
    let r = reg.create_pool(1, "p2".to_string(), vec![dev("/dev/sdz", GIB)], None);
    assert_eq!(r.unwrap_err(), StratisError::Conflict(ConflictCause::UuidInUse));
}

#[test]
fn create_pool_rejects_empty_and_duplicate_devices() {
    let mut reg = PoolRegistry::new();
    let r = reg.create_pool(1, "p1".to_string(), vec![], None);
    assert_eq!(r.unwrap_err(), StratisError::Validation(ValidationCause::EmptyDeviceList));
    let r = reg.create_pool(
        1,
        "p1".to_string(),
        vec![dev("/dev/sda", GIB), dev("/dev/sda", GIB)],
        None,
    );
    assert_eq!(
        r.unwrap_err(),
        StratisError::Validation(ValidationCause::DuplicateDevicePaths)
    );
}

#[test]
fn stop_then_start_preserves_pool() {
    let mut reg = PoolRegistry::new();
    reg.create_pool(7, "p".to_string(), devs(), None).unwrap();
    assert_eq!(reg.stop_pool(7).unwrap(), ChangedAction::Changed);
    assert!(reg.pool_is_stopped(&PoolIdentifier::Uuid(7)).unwrap());
    // Stopping again is an identity.
    assert_eq!(reg.stop_pool(7).unwrap(), ChangedAction::Identity);
    let r = reg.start_pool(&PoolIdentifier::Uuid(7), None).unwrap();
    assert_eq!(r, ChangedAction::Changed);
    // UUID and name survive the round trip.
    let (names, sizes, props, uuids) = reg.pool_list();
    assert_eq!(names, vec!["p".to_string()]);
    assert_eq!(uuids, vec![7]);
    assert_eq!(sizes[0].0, 20 * GIB);
    assert_eq!(props[0], (false, false));
    // Device membership survives: re-adding the same devices is an
    // identity, not an extension.
    let r = reg.add_blockdevs(7, BlockDevTier::Data, devs()).unwrap();
    assert_eq!(r, ChangedAction::Identity);
    // Starting an active pool is an identity.
    let r = reg.start_pool(&PoolIdentifier::Uuid(7), None).unwrap();
    assert_eq!(r, ChangedAction::Identity);
}

#[test]
fn stop_pool_not_found() {
    let mut reg = PoolRegistry::new();
    assert_eq!(reg.stop_pool(9).unwrap_err(), StratisError::NotFound);
}

#[test]
fn start_pool_by_name() {
    let mut reg = PoolRegistry::new();
    reg.create_pool(7, "p".to_string(), devs(), None).unwrap();
    reg.stop_pool(7).unwrap();
    let r = reg.start_pool(&PoolIdentifier::Name("p".to_string()), None).unwrap();
    assert_eq!(r, ChangedAction::Changed);
}

#[test]
fn start_locked_pool_needs_matching_unlock() {
    let mut reg = PoolRegistry::new();
    let enc = EncryptionInfo {
        key_description: None,
        clevis_info: Some(ClevisInfo { pin: "tang".to_string(), config: "{}".to_string() }),
    };
    reg.insert_locked(3, "lp".to_string(), devs(), enc).unwrap();
    // No passphrase is bound, so a keyring unlock is refused.
    let r = reg.start_pool(&PoolIdentifier::Uuid(3), Some(UnlockMethod::Keyring));
    assert_eq!(r.unwrap_err(), StratisError::Conflict(ConflictCause::UnlockMismatch));
    // The clevis binding unlocks it.
    let r = reg.start_pool(&PoolIdentifier::Uuid(3), Some(UnlockMethod::Clevis)).unwrap();
    assert_eq!(r, ChangedAction::Changed);
    assert!(reg.pool_is_encrypted(&PoolIdentifier::Uuid(3)).unwrap());
}

#[test]
fn encrypted_stopped_pool_requires_unlock_method() {
    let mut reg = PoolRegistry::new();
    reg.create_pool(4, "e".to_string(), devs(), Some(enc_with_both())).unwrap();
    reg.stop_pool(4).unwrap();
    let r = reg.start_pool(&PoolIdentifier::Uuid(4), None);
    assert_eq!(r.unwrap_err(), StratisError::Conflict(ConflictCause::UnlockMismatch));
    let r = reg.start_pool(&PoolIdentifier::Uuid(4), Some(UnlockMethod::Keyring)).unwrap();
    assert_eq!(r, ChangedAction::Changed);
}

#[test]
fn destroy_pool_requires_no_filesystems() {
    let mut reg = PoolRegistry::new();
    reg.create_pool(1, "p".to_string(), devs(), None).unwrap();
    reg.create_filesystem(1, "fs".to_string(), Bytes(GIB)).unwrap();
    let r = reg.destroy_pool(1);
    assert_eq!(r.unwrap_err(), StratisError::Conflict(ConflictCause::PoolNotEmpty));
    // An unknown pool destroys as an identity.
    assert_eq!(reg.destroy_pool(9).unwrap(), ChangedAction::Identity);
}

#[test]
fn destroy_empty_pool() {
    let mut reg = PoolRegistry::new();
    reg.create_pool(1, "p".to_string(), devs(), None).unwrap();
    assert_eq!(reg.destroy_pool(1).unwrap(), ChangedAction::Changed);
    let (names, _, _, _) = reg.pool_list();
    assert!(names.is_empty());
}

#[test]
fn destroy_stopped_pool_conflicts() {
    let mut reg = PoolRegistry::new();
    reg.create_pool(1, "p".to_string(), devs(), None).unwrap();
    reg.stop_pool(1).unwrap();
    let r = reg.destroy_pool(1);
    assert_eq!(r.unwrap_err(), StratisError::Conflict(ConflictCause::PoolNotActive));
}

#[test]
fn rename_pool_outcomes() {
    let mut reg = PoolRegistry::new();
    reg.create_pool(1, "a".to_string(), devs(), None).unwrap();
    reg.create_pool(2, "b".to_string(), vec![dev("/dev/sdc", GIB)], None).unwrap();
    // Renaming to the current name is an identity.
    assert_eq!(reg.rename_pool(1, "a".to_string()).unwrap(), RenameAction::Identity);
    // Renaming to another pool's name conflicts.
    let r = reg.rename_pool(1, "b".to_string());
    assert_eq!(r.unwrap_err(), StratisError::Conflict(ConflictCause::NameInUse));
    // A fresh name goes through.
    assert_eq!(reg.rename_pool(1, "c".to_string()).unwrap(), RenameAction::Renamed);
    let (names, _, _, _) = reg.pool_list();
    assert!(names.contains(&"c".to_string()));
    assert!(!names.contains(&"a".to_string()));
    // An unresolved UUID is reported, not silently ignored.
    assert_eq!(reg.rename_pool(9, "d".to_string()).unwrap_err(), StratisError::NotFound);
}

#[test]
fn rename_stopped_pool() {
    let mut reg = PoolRegistry::new();
    reg.create_pool(1, "a".to_string(), devs(), None).unwrap();
    reg.stop_pool(1).unwrap();
    assert_eq!(reg.rename_pool(1, "z".to_string()).unwrap(), RenameAction::Renamed);
    reg.start_pool(&PoolIdentifier::Name("z".to_string()), None).unwrap();
}

#[test]
fn add_cache_devices_before_init_cache_conflicts() {
    let mut reg = PoolRegistry::new();
    reg.create_pool(1, "p".to_string(), devs(), None).unwrap();
    // The cache tier was never initialized: the request is refused before
    // any device list changes.
    let r = reg.add_blockdevs(1, BlockDevTier::Cache, vec![dev("/dev/sdx", GIB)]);
    assert_eq!(r.unwrap_err(), StratisError::Conflict(ConflictCause::CacheNotInitialized));
    let (_, sizes, props, _) = reg.pool_list();
    assert_eq!(sizes[0].0, 20 * GIB);
    assert_eq!(props[0].0, false);
}

#[test]
fn init_cache_then_add_cache_devices() {
    let mut reg = PoolRegistry::new();
    reg.create_pool(1, "p".to_string(), devs(), None).unwrap();
    let r = reg.init_cache(1, vec![dev("/dev/sdx", GIB)]).unwrap();
    assert_eq!(r, ChangedAction::Changed);
    // Initializing again with the same devices is an identity, with other
    // devices a conflict.
    let r = reg.init_cache(1, vec![dev("/dev/sdx", GIB)]).unwrap();
    assert_eq!(r, ChangedAction::Identity);
    let r = reg.init_cache(1, vec![dev("/dev/sdy", GIB)]);
    assert_eq!(
        r.unwrap_err(),
        StratisError::Conflict(ConflictCause::CacheAlreadyInitialized)
    );
    // Adding a fresh cache device extends the tier and the total.
    let r = reg.add_blockdevs(1, BlockDevTier::Cache, vec![dev("/dev/sdy", GIB)]).unwrap();
    assert_eq!(r, ChangedAction::Changed);
    let (_, sizes, props, _) = reg.pool_list();
    assert_eq!(sizes[0].0, 22 * GIB);
    assert_eq!(props[0].0, true);
}

#[test]
fn add_blockdevs_partial_overlap_conflicts() {
    let mut reg = PoolRegistry::new();
    reg.create_pool(1, "p".to_string(), devs(), None).unwrap();
    let r = reg.add_blockdevs(
        1,
        BlockDevTier::Data,
        vec![dev("/dev/sda", GIB), dev("/dev/sdq", GIB)],
    );
    assert_eq!(r.unwrap_err(), StratisError::Conflict(ConflictCause::DeviceInUse));
}

#[test]
fn add_blockdevs_to_stopped_pool_conflicts() {
    let mut reg = PoolRegistry::new();
    reg.create_pool(1, "p".to_string(), devs(), None).unwrap();
    reg.stop_pool(1).unwrap();
    let r = reg.add_blockdevs(1, BlockDevTier::Data, vec![dev("/dev/sdq", GIB)]);
    assert_eq!(r.unwrap_err(), StratisError::Conflict(ConflictCause::PoolNotActive));
    let r = reg.add_blockdevs(9, BlockDevTier::Data, vec![dev("/dev/sdq", GIB)]);
    assert_eq!(r.unwrap_err(), StratisError::NotFound);
}

#[test]
fn create_filesystem_validates_size_and_keeps_registry() {
    let mut reg = PoolRegistry::new();
    reg.create_pool(1, "p".to_string(), devs(), None).unwrap();
    // 256 MiB lies below the 512 MiB floor: a validation failure that
    // leaves the registry untouched.
    let r = reg.create_filesystem(1, "fs".to_string(), Bytes(256 * (1 << 20)));
    assert_eq!(
        r.unwrap_err(),
        StratisError::Validation(ValidationCause::FilesystemSizeOutOfBounds)
    );
    let r = reg.create_filesystem(1, "fs".to_string(), Bytes(GIB + 1));
    assert_eq!(
        r.unwrap_err(),
        StratisError::Validation(ValidationCause::FilesystemSizeNotSectorMultiple)
    );
    // No filesystem was recorded: the pool still destroys cleanly.
    assert_eq!(reg.destroy_pool(1).unwrap(), ChangedAction::Changed);
}

#[test]
fn create_filesystem_idempotence() {
    let mut reg = PoolRegistry::new();
    reg.create_pool(1, "p".to_string(), devs(), None).unwrap();
    assert_eq!(
        reg.create_filesystem(1, "fs".to_string(), Bytes(GIB)).unwrap(),
        ChangedAction::Changed
    );
    assert_eq!(
        reg.create_filesystem(1, "fs".to_string(), Bytes(GIB)).unwrap(),
        ChangedAction::Identity
    );
    let r = reg.create_filesystem(1, "fs".to_string(), Bytes(2 * GIB));
    assert_eq!(r.unwrap_err(), StratisError::Conflict(ConflictCause::NameInUse));
}

#[test]
fn encryption_queries() {
    let mut reg = PoolRegistry::new();
    reg.create_pool(1, "plain".to_string(), devs(), None).unwrap();
    reg.create_pool(2, "enc".to_string(), vec![dev("/dev/sdc", 10 * GIB)], Some(enc_with_both()))
        .unwrap();
    let plain = PoolIdentifier::Name("plain".to_string());
    let enc = PoolIdentifier::Uuid(2);
    assert!(!reg.pool_is_encrypted(&plain).unwrap());
    assert!(reg.pool_is_encrypted(&enc).unwrap());
    assert!(!reg.pool_is_bound(&plain).unwrap());
    assert!(reg.pool_is_bound(&enc).unwrap());
    assert!(!reg.pool_has_passphrase(&plain).unwrap());
    assert!(reg.pool_has_passphrase(&enc).unwrap());
    assert_eq!(reg.pool_clevis_pin(&plain).unwrap(), None);
    assert_eq!(reg.pool_clevis_pin(&enc).unwrap(), Some("tang".to_string()));
    // An unknown identifier resolves nowhere.
    let missing = PoolIdentifier::Name("nope".to_string());
    assert_eq!(reg.pool_is_encrypted(&missing).unwrap_err(), StratisError::NotFound);
    assert_eq!(reg.pool_is_stopped(&missing).unwrap_err(), StratisError::NotFound);
    assert_eq!(reg.pool_clevis_pin(&missing).unwrap_err(), StratisError::NotFound);
}

#[test]
fn locked_pool_queries() {
    let mut reg = PoolRegistry::new();
    let enc = EncryptionInfo {
        key_description: Some(KeyDescription("krd".to_string())),
        clevis_info: None,
    };
    reg.insert_locked(5, "lp".to_string(), devs(), enc).unwrap();
    let id = PoolIdentifier::Name("lp".to_string());
    assert!(reg.pool_is_encrypted(&id).unwrap());
    assert!(!reg.pool_is_bound(&id).unwrap());
    assert!(reg.pool_has_passphrase(&id).unwrap());
    assert_eq!(reg.pool_clevis_pin(&id).unwrap(), None);
    // A locked pool is not listed among the active ones, and is not
    // "stopped".
    let (names, _, _, _) = reg.pool_list();
    assert!(names.is_empty());
    assert_eq!(reg.pool_is_stopped(&id).unwrap_err(), StratisError::NotFound);
    // It cannot be stopped while locked.
    assert_eq!(
        reg.stop_pool(5).unwrap_err(),
        StratisError::Conflict(ConflictCause::PoolNotActive)
    );
}

#[test]
fn locked_pools_listing() {
    let mut reg = PoolRegistry::new();
    let enc = EncryptionInfo {
        key_description: Some(KeyDescription("krd".to_string())),
        clevis_info: None,
    };
    reg.insert_locked(5, "lp".to_string(), devs(), enc).unwrap();
    assert_eq!(reg.locked_pools(), vec![(5, "lp".to_string())]);
    // Starting it empties the locked partition.
    reg.start_pool(&PoolIdentifier::Uuid(5), Some(UnlockMethod::Keyring)).unwrap();
    assert!(reg.locked_pools().is_empty());
}

#[test]
fn pool_list_rows_correlate() {
    let mut reg = PoolRegistry::new();
    reg.create_pool(1, "a".to_string(), vec![dev("/dev/sda", 10 * GIB)], None).unwrap();
    reg.create_pool(2, "b".to_string(), vec![dev("/dev/sdb", 20 * GIB)], Some(enc_with_both()))
        .unwrap();
    let (names, sizes, props, uuids) = reg.pool_list();
    assert_eq!(names.len(), 2);
    let ia = names.iter().position(|n| n == "a").unwrap();
    let ib = names.iter().position(|n| n == "b").unwrap();
    assert_eq!(sizes[ia], (10 * GIB, None));
    assert_eq!(sizes[ib], (20 * GIB, None));
    assert_eq!(props[ia], (false, false));
    assert_eq!(props[ib], (false, true));
    assert_eq!(uuids[ia], 1);
    assert_eq!(uuids[ib], 2);
}
