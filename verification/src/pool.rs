//! The data model of pools: identifiers, encryption settings, block
//! devices, filesystems, and the pool aggregate itself.

use vstd::prelude::*;

use crate::units::{Bytes, Sectors, SECTOR_SIZE, SECTORS_LIMIT};

verus! {

/// A pool UUID, as the 128-bit value of the identifier.
pub type PoolUuid = u128;

/// The kernel keyring description under which a pool's passphrase is
/// stored.
#[derive(Clone, Debug, PartialEq, Eq)]
pub struct KeyDescription(pub String);

/// An automated-unlock binding: the pin name and the pin's configuration,
/// as its serialized text.
#[derive(Clone, Debug, PartialEq, Eq)]
pub struct ClevisInfo {
    pub pin: String,
    pub config: String,
}

/// Encryption settings of a pool: an optional key description for
/// passphrase-based unlock and an optional clevis binding for automated
/// unlock. A pool has zero or one of these records.
#[derive(Clone, Debug, PartialEq, Eq)]
pub struct EncryptionInfo {
    pub key_description: Option<KeyDescription>,
    pub clevis_info: Option<ClevisInfo>,
}

/// How an encrypted pool is to be unlocked when started.
#[derive(Clone, Copy, Debug, PartialEq, Eq, Structural)]
pub enum UnlockMethod {
    /// Unlock with a passphrase stored under the pool's key description.
    Keyring,
    /// Unlock through the pool's clevis binding.
    Clevis,
}

/// The device tier a block device belongs to.
#[derive(Clone, Copy, Debug, PartialEq, Eq, Structural)]
pub enum BlockDevTier {
    Data,
    Cache,
}

/// Identifiers recorded in each device's on-disk metadata region when the
/// device is initialized, and never mutated afterwards.
#[derive(Clone, Copy, Debug, PartialEq, Eq, Structural)]
pub struct StratisIdentifiers {
    pub pool_uuid: PoolUuid,
    pub device_uuid: u128,
}

/// Either of the two ways a caller may identify a pool.
#[derive(Clone, Debug, PartialEq, Eq)]
pub enum PoolIdentifier {
    Uuid(PoolUuid),
    Name(String),
}

/// A block device offered to a pool: its device node path and its size.
#[derive(Clone, Debug, PartialEq, Eq)]
pub struct BlockDev {
    pub path: String,
    pub size: Bytes,
}

/// A filesystem carved out of a pool.
#[derive(Clone, Debug, PartialEq, Eq)]
pub struct Filesystem {
    pub name: String,
    pub size: Bytes,
}

/// No two of `devs` name the same device path.
pub open spec fn paths_unique(devs: Seq<BlockDev>) -> bool {
    forall|i: int, j: int|
        0 <= i < devs.len() && 0 <= j < devs.len() && i != j
            ==> (#[trigger] devs[i]).path@ != (#[trigger] devs[j]).path@
}

/// Some device of `devs` has the path `p`.
pub open spec fn has_path(devs: Seq<BlockDev>, p: Seq<char>) -> bool {
    exists|i: int| 0 <= i < devs.len() && (#[trigger] devs[i]).path@ == p
}

/// `a` and `b` name the same set of device paths.
pub open spec fn same_device_paths(a: Seq<BlockDev>, b: Seq<BlockDev>) -> bool {
    &&& forall|i: int| 0 <= i < a.len() ==> has_path(b, (#[trigger] a[i]).path@)
    &&& forall|j: int| 0 <= j < b.len() ==> has_path(a, (#[trigger] b[j]).path@)
}

/// Sum of the whole-sector counts of the given devices.
pub open spec fn sum_dev_sectors(devs: Seq<BlockDev>) -> int
    decreases devs.len(),
{
    if devs.len() == 0 {
        0
    } else {
        sum_dev_sectors(devs.drop_last()) + devs.last().size.0 / SECTOR_SIZE
    }
}

/// Key descriptions agree, by value.
pub open spec fn key_desc_eqv(a: Option<KeyDescription>, b: Option<KeyDescription>) -> bool {
    match (a, b) {
        (None, None) => true,
        (Some(x), Some(y)) => x.0@ == y.0@,
        _ => false,
    }
}

/// Clevis bindings agree, by value.
pub open spec fn clevis_eqv(a: Option<ClevisInfo>, b: Option<ClevisInfo>) -> bool {
    match (a, b) {
        (None, None) => true,
        (Some(x), Some(y)) => x.pin@ == y.pin@ && x.config@ == y.config@,
        _ => false,
    }
}

/// Encryption settings agree, by value.
pub open spec fn enc_info_eqv(a: Option<EncryptionInfo>, b: Option<EncryptionInfo>) -> bool {
    match (a, b) {
        (None, None) => true,
        (Some(x), Some(y)) => key_desc_eqv(x.key_description, y.key_description)
            && clevis_eqv(x.clevis_info, y.clevis_info),
        _ => false,
    }
}

/// A pool: a required data tier, a cache tier once initialized, the
/// filesystems carved out of it, and its encryption settings. The stored
/// total holds the combined sector count of all member devices.
#[derive(Clone, Debug, PartialEq, Eq)]
pub struct Pool {
    pub name: String,
    pub data_devices: Vec<BlockDev>,
    pub cache_devices: Option<Vec<BlockDev>>,
    pub filesystems: Vec<Filesystem>,
    pub encryption_info: Option<EncryptionInfo>,
    pub total_physical_size: Sectors,
    pub total_physical_used: Option<Sectors>,
}

impl Pool {
    /// The cache devices, or the empty sequence while no cache tier
    /// exists.
    pub open spec fn spec_cache_devices(self) -> Seq<BlockDev> {
        match self.cache_devices {
            Some(v) => v@,
            None => Seq::empty(),
        }
    }

    /// Every device of the pool, data tier first.
    pub open spec fn all_devices(self) -> Seq<BlockDev> {
        self.data_devices@ + self.spec_cache_devices()
    }

    /// Well-formedness: at least one data device, no device path named
    /// twice, no filesystem name used twice, an initialized cache tier is
    /// non-empty, and the stored total is the combined sector count of all
    /// member devices.
    pub open spec fn wf(self) -> bool {
        &&& self.data_devices@.len() > 0
        &&& paths_unique(self.all_devices())
        &&& (self.cache_devices matches Some(c) ==> c@.len() > 0)
        &&& (forall|i: int, j: int|
            0 <= i < self.filesystems@.len() && 0 <= j < self.filesystems@.len() && i != j
                ==> (#[trigger] self.filesystems@[i]).name@
                    != (#[trigger] self.filesystems@[j]).name@)
        &&& self.total_physical_size.0 == sum_dev_sectors(self.all_devices())
        &&& self.total_physical_size.0 <= SECTORS_LIMIT
        &&& (self.total_physical_used matches Some(u) ==> u.0 <= self.total_physical_size.0)
    }

    /// True when the pool has an initialized cache tier.
    pub fn has_cache(&self) -> (r: bool)
        ensures
            r == (self.cache_devices is Some),
    {
        self.cache_devices.is_some()
    }

    /// True when the pool is encrypted.
    pub fn is_encrypted(&self) -> (r: bool)
        ensures
            r == (self.encryption_info is Some),
    {
        self.encryption_info.is_some()
    }

    /// The encryption settings of this pool, when encrypted.
    pub fn encryption_info(&self) -> (r: &Option<EncryptionInfo>)
        ensures
            r == self.encryption_info,
    {
        &self.encryption_info
    }

    /// The combined size of this pool's member devices.
    pub fn total_physical_size(&self) -> (r: Sectors)
        ensures
            r == self.total_physical_size,
    {
        self.total_physical_size
    }

    /// The space the pool reports as consumed, when known.
    pub fn total_physical_used(&self) -> (r: Option<Sectors>)
        ensures
            r == self.total_physical_used,
    {
        self.total_physical_used
    }
}

/// True when some device of `devs` has the path `p`.
pub fn contains_path(devs: &Vec<BlockDev>, p: &String) -> (r: bool)
    ensures
        r == has_path(devs@, p@),
{
    let n = devs.len();
    let mut i: usize = 0;
    while i < n
        invariant
            n == devs@.len(),
            0 <= i <= n,
            forall|j: int| 0 <= j < i ==> (#[trigger] devs@[j]).path@ != p@,
        decreases n - i,
    {
        if devs[i].path == *p {
            return true;
        }
        i = i + 1;
    }
    false
}

/// True when `a` and `b` name the same set of device paths.
pub fn check_same_device_paths(a: &Vec<BlockDev>, b: &Vec<BlockDev>) -> (r: bool)
    ensures
        r == same_device_paths(a@, b@),
{
    let mut i: usize = 0;
    while i < a.len()
        invariant
            0 <= i <= a@.len(),
            forall|j: int| 0 <= j < i ==> has_path(b@, (#[trigger] a@[j]).path@),
        decreases a@.len() - i,
    {
        if !contains_path(b, &a[i].path) {
            return false;
        }
        i = i + 1;
    }
    let mut j: usize = 0;
    while j < b.len()
        invariant
            0 <= j <= b@.len(),
            forall|k: int| 0 <= k < a@.len() ==> has_path(b@, (#[trigger] a@[k]).path@),
            forall|k: int| 0 <= k < j ==> has_path(a@, (#[trigger] b@[k]).path@),
        decreases b@.len() - j,
    {
        if !contains_path(a, &b[j].path) {
            return false;
        }
        j = j + 1;
    }
    true
}

/// True when no two of `devs` name the same device path.
pub fn check_paths_unique(devs: &Vec<BlockDev>) -> (r: bool)
    ensures
        r == paths_unique(devs@),
{
    let n = devs.len();
    let mut i: usize = 0;
    while i < n
        invariant
            n == devs@.len(),
            0 <= i <= n,
            forall|x: int, y: int|
                0 <= x < i && 0 <= y < n && x != y
                    ==> (#[trigger] devs@[x]).path@ != (#[trigger] devs@[y]).path@,
        decreases n - i,
    {
        let mut j: usize = i + 1;
        while j < n
            invariant
                n == devs@.len(),
                0 <= i < n,
                i < j <= n,
                forall|x: int, y: int|
                    0 <= x < i && 0 <= y < n && x != y
                        ==> (#[trigger] devs@[x]).path@ != (#[trigger] devs@[y]).path@,
                forall|y: int| i < y < j ==> (#[trigger] devs@[y]).path@ != devs@[i as int].path@,
            decreases n - j,
        {
            if devs[i].path == devs[j].path {
                return false;
            }
            j = j + 1;
        }
        i = i + 1;
    }
    true
}

/// True when the two key descriptions agree.
pub fn check_key_desc_eqv(a: &Option<KeyDescription>, b: &Option<KeyDescription>) -> (r: bool)
    ensures
        r == key_desc_eqv(*a, *b),
{
    match (a, b) {
        (None, None) => true,
        (Some(x), Some(y)) => x.0 == y.0,
        _ => false,
    }
}

/// True when the two clevis bindings agree.
pub fn check_clevis_eqv(a: &Option<ClevisInfo>, b: &Option<ClevisInfo>) -> (r: bool)
    ensures
        r == clevis_eqv(*a, *b),
{
    match (a, b) {
        (None, None) => true,
        (Some(x), Some(y)) => x.pin == y.pin && x.config == y.config,
        _ => false,
    }
}

/// True when the two encryption settings agree.
pub fn check_enc_info_eqv(a: &Option<EncryptionInfo>, b: &Option<EncryptionInfo>) -> (r: bool)
    ensures
        r == enc_info_eqv(*a, *b),
{
    match (a, b) {
        (None, None) => true,
        (Some(x), Some(y)) => check_key_desc_eqv(&x.key_description, &y.key_description)
            && check_clevis_eqv(&x.clevis_info, &y.clevis_info),
        _ => false,
    }
}

} // verus!
