//! Prediction of the space a thin-provisioned filesystem or pool will
//! consume, from a recorded table of empirical usage samples and the fixed
//! metadata overheads.

use vstd::prelude::*;
use vstd::arithmetic::power2::{
    lemma2_to64, lemma2_to64_rest, lemma_pow2_strictly_increases, lemma_pow2_unfold, pow2,
};

use crate::errors::{InsufficientSpaceReason, StratisError, ValidationCause};
use crate::sizes::{
    crypt_metadata_size, spec_bda_extended_sectors, ThinPoolSizeParams, BDA,
    CRYPT_METADATA_SIZE_BYTES, MIN_DATA_SECTORS,
};
use crate::units::{Bytes, Sectors, SECTOR_SIZE, SECTORS_LIMIT};

verus! {

/// Smallest logical filesystem size with a recorded usage sample: 512 MiB,
/// two to the power of 29.
pub const FS_LOGICAL_SIZE_MIN: u128 = 536_870_912;

/// Exclusive ceiling on supported logical filesystem sizes: 32 PiB, two to
/// the power of 55.
pub const FS_LOGICAL_SIZE_MAX: u128 = 36_028_797_018_963_968;

/// Number of recorded usage samples: one per power-of-two bucket from the
/// smallest supported size up to the ceiling.
pub const FS_SIZE_LOOKUP_TABLE_LEN: usize = 27;

/// The recorded byte usage of an empty filesystem at each power-of-two
/// logical size, sample `i` taken at logical size two to the power `29 + i`.
pub open spec fn usage_table() -> Seq<u128> {
    seq![
        20_971_520u128,
        20_971_520,
        22_020_096,
        23_068_672,
        23_068_672,
        31_457_280,
        34_603_008,
        51_380_224,
        84_934_656,
        152_043_520,
        286_261_248,
        571_473_920,
        1_108_344_832,
        2_171_600_896,
        2_171_600_896,
        2_171_600_896,
        2_171_600_896,
        2_205_155_328,
        2_273_312_768,
        2_407_530_496,
        2_675_965_952,
        3_212_836_864,
        4_286_578_688,
        6_434_062_336,
        10_729_029_632,
        19_318_964_224,
        36_498_833_408,
    ]
}

/// Search upward from bucket `i` for the first bucket whose logical size,
/// two to the power `29 + i`, is at least `size`; the last bucket caps the
/// search.
pub open spec fn bucket_search(size: nat, i: nat) -> nat
    decreases 26 - i,
{
    if i >= 26 {
        26
    } else if pow2((29 + i) as nat) >= size {
        i
    } else {
        bucket_search(size, i + 1)
    }
}

/// The usage sample recorded for the smallest power-of-two bucket that is
/// at least `size`, among buckets doubling from 512 MiB.
pub open spec fn bucket_index(size: nat) -> nat {
    bucket_search(size, 0)
}

proof fn lemma_bucket_search_char(size: nat, i: nat)
    requires
        i <= 26,
        forall|j: nat| j < i ==> #[trigger] pow2((29 + j) as nat) < size,
    ensures
        i <= bucket_search(size, i) <= 26,
        size <= pow2(55) ==> pow2((29 + bucket_search(size, i)) as nat) >= size,
        forall|j: nat| j < bucket_search(size, i) ==> #[trigger] pow2((29 + j) as nat) < size,
    decreases 26 - i,
{
    if i >= 26 {
        lemma2_to64_rest();
    } else if pow2((29 + i) as nat) >= size {
    } else {
        assert(forall|j: nat| j < i + 1 ==> #[trigger] pow2((29 + j) as nat) < size);
        lemma_bucket_search_char(size, i + 1);
    }
}

/// The bucket chosen for a supported size is at least as large as the size,
/// and every earlier bucket is smaller than the size.
pub proof fn lemma_bucket_index_char(size: nat)
    requires
        1 <= size <= pow2(55),
    ensures
        bucket_index(size) <= 26,
        pow2((29 + bucket_index(size)) as nat) >= size,
        forall|j: nat| j < bucket_index(size) ==> #[trigger] pow2((29 + j) as nat) < size,
{
    lemma_bucket_search_char(size, 0);
}

/// Doubling a supported size advances the bucket index by exactly one,
/// until the table is exhausted.
pub proof fn lemma_bucket_index_doubles(size: nat)
    requires
        pow2(29) <= size,
        2 * size <= pow2(55),
    ensures
        bucket_index(2 * size) == bucket_index(size) + 1,
{
    let i = bucket_index(size);
    let k = bucket_index(2 * size);
    vstd::arithmetic::power2::lemma_pow2_pos(29);
    lemma_bucket_index_char(size);
    lemma_bucket_index_char(2 * size);
    // The bucket above i holds twice the doubled size's lower bound.
    lemma_pow2_unfold((30 + i) as nat);
    // Every bucket up to and including i is below the doubled size.
    if i > 0 {
        assert(pow2((29 + (i - 1)) as nat) < size);
        lemma_pow2_unfold((29 + i) as nat);
        assert(pow2((29 + i) as nat) < 2 * size);
    } else {
        assert(pow2(29) <= size < 2 * size);
    }
    if k <= i {
        if k < i {
            lemma_pow2_strictly_increases((29 + k) as nat, (29 + i) as nat);
        }
        assert(pow2((29 + k) as nat) <= pow2((29 + i) as nat));
        assert(false);
    }
    if k > i + 1 {
        assert(pow2((29 + (i + 1)) as nat) < 2 * size);
        assert(false);
    }
}

/// The recorded usage table, held in memory for repeated lookups.
pub struct FSSizeLookup {
    internal: Vec<u128>,
}

impl View for FSSizeLookup {
    type V = Seq<u128>;

    closed spec fn view(&self) -> Seq<u128> {
        self.internal@
    }
}

impl FSSizeLookup {
    /// Build the table of recorded usage samples for filesystems of
    /// doubling logical size, starting at 512 MiB.
    pub fn new() -> (r: Self)
        ensures
            r@ == usage_table(),
            r@.len() == FS_SIZE_LOOKUP_TABLE_LEN,
    {
        let mut internal: Vec<u128> = Vec::new();
        internal.push(20_971_520);
        internal.push(20_971_520);
        internal.push(22_020_096);
        internal.push(23_068_672);
        internal.push(23_068_672);
        internal.push(31_457_280);
        internal.push(34_603_008);
        internal.push(51_380_224);
        internal.push(84_934_656);
        internal.push(152_043_520);
        internal.push(286_261_248);
        internal.push(571_473_920);
        internal.push(1_108_344_832);
        internal.push(2_171_600_896);
        internal.push(2_171_600_896);
        internal.push(2_171_600_896);
        internal.push(2_171_600_896);
        internal.push(2_205_155_328);
        internal.push(2_273_312_768);
        internal.push(2_407_530_496);
        internal.push(2_675_965_952);
        internal.push(3_212_836_864);
        internal.push(4_286_578_688);
        internal.push(6_434_062_336);
        internal.push(10_729_029_632);
        internal.push(19_318_964_224);
        internal.push(36_498_833_408);
        proof {
            assert(internal@ =~= usage_table());
        }
        FSSizeLookup { internal }
    }

    /// The predicted usage, in sectors, for a filesystem of the given
    /// logical size: the sample recorded for the smallest power-of-two
    /// bucket at least as large as the size.
    pub fn lookup(&self, logical_size: Bytes) -> (r: Sectors)
        requires
            self@ == usage_table(),
            FS_LOGICAL_SIZE_MIN <= logical_size.0 < FS_LOGICAL_SIZE_MAX,
        ensures
            bucket_index(logical_size.0 as nat) < 27,
            r.0 == usage_table()[bucket_index(logical_size.0 as nat) as int] / 512,
    {
        let raw = logical_size.0;
        proof {
            lemma2_to64();
            lemma2_to64_rest();
        }
        let mut index: usize = 0;
        let mut bound: u128 = FS_LOGICAL_SIZE_MIN;
        while index < 26 && bound < raw
            invariant
                FS_LOGICAL_SIZE_MIN <= raw < FS_LOGICAL_SIZE_MAX,
                index <= 26,
                bound == pow2((29 + index) as nat),
                bucket_search(raw as nat, index as nat) == bucket_index(raw as nat),
            decreases 26 - index,
        {
            proof {
                lemma_pow2_unfold((30 + index) as nat);
                if 29 + index < 54 {
                    lemma_pow2_strictly_increases((29 + index) as nat, 54);
                }
                lemma2_to64_rest();
            }
            bound = bound * 2;
            index = index + 1;
        }
        Sectors(self.internal[index] / 512)
    }
}

/// The predicted usage for one filesystem of the given logical size.
pub fn lookup_usage(logical_size: Bytes) -> (r: Sectors)
    requires
        FS_LOGICAL_SIZE_MIN <= logical_size.0 < FS_LOGICAL_SIZE_MAX,
    ensures
        bucket_index(logical_size.0 as nat) < 27,
        r.0 == usage_table()[bucket_index(logical_size.0 as nat) as int] / 512,
{
    let table = FSSizeLookup::new();
    table.lookup(logical_size)
}

/// Validation of requested filesystem sizes, in request order: a size
/// outside the supported range is rejected first, then one that is not an
/// exact multiple of the sector size.
pub open spec fn fs_validate(sizes: Seq<Bytes>) -> Result<(), ValidationCause>
    decreases sizes.len(),
{
    if sizes.len() == 0 {
        Ok(())
    } else if !(FS_LOGICAL_SIZE_MIN <= sizes[0].0 < FS_LOGICAL_SIZE_MAX) {
        Err(ValidationCause::FilesystemSizeOutOfBounds)
    } else if sizes[0].0 % SECTOR_SIZE != 0 {
        Err(ValidationCause::FilesystemSizeNotSectorMultiple)
    } else {
        fs_validate(sizes.skip(1))
    }
}

/// Sum of the recorded usage samples, in sectors, over the given sizes.
pub open spec fn sum_usage(sizes: Seq<Bytes>) -> int
    decreases sizes.len(),
{
    if sizes.len() == 0 {
        0
    } else {
        sum_usage(sizes.drop_last()) + usage_table()[bucket_index(
            sizes.last().0 as nat) as int] / 512
    }
}

/// Sum of the exact sector counts of the given sizes.
pub open spec fn sum_sectors(sizes: Seq<Bytes>) -> int
    decreases sizes.len(),
{
    if sizes.len() == 0 {
        0
    } else {
        sum_sectors(sizes.drop_last()) + sizes.last().0 / SECTOR_SIZE
    }
}

proof fn lemma_sum_sectors_nonneg(sizes: Seq<Bytes>)
    ensures
        sum_sectors(sizes) >= 0,
    decreases sizes.len(),
{
    if sizes.len() > 0 {
        lemma_sum_sectors_nonneg(sizes.drop_last());
    }
}

proof fn lemma_sum_sectors_take_le(sizes: Seq<Bytes>, i: int)
    requires
        0 <= i <= sizes.len(),
    ensures
        sum_sectors(sizes.take(i)) <= sum_sectors(sizes),
    decreases sizes.len() - i,
{
    if i == sizes.len() {
        assert(sizes.take(i) =~= sizes);
    } else {
        assert(sizes.take(i + 1).drop_last() =~= sizes.take(i));
        lemma_sum_sectors_take_le(sizes, i + 1);
    }
}

/// Predicted sector usage of the requested filesystems. With
/// overprovisioning the prediction is the sum of the recorded samples;
/// without it, each filesystem reserves its exact size.
pub fn predict_filesystem_usage(overprovisioned: bool, filesystem_sizes: Vec<Bytes>) -> (r:
    Result<Sectors, StratisError>)
    ensures
        r is Ok <==> fs_validate(filesystem_sizes@) is Ok,
        fs_validate(filesystem_sizes@) matches Err(c) ==> r == Err::<Sectors, StratisError>(
            StratisError::Validation(c)),
        r is Ok ==> r->Ok_0.0 == if overprovisioned {
            sum_usage(filesystem_sizes@)
        } else {
            sum_sectors(filesystem_sizes@)
        },
{
    let n = filesystem_sizes.len();
    proof {
        assert(filesystem_sizes@.skip(0) =~= filesystem_sizes@);
    }
    let mut i: usize = 0;
    while i < n
        invariant
            n == filesystem_sizes@.len(),
            0 <= i <= n,
            fs_validate(filesystem_sizes@) == fs_validate(filesystem_sizes@.skip(i as int)),
            forall|j: int| 0 <= j < i ==> fs_size_valid(filesystem_sizes@[j]),
        decreases n - i,
    {
        let sz = filesystem_sizes[i].0;
        proof {
            assert(filesystem_sizes@.skip(i as int)[0] == filesystem_sizes@[i as int]);
        }
        if !(FS_LOGICAL_SIZE_MIN <= sz && sz < FS_LOGICAL_SIZE_MAX) {
            return Err(StratisError::Validation(ValidationCause::FilesystemSizeOutOfBounds));
        }
        if sz % SECTOR_SIZE != 0 {
            return Err(StratisError::Validation(
                ValidationCause::FilesystemSizeNotSectorMultiple));
        }
        proof {
            assert(filesystem_sizes@.skip(i as int).skip(1) =~= filesystem_sizes@.skip(
                i as int + 1));
        }
        i = i + 1;
    }
    let table = FSSizeLookup::new();
    let mut acc: u128 = 0;
    let mut k: usize = 0;
    while k < n
        invariant
            n == filesystem_sizes@.len(),
            0 <= k <= n,
            table@ == usage_table(),
            forall|j: int| 0 <= j < n ==> fs_size_valid(filesystem_sizes@[j]),
            acc == if overprovisioned {
                sum_usage(filesystem_sizes@.take(k as int))
            } else {
                sum_sectors(filesystem_sizes@.take(k as int))
            },
            acc <= k * 0x400000000000,
        decreases n - k,
    {
        let term: u128 = if overprovisioned {
            let t = table.lookup(filesystem_sizes[k]);
            proof {
                lemma_usage_table_bounded(bucket_index(filesystem_sizes@[k as int].0 as nat));
            }
            t.0
        } else {
            filesystem_sizes[k].0 / SECTOR_SIZE
        };
        proof {
            assert(term <= 0x400000000000);
            assert((k + 1) * 0x400000000000 == k * 0x400000000000 + 0x400000000000)
                by (nonlinear_arith);
            assert(k * 0x400000000000 <= (n as int) * 0x400000000000 <= 0xffffffffffffffff
                * 0x400000000000) by (nonlinear_arith)
                requires 0 <= k <= n <= 0xffffffffffffffff;
            assert(filesystem_sizes@.take(k as int + 1).drop_last() =~= filesystem_sizes@.take(
                k as int));
        }
        acc = acc + term;
        k = k + 1;
    }
    proof {
        assert(filesystem_sizes@.take(n as int) =~= filesystem_sizes@);
    }
    Ok(Sectors(acc))
}

/// A requested filesystem size the core accepts: within the supported
/// range and an exact number of sectors.
pub open spec fn fs_size_valid(size: Bytes) -> bool {
    &&& FS_LOGICAL_SIZE_MIN <= size.0 < FS_LOGICAL_SIZE_MAX
    &&& size.0 % SECTOR_SIZE == 0
}

proof fn lemma_usage_table_bounded(i: nat)
    requires
        i < 27,
    ensures
        usage_table()[i as int] / 512 <= 0x400000000000,
{
}


/// Report of predicted pool usage; every field a byte count.
#[derive(Clone, Copy, Debug, PartialEq, Eq, Structural)]
pub struct UsageReport {
    /// Combined size of all devices given to the pool.
    pub total: Bytes,
    /// Space consumed by metadata, bookkeeping and predicted filesystems.
    pub used: Bytes,
    /// Space left for filesystem data.
    pub free: Bytes,
    /// Space reserved for the thin-pool bookkeeping areas.
    pub admin_space: Bytes,
    /// Space reserved for per-device Stratis metadata and, when encrypted,
    /// the encryption header on each device.
    pub stratis_metadata_space: Bytes,
}

/// The sizes a caller handed over, as a sequence when present.
pub open spec fn view_sizes_opt(o: Option<Vec<Bytes>>) -> Option<Seq<Bytes>> {
    match o {
        Some(v) => Some(v@),
        None => None,
    }
}

/// Predicted filesystem reservation in sectors: the recorded samples when
/// overprovisioned, the exact sizes otherwise.
pub open spec fn spec_fs_used(overprovisioned: bool, fs: Seq<Bytes>) -> int {
    if overprovisioned {
        sum_usage(fs)
    } else {
        sum_sectors(fs)
    }
}

/// The whole pool usage computation, as a mathematical function of its
/// inputs. Filesystem sizes are validated first; then each device must
/// accommodate the encryption header (when encrypted) and the per-device
/// metadata region; the remaining sectors must host the thin-pool
/// bookkeeping areas and the predicted filesystem reservation.
pub open spec fn spec_pool_usage(
    encrypted: bool,
    overprovisioned: bool,
    devices: Seq<Bytes>,
    fs: Option<Seq<Bytes>>,
) -> Result<UsageReport, StratisError> {
    let crypt: int = if encrypted {
        CRYPT_METADATA_SIZE_BYTES as int / 512
    } else {
        0
    };
    let bda: int = spec_bda_extended_sectors();
    if fs is Some && fs_validate(fs.unwrap()) is Err {
        Err(StratisError::Validation(fs_validate(fs.unwrap())->Err_0))
    } else {
        let fs_used: int = if fs is Some {
            spec_fs_used(overprovisioned, fs.unwrap())
        } else {
            0
        };
        if exists|i: int| 0 <= i < devices.len() && (#[trigger] devices[i]).0 / 512 < crypt {
            Err(StratisError::InsufficientSpace(InsufficientSpaceReason::EncryptionMetadata))
        } else if exists|i: int|
            0 <= i < devices.len() && (#[trigger] devices[i]).0 / 512 - crypt < bda {
            Err(StratisError::InsufficientSpace(InsufficientSpaceReason::StratisMetadata))
        } else if sum_sectors(devices) > SECTORS_LIMIT {
            Err(StratisError::Validation(ValidationCause::TotalSizeOverflow))
        } else {
            let total = sum_sectors(devices);
            let non_meta = total - devices.len() * (crypt + bda);
            if non_meta < MIN_DATA_SECTORS {
                Err(StratisError::InsufficientSpace(InsufficientSpaceReason::ThinPoolOverhead))
            } else {
                let admin = 2 * ThinPoolSizeParams::spec_meta_size(non_meta)
                    + ThinPoolSizeParams::spec_mdv_size(non_meta);
                if non_meta - admin < 0 {
                    Err(StratisError::InsufficientSpace(
                        InsufficientSpaceReason::ThinPoolOverhead))
                } else if non_meta - admin < fs_used {
                    Err(StratisError::InsufficientSpace(
                        InsufficientSpaceReason::FilesystemReservation))
                } else {
                    let avail = non_meta - admin - fs_used;
                    Ok(
                        (UsageReport {
                            total: Bytes((total * 512) as u128),
                            used: Bytes(((total - avail) * 512) as u128),
                            free: Bytes((avail * 512) as u128),
                            admin_space: Bytes((admin * 512) as u128),
                            stratis_metadata_space: Bytes(((total - non_meta) * 512) as u128),
                        }),
                    )
                }
            }
        }
    }
}

proof fn lemma_sum_sectors_lower(sizes: Seq<Bytes>, c: int)
    requires
        c >= 0,
        forall|j: int| 0 <= j < sizes.len() ==> (#[trigger] sizes[j]).0 / 512 >= c,
    ensures
        sum_sectors(sizes) >= sizes.len() * c,
    decreases sizes.len(),
{
    if sizes.len() == 0 {
    } else {
        lemma_sum_sectors_lower(sizes.drop_last(), c);
        assert(sizes.len() * c == (sizes.len() - 1) * c + c) by (nonlinear_arith);
    }
}

/// Predict the usage of a newly created pool from whether it is encrypted
/// and overprovisioned, its device sizes, and optionally the sizes of the
/// filesystems to be created in it.
#[verifier::loop_isolation(false)]
pub fn predict_pool_usage(
    encrypted: bool,
    overprovisioned: bool,
    device_sizes: Vec<Bytes>,
    filesystem_sizes: Option<Vec<Bytes>>,
) -> (r: Result<UsageReport, StratisError>)
    ensures
        r == spec_pool_usage(encrypted, overprovisioned, device_sizes@, view_sizes_opt(
            filesystem_sizes)),
{
    let ghost dseq = device_sizes@;
    let ghost fsv = view_sizes_opt(filesystem_sizes);
    let fs_used: u128 = match filesystem_sizes {
        Some(sizes) => {
            match predict_filesystem_usage(overprovisioned, sizes) {
                Ok(s) => s.0,
                Err(e) => {
                    return Err(e);
                },
            }
        },
        None => 0,
    };
    let crypt_sectors: u128 = if encrypted {
        crypt_metadata_size().sectors().0
    } else {
        0
    };
    let bda_sectors: u128 = BDA::default().extended_size().sectors().0;
    proof {
        assert(bda_sectors == spec_bda_extended_sectors());
    }
    let n = device_sizes.len();
    let mut i: usize = 0;
    while i < n
        invariant
            n == dseq.len(),
            dseq == device_sizes@,
            0 <= i <= n,
            crypt_sectors == if encrypted { CRYPT_METADATA_SIZE_BYTES as int / 512 } else { 0int },
            forall|j: int| 0 <= j < i ==> (#[trigger] dseq[j]).0 / 512 >= crypt_sectors,
        decreases n - i,
    {
        if device_sizes[i].0 / SECTOR_SIZE < crypt_sectors {
            return Err(StratisError::InsufficientSpace(
                InsufficientSpaceReason::EncryptionMetadata));
        }
        i = i + 1;
    }
    let mut i2: usize = 0;
    while i2 < n
        invariant
            n == dseq.len(),
            dseq == device_sizes@,
            0 <= i2 <= n,
            crypt_sectors == if encrypted { CRYPT_METADATA_SIZE_BYTES as int / 512 } else { 0int },
            bda_sectors == spec_bda_extended_sectors(),
            forall|j: int| 0 <= j < n ==> (#[trigger] dseq[j]).0 / 512 >= crypt_sectors,
            forall|j: int| 0 <= j < i2 ==>
                (#[trigger] dseq[j]).0 / 512 - crypt_sectors >= bda_sectors,
        decreases n - i2,
    {
        if device_sizes[i2].0 / SECTOR_SIZE - crypt_sectors < bda_sectors {
            return Err(StratisError::InsufficientSpace(
                InsufficientSpaceReason::StratisMetadata));
        }
        i2 = i2 + 1;
    }
    let mut total: u128 = 0;
    let mut k: usize = 0;
    proof {
        assert(dseq.take(0) =~= Seq::<Bytes>::empty());
    }
    while k < n
        invariant
            n == dseq.len(),
            dseq == device_sizes@,
            0 <= k <= n,
            total == sum_sectors(dseq.take(k as int)),
            total <= SECTORS_LIMIT,
        decreases n - k,
    {
        let d = device_sizes[k].0 / SECTOR_SIZE;
        proof {
            assert(dseq.take(k as int + 1).drop_last() =~= dseq.take(k as int));
            assert(dseq.take(k as int + 1).last() == dseq[k as int]);
        }
        if d > SECTORS_LIMIT - total {
            proof {
                lemma_sum_sectors_take_le(dseq, k as int + 1);
            }
            return Err(StratisError::Validation(ValidationCause::TotalSizeOverflow));
        }
        total = total + d;
        k = k + 1;
    }
    proof {
        assert(dseq.take(n as int) =~= dseq);
    }
    let overhead: u128 = crypt_sectors + bda_sectors;
    proof {
        assert((n as int) * (overhead as int) <= 0xffffffffffffffff * 0x10000)
            by (nonlinear_arith)
            requires
                0 <= n <= 0xffffffffffffffff,
                0 <= overhead <= 0x10000,
        ;
    }
    let reserved: u128 = (n as u128) * overhead;
    proof {
        lemma_sum_sectors_lower(dseq, overhead as int);
    }
    let non_meta: u128 = total - reserved;
    let params = match ThinPoolSizeParams::new(Sectors(non_meta)) {
        Ok(p) => p,
        Err(e) => {
            return Err(e);
        },
    };
    let meta: u128 = params.meta_size().0;
    let mdv: u128 = params.mdv_size().0;
    let admin: u128 = 2 * meta + mdv;
    if admin > non_meta {
        return Err(StratisError::InsufficientSpace(InsufficientSpaceReason::ThinPoolOverhead));
    }
    let avail_pre: u128 = non_meta - admin;
    if fs_used > avail_pre {
        return Err(StratisError::InsufficientSpace(
            InsufficientSpaceReason::FilesystemReservation));
    }
    let avail: u128 = avail_pre - fs_used;
    Ok(UsageReport {
        total: Sectors(total).bytes(),
        used: Sectors(total - avail).bytes(),
        free: Sectors(avail).bytes(),
        admin_space: Sectors(admin).bytes(),
        stratis_metadata_space: Sectors(total - non_meta).bytes(),
    })
}

/// For one unencrypted device and no filesystems, the space accounting is
/// exact: the free sectors, the thin-pool bookkeeping areas and the
/// per-device metadata region partition the device, and `used` is what
/// `total` has beyond `free`.
pub proof fn lemma_single_device_accounting(overprovisioned: bool, d: Bytes)
    requires
        spec_pool_usage(false, overprovisioned, seq![d], None) is Ok,
    ensures
        ({
            let r = spec_pool_usage(false, overprovisioned, seq![d], None)->Ok_0;
            let nm = d.0 / 512 - spec_bda_extended_sectors();
            &&& r.free.0 / 512 + (2 * ThinPoolSizeParams::spec_meta_size(nm)
                + ThinPoolSizeParams::spec_mdv_size(nm)) + spec_bda_extended_sectors()
                == d.0 / 512
            &&& r.admin_space.0 / 512 == 2 * ThinPoolSizeParams::spec_meta_size(nm)
                + ThinPoolSizeParams::spec_mdv_size(nm)
            &&& r.used.0 == r.total.0 - r.free.0
        }),
{
    assert(seq![d].drop_last() =~= Seq::<Bytes>::empty());
    assert(sum_sectors(Seq::<Bytes>::empty()) == 0);
    assert(seq![d].last() == d);
    assert(sum_sectors(seq![d]) == sum_sectors(seq![d].drop_last()) + d.0 / 512);
    assert(sum_sectors(seq![d]) == d.0 / 512);
    let total = sum_sectors(seq![d]);
    let nm = total - spec_bda_extended_sectors();
    let admin = 2 * ThinPoolSizeParams::spec_meta_size(nm)
        + ThinPoolSizeParams::spec_mdv_size(nm);
    let avail = nm - admin;
    let r = spec_pool_usage(false, overprovisioned, seq![d], None)->Ok_0;
    assert(r.free.0 == avail * 512);
    assert((avail * 512) / 512 == avail) by (nonlinear_arith);
    assert((admin * 512) / 512 == admin) by (nonlinear_arith);
    assert(((total - avail) * 512) as u128 == ((total * 512) - (avail * 512)) as u128)
        by (nonlinear_arith);
}

/// A device smaller than the per-device metadata region alone makes the
/// pool impossible: the outcome is an insufficient-space failure, never a
/// wrapped or negative size.
pub proof fn lemma_small_device_insufficient(
    encrypted: bool,
    overprovisioned: bool,
    devices: Seq<Bytes>,
    i: int,
)
    requires
        0 <= i < devices.len(),
        devices[i].0 < spec_bda_extended_sectors() * 512,
    ensures
        spec_pool_usage(encrypted, overprovisioned, devices, None)
            == Err::<UsageReport, StratisError>(StratisError::InsufficientSpace(
            InsufficientSpaceReason::EncryptionMetadata))
        || spec_pool_usage(encrypted, overprovisioned, devices, None)
            == Err::<UsageReport, StratisError>(StratisError::InsufficientSpace(
            InsufficientSpaceReason::StratisMetadata)),
{
    let crypt: int = if encrypted {
        CRYPT_METADATA_SIZE_BYTES as int / 512
    } else {
        0
    };
    let bda: int = spec_bda_extended_sectors();
    assert(devices[i].0 / 512 < bda) by (nonlinear_arith)
        requires
            devices[i].0 < bda * 512,
            bda > 0,
    ;
    if exists|j: int| 0 <= j < devices.len() && (#[trigger] devices[j]).0 / 512 < crypt {
    } else {
        assert(devices[i].0 / 512 >= crypt);
        assert(devices[i].0 / 512 - crypt < bda);
    }
}

} // verus!
