use stratisd::capacity::{
    lookup_usage, predict_filesystem_usage, predict_pool_usage, FSSizeLookup,
    FS_LOGICAL_SIZE_MAX, FS_LOGICAL_SIZE_MIN,
};
use stratisd::errors::{InsufficientSpaceReason, StratisError, ValidationCause};
use stratisd::sizes::{crypt_metadata_size, ThinPoolSizeParams, BDA};
use stratisd::units::{Bytes, Sectors};

const MIB: u128 = 1 << 20;
const GIB: u128 = 1 << 30;

#[test]
fn bytes_to_sectors_floors() {
    assert_eq!(Bytes(1024).sectors(), Sectors(2));
    assert_eq!(Bytes(1025).sectors(), Sectors(2));
    assert_eq!(Bytes(511).sectors(), Sectors(0));
}

#[test]
fn exact_sectors_requires_alignment() {
    assert_eq!(Bytes(1024).exact_sectors(), Some(Sectors(2)));
    assert_eq!(Bytes(1025).exact_sectors(), None);
    assert!(Bytes(512 * 7).check_sector_aligned());
    assert!(!Bytes(513).check_sector_aligned());
}

#[test]
fn sectors_to_bytes() {
    assert_eq!(Sectors(3).bytes(), Bytes(1536));
}

#[test]
fn crypt_metadata_size_is_sector_aligned() {
    let c = crypt_metadata_size();
    assert_eq!(c, Bytes(16 * MIB));
    assert_eq!(c.0 % 512, 0);
}

#[test]
fn bda_extended_size_value() {
    let b = BDA::default();
    // Static header of 16 sectors plus two generations of 2032 sectors.
    assert_eq!(b.extended_size(), Bytes(4080 * 512));
    assert_eq!(b.extended_size().0 % 512, 0);
}

#[test]
fn thin_pool_size_params_rejects_tiny_data() {
    // Below the 512 MiB floor of data sectors.
    let r = ThinPoolSizeParams::new(Sectors(1_048_575));
    assert_eq!(
        r.unwrap_err(),
        StratisError::InsufficientSpace(InsufficientSpaceReason::ThinPoolOverhead)
    );
}

#[test]
fn thin_pool_size_params_clamped_values() {
    // 10 GiB of data: both areas sit at their lower clamps.
    let p = ThinPoolSizeParams::new(Sectors(20_971_520)).unwrap();
    assert_eq!(p.meta_size(), Sectors(8192));
    assert_eq!(p.mdv_size(), Sectors(32_768));
    // 1 TiB of data: the metadata device grows past its lower clamp.
    let p = ThinPoolSizeParams::new(Sectors(2_147_483_648)).unwrap();
    assert_eq!(p.meta_size(), Sectors(2_147_483_648 / 16_384));
    assert_eq!(p.mdv_size(), Sectors(2_147_483_648 / 32_768));
}

#[test]
fn thin_pool_size_params_at_minimum() {
    // Exactly the 512 MiB floor of data sectors is accepted.
    let p = ThinPoolSizeParams::new(Sectors(1_048_576)).unwrap();
    assert_eq!(p.meta_size(), Sectors(8192));
    assert_eq!(p.mdv_size(), Sectors(32_768));
}

#[test]
fn lookup_usage_rounds_up_within_bucket() {
    // A size just over 512 MiB falls into the 1 GiB bucket.
    assert_eq!(lookup_usage(Bytes(FS_LOGICAL_SIZE_MIN + 512)), Sectors(40_960));
}

#[test]
fn lookup_usage_smallest_bucket() {
    // 512 MiB maps to the first recorded sample: 20,971,520 bytes.
    assert_eq!(lookup_usage(Bytes(FS_LOGICAL_SIZE_MIN)), Sectors(40_960));
}

#[test]
fn lookup_usage_one_gib() {
    // 1 GiB maps to the 1 GiB sample, also 20,971,520 bytes.
    assert_eq!(lookup_usage(Bytes(GIB)), Sectors(40_960));
}

#[test]
fn lookup_usage_doubling_advances_bucket() {
    // Doubling the size advances the bucket: 2 GiB maps to the third
    // sample, 22,020,096 bytes.
    assert_eq!(lookup_usage(Bytes(2 * GIB)), Sectors(43_008));
    // A size just over 1 GiB rounds up into the same 2 GiB bucket.
    assert_eq!(lookup_usage(Bytes(GIB + 512)), Sectors(43_008));
    assert_eq!(lookup_usage(Bytes(4 * GIB)), Sectors(23_068_672 / 512));
}

#[test]
fn lookup_usage_is_deterministic() {
    let table = FSSizeLookup::new();
    for _ in 0..3 {
        assert_eq!(table.lookup(Bytes(3 * GIB)), lookup_usage(Bytes(3 * GIB)));
    }
}

#[test]
fn lookup_usage_largest_bucket() {
    // Just below the 32 PiB ceiling: the last recorded sample.
    assert_eq!(
        lookup_usage(Bytes(FS_LOGICAL_SIZE_MAX - 512)),
        Sectors(36_498_833_408 / 512)
    );
}

#[test]
fn predict_filesystem_usage_exact_reservation() {
    // Without overprovisioning each filesystem reserves its exact size.
    let r = predict_filesystem_usage(false, vec![Bytes(GIB), Bytes(512 * MIB)]).unwrap();
    assert_eq!(r, Sectors((GIB + 512 * MIB) / 512));
}

#[test]
fn predict_filesystem_usage_overprovisioned() {
    let r = predict_filesystem_usage(true, vec![Bytes(GIB), Bytes(2 * GIB)]).unwrap();
    assert_eq!(r, Sectors(40_960 + 43_008));
}

#[test]
fn predict_filesystem_usage_empty_list() {
    assert_eq!(predict_filesystem_usage(true, vec![]).unwrap(), Sectors(0));
}

#[test]
fn predict_filesystem_usage_too_small() {
    // 256 MiB lies below the 512 MiB floor.
    let r = predict_filesystem_usage(true, vec![Bytes(256 * MIB)]);
    assert_eq!(
        r.unwrap_err(),
        StratisError::Validation(ValidationCause::FilesystemSizeOutOfBounds)
    );
}

#[test]
fn predict_filesystem_usage_too_large() {
    let r = predict_filesystem_usage(true, vec![Bytes(FS_LOGICAL_SIZE_MAX)]);
    assert_eq!(
        r.unwrap_err(),
        StratisError::Validation(ValidationCause::FilesystemSizeOutOfBounds)
    );
}

#[test]
fn predict_filesystem_usage_misaligned() {
    let r = predict_filesystem_usage(false, vec![Bytes(GIB + 1)]);
    assert_eq!(
        r.unwrap_err(),
        StratisError::Validation(ValidationCause::FilesystemSizeNotSectorMultiple)
    );
}

#[test]
fn predict_pool_usage_ten_gib_scenario() {
    // One 10 GiB device, unencrypted, overprovisioned, one 1 GiB
    // filesystem. The filesystem bucket is the 1 GiB sample:
    // 20,971,520 bytes, 40,960 sectors.
    let r = predict_pool_usage(false, true, vec![Bytes(10 * GIB)], Some(vec![Bytes(GIB)]))
        .unwrap();
    let total_sectors: u128 = 10 * GIB / 512; // 20,971,520
    let non_meta = total_sectors - 4080;
    let admin = 2 * 8192 + 32_768;
    let avail = non_meta - admin - 40_960;
    assert!(avail > 0);
    assert_eq!(r.total, Bytes(total_sectors * 512));
    assert_eq!(r.free, Bytes(avail * 512));
    assert_eq!(r.used, Bytes((total_sectors - avail) * 512));
    assert_eq!(r.admin_space, Bytes(admin * 512));
    assert_eq!(r.stratis_metadata_space, Bytes(4080 * 512));
}

#[test]
fn predict_pool_usage_accounting_identity() {
    // For one unencrypted device and no filesystems the parts sum back to
    // the device: free + admin + metadata region == total.
    let r = predict_pool_usage(false, true, vec![Bytes(10 * GIB)], None).unwrap();
    assert_eq!(
        r.free.0 / 512 + r.admin_space.0 / 512 + 4080,
        10 * GIB / 512
    );
    assert_eq!(r.used, Bytes(r.total.0 - r.free.0));
}

#[test]
fn predict_pool_usage_device_below_bda() {
    // A device smaller than the per-device metadata region alone: a typed
    // insufficient-space failure, never a wrapped size.
    let r = predict_pool_usage(false, true, vec![Bytes(MIB)], None);
    assert_eq!(
        r.unwrap_err(),
        StratisError::InsufficientSpace(InsufficientSpaceReason::StratisMetadata)
    );
    // One sector short of the region.
    let r = predict_pool_usage(false, true, vec![Bytes(4079 * 512)], None);
    assert_eq!(
        r.unwrap_err(),
        StratisError::InsufficientSpace(InsufficientSpaceReason::StratisMetadata)
    );
}

#[test]
fn predict_pool_usage_device_below_crypt_overhead() {
    // Encrypted: an 8 MiB device cannot hold the 16 MiB encryption header.
    let r = predict_pool_usage(true, true, vec![Bytes(8 * MIB)], None);
    assert_eq!(
        r.unwrap_err(),
        StratisError::InsufficientSpace(InsufficientSpaceReason::EncryptionMetadata)
    );
}

#[test]
fn predict_pool_usage_encryption_shrinks_free_space() {
    let plain = predict_pool_usage(false, true, vec![Bytes(10 * GIB)], None).unwrap();
    let encrypted = predict_pool_usage(true, true, vec![Bytes(10 * GIB)], None).unwrap();
    assert!(encrypted.free.0 < plain.free.0);
    assert_eq!(encrypted.total, plain.total);
}

#[test]
fn predict_pool_usage_pool_too_small_for_thin_overhead() {
    // 100 MiB leaves fewer than the minimum data sectors after the
    // metadata region.
    let r = predict_pool_usage(false, true, vec![Bytes(100 * MIB)], None);
    assert_eq!(
        r.unwrap_err(),
        StratisError::InsufficientSpace(InsufficientSpaceReason::ThinPoolOverhead)
    );
}

#[test]
fn predict_pool_usage_filesystems_too_large() {
    // A 600 MiB pool cannot reserve a full 1 GiB filesystem without
    // overprovisioning.
    let r = predict_pool_usage(false, false, vec![Bytes(600 * MIB)], Some(vec![Bytes(GIB)]));
    assert_eq!(
        r.unwrap_err(),
        StratisError::InsufficientSpace(InsufficientSpaceReason::FilesystemReservation)
    );
}

#[test]
fn predict_pool_usage_rejects_invalid_filesystem_first() {
    let r = predict_pool_usage(false, true, vec![Bytes(10 * GIB)], Some(vec![Bytes(256 * MIB)]));
    assert_eq!(
        r.unwrap_err(),
        StratisError::Validation(ValidationCause::FilesystemSizeOutOfBounds)
    );
}

#[test]
fn predict_pool_usage_total_overflow() {
    // Two devices of the largest expressible size overflow the total.
    let r = predict_pool_usage(false, true, vec![Bytes(u128::MAX), Bytes(u128::MAX)], None);
    assert_eq!(
        r.unwrap_err(),
        StratisError::Validation(ValidationCause::TotalSizeOverflow)
    );
}

#[test]
fn predict_pool_usage_multiple_devices() {
    // Two 5 GiB devices carry the metadata region each.
    let r = predict_pool_usage(false, true, vec![Bytes(5 * GIB), Bytes(5 * GIB)], None).unwrap();
    let total_sectors: u128 = 10 * GIB / 512;
    let non_meta = total_sectors - 2 * 4080;
    let admin = 2 * 8192 + 32_768;
    assert_eq!(r.total, Bytes(total_sectors * 512));
    assert_eq!(r.free, Bytes((non_meta - admin) * 512));
    assert_eq!(r.stratis_metadata_space, Bytes(2 * 4080 * 512));
}
