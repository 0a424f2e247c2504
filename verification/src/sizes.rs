//! Fixed on-disk metadata overheads: the encryption header, the per-device
//! metadata region, and the thin-pool bookkeeping regions.

use vstd::prelude::*;

use crate::errors::{InsufficientSpaceReason, StratisError};
use crate::units::{Bytes, Sectors, SECTOR_SIZE};

verus! {

/// Bytes reserved at the head of an encrypted device for the encryption
/// header and key-slot area.
pub const CRYPT_METADATA_SIZE_BYTES: u128 = 16_777_216;

/// Sectors of the static header at the head of the per-device metadata
/// region.
pub const BDA_STATIC_HDR_SECTORS: u128 = 16;

/// Smallest sector count of one generation of variable metadata in the
/// per-device metadata region.
pub const MDA_REGION_MIN_SECTORS: u128 = 2032;

/// Largest supported sector count of one generation of variable metadata.
pub const MDA_REGION_MAX_SECTORS: u128 = 16_777_216;

/// Smallest data size, in sectors, on which a thin pool can be built.
pub const MIN_DATA_SECTORS: u128 = 1_048_576;

/// Bounds on the thin-pool metadata device, in sectors.
pub const MIN_META_SECTORS: u128 = 8192;

/// Upper clamp on the thin-pool metadata device, in sectors.
pub const MAX_META_SECTORS: u128 = 33_554_432;

/// One sector of thin-pool metadata tracks this many data sectors: the
/// metadata device grows by 64 bytes for each 1 MiB data block.
pub const META_PER_DATA_SECTORS: u128 = 16_384;

/// Bounds on the metadata volume for filesystem-level bookkeeping.
pub const MIN_MDV_SECTORS: u128 = 32_768;

/// Upper clamp on the metadata volume for filesystem-level bookkeeping.
pub const MAX_MDV_SECTORS: u128 = 262_144;

/// One sector of the metadata volume serves this many data sectors.
pub const MDV_PER_DATA_SECTORS: u128 = 32_768;

/// Fixed overhead of the encryption header and key-slot area.
pub fn crypt_metadata_size() -> (r: Bytes)
    ensures
        r.0 == CRYPT_METADATA_SIZE_BYTES,
        r.is_sector_aligned(),
{
    Bytes(CRYPT_METADATA_SIZE_BYTES)
}

/// Descriptor of the fixed metadata region reserved per physical device:
/// a static header followed by two generations of variable metadata, each
/// generation in a region of the same size.
#[derive(Clone, Copy, Debug, PartialEq, Eq, Structural)]
pub struct BDA {
    mda_region_sectors: u128,
}

impl BDA {
    /// Sectors of one generation of variable metadata in this region.
    pub closed spec fn spec_mda_region_sectors(self) -> int {
        self.mda_region_sectors as int
    }

    /// The region holds at least the smallest and at most the largest
    /// supported generation size.
    pub open spec fn well_formed(self) -> bool {
        MDA_REGION_MIN_SECTORS <= self.spec_mda_region_sectors()
            <= MDA_REGION_MAX_SECTORS
    }

    /// Total sectors reserved: the static header plus two generations.
    pub open spec fn spec_extended_sectors(self) -> int {
        BDA_STATIC_HDR_SECTORS + 2 * self.spec_mda_region_sectors()
    }

    /// Total bytes reserved per device for the metadata region: the static
    /// header plus two generations of variable metadata. Sector-aligned,
    /// and strictly larger than the static header alone.
    pub fn extended_size(&self) -> (r: Bytes)
        requires
            self.well_formed(),
        ensures
            r.0 == self.spec_extended_sectors() * SECTOR_SIZE,
            r.is_sector_aligned(),
            r.0 > BDA_STATIC_HDR_SECTORS * SECTOR_SIZE,
    {
        Sectors(BDA_STATIC_HDR_SECTORS + 2 * self.mda_region_sectors).bytes()
    }
}

impl Default for BDA {
    /// The default region reserves the smallest supported generation size.
    fn default() -> (r: Self)
        ensures
            r.well_formed(),
            r.spec_mda_region_sectors() == MDA_REGION_MIN_SECTORS,
    {
        BDA { mda_region_sectors: MDA_REGION_MIN_SECTORS }
    }
}

/// Total sectors a default metadata region reserves per device.
pub open spec fn spec_bda_extended_sectors() -> int {
    BDA_STATIC_HDR_SECTORS + 2 * MDA_REGION_MIN_SECTORS
}

/// Clamp of `v` to the inclusive interval `[lo, hi]`.
pub open spec fn spec_clamp(v: int, lo: int, hi: int) -> int {
    if v < lo {
        lo
    } else if v > hi {
        hi
    } else {
        v
    }
}

/// Sizes of the two thin-pool bookkeeping areas derived from the
/// non-metadata sectors available across a pool's devices: the thin-pool
/// metadata device and the metadata volume for filesystem bookkeeping.
#[derive(Clone, Copy, Debug, PartialEq, Eq, Structural)]
pub struct ThinPoolSizeParams {
    meta_size: Sectors,
    mdv_size: Sectors,
}

impl ThinPoolSizeParams {
    /// Sectors of the thin-pool metadata device for `data` data sectors:
    /// one sector per tracked 16384, clamped to the supported bounds.
    pub open spec fn spec_meta_size(data: int) -> int {
        spec_clamp(data / (META_PER_DATA_SECTORS as int), MIN_META_SECTORS as int,
            MAX_META_SECTORS as int)
    }

    /// Sectors of the metadata volume for `data` data sectors: one sector
    /// per served 32768, clamped to the supported bounds.
    pub open spec fn spec_mdv_size(data: int) -> int {
        spec_clamp(data / (MDV_PER_DATA_SECTORS as int), MIN_MDV_SECTORS as int,
            MAX_MDV_SECTORS as int)
    }

    /// Derive the bookkeeping sizes from the non-metadata sectors available
    /// across a pool's devices. A data area below the supported minimum
    /// cannot host any thin-pool metadata and is rejected.
    pub fn new(data_sectors: Sectors) -> (r: Result<ThinPoolSizeParams, StratisError>)
        ensures
            r is Err <==> data_sectors.0 < MIN_DATA_SECTORS,
            r is Err ==> r == Err::<ThinPoolSizeParams, StratisError>(
                StratisError::InsufficientSpace(InsufficientSpaceReason::ThinPoolOverhead)),
            r is Ok ==> r.unwrap().spec_meta().0 == Self::spec_meta_size(data_sectors.0 as int),
            r is Ok ==> r.unwrap().spec_mdv().0 == Self::spec_mdv_size(data_sectors.0 as int),
    {
        if data_sectors.0 < MIN_DATA_SECTORS {
            return Err(StratisError::InsufficientSpace(
                InsufficientSpaceReason::ThinPoolOverhead));
        }
        let meta_raw = data_sectors.0 / META_PER_DATA_SECTORS;
        let meta = if meta_raw < MIN_META_SECTORS {
            MIN_META_SECTORS
        } else if meta_raw > MAX_META_SECTORS {
            MAX_META_SECTORS
        } else {
            meta_raw
        };
        let mdv_raw = data_sectors.0 / MDV_PER_DATA_SECTORS;
        let mdv = if mdv_raw < MIN_MDV_SECTORS {
            MIN_MDV_SECTORS
        } else if mdv_raw > MAX_MDV_SECTORS {
            MAX_MDV_SECTORS
        } else {
            mdv_raw
        };
        Ok(ThinPoolSizeParams { meta_size: Sectors(meta), mdv_size: Sectors(mdv) })
    }

    /// The size of the thin-pool metadata device.
    pub fn meta_size(&self) -> (r: Sectors)
        ensures
            r == self.spec_meta(),
    {
        self.meta_size
    }

    /// The size of the metadata volume for filesystem-level bookkeeping.
    pub fn mdv_size(&self) -> (r: Sectors)
        ensures
            r == self.spec_mdv(),
    {
        self.mdv_size
    }

    /// The stored thin-pool metadata device size.
    pub closed spec fn spec_meta(self) -> Sectors {
        self.meta_size
    }

    /// The stored metadata volume size.
    pub closed spec fn spec_mdv(self) -> Sectors {
        self.mdv_size
    }
}

/// More data sectors never shrink the thin-pool metadata device: the
/// derived size is monotonically increasing in the data size.
pub proof fn lemma_meta_size_monotone(d1: int, d2: int)
    requires
        0 <= d1 <= d2,
    ensures
        ThinPoolSizeParams::spec_meta_size(d1) <= ThinPoolSizeParams::spec_meta_size(d2),
        ThinPoolSizeParams::spec_mdv_size(d1) <= ThinPoolSizeParams::spec_mdv_size(d2),
{
    vstd::arithmetic::div_mod::lemma_div_is_ordered(d1, d2, META_PER_DATA_SECTORS as int);
    vstd::arithmetic::div_mod::lemma_div_is_ordered(d1, d2, MDV_PER_DATA_SECTORS as int);
}

} // verus!
