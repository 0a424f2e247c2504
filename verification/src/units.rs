//! Semantic integer wrappers for byte counts and 512-byte sector counts.

use vstd::prelude::*;

verus! {

/// Number of bytes in one sector.
pub const SECTOR_SIZE: u128 = 512;

/// Largest sector count that is still expressible as a byte count in an
/// unsigned 128-bit magnitude.
pub const SECTORS_LIMIT: u128 = u128::MAX / SECTOR_SIZE;

/// A count of bytes.
#[derive(Clone, Copy, Debug, PartialEq, Eq, Structural)]
pub struct Bytes(pub u128);

/// A count of 512-byte sectors.
#[derive(Clone, Copy, Debug, PartialEq, Eq, Structural)]
pub struct Sectors(pub u128);

impl Bytes {
    /// True when this byte count is an exact number of sectors.
    pub open spec fn is_sector_aligned(self) -> bool {
        self.0 % SECTOR_SIZE == 0
    }

    /// The number of whole sectors contained in this many bytes;
    /// a remainder smaller than one sector is discarded.
    pub fn sectors(&self) -> (r: Sectors)
        ensures
            r.0 == self.0 / SECTOR_SIZE,
    {
        Sectors(self.0 / SECTOR_SIZE)
    }

    /// The exact sector count of this byte count, or `None` when the
    /// byte count is not a multiple of the sector size.
    pub fn exact_sectors(&self) -> (r: Option<Sectors>)
        ensures
            self.is_sector_aligned() <==> r is Some,
            r is Some ==> r.unwrap().0 == self.0 / SECTOR_SIZE,
    {
        if self.0 % SECTOR_SIZE == 0 {
            Some(Sectors(self.0 / SECTOR_SIZE))
        } else {
            None
        }
    }

    /// True when this byte count is an exact number of sectors.
    pub fn check_sector_aligned(&self) -> (r: bool)
        ensures
            r == self.is_sector_aligned(),
    {
        self.0 % SECTOR_SIZE == 0
    }
}

impl Sectors {
    /// The byte count of this many sectors.
    pub fn bytes(&self) -> (r: Bytes)
        requires
            self.0 * SECTOR_SIZE <= u128::MAX,
        ensures
            r.0 == self.0 * SECTOR_SIZE,
            r.is_sector_aligned(),
    {
        Bytes(self.0 * SECTOR_SIZE)
    }
}

/// Converting a sector count to bytes and back returns the original count.
pub proof fn lemma_sectors_bytes_roundtrip(s: Sectors)
    requires
        s.0 * SECTOR_SIZE <= u128::MAX,
    ensures
        (s.0 * SECTOR_SIZE) / (SECTOR_SIZE as int) == s.0,
        (s.0 * SECTOR_SIZE) % (SECTOR_SIZE as int) == 0,
{
    assert((s.0 * SECTOR_SIZE) / (SECTOR_SIZE as int) == s.0 && (s.0 * SECTOR_SIZE) % (
    SECTOR_SIZE as int) == 0) by (nonlinear_arith);
}

} // verus!
