//! The typed error taxonomy of the core: every failure a capacity
//! computation or a registry operation can report.

use vstd::prelude::*;

verus! {

/// Which fixed overhead a checked subtraction could not accommodate.
#[derive(Clone, Copy, Debug, PartialEq, Eq, Structural)]
pub enum InsufficientSpaceReason {
    /// A device is too small for the encryption header and key slots.
    EncryptionMetadata,
    /// A device is too small for the per-device Stratis metadata region.
    StratisMetadata,
    /// The pool is too small for the thin-pool bookkeeping regions.
    ThinPoolOverhead,
    /// The requested filesystems do not fit in the pool's available space.
    FilesystemReservation,
}

/// Why an input was outside the allowed domain.
#[derive(Clone, Copy, Debug, PartialEq, Eq, Structural)]
pub enum ValidationCause {
    /// A filesystem size lies outside the supported logical-size range.
    FilesystemSizeOutOfBounds,
    /// A filesystem size is not an exact multiple of the sector size.
    FilesystemSizeNotSectorMultiple,
    /// A sum of sizes does not fit in an unsigned 128-bit magnitude.
    TotalSizeOverflow,
    /// A pool must be created over at least one block device.
    EmptyDeviceList,
    /// The same device path was named more than once in one request.
    DuplicateDevicePaths,
}

/// Why an operation conflicted with the registry's current state.
#[derive(Clone, Copy, Debug, PartialEq, Eq, Structural)]
pub enum ConflictCause {
    /// The requested name already belongs to a different pool.
    NameInUse,
    /// The supplied UUID already belongs to a pool.
    UuidInUse,
    /// Cache devices were added before the cache tier was initialized.
    CacheNotInitialized,
    /// A named device already belongs to the pool, beside ones that do
    /// not.
    DeviceInUse,
    /// The cache tier was initialized a second time with other devices.
    CacheAlreadyInitialized,
    /// The operation needs the pool to be in the Active partition.
    PoolNotActive,
    /// A pool that still owns filesystems cannot be destroyed.
    PoolNotEmpty,
    /// The unlock method does not match the pool's encryption bindings.
    UnlockMismatch,
}

/// Typed failure of a core operation.
#[derive(Clone, Copy, Debug, PartialEq, Eq, Structural)]
pub enum StratisError {
    /// An input was outside the allowed domain.
    Validation(ValidationCause),
    /// A checked overhead subtraction would underflow; names the overhead.
    InsufficientSpace(InsufficientSpaceReason),
    /// An identifier resolved in no registry partition.
    NotFound,
    /// The operation conflicts with the registry's current state.
    Conflict(ConflictCause),
    /// The process-level single-instance guard could not be acquired at
    /// startup; constructed by the embedding layer, fatal there.
    Lock,
}

} // verus!
