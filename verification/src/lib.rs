//! Verified core of a local storage-pool manager: capacity prediction for
//! thin-provisioned filesystems and pools, fixed on-disk metadata sizing,
//! and a pool registry state machine with Active / Locked / Stopped
//! partitions.

pub mod units;
pub mod errors;
pub mod sizes;
pub mod capacity;
pub mod pool;
pub mod registry;
pub mod interface;
pub mod crypt;
