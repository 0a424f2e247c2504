//! Handle to the metadata of an encrypted device that need not be active:
//! what was read from the device's encryption header, as plain values.

use vstd::prelude::*;

use crate::pool::{EncryptionInfo, StratisIdentifiers};

verus! {

/// Metadata read from an encrypted device: the device node path of the
/// underlying storage, the recorded identifiers, the encryption settings,
/// the name the device activates under, the pool name recorded in the
/// header, and the device number.
#[derive(Debug, Clone, PartialEq, Eq)]
pub struct CryptMetadataHandle {
    pub physical_path: String,
    pub identifiers: StratisIdentifiers,
    pub encryption_info: EncryptionInfo,
    pub activation_name: String,
    pub pool_name: Option<String>,
    pub device: u64,
}

impl CryptMetadataHandle {
    /// Assemble a handle from the values read off a device.
    pub fn new(
        physical_path: String,
        identifiers: StratisIdentifiers,
        encryption_info: EncryptionInfo,
        activation_name: String,
        pool_name: Option<String>,
        device: u64,
    ) -> (r: Self)
        ensures
            r.physical_path == physical_path,
            r.identifiers == identifiers,
            r.encryption_info == encryption_info,
            r.activation_name == activation_name,
            r.pool_name == pool_name,
            r.device == device,
    {
        CryptMetadataHandle {
            physical_path,
            identifiers,
            encryption_info,
            activation_name,
            pool_name,
            device,
        }
    }

    /// The encryption settings of this encrypted device.
    pub fn encryption_info(&self) -> (r: &EncryptionInfo)
        ensures
            r == self.encryption_info,
    {
        &self.encryption_info
    }

    /// The device node path of the underlying storage device.
    pub fn luks2_device_path(&self) -> (r: &String)
        ensures
            r == self.physical_path,
    {
        &self.physical_path
    }

    /// The identifiers recorded for this device.
    pub fn device_identifiers(&self) -> (r: &StratisIdentifiers)
        ensures
            r == self.identifiers,
    {
        &self.identifiers
    }

    /// The name the device carries once activated.
    pub fn activation_name(&self) -> (r: &String)
        ensures
            r == self.activation_name,
    {
        &self.activation_name
    }

    /// The pool name recorded in the device's encryption header, if any.
    pub fn pool_name(&self) -> (r: &Option<String>)
        ensures
            r == self.pool_name,
    {
        &self.pool_name
    }

    /// The device number of the encrypted device.
    pub fn device(&self) -> (r: u64)
        ensures
            r == self.device,
    {
        self.device
    }
}

} // verus!
