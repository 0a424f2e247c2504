//! Typed requests of the IPC interface: what a caller may ask of the
//! core, with every payload a plain value. The wire layer parses its
//! envelope into these and renders the typed results back.

use vstd::prelude::*;

use crate::pool::{EncryptionInfo, KeyDescription, PoolIdentifier, UnlockMethod};

verus! {

/// One request to the core, with its typed payload. Device and mount
/// paths travel as plain strings.
#[derive(Debug, PartialEq, Eq)]
pub enum StratisParamType {
    KeySet(KeyDescription),
    KeyUnset(KeyDescription),
    KeyList,
    PoolCreate(String, Vec<String>, Option<EncryptionInfo>),
    PoolRename(String, String),
    PoolAddData(String, Vec<String>),
    PoolInitCache(String, Vec<String>),
    PoolAddCache(String, Vec<String>),
    PoolDestroy(String),
    PoolStart(PoolIdentifier, Option<UnlockMethod>),
    PoolStop(PoolIdentifier),
    PoolList,
    PoolIsEncrypted(PoolIdentifier),
    PoolIsStopped(PoolIdentifier),
    PoolIsBound(PoolIdentifier),
    PoolHasPassphrase(PoolIdentifier),
    PoolClevisPin(PoolIdentifier),
    FsCreate(String, String),
    FsDestroy(String, String),
    FsRename(String, String, String),
    FsList,
    Report,
}

/// A request together with the file descriptor a passphrase prompt may
/// answer on, when the transport passed one along.
#[derive(Debug, PartialEq, Eq)]
pub struct StratisParams {
    pub type_: StratisParamType,
    pub fd_opt: Option<i32>,
}

} // verus!
