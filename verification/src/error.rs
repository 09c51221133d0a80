//! Why a task failed.

use vstd::prelude::*;

use crate::identity::KeyID;
use crate::network::Network;
use crate::sdk::RenderedError;

verus! {

/// Why a task failed.
#[derive(Clone, Debug, PartialEq, Eq)]
pub enum TaskError {
    NoKeysToDisable,
    KeyNotFoundOnIdentity { key_id: KeyID },
    KeyAlreadyDisabled { key_id: KeyID },
    CannotDisableMasterKey { key_id: KeyID },
    WouldLeaveNoKeyAtPurposeLevel {
        key_id: KeyID,
        purpose: &'static str,
        security_level: &'static str,
    },
    IdentityNotFoundOnPlatform,
    MasterKeyNotFound,
    IdentityUpdateTransitionError { source_error: RenderedError },
    Database { source: String },
    NetworkContextCreationFailed { network: Network, detail: String },
    LockPoisoned { resource: &'static str },
    /// An error of the SDK.
    Sdk { source_error: RenderedError },
    /// An error of a part of the program that the library does not hold.
    Other { message: String },
}

} // verus!
