//! Errors and proof results of the platform SDK, as far as the library reads them.

use vstd::prelude::*;

use crate::document::Document;
use crate::identity::IdentityPublicKey;

verus! {

/// The block that a proof speaks of.
#[derive(Clone, Copy, Debug, PartialEq, Eq)]
pub struct BlockInfo {
    pub height: u64,
    pub time_ms: u64,
}

/// A state transition that the platform refused.
#[derive(Clone, Debug, PartialEq, Eq)]
pub struct StateTransitionBroadcastError {
    pub message: String,
}

/// An error of the SDK. The kinds that no operation tells apart are all `Other`.
#[derive(Clone, Debug, PartialEq, Eq)]
pub enum Error {
    /// A proof did not hold: its error as text, the proof, and the block it speaks of.
    DriveProofError(String, Vec<u8>, BlockInfo),
    AlreadyExists(String),
    StateTransitionBroadcastError(StateTransitionBroadcastError),
    Generic(String),
    Other,
}

/// An error of the SDK together with the text that the SDK renders it as.
#[derive(Clone, Debug, PartialEq, Eq)]
pub struct RenderedError {
    pub error: Error,
    pub text: String,
}

/// The part of an identity that a proof shows.
#[derive(Clone, Debug, PartialEq, Eq)]
pub struct PartialIdentity {
    pub balance: Option<u64>,
    /// The keys, by increasing key identifier.
    pub loaded_public_keys: Vec<IdentityPublicKey>,
}

/// What the proof of a state transition shows. The kinds that no operation expects are all
/// `Other`.
#[derive(Clone, Debug, PartialEq, Eq)]
pub enum StateTransitionProofResult {
    VerifiedPartialIdentity(PartialIdentity),
    VerifiedTokenActionWithDocument(Document),
    VerifiedTokenGroupActionWithDocument(u32, Option<Document>),
    Other,
}

} // verus!
