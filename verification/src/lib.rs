//! Verified core of a Dash Platform wallet backend.
//!
//! The library decides; it performs no input or output. Every operation that talks to the
//! network, to a wallet or to the database is written as a chain of steps: a step says what the
//! caller has to do next, and takes the outcome to say what follows.

pub mod identifier;
pub mod network;
pub mod payload;
pub mod text;

pub mod document;
pub mod identity;
pub mod query;
pub mod sdk;

pub mod context;
pub mod error;
pub mod result;
pub mod tasks;
pub mod run_task;

pub mod cipher;
pub mod contacts;
pub mod derivation;
pub mod load_contacts;
pub mod pagination;
pub mod private_data;

pub mod claim_tokens;
pub mod disable_keys;

pub mod commitment_tree;
pub mod note_table;
pub mod shielded;
pub mod sql;
