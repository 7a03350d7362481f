//! A spending engine for unspent transaction outputs locked to a single key
//! or to an m-of-n set of keys.
//!
//! The engine locates the output to spend, assembles the transaction that
//! consumes it, collects signatures under the output's policy, and joins them
//! into the unlocking data. Talking to a ledger is left to the caller; the
//! decisions around it (what a reply means, when to poll again) are made here.

pub mod bytes;
pub mod text;
pub mod keys;
pub mod policy;
pub mod error;
pub mod tx;
pub mod backend;
pub mod locator;
pub mod collector;
pub mod finalizer;
pub mod spend;
pub mod ledger;
pub mod lifecycle;
pub mod node;

pub use crate::collector::{collect, sign, signature_hash, Funding, PartialSignatureSet};
pub use crate::error::SpendError;
pub use crate::finalizer::{finalize, FinalizedInput, FinalizedTx};
pub use crate::keys::{PublicKey, SecretKey, SigHash, Signature};
pub use crate::locator::find_output;
pub use crate::policy::{
    derive_address, derive_locking_script, Network, PolicyConstructionError, SpendingPolicy,
};
pub use crate::spend::{sign_and_finalize, spend};
pub use crate::tx::{new_working_transaction, OutPoint, TxIn, TxOut, WorkingTx};
