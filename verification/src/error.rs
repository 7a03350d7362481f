//! The ways a spend can fail.

use vstd::prelude::*;

use crate::policy::PolicyConstructionError;

verus! {

/// Why an operation of the engine did not go through. Each failure ends the
/// step it occurred in and leaves what was built so far as it was.
#[derive(Clone, Copy, Debug, PartialEq, Eq)]
pub enum SpendError {
    /// The threshold and the key list do not make a policy.
    PolicyConstruction(PolicyConstructionError),
    /// No script can be derived from the policy, as where one of its keys is
    /// no point of the curve.
    ScriptUnavailable,
    /// No output of the transaction carries the locking script.
    UtxoNotFound,
    /// The transaction has no input at this position.
    InputOutOfRange,
    /// The bytes offered as a private key are none.
    UnusableSecret,
    /// The signature does not verify under the key it was submitted for.
    InvalidSignature,
    /// Fewer valid signatures than the policy of this input asks for.
    PolicyNotSatisfied { input: usize },
    /// The signatures of this input meet the threshold and still could not be
    /// joined into unlocking data.
    Unsatisfiable { input: usize },
    /// There are fewer public keys than private keys to sign with.
    MissingPublicKey,
    /// The transaction has more or fewer inputs than were described.
    InputCountMismatch,
    /// The ledger refused the transaction, with this code.
    LedgerRejected { code: i32 },
    /// The ledger could not be reached.
    LedgerUnavailable,
}

} // verus!
