//! What a ledger's replies mean. The engine never talks to a ledger itself:
//! the caller sends the request, hands the reply in, and does what the
//! answer here says.

use vstd::prelude::*;
use vstd::string::*;

use crate::error::SpendError;

verus! {

/// Code with which a node says that the wallet is loaded already.
pub const RPC_WALLET_ERROR: i32 = -4;

/// Code with which a node says that it knows no such wallet.
pub const RPC_WALLET_NOT_FOUND: i32 = -18;

/// Code with which a node says that the transaction is in the ledger
/// already.
pub const RPC_VERIFY_ALREADY_IN_CHAIN: i32 = -27;

/// Blocks to mine so that a fresh wallet has an amount it can spend: the
/// first reward matures after a hundred further blocks.
pub const BOOTSTRAP_BLOCKS: u64 = 101;

/// What came back from a ledger node.
#[derive(Clone, Copy, Debug, PartialEq, Eq)]
pub enum LedgerReply {
    /// The node did what was asked.
    Accepted,
    /// The node answered, and refused with this code.
    Refused { code: i32 },
    /// No answer could be had.
    Unreachable,
}

/// What to do after asking a node to load a wallet.
#[derive(Clone, Copy, Debug, PartialEq, Eq)]
pub enum WalletStep {
    /// The wallet was loaded: go on over the connection at hand.
    UseNode,
    /// The wallet was loaded before: go on over a connection to its path.
    UseWalletPath,
    /// There is no such wallet: create it, then go on over a connection to
    /// its path.
    CreateThenUseWalletPath,
    /// Give up, for this reason.
    Fail(SpendError),
}

/// What a reply to "load wallet" asks for.
pub open spec fn wallet_step_of(reply: LedgerReply) -> WalletStep {
    match reply {
        LedgerReply::Accepted => WalletStep::UseNode,
        LedgerReply::Refused { code } => if code == RPC_WALLET_ERROR {
            WalletStep::UseWalletPath
        } else if code == RPC_WALLET_NOT_FOUND {
            WalletStep::CreateThenUseWalletPath
        } else {
            WalletStep::Fail(SpendError::LedgerRejected { code })
        },
        LedgerReply::Unreachable => WalletStep::Fail(SpendError::LedgerUnavailable),
    }
}

/// Decides how to go on after asking a node to load a wallet. A code the
/// engine does not know is handed back to the caller and ends nothing by
/// itself.
pub fn wallet_step(reply: LedgerReply) -> (step: WalletStep)
    ensures
        step == wallet_step_of(reply),
{
    match reply {
        LedgerReply::Accepted => WalletStep::UseNode,
        LedgerReply::Refused { code } => if code == RPC_WALLET_ERROR {
            WalletStep::UseWalletPath
        } else if code == RPC_WALLET_NOT_FOUND {
            WalletStep::CreateThenUseWalletPath
        } else {
            WalletStep::Fail(SpendError::LedgerRejected { code })
        },
        LedgerReply::Unreachable => WalletStep::Fail(SpendError::LedgerUnavailable),
    }
}

/// The path under which a node serves the wallet `name`.
pub fn wallet_path(name: &str) -> (path: String)
    ensures
        path@ == seq!['w', 'a', 'l', 'l', 'e', 't', '/'] + name@,
{
    proof {
        reveal_strlit("wallet/");
    }
    let mut path = String::from_str("wallet/");
    path.append(name);
    assert(path@ =~= seq!['w', 'a', 'l', 'l', 'e', 't', '/'] + name@);
    path
}

/// Whether a wallet with this balance has to be funded before it can spend.
pub fn needs_funding(balance: u64) -> (needed: bool)
    ensures
        needed == (balance == 0),
{
    balance == 0
}

/// What a reply to "submit this transaction" comes to: the transaction is
/// in the ledger where the node took it or had it already, so that sending
/// it twice is no failure.
pub open spec fn submit_outcome_of(reply: LedgerReply) -> Result<(), SpendError> {
    match reply {
        LedgerReply::Accepted => Ok(()),
        LedgerReply::Refused { code } => if code == RPC_VERIFY_ALREADY_IN_CHAIN {
            Ok(())
        } else {
            Err(SpendError::LedgerRejected { code })
        },
        LedgerReply::Unreachable => Err(SpendError::LedgerUnavailable),
    }
}

/// Judges the reply to a submitted transaction. `LedgerRejected` is final
/// for this transaction; `LedgerUnavailable` may be tried again.
pub fn submit_outcome(reply: LedgerReply) -> (outcome: Result<(), SpendError>)
    ensures
        outcome == submit_outcome_of(reply),
{
    match reply {
        LedgerReply::Accepted => Ok(()),
        LedgerReply::Refused { code } => if code == RPC_VERIFY_ALREADY_IN_CHAIN {
            Ok(())
        } else {
            Err(SpendError::LedgerRejected { code })
        },
        LedgerReply::Unreachable => Err(SpendError::LedgerUnavailable),
    }
}

/// Whether a request that failed with `error` may simply be sent again: so
/// it is where the ledger could not be reached, and nowhere else. A
/// transaction the ledger rejected has to be rebuilt first; the failures of
/// the engine itself call for another output, another signature or more
/// signers.
pub fn may_retry(error: SpendError) -> (again: bool)
    ensures
        again == (error is LedgerUnavailable),
{
    match error {
        SpendError::LedgerUnavailable => true,
        _ => false,
    }
}

/// What a node said when asked how deep a transaction lies.
#[derive(Clone, Copy, Debug, PartialEq, Eq)]
pub enum DepthReply {
    /// The node reports this many confirmations; a negative number says
    /// that a conflicting transaction lies that deep.
    Depth(i32),
    /// The node answered, and refused with this code.
    Refused { code: i32 },
    /// No answer could be had.
    Unreachable,
}

/// What to do after asking for the depth of a transaction.
#[derive(Clone, Copy, Debug, PartialEq, Eq)]
pub enum PollStep {
    /// Deep enough: stop.
    Confirmed,
    /// Not deep enough yet: ask again, with this many further tries left.
    Wait { polls_left: u32 },
    /// Not deep enough, and no try is left: stop waiting. The transaction
    /// stays where it is.
    TimedOut,
    /// Give up, for this reason.
    Fail(SpendError),
}

/// What a reply to "how deep" asks for, when `min_confirmations` are wanted
/// and `polls_left` further tries are allowed.
pub open spec fn confirmation_step_of(min_confirmations: u32, polls_left: u32, reply: DepthReply)
    -> PollStep {
    match reply {
        DepthReply::Refused { code } => PollStep::Fail(SpendError::LedgerRejected { code }),
        DepthReply::Depth(depth) if depth >= min_confirmations => PollStep::Confirmed,
        _ => if polls_left == 0 {
            PollStep::TimedOut
        } else {
            PollStep::Wait { polls_left: (polls_left - 1) as u32 }
        },
    }
}

/// Decides how to go on after asking for the depth of a transaction. A node
/// that cannot be reached is asked again like one that reports too little
/// depth or a conflict, as long as tries are left.
pub fn confirmation_step(min_confirmations: u32, polls_left: u32, reply: DepthReply) -> (step:
    PollStep)
    ensures
        step == confirmation_step_of(min_confirmations, polls_left, reply),
{
    match reply {
        DepthReply::Refused { code } => PollStep::Fail(SpendError::LedgerRejected { code }),
        DepthReply::Depth(depth) if depth >= 0 && depth as u32 >= min_confirmations => {
            PollStep::Confirmed
        },
        _ => if polls_left == 0 {
            PollStep::TimedOut
        } else {
            PollStep::Wait { polls_left: polls_left - 1 }
        },
    }
}

/// Waiting for a confirmation ends: each try that asks for another leaves
/// one try fewer.
pub proof fn lemma_polling_ends(min_confirmations: u32, polls_left: u32, reply: DepthReply)
    ensures
        match confirmation_step_of(min_confirmations, polls_left, reply) {
            PollStep::Wait { polls_left: left } => left < polls_left,
            _ => true,
        },
{
}

} // verus!
