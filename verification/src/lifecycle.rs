//! The stages a spend goes through, and the steps between them.

use vstd::prelude::*;

use crate::collector::{funding_view, Funding, FundingView, SignatureMap};
use crate::error::SpendError;
use crate::finalizer::{
    finalize_spec, lemma_finalized_needs_thresholds, thresholds_met, FinalizedTx,
    FinalizedTxView,
};
use crate::ledger::{submit_outcome_of, LedgerReply, PollStep};
use crate::policy::required_signatures;
use crate::tx::TxView;

verus! {

/// Where a spend stands.
#[derive(Clone, Copy, Debug, PartialEq, Eq)]
pub enum SpendState {
    /// The transaction is built; `required` signatures are asked for in all.
    Built { required: usize },
    /// `collected` signatures were taken in, of the `required`.
    PartiallySigned { collected: usize, required: usize },
    /// Every input is unlocked.
    Finalized,
    /// The transaction was handed to the ledger.
    Broadcast,
    /// The ledger holds the transaction deep enough.
    Confirmed,
    /// Finalizing was tried with too few signatures. The spend has ended.
    PolicyNotSatisfied,
    /// The ledger refused the transaction. The spend has ended.
    Rejected,
}

/// What happened to a spend.
#[derive(Clone, Copy, Debug, PartialEq, Eq)]
pub enum SpendEvent {
    /// A signature was taken in.
    SignatureCollected,
    /// Finalizing was tried; `thresholds_met` says whether every input had
    /// the signatures its policy asks for.
    FinalizeAttempted { thresholds_met: bool },
    /// The transaction was handed to the ledger.
    Submitted,
    /// The ledger refused the transaction.
    LedgerRefused,
    /// The transaction reached the depth waited for.
    DepthReached,
}

/// How many signatures the first `count` inputs ask for in all.
pub open spec fn required_in_all(funding: Seq<FundingView>, count: int) -> nat
    decreases count,
{
    if count <= 0 {
        0
    } else {
        required_in_all(funding, count - 1) + required_signatures(funding[count - 1].policy)
    }
}

/// A number as far as the machine can count.
pub open spec fn capped(n: nat) -> usize {
    if n < usize::MAX {
        n as usize
    } else {
        usize::MAX
    }
}

/// The state of a spend whose transaction is built and whose inputs consume
/// the outputs `funding`: no signature yet, and as many asked for as the
/// policies of all inputs ask for together.
pub fn begin(funding: &Vec<Funding>) -> (state: SpendState)
    ensures
        state == (SpendState::Built {
            required: capped(required_in_all(funding_view(funding@), funding.len() as int)),
        }),
{
    let mut required: usize = 0;
    let mut i: usize = 0;
    while i < funding.len()
        invariant
            i <= funding.len(),
            required == capped(required_in_all(funding_view(funding@), i as int)),
        decreases funding.len() - i,
    {
        assert(funding_view(funding@)[i as int] == funding@[i as int]@);
        let asked = funding[i].policy.required();
        required = if asked <= usize::MAX - required {
            required + asked
        } else {
            usize::MAX
        };
        i += 1;
    }
    SpendState::Built { required }
}

/// One more, as far as the machine can count.
pub open spec fn bump(n: usize) -> usize {
    if n < usize::MAX {
        (n + 1) as usize
    } else {
        n
    }
}

/// The state that `event` leads to from `state`; `None` where the event has
/// no place there.
pub open spec fn next_state(state: SpendState, event: SpendEvent) -> Option<SpendState> {
    match (state, event) {
        (SpendState::Built { required }, SpendEvent::SignatureCollected) => Some(
            SpendState::PartiallySigned { collected: 1, required },
        ),
        (
            SpendState::PartiallySigned { collected, required },
            SpendEvent::SignatureCollected,
        ) => Some(SpendState::PartiallySigned { collected: bump(collected), required }),
        (
            SpendState::PartiallySigned { collected, required },
            SpendEvent::FinalizeAttempted { thresholds_met },
        ) => if thresholds_met {
            Some(SpendState::Finalized)
        } else {
            Some(SpendState::PolicyNotSatisfied)
        },
        (SpendState::Finalized, SpendEvent::Submitted) => Some(SpendState::Broadcast),
        (SpendState::Broadcast, SpendEvent::LedgerRefused) => Some(SpendState::Rejected),
        (SpendState::Broadcast, SpendEvent::DepthReached) => Some(SpendState::Confirmed),
        _ => None,
    }
}

/// How far along a state is: the number of steps from `Built`.
pub open spec fn stage(state: SpendState) -> nat {
    match state {
        SpendState::Built { .. } => 0,
        SpendState::PartiallySigned { .. } => 1,
        SpendState::Finalized => 2,
        SpendState::PolicyNotSatisfied => 2,
        SpendState::Broadcast => 3,
        SpendState::Confirmed => 4,
        SpendState::Rejected => 4,
    }
}

/// Whether a spend in this state has ended.
pub open spec fn is_terminal(state: SpendState) -> bool {
    state is Confirmed || state is PolicyNotSatisfied || state is Rejected
}

/// Takes a spend from `state` along `event`. `None` says that the event has
/// no place in that state, and the spend stays where it is.
pub fn advance(state: SpendState, event: SpendEvent) -> (next: Option<SpendState>)
    ensures
        next == next_state(state, event),
{
    match state {
        SpendState::Built { required } => match event {
            SpendEvent::SignatureCollected => Some(
                SpendState::PartiallySigned { collected: 1, required },
            ),
            _ => None,
        },
        SpendState::PartiallySigned { collected, required } => match event {
            SpendEvent::SignatureCollected => {
                let more = if collected < usize::MAX {
                    collected + 1
                } else {
                    collected
                };
                Some(SpendState::PartiallySigned { collected: more, required })
            },
            SpendEvent::FinalizeAttempted { thresholds_met } => if thresholds_met {
                Some(SpendState::Finalized)
            } else {
                Some(SpendState::PolicyNotSatisfied)
            },
            _ => None,
        },
        SpendState::Finalized => match event {
            SpendEvent::Submitted => Some(SpendState::Broadcast),
            _ => None,
        },
        SpendState::Broadcast => match event {
            SpendEvent::LedgerRefused => Some(SpendState::Rejected),
            SpendEvent::DepthReached => Some(SpendState::Confirmed),
            _ => None,
        },
        _ => None,
    }
}

/// No step skips a stage: a step either takes one more signature and stays
/// in `PartiallySigned`, or leads exactly one stage on.
pub proof fn lemma_no_stage_skipped(state: SpendState, event: SpendEvent)
    requires
        next_state(state, event) is Some,
    ensures
        stage(next_state(state, event)->Some_0) == stage(state) + 1 || (state is PartiallySigned
            && next_state(state, event)->Some_0 is PartiallySigned),
{
}

/// A spend that has ended takes no further step.
pub proof fn lemma_terminal_states_stay(state: SpendState, event: SpendEvent)
    requires
        is_terminal(state),
    ensures
        next_state(state, event) is None,
{
}

/// `Finalized` is reached from `PartiallySigned` only, and only by a
/// finalizing that found the threshold met; the two failures are reached
/// from `PartiallySigned` and from `Broadcast` only.
pub proof fn lemma_ways_into(state: SpendState, event: SpendEvent)
    ensures
        next_state(state, event) == Some(SpendState::Finalized) ==> state is PartiallySigned
            && event == (SpendEvent::FinalizeAttempted { thresholds_met: true }),
        next_state(state, event) == Some(SpendState::PolicyNotSatisfied) ==> state
            is PartiallySigned,
        next_state(state, event) == Some(SpendState::Rejected) ==> state is Broadcast,
{
}


/// What an attempt to finalize means for the spend: it went through, it
/// fell short of a threshold, or it failed for a reason that leaves the
/// spend where it is.
pub open spec fn finalize_event_of(outcome: Result<FinalizedTxView, SpendError>) -> Option<
    SpendEvent,
> {
    match outcome {
        Ok(_) => Some(SpendEvent::FinalizeAttempted { thresholds_met: true }),
        Err(SpendError::PolicyNotSatisfied { .. }) => Some(
            SpendEvent::FinalizeAttempted { thresholds_met: false },
        ),
        Err(_) => None,
    }
}

/// What the ledger's reply to a transaction handed to it means for the
/// spend: nothing new where the ledger has it or could not be reached, the
/// end where the ledger refused it.
pub open spec fn reply_event_of(reply: LedgerReply) -> Option<SpendEvent> {
    match submit_outcome_of(reply) {
        Err(SpendError::LedgerRejected { .. }) => Some(SpendEvent::LedgerRefused),
        _ => None,
    }
}

/// What a step of waiting for confirmation means for the spend. To stop
/// waiting takes nothing back: the spend stays handed in.
pub open spec fn poll_event_of(step: PollStep) -> Option<SpendEvent> {
    match step {
        PollStep::Confirmed => Some(SpendEvent::DepthReached),
        _ => None,
    }
}

/// The event that the outcome of `finalize` stands for, if any.
pub fn finalize_event(outcome: &Result<FinalizedTx, SpendError>) -> (event: Option<SpendEvent>)
    ensures
        match *outcome {
            Ok(ready) => event == finalize_event_of(Ok(ready@)),
            Err(error) => event == finalize_event_of(Err(error)),
        },
{
    match outcome {
        Ok(_) => Some(SpendEvent::FinalizeAttempted { thresholds_met: true }),
        Err(SpendError::PolicyNotSatisfied { .. }) => Some(
            SpendEvent::FinalizeAttempted { thresholds_met: false },
        ),
        Err(_) => None,
    }
}

/// The event that the ledger's reply to a submitted transaction stands
/// for, if any.
pub fn reply_event(reply: LedgerReply) -> (event: Option<SpendEvent>)
    ensures
        event == reply_event_of(reply),
{
    match crate::ledger::submit_outcome(reply) {
        Err(SpendError::LedgerRejected { .. }) => Some(SpendEvent::LedgerRefused),
        _ => None,
    }
}

/// The event that a step of waiting for confirmation stands for, if any.
pub fn poll_event(step: PollStep) -> (event: Option<SpendEvent>)
    ensures
        event == poll_event_of(step),
{
    match step {
        PollStep::Confirmed => Some(SpendEvent::DepthReached),
        _ => None,
    }
}

/// A spend driven by what `finalize` returns reaches `Finalized` only where
/// the signatures that count reach the threshold for every input.
pub proof fn lemma_finalized_means_thresholds_met(
    state: SpendState,
    tx: TxView,
    signatures: SignatureMap,
    funding: Seq<FundingView>,
)
    requires
        finalize_event_of(finalize_spec(tx, signatures, funding)) is Some,
        next_state(state, finalize_event_of(finalize_spec(tx, signatures, funding))->Some_0)
            == Some(SpendState::Finalized),
    ensures
        state is PartiallySigned,
        thresholds_met(tx, signatures, funding),
{
    lemma_finalized_needs_thresholds(tx, signatures, funding);
}

/// A spend that was refused for want of signatures is never handed to the
/// ledger: nothing leads on from `PolicyNotSatisfied`.
pub proof fn lemma_unsatisfied_is_never_submitted(
    state: SpendState,
    error: SpendError,
    later: SpendEvent,
)
    requires
        error is PolicyNotSatisfied,
        state is PartiallySigned,
    ensures
        finalize_event_of(Err(error)) is Some,
        next_state(state, finalize_event_of(Err(error))->Some_0) == Some(
            SpendState::PolicyNotSatisfied,
        ),
        next_state(SpendState::PolicyNotSatisfied, later) is None,
{
}

} // verus!
