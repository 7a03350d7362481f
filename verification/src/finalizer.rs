//! Finalizing: joining the signatures gathered for a transaction into the
//! data that unlocks each of its inputs.

use vstd::prelude::*;

use crate::backend::{
    descriptor_satisfaction, descriptor_unlock, ecdsa_valid, signed_view, stack_view,
};
use crate::collector::{
    collect_all_spec, collected_set, digest_of, funding_view, lemma_collect_order_free,
    one_per_signer, signature_hash, verify, Funding, FundingView, PartialSignatureSet,
    SignatureMap, Submission,
};
use crate::error::SpendError;
use crate::keys::{keys_view, PublicKey, SigHash, Signature};
use crate::policy::{
    descriptor_chars, descriptor_text, is_policy_descriptor, policy_fault, required_signatures,
    signing_keys,
};
use crate::tx::{
    copy_output, outputs_view, OutPoint, OutPointView, TxOut, TxOutView, TxView, WorkingTx,
    TX_LOCK_TIME, TX_VERSION,
};

verus! {

/// What unlocks one input: the witness stack and the signature script.
pub type Unlock = (Vec<Vec<u8>>, Vec<u8>);

/// What an `Unlock` denotes.
pub type UnlockView = (Seq<Seq<u8>>, Seq<u8>);

/// An input with the data that unlocks it.
#[derive(Clone, Debug, PartialEq, Eq)]
pub struct FinalizedInput {
    pub previous_output: OutPoint,
    pub sequence: u32,
    pub script_sig: Vec<u8>,
    pub witness: Vec<Vec<u8>>,
}

/// What a `FinalizedInput` denotes.
pub struct FinalizedInputView {
    pub previous_output: OutPointView,
    pub sequence: u32,
    pub script_sig: Seq<u8>,
    pub witness: Seq<Seq<u8>>,
}

impl View for FinalizedInput {
    type V = FinalizedInputView;

    open spec fn view(&self) -> FinalizedInputView {
        FinalizedInputView {
            previous_output: self.previous_output@,
            sequence: self.sequence,
            script_sig: self.script_sig@,
            witness: stack_view(self.witness@),
        }
    }
}

/// What a finalized transaction denotes.
pub struct FinalizedTxView {
    pub version: i32,
    pub lock_time: u32,
    pub inputs: Seq<FinalizedInputView>,
    pub outputs: Seq<TxOutView>,
}

/// The finalized inputs of a list, each by what it denotes.
pub open spec fn finalized_inputs_view(inputs: Seq<FinalizedInput>) -> Seq<FinalizedInputView> {
    Seq::new(inputs.len(), |i: int| inputs[i]@)
}

/// The unlocking data of a list, each by what it denotes.
pub open spec fn unlocks_view(unlocks: Seq<Unlock>) -> Seq<UnlockView> {
    Seq::new(unlocks.len(), |i: int| (stack_view(unlocks[i].0@), unlocks[i].1@))
}

/// A transaction whose every input is unlocked: ready to be handed to the
/// ledger, and not to be changed any more.
#[derive(Clone, Debug, PartialEq, Eq)]
pub struct FinalizedTx {
    inputs: Vec<FinalizedInput>,
    outputs: Vec<TxOut>,
}

impl View for FinalizedTx {
    type V = FinalizedTxView;

    closed spec fn view(&self) -> FinalizedTxView {
        FinalizedTxView {
            version: TX_VERSION,
            lock_time: TX_LOCK_TIME,
            inputs: finalized_inputs_view(self.inputs@),
            outputs: outputs_view(self.outputs@),
        }
    }
}

impl FinalizedTx {
    /// The inputs, each with what unlocks it.
    pub fn inputs(&self) -> (inputs: &Vec<FinalizedInput>)
        ensures
            finalized_inputs_view(inputs@) == self@.inputs,
    {
        &self.inputs
    }

    /// The outputs.
    pub fn outputs(&self) -> (outputs: &Vec<TxOut>)
        ensures
            outputs_view(outputs@) == self@.outputs,
    {
        &self.outputs
    }

    /// The version.
    pub fn version(&self) -> (version: i32)
        ensures
            version == self@.version,
    {
        TX_VERSION
    }

    /// The lock time, which is `TX_LOCK_TIME`: finalizing keeps the lock time
    /// the transaction was built with, and that is fixed.
    pub fn lock_time(&self) -> (lock_time: u32)
        ensures
            lock_time == self@.lock_time,
            lock_time == TX_LOCK_TIME,
    {
        TX_LOCK_TIME
    }
}

/// The signatures filed for input `input` that count: those by one of
/// `keys` that verify under that key and `digest`, each beside its key, in
/// the order of `keys`.
pub open spec fn valid_signatures(
    keys: Seq<Seq<u8>>,
    signatures: SignatureMap,
    input: int,
    digest: Seq<u8>,
) -> Seq<(Seq<u8>, Seq<u8>)>
    decreases keys.len(),
{
    if keys.len() == 0 {
        Seq::empty()
    } else {
        let before = valid_signatures(keys.drop_last(), signatures, input, digest);
        let key = keys.last();
        if signatures.contains_key((input, key)) && ecdsa_valid(
            digest,
            key,
            signatures[(input, key)],
        ) {
            before.push((key, signatures[(input, key)]))
        } else {
            before
        }
    }
}

/// What unlocks input `input`, which consumes the output `prior`: made from
/// the first signatures that count, in the canonical order of the policy's
/// keys, as many as the policy asks for.
pub open spec fn unlock_of(tx: TxView, signatures: SignatureMap, prior: FundingView, input: int)
    -> Result<UnlockView, SpendError> {
    match digest_of(tx, input, prior.policy, prior.value) {
        Err(error) => Err(error),
        Ok(digest) => {
            let valid = valid_signatures(signing_keys(prior.policy), signatures, input, digest);
            let needed = required_signatures(prior.policy) as int;
            if valid.len() < needed {
                Err(SpendError::PolicyNotSatisfied { input: input as usize })
            } else {
                match descriptor_unlock(descriptor_chars(prior.policy), valid.take(needed)) {
                    None => Err(SpendError::Unsatisfiable { input: input as usize }),
                    Some(unlock) => Ok(unlock),
                }
            }
        },
    }
}

/// What unlocks each of the first `count` inputs, or the failure of the
/// first input that cannot be unlocked.
pub open spec fn unlocks_upto(
    tx: TxView,
    signatures: SignatureMap,
    funding: Seq<FundingView>,
    count: int,
) -> Result<Seq<UnlockView>, SpendError>
    decreases count,
{
    if count <= 0 {
        Ok(Seq::empty())
    } else {
        match unlocks_upto(tx, signatures, funding, count - 1) {
            Err(error) => Err(error),
            Ok(unlocks) => match unlock_of(tx, signatures, funding[count - 1], count - 1) {
                Err(error) => Err(error),
                Ok(unlock) => Ok(unlocks.push(unlock)),
            },
        }
    }
}

/// The transaction `tx` with input `i` unlocked by `unlocks[i]`.
pub open spec fn assembled(tx: TxView, unlocks: Seq<UnlockView>) -> FinalizedTxView {
    FinalizedTxView {
        version: tx.version,
        lock_time: tx.lock_time,
        inputs: Seq::new(
            tx.inputs.len(),
            |i: int|
                FinalizedInputView {
                    previous_output: tx.inputs[i].previous_output,
                    sequence: tx.inputs[i].sequence,
                    script_sig: unlocks[i].1,
                    witness: unlocks[i].0,
                },
        ),
        outputs: tx.outputs,
    }
}

/// What finalizing makes of a transaction, the signatures gathered for it
/// and the outputs it consumes.
pub open spec fn finalize_spec(tx: TxView, signatures: SignatureMap, funding: Seq<FundingView>)
    -> Result<FinalizedTxView, SpendError> {
    if funding.len() != tx.inputs.len() {
        Err(SpendError::InputCountMismatch)
    } else {
        match unlocks_upto(tx, signatures, funding, tx.inputs.len() as int) {
            Err(error) => Err(error),
            Ok(unlocks) => Ok(assembled(tx, unlocks)),
        }
    }
}

/// Whether the signatures that count reach the threshold, for every input.
pub open spec fn thresholds_met(tx: TxView, signatures: SignatureMap, funding: Seq<FundingView>)
    -> bool {
    forall|i: int|
        0 <= i < funding.len() ==> match #[trigger] digest_of(
            tx,
            i,
            funding[i].policy,
            funding[i].value,
        ) {
            Err(_) => false,
            Ok(digest) => valid_signatures(
                signing_keys(funding[i].policy),
                signatures,
                i,
                digest,
            ).len() >= required_signatures(funding[i].policy),
        }
}

/// A copy of a witness stack.
fn copy_stack(stack: &Vec<Vec<u8>>) -> (copy: Vec<Vec<u8>>)
    ensures
        stack_view(copy@) == stack_view(stack@),
{
    let mut copy: Vec<Vec<u8>> = Vec::new();
    let mut i: usize = 0;
    while i < stack.len()
        invariant
            i <= stack.len(),
            copy.len() == i,
            forall|j: int| 0 <= j < i ==> (#[trigger] copy@[j])@ == stack@[j]@,
        decreases stack.len() - i,
    {
        copy.push(crate::tx::copy_bytes(&stack[i]));
        i += 1;
    }
    assert(stack_view(copy@) =~= stack_view(stack@));
    copy
}

/// Joins a transaction with what unlocks each of its inputs. It fails, with
/// `InputCountMismatch`, only where there is not one unlock for each input.
pub fn assemble(tx: &WorkingTx, unlocks: &Vec<Unlock>) -> (joined: Result<FinalizedTx, SpendError>)
    ensures
        match joined {
            Ok(finalized) => unlocks.len() == tx@.inputs.len() && finalized@ == assembled(
                tx@,
                unlocks_view(unlocks@),
            ),
            Err(error) => unlocks.len() != tx@.inputs.len() && error
                == SpendError::InputCountMismatch,
        },
{
    let inputs = tx.inputs();
    let outputs = tx.outputs();
    if unlocks.len() != inputs.len() {
        return Err(SpendError::InputCountMismatch);
    }
    let mut done: Vec<FinalizedInput> = Vec::new();
    let mut i: usize = 0;
    while i < inputs.len()
        invariant
            i <= inputs.len(),
            unlocks.len() == inputs.len(),
            done.len() == i,
            forall|j: int|
                0 <= j < i ==> (#[trigger] done@[j])@ == (FinalizedInputView {
                    previous_output: inputs@[j].previous_output@,
                    sequence: inputs@[j].sequence,
                    script_sig: unlocks@[j].1@,
                    witness: stack_view(unlocks@[j].0@),
                }),
        decreases inputs.len() - i,
    {
        done.push(
            FinalizedInput {
                previous_output: inputs[i].previous_output,
                sequence: inputs[i].sequence,
                script_sig: crate::tx::copy_bytes(&unlocks[i].1),
                witness: copy_stack(&unlocks[i].0),
            },
        );
        i += 1;
    }
    let mut kept: Vec<TxOut> = Vec::new();
    let mut k: usize = 0;
    while k < outputs.len()
        invariant
            k <= outputs.len(),
            kept.len() == k,
            forall|j: int| 0 <= j < k ==> (#[trigger] kept@[j])@ == outputs@[j]@,
        decreases outputs.len() - k,
    {
        kept.push(copy_output(&outputs[k]));
        k += 1;
    }
    let finalized = FinalizedTx { inputs: done, outputs: kept };
    proof {
        let target = assembled(tx@, unlocks_view(unlocks@));
        tx.lemma_fixed_header();
        assert(tx@.inputs.len() == inputs.len());
        assert forall|j: int| 0 <= j < inputs.len() implies finalized_inputs_view(
            finalized.inputs@,
        )[j] == target.inputs[j] by {
            assert(tx@.inputs[j] == inputs@[j]@);
            assert(unlocks_view(unlocks@)[j] == (stack_view(unlocks@[j].0@), unlocks@[j].1@));
        }
        assert(finalized_inputs_view(finalized.inputs@) =~= target.inputs);
        assert(outputs_view(finalized.outputs@) =~= outputs_view(outputs@));
    }
    Ok(finalized)
}


/// The signatures filed for input `input` that count under `keys` and
/// `hash`, each beside its key, in the order of `keys`.
pub fn select_valid(
    keys: &Vec<PublicKey>,
    signature_set: &PartialSignatureSet,
    input: usize,
    hash: &SigHash,
) -> (valid: Vec<(PublicKey, Signature)>)
    ensures
        signed_view(valid@) == valid_signatures(
            keys_view(keys@),
            signature_set@,
            input as int,
            hash@,
        ),
{
    let mut valid: Vec<(PublicKey, Signature)> = Vec::new();
    let mut i: usize = 0;
    assert(keys_view(keys@).take(0) =~= Seq::<Seq<u8>>::empty());
    assert(signed_view(valid@) =~= Seq::<(Seq<u8>, Seq<u8>)>::empty());
    while i < keys.len()
        invariant
            i <= keys.len(),
            signed_view(valid@) == valid_signatures(
                keys_view(keys@).take(i as int),
                signature_set@,
                input as int,
                hash@,
            ),
        decreases keys.len() - i,
    {
        let key = keys[i];
        let ghost before = signed_view(valid@);
        proof {
            let upto = keys_view(keys@).take(i + 1);
            assert(upto.drop_last() =~= keys_view(keys@).take(i as int));
            assert(upto.last() == key@);
        }
        match signature_set.get(input, &key) {
            None => {},
            Some(signature) => {
                if verify(hash, &key, &signature) {
                    let ghost filed = signature@;
                    valid.push((key, signature));
                    assert(signed_view(valid@) =~= before.push((key@, filed)));
                }
            },
        }
        i += 1;
    }
    assert(keys_view(keys@).take(i as int) =~= keys_view(keys@));
    valid
}

/// What unlocks input `input` of `tx`, which consumes the output `prior`.
pub fn unlock_input(
    tx: &WorkingTx,
    signature_set: &PartialSignatureSet,
    prior: &Funding,
    input: usize,
) -> (unlocked: Result<Unlock, SpendError>)
    ensures
        match unlocked {
            Ok(unlock) => unlock_of(tx@, signature_set@, prior@, input as int) == Ok::<
                UnlockView,
                SpendError,
            >((stack_view(unlock.0@), unlock.1@)),
            Err(error) => unlock_of(tx@, signature_set@, prior@, input as int) == Err::<
                UnlockView,
                SpendError,
            >(error),
        },
{
    match signature_hash(tx, input, &prior.policy, prior.value) {
        Err(error) => Err(error),
        Ok(hash) => {
            let keys = prior.policy.ordered_keys();
            let mut valid = select_valid(&keys, signature_set, input, &hash);
            let needed = prior.policy.required();
            if valid.len() < needed {
                return Err(SpendError::PolicyNotSatisfied { input });
            }
            let ghost all = signed_view(valid@);
            valid.truncate(needed);
            assert(signed_view(valid@) =~= all.take(needed as int));
            let text = descriptor_text(&prior.policy);
            assert(is_policy_descriptor(text@)) by {
                assert(policy_fault(prior.policy@) is None && text@ == descriptor_chars(
                    prior.policy@,
                ));
            }
            match descriptor_satisfaction(text.as_str(), &valid) {
                None => Err(SpendError::Unsatisfiable { input }),
                Some(unlock) => Ok(unlock),
            }
        },
    }
}

/// Joins the signatures gathered for `tx` into a transaction that the
/// ledger can take. For each input the signatures are picked in the
/// canonical order of the keys of its policy, whatever order they came in.
/// Where an input has fewer signatures that count than its policy asks for,
/// the whole call fails with `PolicyNotSatisfied` for the first such input;
/// the transaction and the signatures are left as they are either way.
pub fn finalize(
    tx: &WorkingTx,
    signature_set: &PartialSignatureSet,
    funding: &Vec<Funding>,
) -> (finalized: Result<FinalizedTx, SpendError>)
    ensures
        match finalized {
            Ok(ready) => finalize_spec(tx@, signature_set@, funding_view(funding@)) == Ok::<
                FinalizedTxView,
                SpendError,
            >(ready@),
            Err(error) => finalize_spec(tx@, signature_set@, funding_view(funding@)) == Err::<
                FinalizedTxView,
                SpendError,
            >(error),
        },
{
    let count = tx.inputs().len();
    if funding.len() != count {
        return Err(SpendError::InputCountMismatch);
    }
    let mut unlocks: Vec<Unlock> = Vec::new();
    let mut i: usize = 0;
    assert(unlocks_view(unlocks@) =~= Seq::<UnlockView>::empty());
    while i < count
        invariant
            i <= count,
            count == tx@.inputs.len(),
            funding.len() == count,
            unlocks.len() == i,
            unlocks_upto(tx@, signature_set@, funding_view(funding@), i as int) == Ok::<
                Seq<UnlockView>,
                SpendError,
            >(unlocks_view(unlocks@)),
        decreases count - i,
    {
        let ghost before = unlocks_view(unlocks@);
        assert(funding_view(funding@)[i as int] == funding@[i as int]@);
        match unlock_input(tx, signature_set, &funding[i], i) {
            Err(error) => {
                proof {
                    lemma_unlocks_fail_on(
                        tx@,
                        signature_set@,
                        funding_view(funding@),
                        i as int,
                        count as int,
                    );
                }
                return Err(error);
            },
            Ok(unlock) => {
                let ghost added = (stack_view(unlock.0@), unlock.1@);
                unlocks.push(unlock);
                assert(unlocks_view(unlocks@) =~= before.push(added));
            },
        }
        i += 1;
    }
    assemble(tx, &unlocks)
}

/// Where the inputs before `input` can be unlocked and `input` cannot, its
/// failure is that of every longer run of inputs.
pub proof fn lemma_unlocks_fail_on(
    tx: TxView,
    signatures: SignatureMap,
    funding: Seq<FundingView>,
    input: int,
    count: int,
)
    requires
        0 <= input < count,
        unlocks_upto(tx, signatures, funding, input) is Ok,
        unlock_of(tx, signatures, funding[input], input) is Err,
    ensures
        unlocks_upto(tx, signatures, funding, count) == Err::<Seq<UnlockView>, SpendError>(
            unlock_of(tx, signatures, funding[input], input)->Err_0,
        ),
    decreases count - input,
{
    if count > input + 1 {
        lemma_unlocks_fail_on(tx, signatures, funding, input, count - 1);
    }
}

/// Where a run of inputs can be unlocked, each of them can.
pub proof fn lemma_unlocks_need_each(
    tx: TxView,
    signatures: SignatureMap,
    funding: Seq<FundingView>,
    count: int,
    input: int,
)
    requires
        0 <= input < count,
        unlocks_upto(tx, signatures, funding, count) is Ok,
    ensures
        unlock_of(tx, signatures, funding[input], input) is Ok,
    decreases count,
{
    if input < count - 1 {
        lemma_unlocks_need_each(tx, signatures, funding, count - 1, input);
    }
}

/// How many of `keys` have a signature filed for input `input`, whether it
/// verifies or not.
pub open spec fn filed_count(keys: Seq<Seq<u8>>, signatures: SignatureMap, input: int) -> nat
    decreases keys.len(),
{
    if keys.len() == 0 {
        0
    } else {
        filed_count(keys.drop_last(), signatures, input) + if signatures.contains_key(
            (input, keys.last()),
        ) {
            1nat
        } else {
            0nat
        }
    }
}

/// No more signatures count than are filed.
pub proof fn lemma_valid_at_most_filed(
    keys: Seq<Seq<u8>>,
    signatures: SignatureMap,
    input: int,
    digest: Seq<u8>,
)
    ensures
        valid_signatures(keys, signatures, input, digest).len() <= filed_count(
            keys,
            signatures,
            input,
        ),
    decreases keys.len(),
{
    if keys.len() > 0 {
        lemma_valid_at_most_filed(keys.drop_last(), signatures, input, digest);
    }
}

/// Finalizing fails where an input has fewer signatures filed under the keys
/// of its policy than the policy asks for; and where the digest of that
/// input can be had, the input's own failure is `PolicyNotSatisfied`.
pub proof fn lemma_too_few_signatures_fail(
    tx: TxView,
    signatures: SignatureMap,
    funding: Seq<FundingView>,
    input: int,
)
    requires
        0 <= input < funding.len(),
        filed_count(signing_keys(funding[input].policy), signatures, input) < required_signatures(
            funding[input].policy,
        ),
    ensures
        finalize_spec(tx, signatures, funding) is Err,
        digest_of(tx, input, funding[input].policy, funding[input].value) is Ok ==> unlock_of(
            tx,
            signatures,
            funding[input],
            input,
        ) == Err::<UnlockView, SpendError>(SpendError::PolicyNotSatisfied { input: input as usize }),
{
    let prior = funding[input];
    if digest_of(tx, input, prior.policy, prior.value) is Ok {
        let digest = digest_of(tx, input, prior.policy, prior.value)->Ok_0;
        lemma_valid_at_most_filed(signing_keys(prior.policy), signatures, input, digest);
    }
    if funding.len() == tx.inputs.len() && unlocks_upto(
        tx,
        signatures,
        funding,
        tx.inputs.len() as int,
    ) is Ok {
        lemma_unlocks_need_each(tx, signatures, funding, tx.inputs.len() as int, input);
    }
}

/// A transaction is finalized only where the signatures that count reach
/// the threshold for every one of its inputs.
pub proof fn lemma_finalized_needs_thresholds(
    tx: TxView,
    signatures: SignatureMap,
    funding: Seq<FundingView>,
)
    requires
        finalize_spec(tx, signatures, funding) is Ok,
    ensures
        thresholds_met(tx, signatures, funding),
{
    assert forall|i: int| 0 <= i < funding.len() implies match #[trigger] digest_of(
        tx,
        i,
        funding[i].policy,
        funding[i].value,
    ) {
        Err(_) => false,
        Ok(digest) => valid_signatures(signing_keys(funding[i].policy), signatures, i, digest).len()
            >= required_signatures(funding[i].policy),
    } by {
        lemma_unlocks_need_each(tx, signatures, funding, tx.inputs.len() as int, i);
    }
}


/// Finalizing does not depend on the order in which the signatures came:
/// where the same submissions, none of them for the same input and signer
/// twice, are all taken in in one order, finalizing after taking them in
/// in any other order comes to the same, byte for byte.
pub proof fn lemma_finalize_order_free(
    signatures: SignatureMap,
    tx: TxView,
    funding: Seq<FundingView>,
    one: Seq<Submission>,
    other: Seq<Submission>,
)
    requires
        one.to_multiset() == other.to_multiset(),
        one_per_signer(one),
        one_per_signer(other),
        collect_all_spec(signatures, tx, funding, one) is Ok,
    ensures
        collect_all_spec(signatures, tx, funding, other) is Ok,
        finalize_spec(tx, collected_set(signatures, tx, funding, other), funding) == finalize_spec(
            tx,
            collected_set(signatures, tx, funding, one),
            funding,
        ),
{
    lemma_collect_order_free(signatures, tx, funding, one, other);
}

/// Where the signatures that count reach the threshold for every input,
/// nothing stands between the transaction and its finalized form but the
/// joining of the signatures into unlocking data: finalizing succeeds, or
/// fails with `Unsatisfiable`, and with nothing else.
pub proof fn lemma_thresholds_met_leave_joining(
    tx: TxView,
    signatures: SignatureMap,
    funding: Seq<FundingView>,
)
    requires
        funding.len() == tx.inputs.len(),
        thresholds_met(tx, signatures, funding),
    ensures
        match finalize_spec(tx, signatures, funding) {
            Ok(_) => true,
            Err(error) => error is Unsatisfiable,
        },
{
    lemma_unlocks_with_thresholds(tx, signatures, funding, tx.inputs.len() as int);
}

/// Where every threshold is met, a run of inputs is unlocked or fails with
/// `Unsatisfiable`.
proof fn lemma_unlocks_with_thresholds(
    tx: TxView,
    signatures: SignatureMap,
    funding: Seq<FundingView>,
    count: int,
)
    requires
        0 <= count <= funding.len(),
        thresholds_met(tx, signatures, funding),
    ensures
        match unlocks_upto(tx, signatures, funding, count) {
            Ok(_) => true,
            Err(error) => error is Unsatisfiable,
        },
    decreases count,
{
    if count > 0 {
        lemma_unlocks_with_thresholds(tx, signatures, funding, count - 1);
        let i = count - 1;
        assert(digest_of(tx, i, funding[i].policy, funding[i].value) is Ok);
    }
}

} // verus!
