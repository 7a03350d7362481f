//! A whole spend in one call: sign every input with the keys at hand and
//! finalize, or find the output to spend first and then do so.

use vstd::prelude::*;

use crate::backend::ecdsa_signature;
use crate::collector::{
    collect, collect_spec, digest_of, funding_view, sign, signature_hash, Funding, FundingView,
    PartialSignatureSet, SignatureMap,
};
use crate::error::SpendError;
use crate::finalizer::{finalize, finalize_spec, FinalizedTx, FinalizedTxView};
use crate::keys::{keys_view, PublicKey, SecretKey};
use crate::locator::{find_output, is_first_match, no_match};
use crate::policy::{
    clone_policy, derive_locking_script, locking_script_of, PolicyView, SpendingPolicy,
};
use crate::tx::{
    OutPointView, TxInView, TxOut, TxOutView, TxView, WorkingTx, SEQUENCE_FINAL, TX_LOCK_TIME,
    TX_VERSION,
};

verus! {

/// The secrets of a list, each by its bytes.
pub open spec fn secrets_view(secrets: Seq<SecretKey>) -> Seq<Seq<u8>> {
    Seq::new(secrets.len(), |i: int| secrets[i]@)
}

/// What one signer adds to a set: the signature of `secret` over the digest
/// of input `input`, taken in as that of `key`.
pub open spec fn sign_one_spec(
    signatures: SignatureMap,
    tx: TxView,
    funding: Seq<FundingView>,
    input: int,
    secret: Seq<u8>,
    key: Seq<u8>,
) -> Result<SignatureMap, SpendError> {
    if !(0 <= input < funding.len()) {
        Err(SpendError::InputOutOfRange)
    } else {
        match digest_of(tx, input, funding[input].policy, funding[input].value) {
            Err(error) => Err(error),
            Ok(digest) => match ecdsa_signature(digest, secret) {
                None => Err(SpendError::UnusableSecret),
                Some(signature) => collect_spec(signatures, tx, funding, input, key, signature),
            },
        }
    }
}

/// What the first `count` signers add to a set for input `input`, or the
/// failure of the first of them whose signature is not taken in.
pub open spec fn sign_input_spec(
    signatures: SignatureMap,
    tx: TxView,
    funding: Seq<FundingView>,
    input: int,
    secrets: Seq<Seq<u8>>,
    keys: Seq<Seq<u8>>,
    count: int,
) -> Result<SignatureMap, SpendError>
    decreases count,
{
    if count <= 0 {
        Ok(signatures)
    } else {
        match sign_input_spec(signatures, tx, funding, input, secrets, keys, count - 1) {
            Err(error) => Err(error),
            Ok(so_far) => sign_one_spec(
                so_far,
                tx,
                funding,
                input,
                secrets[count - 1],
                keys[count - 1],
            ),
        }
    }
}

/// What all signers add to a set for the first `count` inputs, input by
/// input.
pub open spec fn sign_inputs_spec(
    signatures: SignatureMap,
    tx: TxView,
    funding: Seq<FundingView>,
    secrets: Seq<Seq<u8>>,
    keys: Seq<Seq<u8>>,
    count: int,
) -> Result<SignatureMap, SpendError>
    decreases count,
{
    if count <= 0 {
        Ok(signatures)
    } else {
        match sign_inputs_spec(signatures, tx, funding, secrets, keys, count - 1) {
            Err(error) => Err(error),
            Ok(so_far) => sign_input_spec(
                so_far,
                tx,
                funding,
                count - 1,
                secrets,
                keys,
                secrets.len() as int,
            ),
        }
    }
}

/// What signing every input with every secret and finalizing comes to.
pub open spec fn sign_and_finalize_spec(
    tx: TxView,
    funding: Seq<FundingView>,
    secrets: Seq<Seq<u8>>,
    keys: Seq<Seq<u8>>,
) -> Result<FinalizedTxView, SpendError> {
    if keys.len() < secrets.len() {
        Err(SpendError::MissingPublicKey)
    } else if funding.len() != tx.inputs.len() {
        Err(SpendError::InputCountMismatch)
    } else {
        match sign_inputs_spec(
            SignatureMap::empty(),
            tx,
            funding,
            secrets,
            keys,
            tx.inputs.len() as int,
        ) {
            Err(error) => Err(error),
            Ok(signatures) => finalize_spec(tx, signatures, funding),
        }
    }
}

/// Once a signer has failed on an input, further signers change nothing.
proof fn lemma_sign_input_fails_on(
    signatures: SignatureMap,
    tx: TxView,
    funding: Seq<FundingView>,
    input: int,
    secrets: Seq<Seq<u8>>,
    keys: Seq<Seq<u8>>,
    at: int,
    count: int,
)
    requires
        0 < at <= count,
        sign_input_spec(signatures, tx, funding, input, secrets, keys, at) is Err,
    ensures
        sign_input_spec(signatures, tx, funding, input, secrets, keys, count) == sign_input_spec(
            signatures,
            tx,
            funding,
            input,
            secrets,
            keys,
            at,
        ),
    decreases count - at,
{
    if count > at {
        lemma_sign_input_fails_on(signatures, tx, funding, input, secrets, keys, at, count - 1);
    }
}

/// Once signing has failed on an input, further inputs change nothing.
proof fn lemma_sign_inputs_fail_on(
    signatures: SignatureMap,
    tx: TxView,
    funding: Seq<FundingView>,
    secrets: Seq<Seq<u8>>,
    keys: Seq<Seq<u8>>,
    at: int,
    count: int,
)
    requires
        0 < at <= count,
        sign_inputs_spec(signatures, tx, funding, secrets, keys, at) is Err,
    ensures
        sign_inputs_spec(signatures, tx, funding, secrets, keys, count) == sign_inputs_spec(
            signatures,
            tx,
            funding,
            secrets,
            keys,
            at,
        ),
    decreases count - at,
{
    if count > at {
        lemma_sign_inputs_fail_on(signatures, tx, funding, secrets, keys, at, count - 1);
    }
}

/// Signs input `input` with each secret in turn and files each signature
/// under the public key at the same position.
fn sign_input(
    set: &mut PartialSignatureSet,
    tx: &WorkingTx,
    funding: &Vec<Funding>,
    input: usize,
    secrets: &Vec<SecretKey>,
    pubkeys: &Vec<PublicKey>,
) -> (signed: Result<(), SpendError>)
    requires
        secrets.len() <= pubkeys.len(),
        input < funding.len(),
    ensures
        match signed {
            Ok(_) => sign_input_spec(
                old(set)@,
                tx@,
                funding_view(funding@),
                input as int,
                secrets_view(secrets@),
                keys_view(pubkeys@),
                secrets.len() as int,
            ) == Ok::<SignatureMap, SpendError>(final(set)@),
            Err(error) => sign_input_spec(
                old(set)@,
                tx@,
                funding_view(funding@),
                input as int,
                secrets_view(secrets@),
                keys_view(pubkeys@),
                secrets.len() as int,
            ) == Err::<SignatureMap, SpendError>(error),
        },
{
    let prior = &funding[input];
    let mut i: usize = 0;
    while i < secrets.len()
        invariant
            i <= secrets.len(),
            secrets.len() <= pubkeys.len(),
            input < funding.len(),
            *prior == funding@[input as int],
            sign_input_spec(
                old(set)@,
                tx@,
                funding_view(funding@),
                input as int,
                secrets_view(secrets@),
                keys_view(pubkeys@),
                i as int,
            ) == Ok::<SignatureMap, SpendError>(set@),
        decreases secrets.len() - i,
    {
        let ghost next = sign_input_spec(
            old(set)@,
            tx@,
            funding_view(funding@),
            input as int,
            secrets_view(secrets@),
            keys_view(pubkeys@),
            i + 1,
        );
        assert(funding_view(funding@)[input as int] == funding@[input as int]@);
        let step = match signature_hash(tx, input, &prior.policy, prior.value) {
            Err(error) => Err(error),
            Ok(hash) => match sign(&hash, &secrets[i]) {
                Err(error) => Err(error),
                Ok(signature) => collect(set, tx, funding, input, &pubkeys[i], signature),
            },
        };
        match step {
            Err(error) => {
                proof {
                    assert(next == Err::<SignatureMap, SpendError>(error));
                    lemma_sign_input_fails_on(
                        old(set)@,
                        tx@,
                        funding_view(funding@),
                        input as int,
                        secrets_view(secrets@),
                        keys_view(pubkeys@),
                        i + 1,
                        secrets.len() as int,
                    );
                }
                return Err(error);
            },
            Ok(_) => {
                assert(next == Ok::<SignatureMap, SpendError>(set@));
            },
        }
        i += 1;
    }
    Ok(())
}

/// Signs every input of `tx` with every one of `secrets`, takes each
/// signature in as that of the public key at the same position, and
/// finalizes. A signature that does not verify under its public key ends
/// the call with `InvalidSignature`; fewer public keys than secrets, with
/// `MissingPublicKey`.
pub fn sign_and_finalize(
    tx: &WorkingTx,
    funding: &Vec<Funding>,
    secrets: &Vec<SecretKey>,
    pubkeys: &Vec<PublicKey>,
) -> (finalized: Result<FinalizedTx, SpendError>)
    ensures
        match finalized {
            Ok(ready) => sign_and_finalize_spec(
                tx@,
                funding_view(funding@),
                secrets_view(secrets@),
                keys_view(pubkeys@),
            ) == Ok::<FinalizedTxView, SpendError>(ready@),
            Err(error) => sign_and_finalize_spec(
                tx@,
                funding_view(funding@),
                secrets_view(secrets@),
                keys_view(pubkeys@),
            ) == Err::<FinalizedTxView, SpendError>(error),
        },
{
    if pubkeys.len() < secrets.len() {
        return Err(SpendError::MissingPublicKey);
    }
    let count = tx.inputs().len();
    if funding.len() != count {
        return Err(SpendError::InputCountMismatch);
    }
    let mut set = PartialSignatureSet::new();
    let mut input: usize = 0;
    while input < count
        invariant
            input <= count,
            count == tx@.inputs.len(),
            funding.len() == count,
            secrets.len() <= pubkeys.len(),
            sign_inputs_spec(
                SignatureMap::empty(),
                tx@,
                funding_view(funding@),
                secrets_view(secrets@),
                keys_view(pubkeys@),
                input as int,
            ) == Ok::<SignatureMap, SpendError>(set@),
        decreases count - input,
    {
        match sign_input(&mut set, tx, funding, input, secrets, pubkeys) {
            Err(error) => {
                proof {
                    lemma_sign_inputs_fail_on(
                        SignatureMap::empty(),
                        tx@,
                        funding_view(funding@),
                        secrets_view(secrets@),
                        keys_view(pubkeys@),
                        input + 1,
                        count as int,
                    );
                }
                return Err(error);
            },
            Ok(_) => {},
        }
        input += 1;
    }
    finalize(tx, &set, funding)
}


/// The transaction that consumes output `vout` of the transaction `txid`
/// and creates the one output `pay`.
pub open spec fn single_spend(txid: Seq<u8>, vout: u32, pay: TxOutView) -> TxView {
    TxView {
        version: TX_VERSION,
        lock_time: TX_LOCK_TIME,
        inputs: seq![
            TxInView {
                previous_output: OutPointView { txid, vout },
                sequence: SEQUENCE_FINAL,
            },
        ],
        outputs: seq![pay],
    }
}

/// What spending output `vout` of the transaction `txid` comes to, where
/// that output holds `value` under `policy`.
pub open spec fn spend_of(
    txid: Seq<u8>,
    vout: u32,
    value: u64,
    policy: PolicyView,
    pay: TxOutView,
    secrets: Seq<Seq<u8>>,
    keys: Seq<Seq<u8>>,
) -> Result<FinalizedTxView, SpendError> {
    sign_and_finalize_spec(
        single_spend(txid, vout, pay),
        seq![FundingView { policy, value }],
        secrets,
        keys,
    )
}

/// Spends the output of the transaction `txid` that `policy` locks: finds
/// the first of `outputs` that carries the policy's locking script, builds
/// the transaction that consumes it and creates `pay`, signs with every one
/// of `secrets` and finalizes. Where no output carries the script the call
/// fails with `UtxoNotFound`.
pub fn spend(
    txid: [u8; 32],
    outputs: &Vec<TxOut>,
    policy: &SpendingPolicy,
    pay: TxOut,
    secrets: &Vec<SecretKey>,
    pubkeys: &Vec<PublicKey>,
) -> (spent: Result<FinalizedTx, SpendError>)
    ensures
        locking_script_of(policy@) is Err ==> spent is Err && spent->Err_0 == locking_script_of(
            policy@,
        )->Err_0,
        locking_script_of(policy@) is Ok && no_match(outputs@, locking_script_of(policy@)->Ok_0)
            ==> spent is Err && spent->Err_0 == SpendError::UtxoNotFound,
        forall|i: int|
            locking_script_of(policy@) is Ok && i <= u32::MAX && #[trigger] is_first_match(
                outputs@,
                locking_script_of(policy@)->Ok_0,
                i,
            ) ==> match spent {
                Ok(ready) => spend_of(
                    txid@,
                    i as u32,
                    outputs@[i].value,
                    policy@,
                    pay@,
                    secrets_view(secrets@),
                    keys_view(pubkeys@),
                ) == Ok::<FinalizedTxView, SpendError>(ready@),
                Err(error) => spend_of(
                    txid@,
                    i as u32,
                    outputs@[i].value,
                    policy@,
                    pay@,
                    secrets_view(secrets@),
                    keys_view(pubkeys@),
                ) == Err::<FinalizedTxView, SpendError>(error),
            },
{
    let script = match derive_locking_script(policy) {
        Err(error) => {
            return Err(error);
        },
        Ok(script) => script,
    };
    match find_output(txid, outputs, &script) {
        None => {
            assert forall|i: int|
                i <= u32::MAX && #[trigger] is_first_match(outputs@, script@, i) implies false by {
                assert(outputs@[i].script_pubkey@ == script@);
            }
            Err(SpendError::UtxoNotFound)
        },
        Some((outpoint, prior)) => {
            let ghost at = outpoint.vout as int;
            assert forall|i: int| #[trigger] is_first_match(outputs@, script@, i) implies i
                == at by {
                if i < at {
                    assert(outputs@[i].script_pubkey@ != script@);
                } else if at < i {
                    assert(outputs@[at].script_pubkey@ != script@);
                }
            }
            assert(!no_match(outputs@, script@)) by {
                assert(outputs@[at].script_pubkey@ == script@);
            }
            let mut tx = WorkingTx::new();
            tx.add_input(outpoint, SEQUENCE_FINAL);
            let ghost paid = pay@;
            tx.add_output(pay.value, pay.script_pubkey);
            let mut funding: Vec<Funding> = Vec::new();
            funding.push(Funding { policy: clone_policy(policy), value: prior.value });
            proof {
                assert(tx@.inputs =~= single_spend(txid@, outpoint.vout, paid).inputs);
                assert(tx@.outputs =~= single_spend(txid@, outpoint.vout, paid).outputs);
                assert(tx@ == single_spend(txid@, outpoint.vout, paid));
                assert(funding_view(funding@) =~= seq![
                    FundingView { policy: policy@, value: outputs@[at].value },
                ]);
            }
            sign_and_finalize(&tx, &funding, secrets, pubkeys)
        },
    }
}

} // verus!
