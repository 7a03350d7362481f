use std::collections::BTreeMap;
use std::str::FromStr;

use miniscript::bitcoin;
use miniscript::bitcoin::util::psbt;
use miniscript::bitcoin::util::psbt::PartiallySignedTransaction;
use miniscript::bitcoin::util::sighash::{Prevouts, SighashCache};
use miniscript::psbt::{PsbtExt, PsbtInputExt};
use miniscript::{DefiniteDescriptorKey, Descriptor};
use threshold_spend::collector::{
    collect, record, sign, signature_hash, verify, Funding, PartialSignatureSet,
};
use threshold_spend::error::SpendError;
use threshold_spend::finalizer::{
    assemble, finalize, select_valid, unlock_input, FinalizedTx,
};
use threshold_spend::keys::{PublicKey, SecretKey, SigHash, Signature};
use threshold_spend::locator::find_output;
use threshold_spend::policy::{
    derive_locking_script, descriptor_text, PolicyConstructionError, SpendingPolicy,
};
use threshold_spend::spend::{sign_and_finalize, spend};
use threshold_spend::tx::{OutPoint, TxIn, TxOut, WorkingTx, SEQUENCE_FINAL};

fn secret(n: u8) -> SecretKey {
    let mut bytes = [0u8; 32];
    bytes[31] = n;
    SecretKey { bytes }
}

fn public(n: u8) -> PublicKey {
    let secp = secp256k1::Secp256k1::new();
    let sk = secp256k1::SecretKey::from_slice(&secret(n).bytes).unwrap();
    PublicKey { bytes: secp256k1::PublicKey::from_secret_key(&secp, &sk).serialize() }
}

fn two_of_three() -> SpendingPolicy {
    SpendingPolicy::threshold(2, vec![public(1), public(2), public(3)]).unwrap()
}

fn destination() -> Vec<u8> {
    derive_locking_script(&SpendingPolicy::single_key(public(9))).unwrap()
}

const FUNDING_TXID: [u8; 32] = [0x11; 32];

/// The outputs of a transaction that pays `value` to `policy` at position 1.
fn funded(policy: &SpendingPolicy, value: u64) -> Vec<TxOut> {
    vec![
        TxOut { value: 4_899_999_000, script_pubkey: destination() },
        TxOut { value, script_pubkey: derive_locking_script(policy).unwrap() },
    ]
}

fn spending_tx(outpoint: OutPoint, value: u64) -> WorkingTx {
    let mut tx = WorkingTx::new();
    tx.add_input(outpoint, SEQUENCE_FINAL);
    tx.add_output(value, destination());
    tx
}

fn to_bitcoin(tx: &FinalizedTx) -> bitcoin::Transaction {
    bitcoin::Transaction {
        version: tx.version(),
        lock_time: bitcoin::PackedLockTime(tx.lock_time()),
        input: tx
            .inputs()
            .iter()
            .map(|i| bitcoin::TxIn {
                previous_output: bitcoin::OutPoint::new(
                    bitcoin::hashes::Hash::from_inner(i.previous_output.txid),
                    i.previous_output.vout,
                ),
                script_sig: bitcoin::Script::from(i.script_sig.clone()),
                sequence: bitcoin::Sequence(i.sequence),
                witness: bitcoin::Witness::from_vec(i.witness.clone()),
            })
            .collect(),
        output: tx
            .outputs()
            .iter()
            .map(|o| bitcoin::TxOut {
                value: o.value,
                script_pubkey: bitcoin::Script::from(o.script_pubkey.clone()),
            })
            .collect(),
    }
}

/// Whether the signatures in input 0 of `tx` unlock `prior`, judged by an
/// interpreter that checks each signature.
fn unlocks(tx: &FinalizedTx, prior: &TxOut) -> bool {
    let secp = secp256k1::Secp256k1::new();
    let spent = bitcoin::TxOut {
        value: prior.value,
        script_pubkey: bitcoin::Script::from(prior.script_pubkey.clone()),
    };
    let tx = to_bitcoin(tx);
    let interpreter = miniscript::interpreter::Interpreter::from_txdata(
        &spent.script_pubkey,
        &tx.input[0].script_sig,
        &tx.input[0].witness,
        tx.input[0].sequence,
        tx.lock_time.into(),
    )
    .unwrap();
    let prevouts = Prevouts::All(&[spent.clone()]);
    let all_ok = interpreter.iter(&secp, &tx, 0, &prevouts).all(|step| step.is_ok());
    all_ok
}

/// The same spend made the long way round: a partially signed transaction
/// filled by hand, signed, finalized and extracted by the descriptor library.
fn reference_spend(
    descriptor: &str,
    outpoint: OutPoint,
    prior: &TxOut,
    pay: &TxOut,
    signers: &[u8],
) -> bitcoin::Transaction {
    let secp = secp256k1::Secp256k1::new();
    let desc = Descriptor::<DefiniteDescriptorKey>::from_str(descriptor).unwrap();
    let mut psbt = PartiallySignedTransaction {
        unsigned_tx: bitcoin::Transaction {
            version: 2,
            lock_time: bitcoin::PackedLockTime::ZERO,
            input: vec![],
            output: vec![],
        },
        version: 0,
        xpub: BTreeMap::new(),
        proprietary: BTreeMap::new(),
        unknown: BTreeMap::new(),
        inputs: vec![],
        outputs: vec![],
    };
    let mut txin = bitcoin::TxIn::default();
    txin.previous_output =
        bitcoin::OutPoint::new(bitcoin::hashes::Hash::from_inner(outpoint.txid), outpoint.vout);
    txin.sequence = bitcoin::Sequence::MAX;
    psbt.unsigned_tx.input.push(txin);
    psbt.unsigned_tx.output.push(bitcoin::TxOut {
        value: pay.value,
        script_pubkey: bitcoin::Script::from(pay.script_pubkey.clone()),
    });
    let mut input = psbt::Input::default();
    input.update_with_descriptor_unchecked(&desc).unwrap();
    input.witness_utxo = Some(bitcoin::TxOut {
        value: prior.value,
        script_pubkey: bitcoin::Script::from(prior.script_pubkey.clone()),
    });
    psbt.inputs.push(input);
    psbt.outputs.push(psbt::Output::default());

    let mut cache = SighashCache::new(&psbt.unsigned_tx);
    let msg = psbt.sighash_msg(0, &mut cache, None).unwrap().to_secp_msg();
    for n in signers {
        let sk = secp256k1::SecretKey::from_slice(&secret(*n).bytes).unwrap();
        let sig = secp.sign_ecdsa(&msg, &sk);
        psbt.inputs[0].partial_sigs.insert(
            bitcoin::PublicKey::from_slice(&public(*n).bytes).unwrap(),
            bitcoin::EcdsaSig { sig, hash_ty: bitcoin::EcdsaSighashType::All },
        );
    }
    psbt.finalize_mut(&secp).unwrap();
    psbt.extract(&secp).unwrap()
}

#[test]
fn two_of_three_spend_signed_by_first_and_third() {
    let policy = two_of_three();
    let outputs = funded(&policy, 100_000_000);
    let script = derive_locking_script(&policy).unwrap();
    let (outpoint, prior) = find_output(FUNDING_TXID, &outputs, &script).unwrap();
    assert_eq!(outpoint, OutPoint { txid: FUNDING_TXID, vout: 1 });
    assert_eq!(prior.value, 100_000_000);

    let tx = spending_tx(outpoint, 99_900_000);
    let funding = vec![Funding { policy: policy.clone(), value: prior.value }];
    let hash = signature_hash(&tx, 0, &policy, prior.value).unwrap();
    let mut set = PartialSignatureSet::new();
    for n in [1u8, 3u8] {
        let signature = sign(&hash, &secret(n)).unwrap();
        assert_eq!(collect(&mut set, &tx, &funding, 0, &public(n), signature), Ok(()));
    }
    let ready = finalize(&tx, &set, &funding).unwrap();

    assert_eq!(ready.outputs().len(), 1);
    assert_eq!(ready.outputs()[0].value, 99_900_000);
    assert_eq!(ready.outputs()[0].script_pubkey, destination());
    assert_eq!(ready.inputs().len(), 1);
    assert_eq!(ready.inputs()[0].previous_output, outpoint);
    assert_eq!(ready.inputs()[0].sequence, SEQUENCE_FINAL);
    assert!(ready.inputs()[0].script_sig.is_empty());
    // An empty item, two signatures, the script they satisfy.
    assert_eq!(ready.inputs()[0].witness.len(), 4);
    assert!(ready.inputs()[0].witness[0].is_empty());
    assert!(unlocks(&ready, &prior));

    let pay = TxOut { value: 99_900_000, script_pubkey: destination() };
    let reference = reference_spend(&descriptor_text(&policy), outpoint, &prior, &pay, &[1, 3]);
    assert_eq!(to_bitcoin(&ready), reference);
}

#[test]
fn one_signature_of_two_does_not_finalize() {
    let policy = two_of_three();
    let outputs = funded(&policy, 100_000_000);
    let script = derive_locking_script(&policy).unwrap();
    let (outpoint, prior) = find_output(FUNDING_TXID, &outputs, &script).unwrap();
    let tx = spending_tx(outpoint, 99_900_000);
    let funding = vec![Funding { policy: policy.clone(), value: prior.value }];
    let hash = signature_hash(&tx, 0, &policy, prior.value).unwrap();
    let mut set = PartialSignatureSet::new();
    let signature = sign(&hash, &secret(2)).unwrap();
    collect(&mut set, &tx, &funding, 0, &public(2), signature.clone()).unwrap();

    let before_tx = tx.clone();
    assert_eq!(finalize(&tx, &set, &funding), Err(SpendError::PolicyNotSatisfied { input: 0 }));
    // Nothing was used up: the transaction and the set are as before.
    assert_eq!(tx, before_tx);
    assert_eq!(set.get(0, &public(2)), Some(signature));
    assert_eq!(set.get(0, &public(1)), None);
}

#[test]
fn no_signature_does_not_finalize() {
    let policy = two_of_three();
    let tx = spending_tx(OutPoint { txid: FUNDING_TXID, vout: 1 }, 1_000);
    let funding = vec![Funding { policy, value: 2_000 }];
    let set = PartialSignatureSet::new();
    assert_eq!(finalize(&tx, &set, &funding), Err(SpendError::PolicyNotSatisfied { input: 0 }));
}

#[test]
fn finalized_bytes_do_not_depend_on_the_order_of_submission() {
    let policy = two_of_three();
    let outpoint = OutPoint { txid: FUNDING_TXID, vout: 1 };
    let tx = spending_tx(outpoint, 99_900_000);
    let funding = vec![Funding { policy: policy.clone(), value: 100_000_000 }];
    let hash = signature_hash(&tx, 0, &policy, 100_000_000).unwrap();

    let mut forward = PartialSignatureSet::new();
    for n in [1u8, 3u8] {
        let signature = sign(&hash, &secret(n)).unwrap();
        collect(&mut forward, &tx, &funding, 0, &public(n), signature).unwrap();
    }
    let mut backward = PartialSignatureSet::new();
    for n in [3u8, 1u8] {
        let signature = sign(&hash, &secret(n)).unwrap();
        collect(&mut backward, &tx, &funding, 0, &public(n), signature).unwrap();
    }
    let a = finalize(&tx, &forward, &funding).unwrap();
    let b = finalize(&tx, &backward, &funding).unwrap();
    assert_eq!(a, b);
    assert_eq!(
        bitcoin::consensus::serialize(&to_bitcoin(&a)),
        bitcoin::consensus::serialize(&to_bitcoin(&b))
    );
}

#[test]
fn three_signatures_finalize_like_the_first_two_in_key_order() {
    let policy = two_of_three();
    let outputs = funded(&policy, 100_000_000);
    let pay = TxOut { value: 99_980_000, script_pubkey: destination() };
    let secrets = vec![secret(1), secret(2), secret(3)];
    let pubkeys = vec![public(1), public(2), public(3)];
    let ready = spend(FUNDING_TXID, &outputs, &policy, pay.clone(), &secrets, &pubkeys).unwrap();
    assert_eq!(ready.inputs()[0].witness.len(), 4);
    assert!(unlocks(&ready, &outputs[1]));

    let outpoint = OutPoint { txid: FUNDING_TXID, vout: 1 };
    let reference =
        reference_spend(&descriptor_text(&policy), outpoint, &outputs[1], &pay, &[1, 2, 3]);
    assert_eq!(to_bitcoin(&ready), reference);

    // The two signatures are those of the first two keys in canonical order.
    let keys = policy.ordered_keys();
    let tx = spending_tx(outpoint, 99_980_000);
    let hash = signature_hash(&tx, 0, &policy, 100_000_000).unwrap();
    for (slot, key) in keys.iter().take(2).enumerate() {
        let mut der = ready.inputs()[0].witness[slot + 1].clone();
        assert_eq!(der.pop(), Some(0x01));
        assert!(verify(&hash, key, &Signature { der }));
    }
}

#[test]
fn single_key_spend_pays_the_value_asked_for() {
    let policy = SpendingPolicy::single_key(public(7));
    let outputs = funded(&policy, 100_000_000);
    let pay = TxOut { value: 99_980_000, script_pubkey: destination() };
    let ready =
        spend(FUNDING_TXID, &outputs, &policy, pay.clone(), &vec![secret(7)], &vec![public(7)])
            .unwrap();
    assert_eq!(ready.outputs().to_vec(), vec![pay.clone()]);
    assert!(ready.inputs()[0].witness.is_empty());
    assert!(!ready.inputs()[0].script_sig.is_empty());
    assert!(unlocks(&ready, &outputs[1]));

    let outpoint = OutPoint { txid: FUNDING_TXID, vout: 1 };
    let reference = reference_spend(&descriptor_text(&policy), outpoint, &outputs[1], &pay, &[7]);
    assert_eq!(to_bitcoin(&ready), reference);
}

#[test]
fn spend_without_a_matching_output_is_utxo_not_found() {
    let policy = two_of_three();
    let elsewhere = vec![
        TxOut { value: 1, script_pubkey: destination() },
        TxOut { value: 0, script_pubkey: vec![] },
    ];
    let pay = TxOut { value: 1, script_pubkey: destination() };
    let secrets = vec![secret(1), secret(2)];
    let pubkeys = vec![public(1), public(2)];
    assert_eq!(
        spend(FUNDING_TXID, &elsewhere, &policy, pay.clone(), &secrets, &pubkeys),
        Err(SpendError::UtxoNotFound)
    );
    assert_eq!(
        spend(FUNDING_TXID, &vec![], &policy, pay, &secrets, &pubkeys),
        Err(SpendError::UtxoNotFound)
    );
}

#[test]
fn spend_under_a_bad_policy_reports_the_policy() {
    let bad = SpendingPolicy::Threshold { m: 0, keys: vec![public(1)] };
    let pay = TxOut { value: 1, script_pubkey: destination() };
    assert_eq!(
        spend(FUNDING_TXID, &vec![], &bad, pay, &vec![], &vec![]),
        Err(SpendError::PolicyConstruction(PolicyConstructionError::ZeroThreshold))
    );
}

#[test]
fn sign_and_finalize_with_one_signer_of_two_is_not_satisfied() {
    let policy = two_of_three();
    let tx = spending_tx(OutPoint { txid: FUNDING_TXID, vout: 1 }, 99_900_000);
    let funding = vec![Funding { policy, value: 100_000_000 }];
    assert_eq!(
        sign_and_finalize(&tx, &funding, &vec![secret(3)], &vec![public(3)]),
        Err(SpendError::PolicyNotSatisfied { input: 0 })
    );
}

#[test]
fn sign_and_finalize_refuses_a_key_that_is_not_the_signers() {
    let policy = two_of_three();
    let tx = spending_tx(OutPoint { txid: FUNDING_TXID, vout: 1 }, 99_900_000);
    let funding = vec![Funding { policy, value: 100_000_000 }];
    assert_eq!(
        sign_and_finalize(&tx, &funding, &vec![secret(1), secret(2)], &vec![public(1), public(3)]),
        Err(SpendError::InvalidSignature)
    );
}

#[test]
fn sign_and_finalize_needs_a_public_key_for_each_secret() {
    let policy = two_of_three();
    let tx = spending_tx(OutPoint { txid: FUNDING_TXID, vout: 1 }, 99_900_000);
    let funding = vec![Funding { policy, value: 100_000_000 }];
    assert_eq!(
        sign_and_finalize(&tx, &funding, &vec![secret(1), secret(2)], &vec![public(1)]),
        Err(SpendError::MissingPublicKey)
    );
}

#[test]
fn sign_and_finalize_needs_a_funding_for_each_input() {
    let tx = spending_tx(OutPoint { txid: FUNDING_TXID, vout: 1 }, 99_900_000);
    assert_eq!(
        sign_and_finalize(&tx, &vec![], &vec![secret(1)], &vec![public(1)]),
        Err(SpendError::InputCountMismatch)
    );
    let set = PartialSignatureSet::new();
    assert_eq!(finalize(&tx, &set, &vec![]), Err(SpendError::InputCountMismatch));
}

#[test]
fn sign_and_finalize_signs_every_input() {
    let multi = two_of_three();
    let single = SpendingPolicy::single_key(public(2));
    let mut tx = WorkingTx::new();
    tx.add_input(OutPoint { txid: [0x21; 32], vout: 0 }, SEQUENCE_FINAL);
    tx.add_input(OutPoint { txid: [0x22; 32], vout: 3 }, SEQUENCE_FINAL);
    tx.add_output(150_000, destination());
    let funding = vec![
        Funding { policy: multi.clone(), value: 100_000 },
        Funding { policy: single.clone(), value: 60_000 },
    ];
    let ready =
        sign_and_finalize(&tx, &funding, &vec![secret(1), secret(2)], &vec![public(1), public(2)])
            .unwrap();
    assert_eq!(ready.inputs().len(), 2);
    assert_eq!(ready.inputs()[0].witness.len(), 4);
    assert!(ready.inputs()[0].script_sig.is_empty());
    assert!(ready.inputs()[1].witness.is_empty());
    assert!(!ready.inputs()[1].script_sig.is_empty());
    assert_eq!(ready.inputs()[1].previous_output, OutPoint { txid: [0x22; 32], vout: 3 });

    // Signer 1 alone satisfies neither the second input nor the first.
    assert_eq!(
        sign_and_finalize(&tx, &funding, &vec![secret(1)], &vec![public(1)]),
        Err(SpendError::PolicyNotSatisfied { input: 0 })
    );
    // Signers 1 and 3 satisfy the first input, and nobody the second.
    assert_eq!(
        sign_and_finalize(&tx, &funding, &vec![secret(1), secret(3)], &vec![public(1), public(3)]),
        Err(SpendError::PolicyNotSatisfied { input: 1 })
    );
}

#[test]
fn signature_hash_changes_with_every_committed_part() {
    let policy = two_of_three();
    let outpoint = OutPoint { txid: FUNDING_TXID, vout: 1 };
    let base = spending_tx(outpoint, 99_900_000);
    let hash = signature_hash(&base, 0, &policy, 100_000_000).unwrap();
    assert_eq!(signature_hash(&base, 0, &policy, 100_000_000).unwrap(), hash);

    let other_value = spending_tx(outpoint, 99_900_001);
    assert_ne!(signature_hash(&other_value, 0, &policy, 100_000_000).unwrap(), hash);

    let other_outpoint = spending_tx(OutPoint { txid: FUNDING_TXID, vout: 2 }, 99_900_000);
    assert_ne!(signature_hash(&other_outpoint, 0, &policy, 100_000_000).unwrap(), hash);

    let mut other_script = WorkingTx::new();
    other_script.add_input(outpoint, SEQUENCE_FINAL);
    other_script.add_output(99_900_000, vec![0x51]);
    assert_ne!(signature_hash(&other_script, 0, &policy, 100_000_000).unwrap(), hash);

    let mut other_sequence = WorkingTx::new();
    other_sequence.add_input(outpoint, 0);
    other_sequence.add_output(99_900_000, destination());
    assert_ne!(signature_hash(&other_sequence, 0, &policy, 100_000_000).unwrap(), hash);

    let mut more_outputs = base.clone();
    more_outputs.add_output(1, destination());
    assert_ne!(signature_hash(&more_outputs, 0, &policy, 100_000_000).unwrap(), hash);

    let mut more_inputs = base.clone();
    more_inputs.add_input(OutPoint { txid: [0x33; 32], vout: 0 }, SEQUENCE_FINAL);
    assert_ne!(signature_hash(&more_inputs, 0, &policy, 100_000_000).unwrap(), hash);
    assert_ne!(
        signature_hash(&more_inputs, 1, &policy, 100_000_000).unwrap(),
        signature_hash(&more_inputs, 0, &policy, 100_000_000).unwrap()
    );

    // The prior output is bound in too: its value and its policy.
    assert_ne!(signature_hash(&base, 0, &policy, 100_000_001).unwrap(), hash);
    let other_policy = SpendingPolicy::threshold(1, vec![public(1), public(2), public(3)]).unwrap();
    assert_ne!(signature_hash(&base, 0, &other_policy, 100_000_000).unwrap(), hash);
}

#[test]
fn signature_hash_is_the_digest_of_the_transaction_library() {
    let outpoint = OutPoint { txid: FUNDING_TXID, vout: 1 };
    let tx = spending_tx(outpoint, 99_900_000);
    let unsigned = bitcoin::Transaction {
        version: 2,
        lock_time: bitcoin::PackedLockTime::ZERO,
        input: vec![bitcoin::TxIn {
            previous_output: bitcoin::OutPoint::new(
                bitcoin::hashes::Hash::from_inner(FUNDING_TXID),
                1,
            ),
            script_sig: bitcoin::Script::new(),
            sequence: bitcoin::Sequence::MAX,
            witness: bitcoin::Witness::new(),
        }],
        output: vec![bitcoin::TxOut {
            value: 99_900_000,
            script_pubkey: bitcoin::Script::from(destination()),
        }],
    };

    let multi = two_of_three();
    let desc = Descriptor::<bitcoin::PublicKey>::from_str(&descriptor_text(&multi)).unwrap();
    let expected = SighashCache::new(&unsigned)
        .segwit_signature_hash(
            0,
            &desc.explicit_script().unwrap(),
            100_000_000,
            bitcoin::EcdsaSighashType::All,
        )
        .unwrap();
    assert_eq!(
        signature_hash(&tx, 0, &multi, 100_000_000).unwrap().bytes,
        bitcoin::hashes::Hash::into_inner(expected)
    );

    let single = SpendingPolicy::single_key(public(7));
    let spk = bitcoin::Script::from(derive_locking_script(&single).unwrap());
    let expected = SighashCache::new(&unsigned)
        .legacy_signature_hash(0, &spk, bitcoin::EcdsaSighashType::All.to_u32())
        .unwrap();
    assert_eq!(
        signature_hash(&tx, 0, &single, 100_000_000).unwrap().bytes,
        bitcoin::hashes::Hash::into_inner(expected)
    );
    // The value plays no part in the digest of a single-key input.
    assert_eq!(
        signature_hash(&tx, 0, &single, 1).unwrap(),
        signature_hash(&tx, 0, &single, 100_000_000).unwrap()
    );
}

#[test]
fn signature_hash_of_a_missing_input_is_out_of_range() {
    let policy = two_of_three();
    let tx = spending_tx(OutPoint { txid: FUNDING_TXID, vout: 1 }, 1_000);
    assert_eq!(signature_hash(&tx, 1, &policy, 2_000), Err(SpendError::InputOutOfRange));
    assert_eq!(
        signature_hash(&WorkingTx::new(), 0, &policy, 2_000),
        Err(SpendError::InputOutOfRange)
    );
    let bad = SpendingPolicy::Threshold { m: 3, keys: vec![public(1)] };
    assert_eq!(
        signature_hash(&tx, 0, &bad, 2_000),
        Err(SpendError::PolicyConstruction(PolicyConstructionError::ThresholdExceedsKeys))
    );
}

#[test]
fn sign_is_deterministic_and_verifies() {
    let hash = SigHash { bytes: [0xab; 32] };
    let a = sign(&hash, &secret(5)).unwrap();
    let b = sign(&hash, &secret(5)).unwrap();
    assert_eq!(a, b);
    assert_ne!(a.der, hash.bytes.to_vec());
    assert!(verify(&hash, &public(5), &a));
    assert!(!verify(&hash, &public(6), &a));
    assert!(!verify(&SigHash { bytes: [0xcd; 32] }, &public(5), &a));
    assert!(!verify(&hash, &public(5), &Signature { der: vec![] }));
    assert!(!verify(&hash, &PublicKey { bytes: [0u8; 33] }, &a));

    let secp = secp256k1::Secp256k1::new();
    let message = secp256k1::Message::from_slice(&hash.bytes).unwrap();
    let sk = secp256k1::SecretKey::from_slice(&secret(5).bytes).unwrap();
    assert_eq!(a.der, secp.sign_ecdsa(&message, &sk).serialize_der().to_vec());
}

#[test]
fn sign_with_no_private_key_is_refused() {
    let hash = SigHash { bytes: [0xab; 32] };
    assert_eq!(sign(&hash, &SecretKey { bytes: [0u8; 32] }), Err(SpendError::UnusableSecret));
    assert_eq!(sign(&hash, &SecretKey { bytes: [0xff; 32] }), Err(SpendError::UnusableSecret));
}

#[test]
fn collect_refuses_a_signature_that_does_not_verify() {
    let policy = two_of_three();
    let tx = spending_tx(OutPoint { txid: FUNDING_TXID, vout: 1 }, 99_900_000);
    let funding = vec![Funding { policy: policy.clone(), value: 100_000_000 }];
    let hash = signature_hash(&tx, 0, &policy, 100_000_000).unwrap();
    let good = sign(&hash, &secret(1)).unwrap();
    let mut set = PartialSignatureSet::new();

    // Under another signer's key.
    assert_eq!(
        collect(&mut set, &tx, &funding, 0, &public(2), good.clone()),
        Err(SpendError::InvalidSignature)
    );
    // Over another digest.
    let stray = sign(&SigHash { bytes: [7u8; 32] }, &secret(1)).unwrap();
    assert_eq!(
        collect(&mut set, &tx, &funding, 0, &public(1), stray),
        Err(SpendError::InvalidSignature)
    );
    // Not a signature at all.
    assert_eq!(
        collect(&mut set, &tx, &funding, 0, &public(1), Signature { der: vec![1, 2, 3] }),
        Err(SpendError::InvalidSignature)
    );
    assert_eq!(set.get(0, &public(1)), None);
    assert_eq!(set.get(0, &public(2)), None);
    // For an input that is not there.
    assert_eq!(
        collect(&mut set, &tx, &funding, 1, &public(1), good.clone()),
        Err(SpendError::InputOutOfRange)
    );

    assert_eq!(collect(&mut set, &tx, &funding, 0, &public(1), good.clone()), Ok(()));
    assert_eq!(set.get(0, &public(1)), Some(good));
    assert_eq!(set.get(1, &public(1)), None);
}

#[test]
fn collect_takes_a_valid_signature_of_a_key_outside_the_policy() {
    let policy = two_of_three();
    let tx = spending_tx(OutPoint { txid: FUNDING_TXID, vout: 1 }, 99_900_000);
    let funding = vec![Funding { policy: policy.clone(), value: 100_000_000 }];
    let hash = signature_hash(&tx, 0, &policy, 100_000_000).unwrap();
    let mut set = PartialSignatureSet::new();
    for n in [1u8, 8u8] {
        let signature = sign(&hash, &secret(n)).unwrap();
        assert_eq!(collect(&mut set, &tx, &funding, 0, &public(n), signature), Ok(()));
    }
    // It is kept, and counts for nothing.
    assert!(set.get(0, &public(8)).is_some());
    assert_eq!(finalize(&tx, &set, &funding), Err(SpendError::PolicyNotSatisfied { input: 0 }));
}

#[test]
fn set_only_grows_and_the_later_signature_wins() {
    let mut set = PartialSignatureSet::new();
    let first = Signature { der: vec![1] };
    let second = Signature { der: vec![2] };
    assert_eq!(record(&mut set, 0, &public(1), first.clone(), true), Ok(()));
    assert_eq!(record(&mut set, 1, &public(1), first.clone(), true), Ok(()));
    assert_eq!(
        record(&mut set, 0, &public(2), second.clone(), false),
        Err(SpendError::InvalidSignature)
    );
    assert_eq!(set.get(0, &public(2)), None);
    assert_eq!(record(&mut set, 0, &public(1), second.clone(), true), Ok(()));
    assert_eq!(set.get(0, &public(1)), Some(second));
    assert_eq!(set.get(1, &public(1)), Some(first));
}

#[test]
fn signatures_filed_without_checking_do_not_count_when_finalizing() {
    let policy = two_of_three();
    let tx = spending_tx(OutPoint { txid: FUNDING_TXID, vout: 1 }, 99_900_000);
    let funding = vec![Funding { policy: policy.clone(), value: 100_000_000 }];
    let hash = signature_hash(&tx, 0, &policy, 100_000_000).unwrap();
    let mut set = PartialSignatureSet::new();
    let good = sign(&hash, &secret(1)).unwrap();
    record(&mut set, 0, &public(1), good.clone(), true).unwrap();
    // A signature of signer 2 over some other digest, filed as if it verified.
    let stray = sign(&SigHash { bytes: [7u8; 32] }, &secret(2)).unwrap();
    record(&mut set, 0, &public(2), stray, true).unwrap();

    let keys = policy.ordered_keys();
    let valid = select_valid(&keys, &set, 0, &hash);
    assert_eq!(valid, vec![(public(1), good)]);
    assert_eq!(
        unlock_input(&tx, &set, &funding[0], 0),
        Err(SpendError::PolicyNotSatisfied { input: 0 })
    );
    assert_eq!(finalize(&tx, &set, &funding), Err(SpendError::PolicyNotSatisfied { input: 0 }));
}

#[test]
fn signatures_for_an_earlier_state_do_not_count() {
    let policy = two_of_three();
    let outpoint = OutPoint { txid: FUNDING_TXID, vout: 1 };
    let mut tx = spending_tx(outpoint, 99_900_000);
    let funding = vec![Funding { policy: policy.clone(), value: 100_000_000 }];
    let hash = signature_hash(&tx, 0, &policy, 100_000_000).unwrap();
    let mut set = PartialSignatureSet::new();
    for n in [1u8, 2u8] {
        let signature = sign(&hash, &secret(n)).unwrap();
        collect(&mut set, &tx, &funding, 0, &public(n), signature).unwrap();
    }
    assert!(finalize(&tx, &set, &funding).is_ok());
    tx.add_output(50_000, destination());
    assert_eq!(finalize(&tx, &set, &funding), Err(SpendError::PolicyNotSatisfied { input: 0 }));
}

#[test]
fn assemble_joins_each_input_with_its_unlock() {
    let mut tx = WorkingTx::new();
    tx.add_input(OutPoint { txid: [1; 32], vout: 4 }, 7);
    tx.add_input(OutPoint { txid: [2; 32], vout: 5 }, 8);
    tx.add_output(10, vec![0xaa]);
    let unlocks = vec![(vec![vec![], vec![1, 2]], vec![]), (vec![], vec![9, 9])];
    let joined = assemble(&tx, &unlocks).unwrap();
    assert_eq!(joined.version(), 2);
    assert_eq!(joined.lock_time(), 0);
    assert_eq!(joined.inputs().len(), 2);
    assert_eq!(joined.inputs()[0].previous_output, OutPoint { txid: [1; 32], vout: 4 });
    assert_eq!(joined.inputs()[0].sequence, 7);
    assert_eq!(joined.inputs()[0].witness, vec![vec![], vec![1u8, 2u8]]);
    assert_eq!(joined.inputs()[0].script_sig, Vec::<u8>::new());
    assert_eq!(joined.inputs()[1].sequence, 8);
    assert_eq!(joined.inputs()[1].witness, Vec::<Vec<u8>>::new());
    assert_eq!(joined.inputs()[1].script_sig, vec![9u8, 9u8]);
    assert_eq!(joined.outputs().to_vec(), vec![TxOut { value: 10, script_pubkey: vec![0xaa] }]);
    assert_eq!(assemble(&tx, &vec![]), Err(SpendError::InputCountMismatch));
}

#[test]
fn builder_keeps_the_order_given() {
    let mut tx = WorkingTx::new();
    assert_eq!(tx.version(), 2);
    assert_eq!(tx.lock_time(), 0);
    assert!(tx.inputs().is_empty());
    assert!(tx.outputs().is_empty());
    tx.add_output(3, vec![3]);
    tx.add_input(OutPoint { txid: [9; 32], vout: 1 }, 5);
    tx.add_output(1, vec![1]);
    tx.add_input(OutPoint { txid: [8; 32], vout: 0 }, SEQUENCE_FINAL);
    assert_eq!(
        tx.inputs().to_vec(),
        vec![
            TxIn { previous_output: OutPoint { txid: [9; 32], vout: 1 }, sequence: 5 },
            TxIn { previous_output: OutPoint { txid: [8; 32], vout: 0 }, sequence: 0xFFFF_FFFF },
        ]
    );
    assert_eq!(
        tx.outputs().to_vec(),
        vec![
            TxOut { value: 3, script_pubkey: vec![3] },
            TxOut { value: 1, script_pubkey: vec![1] },
        ]
    );
    // The builder does not weigh inputs against outputs.
    tx.add_output(u64::MAX, vec![]);
    assert_eq!(tx.outputs().len(), 3);
}

#[test]
fn twenty_of_twenty_finalizes() {
    let numbers: Vec<u8> = (1..=20).collect();
    let pubkeys: Vec<PublicKey> = numbers.iter().rev().map(|n| public(*n)).collect();
    let secrets: Vec<SecretKey> = numbers.iter().rev().map(|n| secret(*n)).collect();
    let policy = SpendingPolicy::threshold(20, pubkeys.clone()).unwrap();
    let outputs = funded(&policy, 100_000_000);
    let pay = TxOut { value: 99_000_000, script_pubkey: destination() };
    let ready = spend(FUNDING_TXID, &outputs, &policy, pay.clone(), &secrets, &pubkeys).unwrap();
    assert_eq!(ready.inputs()[0].witness.len(), 22);
    assert!(unlocks(&ready, &outputs[1]));
    let outpoint = OutPoint { txid: FUNDING_TXID, vout: 1 };
    let reference =
        reference_spend(&descriptor_text(&policy), outpoint, &outputs[1], &pay, &numbers);
    assert_eq!(to_bitcoin(&ready), reference);

    // One signer fewer is one too few.
    assert_eq!(
        spend(FUNDING_TXID, &outputs, &policy, pay, &secrets[1..].to_vec(), &pubkeys[1..].to_vec()),
        Err(SpendError::PolicyNotSatisfied { input: 0 })
    );
}

#[test]
fn key_listed_twice_counts_twice() {
    let policy = SpendingPolicy::threshold(2, vec![public(4), public(4)]).unwrap();
    let outputs = funded(&policy, 50_000);
    let pay = TxOut { value: 40_000, script_pubkey: destination() };
    let ready =
        spend(FUNDING_TXID, &outputs, &policy, pay.clone(), &vec![secret(4)], &vec![public(4)])
            .unwrap();
    assert_eq!(ready.inputs()[0].witness.len(), 4);
    assert_eq!(ready.inputs()[0].witness[1], ready.inputs()[0].witness[2]);
    let outpoint = OutPoint { txid: FUNDING_TXID, vout: 1 };
    let reference = reference_spend(&descriptor_text(&policy), outpoint, &outputs[1], &pay, &[4]);
    assert_eq!(to_bitcoin(&ready), reference);
}

#[test]
fn collect_for_a_funding_without_an_input_is_out_of_range() {
    let policy = two_of_three();
    let tx = spending_tx(OutPoint { txid: FUNDING_TXID, vout: 1 }, 99_900_000);
    let funding = vec![
        Funding { policy: policy.clone(), value: 100_000_000 },
        Funding { policy: policy.clone(), value: 100_000_000 },
    ];
    let hash = signature_hash(&tx, 0, &policy, 100_000_000).unwrap();
    let signature = sign(&hash, &secret(1)).unwrap();
    let mut set = PartialSignatureSet::new();
    assert_eq!(
        collect(&mut set, &tx, &funding, 1, &public(1), signature),
        Err(SpendError::InputOutOfRange)
    );
    assert_eq!(finalize(&tx, &set, &funding), Err(SpendError::InputCountMismatch));
}

#[test]
fn policy_with_a_key_off_the_curve_cannot_be_signed_for() {
    let mut bytes = [0u8; 33];
    bytes[0] = 0x02;
    let stray = PublicKey { bytes };
    let policy = SpendingPolicy::threshold(1, vec![public(1), stray]).unwrap();
    let tx = spending_tx(OutPoint { txid: FUNDING_TXID, vout: 1 }, 1_000);
    assert_eq!(signature_hash(&tx, 0, &policy, 2_000), Err(SpendError::ScriptUnavailable));
    let funding = vec![Funding { policy: policy.clone(), value: 2_000 }];
    assert_eq!(
        sign_and_finalize(&tx, &funding, &vec![secret(1)], &vec![public(1)]),
        Err(SpendError::ScriptUnavailable)
    );
    let pay = TxOut { value: 1_000, script_pubkey: destination() };
    assert_eq!(
        spend(FUNDING_TXID, &vec![], &policy, pay, &vec![secret(1)], &vec![public(1)]),
        Err(SpendError::ScriptUnavailable)
    );
}

#[test]
fn transaction_without_inputs_finalizes_to_itself() {
    let mut tx = WorkingTx::new();
    tx.add_output(5, destination());
    let ready = finalize(&tx, &PartialSignatureSet::new(), &vec![]).unwrap();
    assert!(ready.inputs().is_empty());
    assert_eq!(ready.outputs().to_vec(), tx.outputs().to_vec());
    assert_eq!(sign_and_finalize(&tx, &vec![], &vec![], &vec![]), Ok(ready));
}
