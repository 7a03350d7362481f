//! The calls this crate makes into the Bitcoin libraries. Nothing in this
//! file is proved: each function states what the library it calls is relied
//! on to do, over a named result where the result takes pages to describe.
//! Every named result depends on the arguments alone.

use bitcoincore_rpc::bitcoin;
use bitcoincore_rpc::bitcoin::hashes;
use bitcoincore_rpc::bitcoin::util::sighash::SighashCache;
use bitcoincore_rpc::bitcoin::{
    EcdsaSig, EcdsaSighashType, OutPoint, PackedLockTime, Script, Sequence, Transaction,
};
use miniscript::Descriptor;
use secp256k1::{Message, Secp256k1};
use std::collections::HashMap;
use vstd::prelude::*;

use crate::keys::{PublicKey, Signature};
use crate::policy::{is_policy_descriptor, Network};
use crate::tx::{inputs_view, outputs_view, TxIn, TxOut, TxView};

verus! {

/// What an optional byte string denotes.
pub open spec fn bytes_option_view(bytes: Option<Vec<u8>>) -> Option<Seq<u8>> {
    match bytes {
        Some(b) => Some(b@),
        None => None,
    }
}

/// What an optional text denotes.
pub open spec fn text_option_view(text: Option<String>) -> Option<Seq<char>> {
    match text {
        Some(t) => Some(t@),
        None => None,
    }
}

/// The items of a stack, each by its bytes.
pub open spec fn stack_view(stack: Seq<Vec<u8>>) -> Seq<Seq<u8>> {
    Seq::new(stack.len(), |i: int| stack[i]@)
}

/// The pairs of a list of keys and signatures, each by its bytes.
pub open spec fn signed_view(signed: Seq<(PublicKey, Signature)>) -> Seq<(Seq<u8>, Seq<u8>)> {
    Seq::new(signed.len(), |i: int| (signed[i].0@, signed[i].1@))
}

/// What optional unlocking data denotes: the witness stack, then the
/// signature script.
pub open spec fn unlock_option_view(unlock: Option<(Vec<Vec<u8>>, Vec<u8>)>) -> Option<
    (Seq<Seq<u8>>, Seq<u8>),
> {
    match unlock {
        Some((witness, script_sig)) => Some((stack_view(witness@), script_sig@)),
        None => None,
    }
}

/// The BIP 143 digest of input `index` of `tx`, committing to all inputs and
/// all outputs, for a prior output of `value` spent under `script_code`.
pub uninterp spec fn segwit_v0_sighash(tx: TxView, index: int, script_code: Seq<u8>, value: u64) -> Seq<u8>;

/// The pre-segwit digest of input `index` of `tx`, committing to all inputs
/// and all outputs, for a prior output spent under `script_code`.
pub uninterp spec fn legacy_sighash(tx: TxView, index: int, script_code: Seq<u8>) -> Seq<u8>;

/// The DER encoding of the deterministic (RFC 6979) ECDSA signature of
/// `digest` under `secret`; `None` where `secret` is no private key.
pub uninterp spec fn ecdsa_signature(digest: Seq<u8>, secret: Seq<u8>) -> Option<Seq<u8>>;

/// Whether `signature` is the DER encoding of an ECDSA signature of `digest`
/// that verifies under the public key encoded by `key`.
pub uninterp spec fn ecdsa_valid(digest: Seq<u8>, key: Seq<u8>, signature: Seq<u8>) -> bool;

/// The locking script of the output descriptor written as `text`; `None`
/// where `text` is no descriptor, as where a key in it is no point of the
/// curve.
pub uninterp spec fn descriptor_locking_script(text: Seq<char>) -> Option<Seq<u8>>;

/// The script that a signature for an output of the descriptor `text` commits
/// to; `None` where `text` is no descriptor or has no such script.
pub uninterp spec fn descriptor_script_code(text: Seq<char>) -> Option<Seq<u8>>;

/// The address of the descriptor `text` on `network`; `None` where `text` is
/// no descriptor or has no address.
pub uninterp spec fn descriptor_address(text: Seq<char>, network: Network) -> Option<Seq<char>>;

/// The witness stack and signature script that unlock an output of the
/// descriptor `text` with the signatures `signed`, each beside the key it
/// belongs to; `None` where `text` is no descriptor, where a key or a
/// signature cannot be read, and where the signatures do not suffice.
pub uninterp spec fn descriptor_unlock(text: Seq<char>, signed: Seq<(Seq<u8>, Seq<u8>)>) -> Option<(Seq<Seq<u8>>, Seq<u8>)>;

/// Calls `SighashCache::segwit_signature_hash` of the `bitcoin` crate with the
/// sighash type `All`, on a transaction with the given version, lock time,
/// inputs (empty script and witness) and outputs. That function fails only
/// for an index past the last input, which `requires` leaves out.
#[verifier::external_body]
pub(crate) fn segwit_digest(
    version: i32,
    lock_time: u32,
    inputs: &Vec<TxIn>,
    outputs: &Vec<TxOut>,
    index: usize,
    script_code: &Vec<u8>,
    value: u64,
) -> (digest: [u8; 32])
    requires
        index < inputs.len(),
    ensures
        digest@ == segwit_v0_sighash(
            TxView {
                version,
                lock_time,
                inputs: inputs_view(inputs@),
                outputs: outputs_view(outputs@),
            },
            index as int,
            script_code@,
            value,
        ),
{
    let unsigned = Transaction {
        version,
        lock_time: PackedLockTime(lock_time),
        input: inputs.iter().map(|i| bitcoin::TxIn {
            previous_output: OutPoint::new(hashes::Hash::from_inner(i.previous_output.txid), i.previous_output.vout),
            sequence: Sequence(i.sequence),
            ..Default::default()
        }).collect(),
        output: outputs.iter().map(|o| bitcoin::TxOut { value: o.value, script_pubkey: Script::from(o.script_pubkey.clone()) }).collect(),
    };
    let code = Script::from(script_code.clone());
    let digest = SighashCache::new(&unsigned).segwit_signature_hash(index, &code, value, EcdsaSighashType::All);
    hashes::Hash::into_inner(digest.unwrap())
}

/// Calls `SighashCache::legacy_signature_hash` of the `bitcoin` crate with the
/// sighash type `All`, on a transaction with the given version, lock time,
/// inputs (empty script and witness) and outputs. That function fails only
/// for an index past the last input, which `requires` leaves out.
#[verifier::external_body]
pub(crate) fn legacy_digest(
    version: i32,
    lock_time: u32,
    inputs: &Vec<TxIn>,
    outputs: &Vec<TxOut>,
    index: usize,
    script_code: &Vec<u8>,
) -> (digest: [u8; 32])
    requires
        index < inputs.len(),
    ensures
        digest@ == legacy_sighash(
            TxView {
                version,
                lock_time,
                inputs: inputs_view(inputs@),
                outputs: outputs_view(outputs@),
            },
            index as int,
            script_code@,
        ),
{
    let unsigned = Transaction {
        version,
        lock_time: PackedLockTime(lock_time),
        input: inputs.iter().map(|i| bitcoin::TxIn {
            previous_output: OutPoint::new(hashes::Hash::from_inner(i.previous_output.txid), i.previous_output.vout),
            sequence: Sequence(i.sequence),
            ..Default::default()
        }).collect(),
        output: outputs.iter().map(|o| bitcoin::TxOut { value: o.value, script_pubkey: Script::from(o.script_pubkey.clone()) }).collect(),
    };
    let code = Script::from(script_code.clone());
    let digest = SighashCache::new(&unsigned).legacy_signature_hash(index, &code, EcdsaSighashType::All.to_u32());
    hashes::Hash::into_inner(digest.unwrap())
}

/// Calls `Secp256k1::sign_ecdsa` of the `secp256k1` crate, which takes its
/// nonce from the digest and the key as RFC 6979 lays down, and encodes the
/// signature with `serialize_der`. `None` where `SecretKey::from_slice`
/// refuses the 32 bytes.
#[verifier::external_body]
pub(crate) fn ecdsa_sign(digest: &[u8; 32], secret: &[u8; 32]) -> (signature: Option<Vec<u8>>)
    ensures
        bytes_option_view(signature) == ecdsa_signature(digest@, secret@),
{
    let key = secp256k1::SecretKey::from_slice(secret).ok()?;
    let message = Message::from_slice(digest).ok()?;
    Some(Secp256k1::signing_only().sign_ecdsa(&message, &key).serialize_der().to_vec())
}

/// Calls `Secp256k1::verify_ecdsa` of the `secp256k1` crate on the key read
/// by `PublicKey::from_slice` and the signature read by `Signature::from_der`;
/// `false` where either cannot be read.
#[verifier::external_body]
pub(crate) fn ecdsa_verify(digest: &[u8; 32], key: &[u8; 33], signature: &Vec<u8>) -> (valid: bool)
    ensures
        valid == ecdsa_valid(digest@, key@, signature@),
{
    let Ok(message) = Message::from_slice(digest) else { return false };
    let Ok(point) = secp256k1::PublicKey::from_slice(key) else { return false };
    let Ok(sig) = secp256k1::ecdsa::Signature::from_der(signature) else { return false };
    Secp256k1::verification_only().verify_ecdsa(&message, &sig, &point).is_ok()
}

/// Parses `text` as an output descriptor of the `miniscript` crate and calls
/// `Descriptor::script_pubkey` on it. It is called on the descriptors this
/// crate writes, and on no other text.
#[verifier::external_body]
pub(crate) fn descriptor_script_pubkey(text: &str) -> (script: Option<Vec<u8>>)
    requires
        is_policy_descriptor(text@),
    ensures
        bytes_option_view(script) == descriptor_locking_script(text@),
{
    let descriptor = text.parse::<Descriptor<bitcoin::PublicKey>>().ok()?;
    Some(descriptor.script_pubkey().into_bytes())
}

/// Parses `text` as an output descriptor of the `miniscript` crate and calls
/// `Descriptor::script_code` on it. It is called on the descriptors this
/// crate writes, and on no other text.
#[verifier::external_body]
pub(crate) fn descriptor_signing_script(text: &str) -> (script: Option<Vec<u8>>)
    requires
        is_policy_descriptor(text@),
    ensures
        bytes_option_view(script) == descriptor_script_code(text@),
{
    let descriptor = text.parse::<Descriptor<bitcoin::PublicKey>>().ok()?;
    descriptor.script_code().ok().map(|code| code.into_bytes())
}

/// Parses `text` as an output descriptor of the `miniscript` crate, calls
/// `Descriptor::address` on it and writes the address out as text. It is
/// called on the descriptors this crate writes, and on no other text.
#[verifier::external_body]
pub(crate) fn descriptor_address_text(text: &str, network: Network) -> (address: Option<String>)
    requires
        is_policy_descriptor(text@),
    ensures
        text_option_view(address) == descriptor_address(text@, network),
{
    let descriptor = text.parse::<Descriptor<bitcoin::PublicKey>>().ok()?;
    let on = match network {
        Network::Bitcoin => bitcoin::Network::Bitcoin,
        Network::Testnet => bitcoin::Network::Testnet,
        Network::Signet => bitcoin::Network::Signet,
        Network::Regtest => bitcoin::Network::Regtest,
    };
    descriptor.address(on).ok().map(|address| address.to_string())
}

/// Parses `text` as an output descriptor of the `miniscript` crate and calls
/// `Descriptor::get_satisfaction` on it, with a satisfier that knows the
/// signatures of `signed` under their keys, each with the sighash type `All`.
/// `None` also where a key or a signature of `signed` cannot be read. It is
/// called on the descriptors this crate writes, and on no other text.
#[verifier::external_body]
pub(crate) fn descriptor_satisfaction(text: &str, signed: &Vec<(PublicKey, Signature)>) -> (unlock: Option<(Vec<Vec<u8>>, Vec<u8>)>)
    requires
        is_policy_descriptor(text@),
    ensures
        unlock_option_view(unlock) == descriptor_unlock(text@, signed_view(signed@)),
{
    let descriptor = text.parse::<Descriptor<bitcoin::PublicKey>>().ok()?;
    let mut known = HashMap::new();
    for (key, signature) in signed.iter() {
        let sig = secp256k1::ecdsa::Signature::from_der(&signature.der).ok()?;
        known.insert(bitcoin::PublicKey::from_slice(&key.bytes).ok()?, EcdsaSig::sighash_all(sig));
    }
    descriptor.get_satisfaction(known).ok().map(|(witness, script_sig)| (witness, script_sig.into_bytes()))
}

} // verus!
