//! Collecting signatures: the digest each input is signed over, signing, and
//! the set of signatures gathered so far.

use vstd::prelude::*;

use crate::backend::{
    descriptor_script_code, descriptor_signing_script, ecdsa_sign, ecdsa_signature, ecdsa_valid,
    ecdsa_verify, legacy_digest, legacy_sighash, segwit_digest, segwit_v0_sighash,
};
use crate::error::SpendError;
use crate::keys::{PublicKey, SecretKey, SigHash, Signature};
use crate::policy::{
    descriptor_chars, descriptor_text, is_policy_descriptor, policy_fault, PolicyView,
    SpendingPolicy,
};
use crate::bytes::bytes_eq;
use crate::tx::{copy_bytes, TxView, WorkingTx};

verus! {

/// The output an input consumes, as far as signing needs to know it: the
/// policy that locks it and the amount it holds.
#[derive(Clone, Debug, PartialEq, Eq)]
pub struct Funding {
    pub policy: SpendingPolicy,
    pub value: u64,
}

/// What a `Funding` denotes.
pub struct FundingView {
    pub policy: PolicyView,
    pub value: u64,
}

impl View for Funding {
    type V = FundingView;

    open spec fn view(&self) -> FundingView {
        FundingView { policy: self.policy@, value: self.value }
    }
}

/// The fundings of a list, each by what it denotes.
pub open spec fn funding_view(funding: Seq<Funding>) -> Seq<FundingView> {
    Seq::new(funding.len(), |i: int| funding[i]@)
}

/// The digest to sign for input `index` of `tx`, which consumes an output of
/// `value` locked to `policy`: the pre-segwit digest for a single key, the
/// BIP 143 digest for a threshold, each over the script that the policy's
/// descriptor gives for signing.
pub open spec fn digest_of(tx: TxView, index: int, policy: PolicyView, value: u64) -> Result<
    Seq<u8>,
    SpendError,
> {
    if !(0 <= index < tx.inputs.len()) {
        Err(SpendError::InputOutOfRange)
    } else {
        match policy_fault(policy) {
            Some(fault) => Err(SpendError::PolicyConstruction(fault)),
            None => match descriptor_script_code(descriptor_chars(policy)) {
                None => Err(SpendError::ScriptUnavailable),
                Some(code) => Ok(
                    match policy {
                        PolicyView::SingleKey(_) => legacy_sighash(tx, index, code),
                        PolicyView::Threshold { .. } => segwit_v0_sighash(tx, index, code, value),
                    },
                ),
            },
        }
    }
}

/// The digest that a signature for input `input_index` must be made over.
/// It binds the inputs and outputs that `tx` has now to the one prior output
/// being spent, so that a signature serves for no other input and for no
/// other state of the transaction.
pub fn signature_hash(
    tx: &WorkingTx,
    input_index: usize,
    policy: &SpendingPolicy,
    prior_value: u64,
) -> (hashed: Result<SigHash, SpendError>)
    ensures
        match hashed {
            Ok(hash) => digest_of(tx@, input_index as int, policy@, prior_value) == Ok::<
                Seq<u8>,
                SpendError,
            >(hash@),
            Err(error) => digest_of(tx@, input_index as int, policy@, prior_value) == Err::<
                Seq<u8>,
                SpendError,
            >(error),
        },
{
    let inputs = tx.inputs();
    let outputs = tx.outputs();
    if input_index >= inputs.len() {
        return Err(SpendError::InputOutOfRange);
    }
    match policy.check() {
        Err(fault) => Err(SpendError::PolicyConstruction(fault)),
        Ok(_) => {
            let text = descriptor_text(policy);
            assert(is_policy_descriptor(text@)) by {
                assert(policy_fault(policy@) is None && text@ == descriptor_chars(policy@));
            }
            match descriptor_signing_script(text.as_str()) {
                None => Err(SpendError::ScriptUnavailable),
                Some(code) => {
                    let bytes = match policy {
                        SpendingPolicy::SingleKey(_) => legacy_digest(
                            tx.version(),
                            tx.lock_time(),
                            inputs,
                            outputs,
                            input_index,
                            &code,
                        ),
                        SpendingPolicy::Threshold { .. } => segwit_digest(
                            tx.version(),
                            tx.lock_time(),
                            inputs,
                            outputs,
                            input_index,
                            &code,
                            prior_value,
                        ),
                    };
                    Ok(SigHash { bytes })
                },
            }
        },
    }
}

/// Signs `hash` with `secret`. The same digest and key always give the same
/// signature. It fails, with `UnusableSecret`, only where `secret` is no
/// private key.
pub fn sign(hash: &SigHash, secret: &SecretKey) -> (signed: Result<Signature, SpendError>)
    ensures
        match signed {
            Ok(signature) => ecdsa_signature(hash@, secret@) == Some(signature@),
            Err(error) => error == SpendError::UnusableSecret && ecdsa_signature(hash@, secret@)
                is None,
        },
{
    match ecdsa_sign(&hash.bytes, &secret.bytes) {
        Some(der) => Ok(Signature { der }),
        None => Err(SpendError::UnusableSecret),
    }
}

/// Whether `signature` is a signature of `hash` under `signer`.
pub fn verify(hash: &SigHash, signer: &PublicKey, signature: &Signature) -> (valid: bool)
    ensures
        valid == ecdsa_valid(hash@, signer@, signature@),
{
    ecdsa_verify(&hash.bytes, &signer.bytes, &signature.der)
}


/// One signature, filed under the input it is for and the key it is by.
#[derive(Clone, Debug)]
struct SignatureEntry {
    input: usize,
    key: PublicKey,
    signature: Signature,
}

/// The signatures gathered for one transaction, each filed under an input
/// and a signer. A later signature for the same input and signer takes the
/// place of the earlier one; nothing is ever taken out.
#[derive(Clone, Debug)]
pub struct PartialSignatureSet {
    entries: Vec<SignatureEntry>,
}

/// What a set of signatures denotes: for an input and the bytes of a key,
/// the bytes of the signature filed there.
pub type SignatureMap = Map<(int, Seq<u8>), Seq<u8>>;

/// The map that a list of entries stands for: each entry filed in turn, so
/// that the last one for an input and a signer stays.
spec fn entries_map(entries: Seq<SignatureEntry>) -> SignatureMap
    decreases entries.len(),
{
    if entries.len() == 0 {
        Map::empty()
    } else {
        let last = entries.last();
        entries_map(entries.drop_last()).insert((last.input as int, last.key@), last.signature@)
    }
}

/// Entries filed elsewhere do not touch what is filed at `at`: the map of
/// the whole list and that of its first `from` entries agree there, where no
/// later entry is for `at`.
proof fn lemma_entries_map_tail(entries: Seq<SignatureEntry>, from: int, at: (int, Seq<u8>))
    requires
        0 <= from <= entries.len(),
        forall|j: int|
            from <= j < entries.len() ==> ((#[trigger] entries[j]).input as int, entries[j].key@)
                != at,
    ensures
        entries_map(entries).contains_key(at) == entries_map(entries.take(from)).contains_key(at),
        entries_map(entries).contains_key(at) ==> entries_map(entries)[at] == entries_map(
            entries.take(from),
        )[at],
    decreases entries.len() - from,
{
    if from == entries.len() {
        assert(entries.take(from) =~= entries);
    } else {
        let shorter = entries.drop_last();
        assert((entries.last().input as int, entries.last().key@) != at);
        assert forall|j: int| from <= j < shorter.len() implies ((#[trigger] shorter[j]).input as int,
            shorter[j].key@) != at by {
            assert(shorter[j] == entries[j]);
        }
        lemma_entries_map_tail(shorter, from, at);
        assert(shorter.take(from) =~= entries.take(from));
    }
}

impl View for PartialSignatureSet {
    type V = SignatureMap;

    closed spec fn view(&self) -> SignatureMap {
        entries_map(self.entries@)
    }
}

impl PartialSignatureSet {
    /// The set without any signature.
    pub fn new() -> (set: PartialSignatureSet)
        ensures
            set@ == SignatureMap::empty(),
    {
        PartialSignatureSet { entries: Vec::new() }
    }

    /// The signature filed under `input` and `key`, if there is one.
    pub fn get(&self, input: usize, key: &PublicKey) -> (found: Option<Signature>)
        ensures
            match found {
                Some(signature) => self@.contains_key((input as int, key@)) && self@[(
                    input as int,
                    key@,
                )] == signature@,
                None => !self@.contains_key((input as int, key@)),
            },
    {
        let ghost at = (input as int, key@);
        let mut i: usize = self.entries.len();
        while i > 0
            invariant
                i <= self.entries.len(),
                at == (input as int, key@),
                forall|j: int|
                    i <= j < self.entries.len() ==> ((#[trigger] self.entries@[j]).input as int,
                        self.entries@[j].key@) != at,
            decreases i,
        {
            i -= 1;
            let entry = &self.entries[i];
            if entry.input == input && bytes_eq(entry.key.bytes.as_slice(), key.bytes.as_slice()) {
                proof {
                    lemma_entries_map_tail(self.entries@, i + 1, at);
                    assert(self.entries@.take(i + 1).drop_last() =~= self.entries@.take(i as int));
                    assert(self.entries@.take(i + 1).last() == self.entries@[i as int]);
                }
                return Some(Signature { der: copy_bytes(&entry.signature.der) });
            }
        }
        proof {
            lemma_entries_map_tail(self.entries@, 0, at);
        }
        None
    }

    /// Files `signature` under `input` and `signer`, whatever it is worth.
    fn insert(&mut self, input: usize, signer: &PublicKey, signature: Signature)
        ensures
            final(self)@ == old(self)@.insert((input as int, signer@), signature@),
    {
        self.entries.push(SignatureEntry { input, key: *signer, signature });
        assert(self.entries@.drop_last() =~= old(self).entries@);
    }
}

/// What `collect` makes of a set: the set with the signature filed, where
/// the signature verifies under the signer and the digest of the input; the
/// reason it was refused otherwise.
pub open spec fn collect_spec(
    signatures: SignatureMap,
    tx: TxView,
    funding: Seq<FundingView>,
    input_index: int,
    signer: Seq<u8>,
    signature: Seq<u8>,
) -> Result<SignatureMap, SpendError> {
    if !(0 <= input_index < funding.len()) {
        Err(SpendError::InputOutOfRange)
    } else {
        match digest_of(tx, input_index, funding[input_index].policy, funding[input_index].value) {
            Err(error) => Err(error),
            Ok(digest) => if ecdsa_valid(digest, signer, signature) {
                Ok(signatures.insert((input_index, signer), signature))
            } else {
                Err(SpendError::InvalidSignature)
            },
        }
    }
}

/// Files `signature` under `input_index` and `signer` if `verifies` says that
/// it was found to verify, and refuses it with `InvalidSignature` otherwise.
pub fn record(
    set: &mut PartialSignatureSet,
    input_index: usize,
    signer: &PublicKey,
    signature: Signature,
    verifies: bool,
) -> (recorded: Result<(), SpendError>)
    ensures
        verifies ==> recorded is Ok && final(set)@ == old(set)@.insert(
            (input_index as int, signer@),
            signature@,
        ),
        !verifies ==> recorded == Err::<(), SpendError>(SpendError::InvalidSignature)
            && final(set)@ == old(set)@,
{
    if verifies {
        set.insert(input_index, signer, signature);
        Ok(())
    } else {
        Err(SpendError::InvalidSignature)
    }
}

/// Takes in `signature` as that of `signer` for input `input_index` of `tx`.
/// A signature that does not verify under `signer` and the digest of that
/// input is refused and the set stays as it was. Which of a policy's keys
/// sign is not looked at here, nor how many have signed. The set only grows.
pub fn collect(
    set: &mut PartialSignatureSet,
    tx: &WorkingTx,
    funding: &Vec<Funding>,
    input_index: usize,
    signer: &PublicKey,
    signature: Signature,
) -> (collected: Result<(), SpendError>)
    ensures
        match collected {
            Ok(_) => collect_spec(
                old(set)@,
                tx@,
                funding_view(funding@),
                input_index as int,
                signer@,
                signature@,
            ) == Ok::<SignatureMap, SpendError>(final(set)@),
            Err(error) => collect_spec(
                old(set)@,
                tx@,
                funding_view(funding@),
                input_index as int,
                signer@,
                signature@,
            ) == Err::<SignatureMap, SpendError>(error) && final(set)@ == old(set)@,
        },
        forall|at: (int, Seq<u8>)| old(set)@.contains_key(at) ==> final(set)@.contains_key(at),
{
    if input_index >= funding.len() {
        return Err(SpendError::InputOutOfRange);
    }
    let prior = &funding[input_index];
    match signature_hash(tx, input_index, &prior.policy, prior.value) {
        Err(error) => Err(error),
        Ok(hash) => {
            let verifies = verify(&hash, signer, &signature);
            record(set, input_index, signer, signature, verifies)
        },
    }
}

/// A signature as it is submitted: the input it is for, the bytes of the
/// signer's key, the bytes of the signature.
pub type Submission = (int, Seq<u8>, Seq<u8>);

/// What taking in one submission after the other makes of a set, or the
/// failure of the first that is refused.
pub open spec fn collect_all_spec(
    signatures: SignatureMap,
    tx: TxView,
    funding: Seq<FundingView>,
    submissions: Seq<Submission>,
) -> Result<SignatureMap, SpendError>
    decreases submissions.len(),
{
    if submissions.len() == 0 {
        Ok(signatures)
    } else {
        match collect_all_spec(signatures, tx, funding, submissions.drop_last()) {
            Err(error) => Err(error),
            Ok(so_far) => collect_spec(
                so_far,
                tx,
                funding,
                submissions.last().0,
                submissions.last().1,
                submissions.last().2,
            ),
        }
    }
}

/// Whether no two submissions are for the same input and signer.
pub open spec fn one_per_signer(submissions: Seq<Submission>) -> bool {
    forall|i: int, j: int|
        0 <= i < j < submissions.len() ==> (
            (#[trigger] submissions[i]).0,
            submissions[i].1,
        ) != ((#[trigger] submissions[j]).0, submissions[j].1)
}

/// Whether a submission is taken in: that does not depend on what the set
/// holds already.
pub open spec fn is_accepted(tx: TxView, funding: Seq<FundingView>, submission: Submission)
    -> bool {
    collect_spec(SignatureMap::empty(), tx, funding, submission.0, submission.1, submission.2)
        is Ok
}

/// The set that taking in all submissions results in, where all are taken
/// in.
pub open spec fn collected_set(
    signatures: SignatureMap,
    tx: TxView,
    funding: Seq<FundingView>,
    submissions: Seq<Submission>,
) -> SignatureMap {
    collect_all_spec(signatures, tx, funding, submissions)->Ok_0
}

/// What taking in submissions, no two for the same input and signer,
/// results in: each was accepted and is filed as submitted, and what they do
/// not touch is as it was.
proof fn lemma_collect_all_result(
    signatures: SignatureMap,
    tx: TxView,
    funding: Seq<FundingView>,
    submissions: Seq<Submission>,
)
    requires
        one_per_signer(submissions),
        collect_all_spec(signatures, tx, funding, submissions) is Ok,
    ensures
        forall|i: int|
            0 <= i < submissions.len() ==> is_accepted(tx, funding, #[trigger] submissions[i]),
        forall|i: int|
            0 <= i < submissions.len() ==> collected_set(
                signatures,
                tx,
                funding,
                submissions,
            ).contains_key(((#[trigger] submissions[i]).0, submissions[i].1)) && collected_set(
                signatures,
                tx,
                funding,
                submissions,
            )[(submissions[i].0, submissions[i].1)] == submissions[i].2,
        forall|at: (int, Seq<u8>)|
            (forall|i: int|
                0 <= i < submissions.len() ==> ((#[trigger] submissions[i]).0, submissions[i].1)
                    != at) ==> (#[trigger] collected_set(
                signatures,
                tx,
                funding,
                submissions,
            ).contains_key(at)) == signatures.contains_key(at) && (signatures.contains_key(at)
                ==> collected_set(signatures, tx, funding, submissions)[at] == signatures[at]),
    decreases submissions.len(),
{
    if submissions.len() > 0 {
        let shorter = submissions.drop_last();
        let last = submissions.last();
        assert forall|i: int, j: int| 0 <= i < j < shorter.len() implies ((#[trigger] shorter[i]).0,
            shorter[i].1) != ((#[trigger] shorter[j]).0, shorter[j].1) by {
            assert(shorter[i] == submissions[i]);
            assert(shorter[j] == submissions[j]);
        }
        lemma_collect_all_result(signatures, tx, funding, shorter);
        let before = collect_all_spec(signatures, tx, funding, shorter)->Ok_0;
        let made = collect_all_spec(signatures, tx, funding, submissions)->Ok_0;
        assert(made == before.insert((last.0, last.1), last.2));
        assert forall|i: int| 0 <= i < submissions.len() implies is_accepted(
            tx,
            funding,
            #[trigger] submissions[i],
        ) by {
            if i < shorter.len() {
                assert(shorter[i] == submissions[i]);
            }
        }
        assert forall|i: int| 0 <= i < submissions.len() implies made.contains_key(
            ((#[trigger] submissions[i]).0, submissions[i].1),
        ) && made[(submissions[i].0, submissions[i].1)] == submissions[i].2 by {
            if i < shorter.len() {
                assert(shorter[i] == submissions[i]);
                assert((submissions[i].0, submissions[i].1) != (last.0, last.1)) by {
                    assert(submissions[submissions.len() - 1] == last);
                }
            }
        }
        assert forall|at: (int, Seq<u8>)|
            (forall|i: int|
                0 <= i < submissions.len() ==> ((#[trigger] submissions[i]).0, submissions[i].1)
                    != at) implies (#[trigger] collected_set(
            signatures,
            tx,
            funding,
            submissions,
        ).contains_key(at)) == signatures.contains_key(at) && (signatures.contains_key(at)
            ==> collected_set(signatures, tx, funding, submissions)[at] == signatures[at]) by {
            assert((submissions[submissions.len() - 1].0, submissions[submissions.len() - 1].1)
                != at);
            assert forall|i: int| 0 <= i < shorter.len() implies ((#[trigger] shorter[i]).0,
                shorter[i].1) != at by {
                assert(shorter[i] == submissions[i]);
            }
            assert(collected_set(signatures, tx, funding, shorter).contains_key(at)
                == signatures.contains_key(at));
        }
    }
}

/// Submissions that are each accepted are all taken in, whatever the set
/// held before.
proof fn lemma_collect_all_goes_through(
    signatures: SignatureMap,
    tx: TxView,
    funding: Seq<FundingView>,
    submissions: Seq<Submission>,
)
    requires
        forall|i: int|
            0 <= i < submissions.len() ==> is_accepted(tx, funding, #[trigger] submissions[i]),
    ensures
        collect_all_spec(signatures, tx, funding, submissions) is Ok,
    decreases submissions.len(),
{
    if submissions.len() > 0 {
        let shorter = submissions.drop_last();
        assert forall|i: int| 0 <= i < shorter.len() implies is_accepted(
            tx,
            funding,
            #[trigger] shorter[i],
        ) by {
            assert(shorter[i] == submissions[i]);
        }
        lemma_collect_all_goes_through(signatures, tx, funding, shorter);
        assert(is_accepted(tx, funding, submissions[submissions.len() - 1]));
    }
}

/// The order in which signatures are submitted does not matter: where the
/// same submissions, none of them for the same input and signer twice, are
/// taken in in two orders, and all are taken in in the one, all are taken in
/// in the other, and the set that results is the same. What finalizing
/// makes of the set is then the same too.
pub proof fn lemma_collect_order_free(
    signatures: SignatureMap,
    tx: TxView,
    funding: Seq<FundingView>,
    one: Seq<Submission>,
    other: Seq<Submission>,
)
    requires
        one.to_multiset() == other.to_multiset(),
        one_per_signer(one),
        one_per_signer(other),
        collect_all_spec(signatures, tx, funding, one) is Ok,
    ensures
        collect_all_spec(signatures, tx, funding, other) == collect_all_spec(
            signatures,
            tx,
            funding,
            one,
        ),
{
    broadcast use vstd::seq_lib::to_multiset_contains;

    lemma_collect_all_result(signatures, tx, funding, one);
    assert forall|j: int| 0 <= j < other.len() implies is_accepted(
        tx,
        funding,
        #[trigger] other[j],
    ) by {
        assert(other.contains(other[j]));
        assert(other.to_multiset().count(other[j]) > 0);
        assert(one.contains(other[j]));
        let i = choose|i: int| 0 <= i < one.len() && one[i] == other[j];
        assert(is_accepted(tx, funding, one[i]));
    }
    lemma_collect_all_goes_through(signatures, tx, funding, other);
    lemma_collect_all_result(signatures, tx, funding, other);
    let made_one = collected_set(signatures, tx, funding, one);
    let made_other = collected_set(signatures, tx, funding, other);
    assert forall|at: (int, Seq<u8>)|
        made_one.contains_key(at) == made_other.contains_key(at) && (made_one.contains_key(at)
            ==> made_one[at] == made_other[at]) by {
        if exists|i: int| 0 <= i < one.len() && ((#[trigger] one[i]).0, one[i].1) == at {
            let i = choose|i: int| 0 <= i < one.len() && ((#[trigger] one[i]).0, one[i].1) == at;
            assert(one.contains(one[i]));
            assert(one.to_multiset().count(one[i]) > 0);
            assert(other.contains(one[i]));
            let j = choose|j: int| 0 <= j < other.len() && other[j] == one[i];
            assert(made_one.contains_key(at) && made_one[at] == one[i].2);
            assert(made_other.contains_key(at) && made_other[at] == other[j].2);
        } else {
            assert forall|j: int| 0 <= j < other.len() implies ((#[trigger] other[j]).0,
                other[j].1) != at by {
                assert(other.contains(other[j]));
                assert(other.to_multiset().count(other[j]) > 0);
                assert(one.contains(other[j]));
                let i = choose|i: int| 0 <= i < one.len() && one[i] == other[j];
                assert((one[i].0, one[i].1) != at);
            }
            assert(collected_set(signatures, tx, funding, one).contains_key(at)
                == signatures.contains_key(at));
            assert(collected_set(signatures, tx, funding, other).contains_key(at)
                == signatures.contains_key(at));
        }
    }
    assert(made_one =~= made_other);
}

} // verus!
