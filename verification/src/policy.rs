//! Spending policies: who may unlock an output.

use vstd::prelude::*;
use vstd::relations::sorted_by;
use vstd::seq_lib::lemma_sorted_unique;
use vstd::string::*;

use crate::bytes::{
    bytes_leq, lemma_lex_connected, lemma_lex_total_ordering, lemma_lex_transitive, lex_leq,
    lex_order,
};
use crate::backend::{
    descriptor_address, descriptor_address_text, descriptor_locking_script,
    descriptor_script_pubkey,
};
use crate::error::SpendError;
use crate::keys::{keys_view, PublicKey};
use crate::text::{decimal, hex, push_decimal, push_hex};

verus! {

/// The most keys a threshold policy can name.
pub const MAX_POLICY_KEYS: usize = 20;

/// The networks an address can be written for.
#[derive(Clone, Copy, Debug, PartialEq, Eq)]
pub enum Network {
    Bitcoin,
    Testnet,
    Signet,
    Regtest,
}

/// How an output can be unlocked.
#[derive(Clone, Debug, PartialEq, Eq)]
pub enum SpendingPolicy {
    /// By a signature of this key.
    SingleKey(PublicKey),
    /// By signatures of `m` of the `keys`. The order in which the keys are
    /// listed has no meaning.
    Threshold { m: usize, keys: Vec<PublicKey> },
}

/// What a `SpendingPolicy` denotes.
pub enum PolicyView {
    SingleKey(Seq<u8>),
    Threshold { m: nat, keys: Seq<Seq<u8>> },
}

/// Why a threshold and a key list do not make a policy.
#[derive(Clone, Copy, Debug, PartialEq, Eq)]
pub enum PolicyConstructionError {
    /// The key list is empty.
    NoKeys,
    /// More signatures are asked for than there are keys.
    ThresholdExceedsKeys,
    /// No signature is asked for.
    ZeroThreshold,
    /// More keys than one locking script can hold.
    TooManyKeys,
}

impl View for SpendingPolicy {
    type V = PolicyView;

    open spec fn view(&self) -> PolicyView {
        match self {
            SpendingPolicy::SingleKey(key) => PolicyView::SingleKey(key@),
            SpendingPolicy::Threshold { m, keys } => PolicyView::Threshold {
                m: *m as nat,
                keys: keys_view(keys@),
            },
        }
    }
}

/// What is wrong with a threshold `m` over `n` keys, if anything.
pub open spec fn threshold_fault(m: nat, n: nat) -> Option<PolicyConstructionError> {
    if n == 0 {
        Some(PolicyConstructionError::NoKeys)
    } else if m > n {
        Some(PolicyConstructionError::ThresholdExceedsKeys)
    } else if m == 0 {
        Some(PolicyConstructionError::ZeroThreshold)
    } else if n > MAX_POLICY_KEYS {
        Some(PolicyConstructionError::TooManyKeys)
    } else {
        None
    }
}

/// What is wrong with a policy, if anything. A single key is always in order.
pub open spec fn policy_fault(policy: PolicyView) -> Option<PolicyConstructionError> {
    match policy {
        PolicyView::SingleKey(_) => None,
        PolicyView::Threshold { m, keys } => threshold_fault(m, keys.len()),
    }
}

/// The keys of a policy in the one order every party arrives at: sorted by
/// their bytes.
pub open spec fn canonical_keys(keys: Seq<Seq<u8>>) -> Seq<Seq<u8>> {
    keys.sort_by(lex_order())
}

/// How many signatures a policy asks for.
pub open spec fn required_signatures(policy: PolicyView) -> nat {
    match policy {
        PolicyView::SingleKey(_) => 1,
        PolicyView::Threshold { m, keys } => m,
    }
}

/// The keys whose signatures count under a policy, in canonical order.
pub open spec fn signing_keys(policy: PolicyView) -> Seq<Seq<u8>> {
    match policy {
        PolicyView::SingleKey(key) => seq![key],
        PolicyView::Threshold { m, keys } => canonical_keys(keys),
    }
}

/// The keys of a list in hexadecimal, each after a comma.
pub open spec fn comma_hex_list(keys: Seq<Seq<u8>>) -> Seq<char>
    decreases keys.len(),
{
    if keys.len() == 0 {
        Seq::empty()
    } else {
        comma_hex_list(keys.drop_last()) + seq![','] + hex(keys.last())
    }
}

/// The output descriptor of a policy: `pkh(KEY)` for a single key,
/// `wsh(sortedmulti(M,KEY,...))` with the keys in canonical order for a
/// threshold.
pub open spec fn descriptor_chars(policy: PolicyView) -> Seq<char> {
    match policy {
        PolicyView::SingleKey(key) => seq!['p', 'k', 'h', '('] + hex(key) + seq![')'],
        PolicyView::Threshold { m, keys } => seq![
            'w',
            's',
            'h',
            '(',
            's',
            'o',
            'r',
            't',
            'e',
            'd',
            'm',
            'u',
            'l',
            't',
            'i',
            '(',
        ] + decimal(m) + comma_hex_list(canonical_keys(keys)) + seq![')', ')'],
    }
}

/// Whether a text is the descriptor of a policy that is in order.
pub open spec fn is_policy_descriptor(text: Seq<char>) -> bool {
    exists|policy: PolicyView| policy_fault(policy) is None && text == descriptor_chars(policy)
}

/// Two key lists that hold the same keys, each as often as the other, have
/// the same canonical order.
pub proof fn lemma_canonical_keys_order_free(a: Seq<Seq<u8>>, b: Seq<Seq<u8>>)
    requires
        a.to_multiset() == b.to_multiset(),
    ensures
        canonical_keys(a) == canonical_keys(b),
{
    lemma_lex_total_ordering();
    a.lemma_sort_by_ensures(lex_order());
    b.lemma_sort_by_ensures(lex_order());
    lemma_sorted_unique(canonical_keys(a), canonical_keys(b), lex_order());
}

/// A sorted list of keys is its own canonical order.
pub proof fn lemma_sorted_is_canonical(sorted: Seq<Seq<u8>>, keys: Seq<Seq<u8>>)
    requires
        sorted_by(sorted, lex_order()),
        sorted.to_multiset() == keys.to_multiset(),
    ensures
        sorted == canonical_keys(keys),
{
    lemma_lex_total_ordering();
    keys.lemma_sort_by_ensures(lex_order());
    lemma_sorted_unique(sorted, canonical_keys(keys), lex_order());
}

/// The keys in canonical order.
pub fn sort_keys(keys: &Vec<PublicKey>) -> (sorted: Vec<PublicKey>)
    ensures
        keys_view(sorted@) == canonical_keys(keys_view(keys@)),
{
    broadcast use vstd::seq_lib::group_to_multiset_ensures;

    let mut sorted: Vec<PublicKey> = Vec::new();
    let mut n: usize = 0;
    assert(keys_view(sorted@) =~= keys_view(keys@.take(0)));
    while n < keys.len()
        invariant
            n <= keys.len(),
            sorted_by(keys_view(sorted@), lex_order()),
            keys_view(sorted@).to_multiset() == keys_view(keys@.take(n as int)).to_multiset(),
        decreases keys.len() - n,
    {
        let key = keys[n];
        let mut pos: usize = 0;
        while pos < sorted.len() && bytes_leq(sorted[pos].bytes.as_slice(), key.bytes.as_slice())
            invariant
                pos <= sorted.len(),
                forall|j: int| 0 <= j < pos ==> lex_leq(#[trigger] sorted@[j]@, key@),
            decreases sorted.len() - pos,
        {
            pos += 1;
        }
        let ghost before = keys_view(sorted@);
        sorted.insert(pos, key);
        proof {
            let after = keys_view(sorted@);
            assert(after =~= before.insert(pos as int, key@));
            assert forall|i: int, j: int| 0 <= i < j < after.len() implies lex_leq(
                after[i],
                after[j],
            ) by {
                if j < pos {
                    assert(lex_order()(before[i], before[j]));
                } else if j == pos {
                    assert(lex_leq(sorted@[i]@, key@)) by {
                        assert(before[i] == after[i]);
                    }
                } else if i == pos {
                    // `key` did not come after `before[pos]`, so it comes before it,
                    // and with it before all that follow.
                    lemma_lex_connected(before[pos as int], key@);
                    if j - 1 > pos {
                        assert(lex_order()(before[pos as int], before[j - 1]));
                        lemma_lex_transitive(key@, before[pos as int], before[j - 1]);
                    }
                } else if i < pos {
                    assert(lex_order()(before[i], before[j - 1]));
                } else {
                    assert(lex_order()(before[i - 1], before[j - 1]));
                }
            }
            let taken = keys_view(keys@.take(n as int));
            assert(keys@.take(n + 1) =~= keys@.take(n as int).push(key));
            assert(keys_view(keys@.take(n + 1)) =~= taken.push(key@));
            vstd::seq_lib::to_multiset_insert(before, pos as int, key@);
            vstd::seq_lib::to_multiset_build(taken, key@);
        }
        n += 1;
    }
    proof {
        assert(keys@.take(n as int) =~= keys@);
        lemma_sorted_is_canonical(keys_view(sorted@), keys_view(keys@));
    }
    sorted
}


impl SpendingPolicy {
    /// The policy that one key unlocks.
    pub fn single_key(key: PublicKey) -> (policy: SpendingPolicy)
        ensures
            policy@ == PolicyView::SingleKey(key@),
    {
        SpendingPolicy::SingleKey(key)
    }

    /// The policy that `m` of `keys` unlock. It fails where there is no key,
    /// where `m` is more than the number of keys or zero, and where there are
    /// more than `MAX_POLICY_KEYS` keys. The keys are kept in canonical
    /// order, so that the same keys in another order give the same policy.
    pub fn threshold(m: usize, keys: Vec<PublicKey>) -> (made: Result<
        SpendingPolicy,
        PolicyConstructionError,
    >)
        ensures
            match made {
                Ok(policy) => threshold_fault(m as nat, keys.len() as nat) is None && policy@
                    == (PolicyView::Threshold {
                    m: m as nat,
                    keys: canonical_keys(keys_view(keys@)),
                }),
                Err(fault) => threshold_fault(m as nat, keys.len() as nat) == Some(fault),
            },
    {
        let n = keys.len();
        if n == 0 {
            Err(PolicyConstructionError::NoKeys)
        } else if m > n {
            Err(PolicyConstructionError::ThresholdExceedsKeys)
        } else if m == 0 {
            Err(PolicyConstructionError::ZeroThreshold)
        } else if n > MAX_POLICY_KEYS {
            Err(PolicyConstructionError::TooManyKeys)
        } else {
            Ok(SpendingPolicy::Threshold { m, keys: sort_keys(&keys) })
        }
    }

    /// Checks the threshold of a policy against its keys.
    pub fn check(&self) -> (checked: Result<(), PolicyConstructionError>)
        ensures
            match checked {
                Ok(_) => policy_fault(self@) is None,
                Err(fault) => policy_fault(self@) == Some(fault),
            },
    {
        match self {
            SpendingPolicy::SingleKey(_) => Ok(()),
            SpendingPolicy::Threshold { m, keys } => {
                let n = keys.len();
                if n == 0 {
                    Err(PolicyConstructionError::NoKeys)
                } else if *m > n {
                    Err(PolicyConstructionError::ThresholdExceedsKeys)
                } else if *m == 0 {
                    Err(PolicyConstructionError::ZeroThreshold)
                } else if n > MAX_POLICY_KEYS {
                    Err(PolicyConstructionError::TooManyKeys)
                } else {
                    Ok(())
                }
            },
        }
    }

    /// How many signatures the policy asks for.
    pub fn required(&self) -> (m: usize)
        ensures
            m == required_signatures(self@),
    {
        match self {
            SpendingPolicy::SingleKey(_) => 1,
            SpendingPolicy::Threshold { m, keys } => *m,
        }
    }

    /// The keys whose signatures count, in canonical order.
    pub fn ordered_keys(&self) -> (keys: Vec<PublicKey>)
        ensures
            keys_view(keys@) == signing_keys(self@),
    {
        match self {
            SpendingPolicy::SingleKey(key) => {
                let mut keys: Vec<PublicKey> = Vec::new();
                keys.push(*key);
                assert(keys_view(keys@) =~= seq![key@]);
                keys
            },
            SpendingPolicy::Threshold { m, keys } => sort_keys(keys),
        }
    }
}

/// A copy of a policy.
pub fn clone_policy(policy: &SpendingPolicy) -> (copy: SpendingPolicy)
    ensures
        copy@ == policy@,
{
    match policy {
        SpendingPolicy::SingleKey(key) => SpendingPolicy::SingleKey(*key),
        SpendingPolicy::Threshold { m, keys } => {
            let mut copied: Vec<PublicKey> = Vec::new();
            let mut i: usize = 0;
            while i < keys.len()
                invariant
                    i <= keys.len(),
                    copied.len() == i,
                    forall|j: int| 0 <= j < i ==> (#[trigger] copied@[j])@ == keys@[j]@,
                decreases keys.len() - i,
            {
                copied.push(keys[i]);
                i += 1;
            }
            assert(keys_view(copied@) =~= keys_view(keys@));
            SpendingPolicy::Threshold { m: *m, keys: copied }
        },
    }
}

/// The text of a policy's output descriptor.
pub fn descriptor_text(policy: &SpendingPolicy) -> (text: String)
    ensures
        text@ == descriptor_chars(policy@),
{
    match policy {
        SpendingPolicy::SingleKey(key) => {
            proof {
                reveal_strlit("pkh(");
                reveal_strlit(")");
            }
            let mut text = String::from_str("pkh(");
            push_hex(&mut text, key.bytes.as_slice());
            text.append(")");
            assert(text@ =~= descriptor_chars(policy@));
            text
        },
        SpendingPolicy::Threshold { m, keys } => {
            proof {
                reveal_strlit("wsh(sortedmulti(");
                reveal_strlit(",");
                reveal_strlit("))");
            }
            let sorted = sort_keys(keys);
            let mut text = String::from_str("wsh(sortedmulti(");
            push_decimal(&mut text, *m);
            let ghost head = text@;
            let mut i: usize = 0;
            assert(keys_view(sorted@).take(0) =~= Seq::<Seq<u8>>::empty());
            assert(text@ =~= head + comma_hex_list(keys_view(sorted@).take(0)));
            while i < sorted.len()
                invariant
                    i <= sorted.len(),
                    text@ == head + comma_hex_list(keys_view(sorted@).take(i as int)),
                decreases sorted.len() - i,
            {
                let ghost before = text@;
                text.append(",");
                push_hex(&mut text, sorted[i].bytes.as_slice());
                proof {
                    let upto = keys_view(sorted@).take(i + 1);
                    assert(upto.drop_last() =~= keys_view(sorted@).take(i as int));
                    assert(upto.last() == sorted@[i as int]@);
                    reveal_strlit(",");
                    assert(","@ =~= seq![',']);
                    assert(text@ =~= before + seq![','] + hex(sorted@[i as int]@));
                    assert(comma_hex_list(upto) == comma_hex_list(upto.drop_last()) + seq![',']
                        + hex(upto.last()));
                    assert(text@ =~= head + comma_hex_list(upto));
                }
                i += 1;
            }
            assert(keys_view(sorted@).take(i as int) =~= keys_view(sorted@));
            text.append("))");
            assert(text@ =~= descriptor_chars(policy@));
            text
        },
    }
}


/// The locking script of a policy, or why it has none.
pub open spec fn locking_script_of(policy: PolicyView) -> Result<Seq<u8>, SpendError> {
    match policy_fault(policy) {
        Some(fault) => Err(SpendError::PolicyConstruction(fault)),
        None => match descriptor_locking_script(descriptor_chars(policy)) {
            Some(script) => Ok(script),
            None => Err(SpendError::ScriptUnavailable),
        },
    }
}

/// The address of a policy on a network, or why it has none.
pub open spec fn address_of(policy: PolicyView, network: Network) -> Result<Seq<char>, SpendError> {
    match policy_fault(policy) {
        Some(fault) => Err(SpendError::PolicyConstruction(fault)),
        None => match descriptor_address(descriptor_chars(policy), network) {
            Some(address) => Ok(address),
            None => Err(SpendError::ScriptUnavailable),
        },
    }
}

/// The script that locks an output to `policy`: that of the policy's
/// descriptor, in which the keys of a threshold stand in canonical order.
pub fn derive_locking_script(policy: &SpendingPolicy) -> (derived: Result<Vec<u8>, SpendError>)
    ensures
        match derived {
            Ok(script) => locking_script_of(policy@) == Ok::<Seq<u8>, SpendError>(script@),
            Err(error) => locking_script_of(policy@) == Err::<Seq<u8>, SpendError>(error),
        },
{
    match policy.check() {
        Err(fault) => Err(SpendError::PolicyConstruction(fault)),
        Ok(_) => {
            let text = descriptor_text(policy);
            assert(is_policy_descriptor(text@)) by {
                assert(policy_fault(policy@) is None && text@ == descriptor_chars(policy@));
            }
            match descriptor_script_pubkey(text.as_str()) {
                Some(script) => Ok(script),
                None => Err(SpendError::ScriptUnavailable),
            }
        },
    }
}

/// The address that pays to `policy` on `network`. It serves to show and to
/// fund; spending goes by the locking script.
pub fn derive_address(policy: &SpendingPolicy, network: Network) -> (derived: Result<
    String,
    SpendError,
>)
    ensures
        match derived {
            Ok(address) => address_of(policy@, network) == Ok::<Seq<char>, SpendError>(address@),
            Err(error) => address_of(policy@, network) == Err::<Seq<char>, SpendError>(error),
        },
{
    match policy.check() {
        Err(fault) => Err(SpendError::PolicyConstruction(fault)),
        Ok(_) => {
            let text = descriptor_text(policy);
            assert(is_policy_descriptor(text@)) by {
                assert(policy_fault(policy@) is None && text@ == descriptor_chars(policy@));
            }
            match descriptor_address_text(text.as_str(), network) {
                Some(address) => Ok(address),
                None => Err(SpendError::ScriptUnavailable),
            }
        },
    }
}

/// The descriptor of a threshold policy does not depend on the order in
/// which its keys are listed.
pub proof fn lemma_descriptor_order_free(m: nat, keys_a: Seq<Seq<u8>>, keys_b: Seq<Seq<u8>>)
    requires
        keys_a.to_multiset() == keys_b.to_multiset(),
    ensures
        descriptor_chars(PolicyView::Threshold { m, keys: keys_a }) == descriptor_chars(
            PolicyView::Threshold { m, keys: keys_b },
        ),
        policy_fault(PolicyView::Threshold { m, keys: keys_a }) == policy_fault(
            PolicyView::Threshold { m, keys: keys_b },
        ),
{
    broadcast use vstd::seq_lib::to_multiset_len;

    lemma_canonical_keys_order_free(keys_a, keys_b);
    assert(keys_a.len() == keys_a.to_multiset().len());
    assert(keys_b.len() == keys_b.to_multiset().len());
}

/// The locking script of a threshold policy is the same for every order in
/// which the same keys are listed.
pub proof fn lemma_locking_script_order_free(m: nat, keys_a: Seq<Seq<u8>>, keys_b: Seq<Seq<u8>>)
    requires
        keys_a.to_multiset() == keys_b.to_multiset(),
    ensures
        locking_script_of(PolicyView::Threshold { m, keys: keys_a }) == locking_script_of(
            PolicyView::Threshold { m, keys: keys_b },
        ),
{
    lemma_descriptor_order_free(m, keys_a, keys_b);
}

/// The address of a threshold policy is the same for every order in which
/// the same keys are listed: parties that know the keys agree on where to
/// send the funds without agreeing on an order first.
pub proof fn lemma_address_order_free(
    m: nat,
    keys_a: Seq<Seq<u8>>,
    keys_b: Seq<Seq<u8>>,
    network: Network,
)
    requires
        keys_a.to_multiset() == keys_b.to_multiset(),
    ensures
        address_of(PolicyView::Threshold { m, keys: keys_a }, network) == address_of(
            PolicyView::Threshold { m, keys: keys_b },
            network,
        ),
{
    lemma_descriptor_order_free(m, keys_a, keys_b);
}

} // verus!
