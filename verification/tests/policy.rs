use std::str::FromStr;

use miniscript::{DefiniteDescriptorKey, Descriptor};
use threshold_spend::error::SpendError;
use threshold_spend::keys::PublicKey;
use threshold_spend::policy::{
    derive_address, derive_locking_script, descriptor_text, Network, PolicyConstructionError,
    SpendingPolicy,
};

fn unhex(text: &str) -> Vec<u8> {
    (0..text.len() / 2)
        .map(|i| u8::from_str_radix(&text[2 * i..2 * i + 2], 16).unwrap())
        .collect()
}

fn key(text: &str) -> PublicKey {
    let mut bytes = [0u8; 33];
    bytes.copy_from_slice(&unhex(text));
    PublicKey { bytes }
}

// The public keys of the private keys 1, 2 and 3.
const G1: &str = "0279be667ef9dcbbac55a06295ce870b07029bfcdb2dce28d959f2815b16f81798";
const G2: &str = "02c6047f9441ed7d6d3045406e95c07cd85c778e4b8cef3ca7abac09b95c709ee5";
const G3: &str = "02f9308a019258c31049344f85f89d5229b531c845836f99b08601f113bce036f9";

#[test]
fn single_key_descriptor_is_pkh_of_the_hex_key() {
    let policy = SpendingPolicy::single_key(key(G1));
    assert_eq!(descriptor_text(&policy), format!("pkh({})", G1));
}

#[test]
fn single_key_locking_script_pays_to_the_key_hash() {
    let policy = SpendingPolicy::single_key(key(G1));
    let script = derive_locking_script(&policy).unwrap();
    assert_eq!(script, unhex("76a914751e76e8199196d454941c45d1b3a323f1433bd688ac"));
}

#[test]
fn single_key_address_on_the_main_network() {
    let policy = SpendingPolicy::single_key(key(G1));
    let address = derive_address(&policy, Network::Bitcoin).unwrap();
    assert_eq!(address, "1BgGZ9tcN4rm9KBzDn7KprQz87SZ26SAMH");
}

#[test]
fn threshold_descriptor_lists_the_keys_sorted() {
    let policy = SpendingPolicy::threshold(2, vec![key(G3), key(G1), key(G2)]).unwrap();
    assert_eq!(
        descriptor_text(&policy),
        format!("wsh(sortedmulti(2,{},{},{}))", G1, G2, G3)
    );
}

#[test]
fn threshold_keeps_its_keys_in_canonical_order() {
    let policy = SpendingPolicy::threshold(2, vec![key(G3), key(G1), key(G2)]).unwrap();
    assert_eq!(
        policy,
        SpendingPolicy::Threshold { m: 2, keys: vec![key(G1), key(G2), key(G3)] }
    );
    assert_eq!(policy.ordered_keys(), vec![key(G1), key(G2), key(G3)]);
    assert_eq!(policy.required(), 2);
}

#[test]
fn locking_script_is_the_same_for_every_key_order() {
    let orders = [
        [G1, G2, G3],
        [G1, G3, G2],
        [G2, G1, G3],
        [G2, G3, G1],
        [G3, G1, G2],
        [G3, G2, G1],
    ];
    let first = derive_locking_script(&SpendingPolicy::Threshold {
        m: 2,
        keys: orders[0].iter().map(|k| key(k)).collect(),
    })
    .unwrap();
    assert_eq!(first.len(), 34);
    for order in orders.iter() {
        let raw = SpendingPolicy::Threshold { m: 2, keys: order.iter().map(|k| key(k)).collect() };
        assert_eq!(derive_locking_script(&raw).unwrap(), first);
        let made = SpendingPolicy::threshold(2, order.iter().map(|k| key(k)).collect()).unwrap();
        assert_eq!(derive_locking_script(&made).unwrap(), first);
    }
}

#[test]
fn address_is_the_same_for_keys_in_another_order() {
    let one = SpendingPolicy::threshold(2, vec![key(G1), key(G2), key(G3)]).unwrap();
    let other = SpendingPolicy::threshold(2, vec![key(G3), key(G2), key(G1)]).unwrap();
    let a = derive_address(&one, Network::Regtest).unwrap();
    let b = derive_address(&other, Network::Regtest).unwrap();
    assert_eq!(a, b);
    assert!(a.starts_with("bcrt1q"));
}

#[test]
fn locking_script_and_address_are_those_of_the_parsed_descriptor() {
    let policy = SpendingPolicy::threshold(2, vec![key(G2), key(G3), key(G1)]).unwrap();
    let text = format!("wsh(sortedmulti(2,{},{},{}))", G2, G3, G1);
    let parsed = Descriptor::<DefiniteDescriptorKey>::from_str(&text).unwrap();
    assert_eq!(derive_locking_script(&policy).unwrap(), parsed.script_pubkey().into_bytes());
    assert_eq!(
        derive_address(&policy, Network::Regtest).unwrap(),
        parsed.address(miniscript::bitcoin::Network::Regtest).unwrap().to_string()
    );
}

#[test]
fn threshold_differs_with_the_threshold() {
    let two = SpendingPolicy::threshold(2, vec![key(G1), key(G2), key(G3)]).unwrap();
    let three = SpendingPolicy::threshold(3, vec![key(G1), key(G2), key(G3)]).unwrap();
    assert_ne!(derive_locking_script(&two).unwrap(), derive_locking_script(&three).unwrap());
}

#[test]
fn threshold_without_keys_is_refused() {
    assert_eq!(SpendingPolicy::threshold(0, vec![]), Err(PolicyConstructionError::NoKeys));
    assert_eq!(SpendingPolicy::threshold(1, vec![]), Err(PolicyConstructionError::NoKeys));
}

#[test]
fn threshold_above_the_number_of_keys_is_refused() {
    assert_eq!(
        SpendingPolicy::threshold(3, vec![key(G1), key(G2)]),
        Err(PolicyConstructionError::ThresholdExceedsKeys)
    );
}

#[test]
fn threshold_of_zero_is_refused() {
    assert_eq!(
        SpendingPolicy::threshold(0, vec![key(G1), key(G2)]),
        Err(PolicyConstructionError::ZeroThreshold)
    );
}

#[test]
fn threshold_over_too_many_keys_is_refused() {
    let many: Vec<PublicKey> = (0..21).map(|_| key(G1)).collect();
    assert_eq!(SpendingPolicy::threshold(1, many), Err(PolicyConstructionError::TooManyKeys));
    let most: Vec<PublicKey> = (0..20).map(|_| key(G1)).collect();
    assert!(SpendingPolicy::threshold(20, most).is_ok());
}

#[test]
fn one_of_one_is_a_policy() {
    let policy = SpendingPolicy::threshold(1, vec![key(G1)]).unwrap();
    assert_eq!(policy.check(), Ok(()));
    assert!(derive_locking_script(&policy).is_ok());
}

#[test]
fn hand_built_policy_with_a_bad_threshold_has_no_script() {
    let bad = SpendingPolicy::Threshold { m: 4, keys: vec![key(G1), key(G2), key(G3)] };
    assert_eq!(bad.check(), Err(PolicyConstructionError::ThresholdExceedsKeys));
    assert_eq!(
        derive_locking_script(&bad),
        Err(SpendError::PolicyConstruction(PolicyConstructionError::ThresholdExceedsKeys))
    );
    assert_eq!(
        derive_address(&bad, Network::Regtest),
        Err(SpendError::PolicyConstruction(PolicyConstructionError::ThresholdExceedsKeys))
    );
}

#[test]
fn key_off_the_curve_has_no_script() {
    let mut bytes = [0u8; 33];
    bytes[0] = 0x02;
    let policy = SpendingPolicy::single_key(PublicKey { bytes });
    assert_eq!(derive_locking_script(&policy), Err(SpendError::ScriptUnavailable));
    assert_eq!(derive_address(&policy, Network::Bitcoin), Err(SpendError::ScriptUnavailable));
}

#[test]
fn thresholds_refused_here_are_no_descriptors_either() {
    let zero = format!("wsh(sortedmulti(0,{},{}))", G1, G2);
    assert!(Descriptor::<DefiniteDescriptorKey>::from_str(&zero).is_err());
    let over = format!("wsh(sortedmulti(3,{},{}))", G1, G2);
    assert!(Descriptor::<DefiniteDescriptorKey>::from_str(&over).is_err());
    let none = "wsh(sortedmulti(1))";
    assert!(Descriptor::<DefiniteDescriptorKey>::from_str(none).is_err());
    let keys: Vec<String> = (0..21).map(|_| G1.to_string()).collect();
    let many = format!("wsh(sortedmulti(1,{}))", keys.join(","));
    assert!(Descriptor::<DefiniteDescriptorKey>::from_str(&many).is_err());
    let most = format!("wsh(sortedmulti(1,{}))", keys[..20].join(","));
    assert!(Descriptor::<DefiniteDescriptorKey>::from_str(&most).is_ok());
}
