use threshold_spend::locator::find_output;
use threshold_spend::tx::{OutPoint, TxOut};

#[test]
fn find_output_returns_the_first_match() {
    let outputs = vec![
        TxOut { value: 1, script_pubkey: vec![0xaa] },
        TxOut { value: 2, script_pubkey: vec![0xbb] },
        TxOut { value: 3, script_pubkey: vec![0xbb] },
    ];
    let found = find_output([5; 32], &outputs, &vec![0xbb]);
    assert_eq!(
        found,
        Some((OutPoint { txid: [5; 32], vout: 1 }, TxOut { value: 2, script_pubkey: vec![0xbb] }))
    );
    let found = find_output([5; 32], &outputs, &vec![0xaa]);
    assert_eq!(
        found,
        Some((OutPoint { txid: [5; 32], vout: 0 }, TxOut { value: 1, script_pubkey: vec![0xaa] }))
    );
}

#[test]
fn find_output_without_a_match_is_none() {
    let outputs = vec![
        TxOut { value: 1, script_pubkey: vec![0xaa] },
        TxOut { value: 2, script_pubkey: vec![0xbb] },
    ];
    assert_eq!(find_output([5; 32], &outputs, &vec![0xcc]), None);
    assert_eq!(find_output([5; 32], &vec![], &vec![0xaa]), None);
}

#[test]
fn find_output_matches_the_whole_script_only() {
    let outputs = vec![
        TxOut { value: 1, script_pubkey: vec![0xaa, 0xbb] },
        TxOut { value: 2, script_pubkey: vec![0xaa] },
        TxOut { value: 0, script_pubkey: vec![] },
    ];
    assert_eq!(find_output([0; 32], &outputs, &vec![0xaa]).unwrap().0.vout, 1);
    assert_eq!(find_output([0; 32], &outputs, &vec![0xaa, 0xbb, 0xcc]), None);
    assert_eq!(find_output([0; 32], &outputs, &vec![0xbb]), None);
    // An empty script is a script like any other, and a value of zero a value.
    assert_eq!(
        find_output([0; 32], &outputs, &vec![]),
        Some((OutPoint { txid: [0; 32], vout: 2 }, TxOut { value: 0, script_pubkey: vec![] }))
    );
}
