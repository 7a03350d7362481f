//! Finding the output of a transaction that a policy locks.

use vstd::prelude::*;

use crate::bytes::bytes_eq;
use crate::tx::{copy_output, OutPoint, TxOut};

verus! {

/// Whether output `i` is the first that carries `locking_script`.
pub open spec fn is_first_match(outputs: Seq<TxOut>, locking_script: Seq<u8>, i: int) -> bool {
    &&& 0 <= i < outputs.len()
    &&& outputs[i].script_pubkey@ == locking_script
    &&& forall|j: int| 0 <= j < i ==> (#[trigger] outputs[j]).script_pubkey@ != locking_script
}

/// Whether no output that an outpoint can address carries `locking_script`.
pub open spec fn no_match(outputs: Seq<TxOut>, locking_script: Seq<u8>) -> bool {
    forall|j: int|
        0 <= j < outputs.len() && j <= u32::MAX ==> (#[trigger] outputs[j]).script_pubkey@
            != locking_script
}

/// Looks through the outputs of the transaction `txid` in order and returns
/// the first that carries exactly `locking_script`, with the outpoint that
/// refers to it. `None` says that there is none: no default stands in for a
/// missing output.
pub fn find_output(txid: [u8; 32], outputs: &Vec<TxOut>, locking_script: &Vec<u8>) -> (found:
    Option<(OutPoint, TxOut)>)
    ensures
        match found {
            Some((outpoint, output)) => {
                &&& is_first_match(outputs@, locking_script@, outpoint.vout as int)
                &&& outpoint.txid == txid
                &&& output@ == outputs@[outpoint.vout as int]@
            },
            None => no_match(outputs@, locking_script@),
        },
{
    let mut i: usize = 0;
    while i < outputs.len() && i <= u32::MAX as usize
        invariant
            i <= outputs.len(),
            forall|j: int| 0 <= j < i ==> (#[trigger] outputs@[j]).script_pubkey@ != locking_script@,
        decreases outputs.len() - i,
    {
        if bytes_eq(outputs[i].script_pubkey.as_slice(), locking_script.as_slice()) {
            let outpoint = OutPoint { txid, vout: i as u32 };
            return Some((outpoint, copy_output(&outputs[i])));
        }
        i += 1;
    }
    None
}

} // verus!
