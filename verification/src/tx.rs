//! Transactions as the engine sees them: which outputs are consumed, which
//! are created, and in what order.

use vstd::prelude::*;
use vstd::slice::slice_to_vec;

verus! {

/// Version number carried by every transaction the engine builds.
pub const TX_VERSION: i32 = 2;

/// Lock time carried by every transaction the engine builds: none.
pub const TX_LOCK_TIME: u32 = 0;

/// Sequence number of an input that opts out of every relative lock.
pub const SEQUENCE_FINAL: u32 = 0xFFFF_FFFF;

/// Reference to one output of an earlier transaction.
#[derive(Clone, Copy, Debug, PartialEq, Eq, Hash)]
pub struct OutPoint {
    /// Identifier of the earlier transaction, in the byte order it is hashed in.
    pub txid: [u8; 32],
    /// Position of the output among that transaction's outputs.
    pub vout: u32,
}

/// An amount locked to a script.
#[derive(Clone, Debug, PartialEq, Eq)]
pub struct TxOut {
    /// Amount in the ledger's smallest unit.
    pub value: u64,
    /// Locking script.
    pub script_pubkey: Vec<u8>,
}

/// An input of a transaction under construction.
#[derive(Clone, Copy, Debug, PartialEq, Eq)]
pub struct TxIn {
    /// The output this input consumes.
    pub previous_output: OutPoint,
    /// Sequence number.
    pub sequence: u32,
}

/// What an `OutPoint` denotes.
pub struct OutPointView {
    pub txid: Seq<u8>,
    pub vout: u32,
}

/// What a `TxOut` denotes.
pub struct TxOutView {
    pub value: u64,
    pub script_pubkey: Seq<u8>,
}

/// What a `TxIn` denotes.
pub struct TxInView {
    pub previous_output: OutPointView,
    pub sequence: u32,
}

/// What an unsigned transaction denotes: everything a signature commits to.
pub struct TxView {
    pub version: i32,
    pub lock_time: u32,
    pub inputs: Seq<TxInView>,
    pub outputs: Seq<TxOutView>,
}

impl View for OutPoint {
    type V = OutPointView;

    open spec fn view(&self) -> OutPointView {
        OutPointView { txid: self.txid@, vout: self.vout }
    }
}

impl View for TxOut {
    type V = TxOutView;

    open spec fn view(&self) -> TxOutView {
        TxOutView { value: self.value, script_pubkey: self.script_pubkey@ }
    }
}

impl View for TxIn {
    type V = TxInView;

    open spec fn view(&self) -> TxInView {
        TxInView { previous_output: self.previous_output@, sequence: self.sequence }
    }
}

/// The inputs of a list, each by what it denotes.
pub open spec fn inputs_view(inputs: Seq<TxIn>) -> Seq<TxInView> {
    Seq::new(inputs.len(), |i: int| inputs[i]@)
}

/// The outputs of a list, each by what it denotes.
pub open spec fn outputs_view(outputs: Seq<TxOut>) -> Seq<TxOutView> {
    Seq::new(outputs.len(), |i: int| outputs[i]@)
}

/// A transaction under construction: inputs and outputs in the order the
/// caller supplied them. Version and lock time are fixed.
#[derive(Clone, Debug, PartialEq, Eq)]
pub struct WorkingTx {
    pub(crate) inputs: Vec<TxIn>,
    pub(crate) outputs: Vec<TxOut>,
}

impl View for WorkingTx {
    type V = TxView;

    closed spec fn view(&self) -> TxView {
        TxView {
            version: TX_VERSION,
            lock_time: TX_LOCK_TIME,
            inputs: inputs_view(self.inputs@),
            outputs: outputs_view(self.outputs@),
        }
    }
}


/// A copy of a byte string.
pub fn copy_bytes(bytes: &Vec<u8>) -> (copy: Vec<u8>)
    ensures
        copy@ == bytes@,
{
    slice_to_vec(bytes.as_slice())
}

/// A copy of an output.
pub fn copy_output(output: &TxOut) -> (copy: TxOut)
    ensures
        copy@ == output@,
        copy.value == output.value,
        copy.script_pubkey@ == output.script_pubkey@,
{
    TxOut { value: output.value, script_pubkey: copy_bytes(&output.script_pubkey) }
}

/// A transaction to build on: no inputs, no outputs, the fixed version and
/// lock time.
pub fn new_working_transaction() -> (tx: WorkingTx)
    ensures
        tx@ == (TxView {
            version: TX_VERSION,
            lock_time: TX_LOCK_TIME,
            inputs: Seq::empty(),
            outputs: Seq::empty(),
        }),
{
    WorkingTx::new()
}

impl WorkingTx {
    /// A transaction without inputs or outputs, with the fixed version and
    /// lock time.
    pub fn new() -> (tx: WorkingTx)
        ensures
            tx@ == (TxView {
                version: TX_VERSION,
                lock_time: TX_LOCK_TIME,
                inputs: Seq::empty(),
                outputs: Seq::empty(),
            }),
    {
        let tx = WorkingTx { inputs: Vec::new(), outputs: Vec::new() };
        assert(inputs_view(tx.inputs@) =~= Seq::empty());
        assert(outputs_view(tx.outputs@) =~= Seq::empty());
        tx
    }

    /// Appends an input that consumes `previous_output`. Nothing else
    /// changes.
    pub fn add_input(&mut self, previous_output: OutPoint, sequence: u32)
        ensures
            final(self)@ == (TxView {
                inputs: old(self)@.inputs.push(
                    TxInView { previous_output: previous_output@, sequence },
                ),
                ..old(self)@
            }),
    {
        self.inputs.push(TxIn { previous_output, sequence });
        assert(inputs_view(self.inputs@) =~= inputs_view(old(self).inputs@).push(
            TxInView { previous_output: previous_output@, sequence },
        ));
    }

    /// Appends an output of `value` locked to `locking_script`. Nothing else
    /// changes; whether the inputs cover the outputs is for the ledger to
    /// judge.
    pub fn add_output(&mut self, value: u64, locking_script: Vec<u8>)
        ensures
            final(self)@ == (TxView {
                outputs: old(self)@.outputs.push(
                    TxOutView { value, script_pubkey: locking_script@ },
                ),
                ..old(self)@
            }),
    {
        self.outputs.push(TxOut { value, script_pubkey: locking_script });
        assert(outputs_view(self.outputs@) =~= outputs_view(old(self).outputs@).push(
            TxOutView { value, script_pubkey: locking_script@ },
        ));
    }

    /// Every transaction under construction carries the fixed version and
    /// lock time.
    pub proof fn lemma_fixed_header(&self)
        ensures
            self@.version == TX_VERSION,
            self@.lock_time == TX_LOCK_TIME,
    {
    }

    /// The inputs, in the order they were added.
    pub fn inputs(&self) -> (inputs: &Vec<TxIn>)
        ensures
            inputs_view(inputs@) == self@.inputs,
    {
        &self.inputs
    }

    /// The outputs, in the order they were added.
    pub fn outputs(&self) -> (outputs: &Vec<TxOut>)
        ensures
            outputs_view(outputs@) == self@.outputs,
    {
        &self.outputs
    }

    /// The version, which is `TX_VERSION`.
    pub fn version(&self) -> (version: i32)
        ensures
            version == self@.version,
            version == TX_VERSION,
    {
        TX_VERSION
    }

    /// The lock time, which is `TX_LOCK_TIME`.
    pub fn lock_time(&self) -> (lock_time: u32)
        ensures
            lock_time == self@.lock_time,
            lock_time == TX_LOCK_TIME,
    {
        TX_LOCK_TIME
    }
}

} // verus!
