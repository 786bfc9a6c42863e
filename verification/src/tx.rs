//! Transactions as the node reads them: outpoints, outputs, unsigned
//! transactions and partially signed ones.

use vstd::prelude::*;

use crate::text::copy_bytes;

verus! {

/// One output of one transaction.
#[derive(Clone, Copy, Debug)]
pub struct OutPoint {
    pub txid: [u8; 32],
    pub vout: u32,
}

/// A transaction output: an amount in satoshi and the script that guards it.
#[derive(Debug)]
pub struct TxOut {
    pub script_pubkey: Vec<u8>,
    pub value: u64,
}

/// One input of an unsigned transaction.
#[derive(Clone, Copy, Debug)]
pub struct TxIn {
    pub previous_output: OutPoint,
    pub sequence: u32,
}

/// An unsigned transaction: no input carries a script or a witness.
#[derive(Debug)]
pub struct Transaction {
    pub version: i32,
    pub lock_time: u32,
    pub input: Vec<TxIn>,
    pub output: Vec<TxOut>,
}

/// A signature one key holder has added to an input.
#[derive(Debug)]
pub struct PartialSig {
    /// The serialized public key the signature is filed under.
    pub pubkey: Vec<u8>,
    /// The signature in DER form.
    pub signature: Vec<u8>,
    /// The number of the sighash type that the signature commits to.
    pub sighash_type: u32,
}

/// What a partially signed transaction says of one input.
#[derive(Debug)]
pub struct PsbtInput {
    pub witness_utxo: Option<TxOut>,
    pub partial_sigs: Vec<PartialSig>,
}

/// A partially signed transaction.
#[derive(Debug)]
pub struct Psbt {
    pub unsigned_tx: Transaction,
    pub inputs: Vec<PsbtInput>,
}

/// The contents of a [`TxOut`].
pub struct TxOutView {
    pub script_pubkey: Seq<u8>,
    pub value: u64,
}

/// The contents of a [`Transaction`].
pub struct TransactionView {
    pub version: i32,
    pub lock_time: u32,
    pub input: Seq<TxIn>,
    pub output: Seq<TxOutView>,
}

/// The contents of a [`PartialSig`].
pub struct PartialSigView {
    pub pubkey: Seq<u8>,
    pub signature: Seq<u8>,
    pub sighash_type: u32,
}

/// The contents of a [`PsbtInput`].
pub struct PsbtInputView {
    pub witness_utxo: Option<TxOutView>,
    pub partial_sigs: Seq<PartialSigView>,
}

/// The contents of a [`Psbt`].
pub struct PsbtView {
    pub unsigned_tx: TransactionView,
    pub inputs: Seq<PsbtInputView>,
}

impl View for TxOut {
    type V = TxOutView;

    open spec fn view(&self) -> TxOutView {
        TxOutView { script_pubkey: self.script_pubkey@, value: self.value }
    }
}

impl View for Transaction {
    type V = TransactionView;

    open spec fn view(&self) -> TransactionView {
        TransactionView {
            version: self.version,
            lock_time: self.lock_time,
            input: self.input@,
            output: self.output@.map_values(|o: TxOut| o@),
        }
    }
}

impl View for PartialSig {
    type V = PartialSigView;

    open spec fn view(&self) -> PartialSigView {
        PartialSigView {
            pubkey: self.pubkey@,
            signature: self.signature@,
            sighash_type: self.sighash_type,
        }
    }
}

impl View for PsbtInput {
    type V = PsbtInputView;

    open spec fn view(&self) -> PsbtInputView {
        PsbtInputView {
            witness_utxo: match self.witness_utxo {
                Some(utxo) => Some(utxo@),
                None => None,
            },
            partial_sigs: self.partial_sigs@.map_values(|s: PartialSig| s@),
        }
    }
}

impl View for Psbt {
    type V = PsbtView;

    open spec fn view(&self) -> PsbtView {
        PsbtView {
            unsigned_tx: self.unsigned_tx@,
            inputs: self.inputs@.map_values(|i: PsbtInput| i@),
        }
    }
}

impl OutPoint {
    /// The output number `vout` of the transaction `txid`.
    pub fn new(txid: [u8; 32], vout: u32) -> (made: OutPoint)
        ensures
            made == (OutPoint { txid, vout }),
    {
        OutPoint { txid, vout }
    }
}

impl TxIn {
    /// An input that spends `previous_output`.
    pub fn new(previous_output: OutPoint, sequence: u32) -> (made: TxIn)
        ensures
            made == (TxIn { previous_output, sequence }),
    {
        TxIn { previous_output, sequence }
    }
}

impl TxOut {
    /// An output that pays `value` to `script_pubkey`.
    pub fn new(script_pubkey: Vec<u8>, value: u64) -> (made: TxOut)
        ensures
            made@ == (TxOutView { script_pubkey: script_pubkey@, value }),
    {
        TxOut { script_pubkey, value }
    }
}

impl PartialSig {
    /// `signature` filed under `pubkey`.
    pub fn new(pubkey: Vec<u8>, signature: Vec<u8>, sighash_type: u32) -> (made: PartialSig)
        ensures
            made@ == (PartialSigView { pubkey: pubkey@, signature: signature@, sighash_type }),
    {
        PartialSig { pubkey, signature, sighash_type }
    }
}

/// The amount nearest to `a` that a `u64` can hold.
pub open spec fn saturating(a: int) -> u64 {
    if a > u64::MAX {
        u64::MAX
    } else if a < 0 {
        0
    } else {
        a as u64
    }
}

/// The sum of the output amounts, capped at `u64::MAX`.
pub open spec fn output_total(outputs: Seq<TxOutView>) -> u64
    decreases outputs.len(),
{
    if outputs.len() == 0 {
        0
    } else {
        saturating(output_total(outputs.drop_last()) + outputs.last().value)
    }
}

/// The sum of the amounts of the coins the inputs declare, capped at
/// `u64::MAX`; an input that declares none adds nothing.
pub open spec fn declared_total(inputs: Seq<PsbtInputView>) -> u64
    decreases inputs.len(),
{
    if inputs.len() == 0 {
        0
    } else {
        match inputs.last().witness_utxo {
            Some(utxo) => saturating(declared_total(inputs.drop_last()) + utxo.value),
            None => declared_total(inputs.drop_last()),
        }
    }
}

/// Whether two outpoints name the same output.
pub fn same_outpoint(a: &OutPoint, b: &OutPoint) -> (same: bool)
    ensures
        same == (*a == *b),
{
    if a.vout != b.vout {
        return false;
    }
    same_txid(&a.txid, &b.txid)
}

/// Whether two transaction ids are equal.
pub fn same_txid(a: &[u8; 32], b: &[u8; 32]) -> (same: bool)
    ensures
        same == (*a == *b),
{
    let mut i: usize = 0;
    while i < 32
        invariant
            i <= 32,
            forall|k: int| 0 <= k < i ==> a@[k] == b@[k],
        decreases 32 - i,
    {
        if a[i] != b[i] {
            assert(a@[i as int] != b@[i as int]);
            return false;
        }
        i += 1;
    }
    assert(*a =~= *b);
    true
}

/// The sum of the amounts of `outputs`, capped at `u64::MAX`.
pub fn total_out(outputs: &Vec<TxOut>) -> (total: u64)
    ensures
        total == output_total(outputs@.map_values(|o: TxOut| o@)),
{
    let ghost views = outputs@.map_values(|o: TxOut| o@);
    let mut total: u64 = 0;
    let mut i: usize = 0;
    while i < outputs.len()
        invariant
            i <= outputs.len(),
            views == outputs@.map_values(|o: TxOut| o@),
            total == output_total(views.take(i as int)),
        decreases outputs.len() - i,
    {
        assert(views.take(i + 1).drop_last() =~= views.take(i as int));
        total = total.saturating_add(outputs[i].value);
        i += 1;
    }
    assert(views.take(i as int) =~= views);
    total
}

/// The sum of the amounts that `inputs` declare, capped at `u64::MAX`.
pub fn total_declared(inputs: &Vec<PsbtInput>) -> (total: u64)
    ensures
        total == declared_total(inputs@.map_values(|i: PsbtInput| i@)),
{
    let ghost views = inputs@.map_values(|i: PsbtInput| i@);
    let mut total: u64 = 0;
    let mut i: usize = 0;
    while i < inputs.len()
        invariant
            i <= inputs.len(),
            views == inputs@.map_values(|i: PsbtInput| i@),
            total == declared_total(views.take(i as int)),
        decreases inputs.len() - i,
    {
        assert(views.take(i + 1).drop_last() =~= views.take(i as int));
        assert(views.take(i + 1).last() == inputs[i as int]@);
        if let Some(utxo) = &inputs[i].witness_utxo {
            total = total.saturating_add(utxo.value);
        }
        i += 1;
    }
    assert(views.take(i as int) =~= views);
    total
}

impl TxOut {
    /// A copy of the output.
    pub fn copy(&self) -> (copy: TxOut)
        ensures
            copy@ == self@,
    {
        TxOut { script_pubkey: copy_bytes(&self.script_pubkey), value: self.value }
    }
}

impl Transaction {
    /// A copy of the transaction.
    pub fn copy(&self) -> (copy: Transaction)
        ensures
            copy@ == self@,
    {
        let mut input: Vec<TxIn> = Vec::new();
        let mut i: usize = 0;
        while i < self.input.len()
            invariant
                i <= self.input.len(),
                input@ == self.input@.take(i as int),
            decreases self.input.len() - i,
        {
            input.push(self.input[i]);
            assert(self.input@.take(i + 1) =~= self.input@.take(i as int).push(
                self.input@[i as int],
            ));
            i += 1;
        }
        assert(self.input@.take(i as int) =~= self.input@);
        let mut output: Vec<TxOut> = Vec::new();
        let mut i: usize = 0;
        while i < self.output.len()
            invariant
                i <= self.output.len(),
                output.len() == i,
                forall|k: int| 0 <= k < i ==> (#[trigger] output@[k])@ == self.output@[k]@,
            decreases self.output.len() - i,
        {
            output.push(self.output[i].copy());
            i += 1;
        }
        assert(output@.map_values(|o: TxOut| o@) =~= self.output@.map_values(|o: TxOut| o@));
        Transaction { version: self.version, lock_time: self.lock_time, input, output }
    }
}

impl PsbtInput {
    /// A copy of what is said of the input.
    pub fn copy(&self) -> (copy: PsbtInput)
        ensures
            copy@ == self@,
    {
        let mut sigs: Vec<PartialSig> = Vec::new();
        let mut i: usize = 0;
        while i < self.partial_sigs.len()
            invariant
                i <= self.partial_sigs.len(),
                sigs.len() == i,
                forall|k: int| 0 <= k < i ==> (#[trigger] sigs@[k])@ == self.partial_sigs@[k]@,
            decreases self.partial_sigs.len() - i,
        {
            let sig = &self.partial_sigs[i];
            sigs.push(
                PartialSig {
                    pubkey: copy_bytes(&sig.pubkey),
                    signature: copy_bytes(&sig.signature),
                    sighash_type: sig.sighash_type,
                },
            );
            i += 1;
        }
        assert(sigs@.map_values(|s: PartialSig| s@) =~= self.partial_sigs@.map_values(
            |s: PartialSig| s@,
        ));
        PsbtInput {
            witness_utxo: match &self.witness_utxo {
                Some(utxo) => Some(utxo.copy()),
                None => None,
            },
            partial_sigs: sigs,
        }
    }
}

impl Psbt {
    /// A copy of the transaction with what is said of its inputs.
    pub fn copy(&self) -> (copy: Psbt)
        ensures
            copy@ == self@,
    {
        let mut inputs: Vec<PsbtInput> = Vec::new();
        let mut i: usize = 0;
        while i < self.inputs.len()
            invariant
                i <= self.inputs.len(),
                inputs.len() == i,
                forall|k: int| 0 <= k < i ==> (#[trigger] inputs@[k])@ == self.inputs@[k]@,
            decreases self.inputs.len() - i,
        {
            inputs.push(self.inputs[i].copy());
            i += 1;
        }
        assert(inputs@.map_values(|x: PsbtInput| x@) =~= self.inputs@.map_values(
            |x: PsbtInput| x@,
        ));
        Psbt { unsigned_tx: self.unsigned_tx.copy(), inputs }
    }
}

} // verus!
