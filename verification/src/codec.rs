//! Reading and measuring transactions with the `bitcoin` crate.

use std::str::FromStr;

use bitcoin::absolute::LockTime;
use bitcoin::hashes::Hash as HashBytes;
use bitcoin::transaction::Version;
use bitcoin::{Amount, ScriptBuf, Sequence, Txid};
use vstd::prelude::*;

use crate::proto::BadRequest;
use crate::text::owned;
use crate::tx::{
    OutPoint, PartialSig, Psbt, PsbtInput, PsbtView, Transaction, TransactionView, TxIn, TxOut,
    TxOutView,
};

verus! {

/// Whether Unicode counts `c` as white space.
pub open spec fn white_space(c: char) -> bool {
    let code = c as int;
    ||| 0x09 <= code <= 0x0d
    ||| code == 0x20
    ||| code == 0x85
    ||| code == 0xa0
    ||| code == 0x1680
    ||| 0x2000 <= code <= 0x200a
    ||| 0x2028 <= code <= 0x2029
    ||| code == 0x202f
    ||| code == 0x205f
    ||| code == 0x3000
}

/// `text` without the white space at its two ends.
pub open spec fn trimmed(text: Seq<char>) -> Seq<char>
    decreases text.len(),
{
    if text.len() > 0 && white_space(text.first()) {
        trimmed(text.drop_first())
    } else if text.len() > 0 && white_space(text.last()) {
        trimmed(text.drop_last())
    } else {
        text
    }
}

/// What the base64 `text` of a partially signed transaction decodes to, or the
/// decoder's complaint.
pub uninterp spec fn psbt_decoding(text: Seq<char>) -> Result<PsbtView, Seq<char>>;

/// The binary form of the partially signed transaction that `text` decodes to.
pub uninterp spec fn psbt_serialization(text: Seq<char>) -> Seq<u8>;

/// The id of a transaction whose inputs carry the scripts `scripts`.
pub uninterp spec fn scripted_id(tx: TransactionView, scripts: Seq<Seq<u8>>) -> [u8; 32];

/// The id of an unsigned transaction: no input carries a script.
#[verifier::opaque]
pub open spec fn transaction_id(tx: TransactionView) -> [u8; 32] {
    scripted_id(tx, Seq::new(tx.input.len(), |i: int| Seq::empty()))
}

/// What is computed as the weight of an unsigned transaction whose weight does not fit a
/// machine word.
pub uninterp spec fn oversize_weight(tx: TransactionView) -> u64;

/// How many bytes a length takes in front of what it counts.
pub open spec fn length_prefix(n: nat) -> nat {
    if n < 0xfd {
        1
    } else if n < 0x1_0000 {
        3
    } else if n < 0x1_0000_0000 {
        5
    } else {
        9
    }
}

/// How many bytes the outputs take.
pub open spec fn outputs_size(outputs: Seq<TxOutView>) -> nat
    decreases outputs.len(),
{
    if outputs.len() == 0 {
        0
    } else {
        outputs_size(outputs.drop_last()) + 8 + length_prefix(outputs.last().script_pubkey.len())
            + outputs.last().script_pubkey.len()
    }
}

/// How many bytes an unsigned transaction takes.
pub open spec fn unsigned_size(tx: TransactionView) -> nat {
    4 + length_prefix(tx.input.len()) + 41 * tx.input.len() + length_prefix(tx.output.len())
        + outputs_size(tx.output) + 4
}

/// The weight an unsigned transaction has by its size: each byte counts four
/// times, and a transaction without inputs carries two bytes more that count
/// once.
pub open spec fn unsigned_weight(tx: TransactionView) -> nat {
    4 * unsigned_size(tx) + if tx.input.len() == 0 {
        2nat
    } else {
        0nat
    }
}

/// The weight of an unsigned transaction, in weight units, as far as a machine word
/// holds it.
#[verifier::opaque]
pub open spec fn transaction_weight(tx: TransactionView) -> u64 {
    if unsigned_weight(tx) <= usize::MAX {
        unsigned_weight(tx) as u64
    } else {
        oversize_weight(tx)
    }
}

/// The transaction that these bytes hold as it travels, with the script of each input,
/// or the reader's complaint.
pub uninterp spec fn transaction_reading(raw: Seq<u8>) -> Result<
    (TransactionView, Seq<Seq<u8>>),
    Seq<char>,
>;

/// The id of the transaction that these bytes hold, or the reader's complaint.
pub open spec fn raw_transaction_id(raw: Seq<u8>) -> Result<[u8; 32], Seq<char>> {
    match transaction_reading(raw) {
        Ok((tx, scripts)) => Ok(scripted_id(tx, scripts)),
        Err(e) => Err(e),
    }
}

/// The contents of each of `list`.
pub open spec fn contents(list: Seq<Vec<u8>>) -> Seq<Seq<u8>> {
    list.map_values(|b: Vec<u8>| b@)
}

/// [`str::trim`], as an owned text. Claims that it takes away the white space at both
/// ends, by the Unicode property `White_Space`, and nothing else.
#[verifier::external_body]
fn trim(text: &str) -> (out: String)
    ensures
        out@ == trimmed(text@),
{
    text.trim().to_owned()
}

/// `bitcoin::Psbt::from_str`, and of what it decodes the unsigned transaction.
/// Claims that success, the transaction and the complaint depend on the text
/// alone; what they are is given the name [`psbt_decoding`].
#[verifier::external_body]
fn decode_transaction(text: &str) -> (out: Result<Transaction, String>)
    ensures
        match out {
            Ok(tx) => psbt_decoding(text@) is Ok && psbt_decoding(text@)->Ok_0.unsigned_tx == tx@,
            Err(e) => psbt_decoding(text@) == Result::<PsbtView, Seq<char>>::Err(e@),
        },
{
    let tx = bitcoin::Psbt::from_str(text).map_err(|e| e.to_string())?.unsigned_tx;
    let input = tx.input.iter().map(
        |i| TxIn::new(
            OutPoint::new(i.previous_output.txid.to_byte_array(), i.previous_output.vout),
            i.sequence.0,
        ),
    ).collect();
    let output = tx.output.iter().map(
        |o| TxOut::new(o.script_pubkey.to_bytes(), o.value.to_sat()),
    ).collect();
    let lock_time = tx.lock_time.to_consensus_u32();
    Ok(Transaction { version: tx.version.0, lock_time, input, output })
}

/// `bitcoin::Psbt::from_str`, and of what it decodes the per-input data. The
/// claim is that of [`decode_transaction`], for the other half of the result.
#[verifier::external_body]
fn decode_inputs(text: &str) -> (out: Result<Vec<PsbtInput>, String>)
    ensures
        match out {
            Ok(inputs) => psbt_decoding(text@) is Ok && psbt_decoding(text@)->Ok_0.inputs
                == inputs@.map_values(|i: PsbtInput| i@),
            Err(e) => psbt_decoding(text@) == Result::<PsbtView, Seq<char>>::Err(e@),
        },
{
    let psbt = bitcoin::Psbt::from_str(text).map_err(|e| e.to_string())?;
    Ok(
        psbt.inputs.iter().map(
            |i| {
                let utxo = i.witness_utxo.as_ref();
                let witness_utxo = utxo.map(
                    |o| TxOut::new(o.script_pubkey.to_bytes(), o.value.to_sat()),
                );
                let sigs = i.partial_sigs.iter();
                let partial_sigs = sigs.map(|(k, s)| PartialSig::new(k.to_bytes(), s.signature.serialize_der().to_vec(), s.sighash_type.to_u32())).collect();
                PsbtInput { witness_utxo, partial_sigs }
            },
        ).collect(),
    )
}

/// `bitcoin::Psbt::serialize` on what `bitcoin::Psbt::from_str` makes of the
/// text. Claims that the bytes depend on the text alone; they are given the name
/// [`psbt_serialization`].
#[verifier::external_body]
fn serialize_psbt(text: &str) -> (out: Result<Vec<u8>, String>)
    ensures
        match out {
            Ok(bytes) => psbt_decoding(text@) is Ok && bytes@ == psbt_serialization(text@),
            Err(e) => psbt_decoding(text@) == Result::<PsbtView, Seq<char>>::Err(e@),
        },
{
    Ok(bitcoin::Psbt::from_str(text).map_err(|e| e.to_string())?.serialize())
}

/// `bitcoin::Transaction::compute_txid`, of the transaction whose inputs carry the
/// scripts `scripts`. Claims that the id depends on these contents alone; it is given
/// the name [`scripted_id`].
#[verifier::external_body]
fn id_with_scripts(tx: &Transaction, scripts: &Vec<Vec<u8>>) -> (txid: [u8; 32])
    requires
        scripts.len() == tx.input.len(),
    ensures
        txid == scripted_id(tx@, contents(scripts@)),
{
    let input = tx.input.iter().zip(scripts).map(
        |(i, script)| bitcoin::TxIn {
            previous_output: bitcoin::OutPoint::new(Txid::from_byte_array(i.previous_output.txid), i.previous_output.vout),
            sequence: Sequence(i.sequence),
            script_sig: ScriptBuf::from_bytes(script.clone()),
            ..bitcoin::TxIn::default()
        },
    ).collect();
    let output = tx.output.iter().map(
        |o| bitcoin::TxOut { value: Amount::from_sat(o.value), script_pubkey: ScriptBuf::from_bytes(o.script_pubkey.clone()) },
    ).collect();
    let (version, lock_time) = (Version(tx.version), LockTime::from_consensus(tx.lock_time));
    bitcoin::Transaction { version, lock_time, input, output }.compute_txid().to_byte_array()
}

/// The id of an unsigned transaction.
pub(crate) fn compute_txid(tx: &Transaction) -> (txid: [u8; 32])
    ensures
        txid == transaction_id(tx@),
{
    let mut scripts: Vec<Vec<u8>> = Vec::new();
    while scripts.len() < tx.input.len()
        invariant
            scripts.len() <= tx.input.len(),
            forall|i: int| 0 <= i < scripts.len() ==> (#[trigger] scripts@[i])@.len() == 0,
        decreases tx.input.len() - scripts.len(),
    {
        scripts.push(Vec::new());
    }
    proof {
        reveal(transaction_id);
        let none = Seq::new(tx@.input.len(), |i: int| Seq::<u8>::empty());
        assert forall|i: int| 0 <= i < none.len() implies contents(scripts@)[i] == none[i] by {
            assert(scripts@[i]@ =~= Seq::<u8>::empty());
        }
        assert(contents(scripts@) =~= none);
    }
    id_with_scripts(tx, &scripts)
}

/// `bitcoin::Transaction::weight`. Claims that it is the weight by size wherever that
/// fits the machine word it is computed in, and that beyond it depends on the
/// transaction's contents alone, which the name [`oversize_weight`] stands for.
#[verifier::external_body]
fn measure(tx: &Transaction) -> (weight: u64)
    ensures
        unsigned_weight(tx@) <= usize::MAX ==> weight == unsigned_weight(tx@),
        unsigned_weight(tx@) > usize::MAX ==> weight == oversize_weight(tx@),
{
    let input = tx.input.iter().map(
        |i| bitcoin::TxIn { sequence: Sequence(i.sequence), ..bitcoin::TxIn::default() },
    ).collect();
    let output = tx.output.iter().map(
        |o| bitcoin::TxOut { value: Amount::from_sat(o.value), script_pubkey: ScriptBuf::from_bytes(o.script_pubkey.clone()) },
    ).collect();
    let (version, lock_time) = (Version(tx.version), LockTime::from_consensus(tx.lock_time));
    bitcoin::Transaction { version, lock_time, input, output }.weight().to_wu()
}

/// The weight of an unsigned transaction, in weight units.
pub(crate) fn weight(tx: &Transaction) -> (weight: u64)
    ensures
        weight == transaction_weight(tx@),
{
    reveal(transaction_weight);
    measure(tx)
}

/// What a decoded field turns into: the transaction, or the text that says why
/// the field `field` could not be decoded.
pub open spec fn decoded(text: Seq<char>, field: Seq<char>) -> Result<PsbtView, Seq<char>> {
    match psbt_decoding(trimmed(text)) {
        Ok(psbt) => Ok(psbt),
        Err(e) => Err("cannot decode "@ + field + ": "@ + e),
    }
}

/// Decodes one partially signed transaction of a request; `field` is the name
/// the complaint gives it.
pub fn decode_psbt(base64: &str, field: &str) -> (out: Result<Psbt, BadRequest>)
    ensures
        match out {
            Ok(psbt) => decoded(base64@, field@) == Result::<PsbtView, Seq<char>>::Ok(psbt@),
            Err(e) => decoded(base64@, field@) == Result::<PsbtView, Seq<char>>::Err(e.0@),
        },
{
    let text = trim(base64);
    match decode_transaction(text.as_str()) {
        Ok(unsigned_tx) => match decode_inputs(text.as_str()) {
            Ok(inputs) => Ok(Psbt { unsigned_tx, inputs }),
            Err(e) => Err(bad_field(field, e)),
        },
        Err(e) => Err(bad_field(field, e)),
    }
}

fn bad_field(field: &str, e: String) -> (bad: BadRequest)
    ensures
        bad.0@ == "cannot decode "@ + field@ + ": "@ + e@,
{
    let mut text = owned("cannot decode ");
    text.append(field);
    text.append(": ");
    text.append(e.as_str());
    BadRequest(text)
}

/// The binary form of a field of a request that is known to decode.
pub(crate) fn psbt_bytes(base64: &str) -> (bytes: Vec<u8>)
    requires
        psbt_decoding(trimmed(base64@)) is Ok,
    ensures
        bytes@ == psbt_serialization(trimmed(base64@)),
{
    match serialize_psbt(trim(base64).as_str()) {
        Ok(bytes) => bytes,
        Err(_) => {
            assert(false);
            Vec::new()
        },
    }
}

/// `bitcoin::consensus::deserialize` of a transaction as it travels, with the script of
/// each of its inputs; the witnesses, which are no part of its id, are left. Claims that
/// success, what is read and the complaint depend on the bytes alone, which the name
/// [`transaction_reading`] stands for, and that there is one script to an input.
#[verifier::external_body]
fn read_transaction(raw: &[u8]) -> (out: Result<(Transaction, Vec<Vec<u8>>), String>)
    ensures
        match out {
            Ok((tx, scripts)) => transaction_reading(raw@) == Result::<
                (TransactionView, Seq<Seq<u8>>),
                Seq<char>,
            >::Ok((tx@, contents(scripts@))) && scripts.len() == tx.input.len(),
            Err(e) => transaction_reading(raw@) == Result::<
                (TransactionView, Seq<Seq<u8>>),
                Seq<char>,
            >::Err(e@),
        },
{
    let tx: bitcoin::Transaction = bitcoin::consensus::deserialize(raw).map_err(|e| e.to_string())?;
    let scripts = tx.input.iter().map(|i| i.script_sig.to_bytes()).collect();
    let input = tx.input.iter().map(
        |i| TxIn::new(
            OutPoint::new(i.previous_output.txid.to_byte_array(), i.previous_output.vout),
            i.sequence.0,
        ),
    ).collect();
    let output = tx.output.iter().map(
        |o| TxOut::new(o.script_pubkey.to_bytes(), o.value.to_sat()),
    ).collect();
    let lock_time = tx.lock_time.to_consensus_u32();
    Ok((Transaction { version: tx.version.0, lock_time, input, output }, scripts))
}

/// The id of the transaction that `raw` holds as it travels.
pub(crate) fn raw_txid(raw: &[u8]) -> (out: Result<[u8; 32], String>)
    ensures
        match out {
            Ok(txid) => raw_transaction_id(raw@) == Result::<[u8; 32], Seq<char>>::Ok(txid),
            Err(e) => raw_transaction_id(raw@) == Result::<[u8; 32], Seq<char>>::Err(e@),
        },
{
    match read_transaction(raw) {
        Ok((tx, scripts)) => Ok(id_with_scripts(&tx, &scripts)),
        Err(e) => Err(e),
    }
}

} // verus!
