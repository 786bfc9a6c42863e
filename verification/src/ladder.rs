//! The fee ladder of an escape: the escape and its fee bumps, each a replacement
//! for the one below that pays a higher fee and changes nothing else.

use vstd::prelude::*;

use crate::codec::{transaction_weight, weight};
use crate::proto::{refusal, refused, RefusalCode, SignResponse, SignResponseView};
use crate::text::{
    decimal, hex_word, owned, push_decimal, push_hex_word, push_signed_decimal, same_bytes,
    signed_decimal,
};
use crate::tx::{
    declared_total, output_total, same_outpoint, saturating, total_out, Psbt, PsbtInput,
    PsbtInputView, PsbtView, Transaction, TransactionView, TxIn,
};

verus! {

/// How many fee bumps one request may authorize.
pub const MAX_ESCAPE_BUMPS: usize = 3;

/// The sequence number of every input of an escape that has fee bumps: it signals
/// replaceability and disables relative time locks.
pub const ESCAPE_RBF_SEQUENCE: u32 = 0xffff_fffd;

/// The sequence number of every input of an escape without fee bumps: final.
pub const ESCAPE_FINAL_SEQUENCE: u32 = 0xffff_ffff;

/// The rate at which a replacement pays for its own relay, in satoshi per virtual
/// byte.
pub const ESCAPE_RBF_INCREMENTAL_RELAY_SAT_VB: u64 = 1;

/// The sequence number that the inputs of an escape must carry.
pub open spec fn escape_sequence(laddered: bool) -> u32 {
    if laddered {
        ESCAPE_RBF_SEQUENCE
    } else {
        ESCAPE_FINAL_SEQUENCE
    }
}

/// The virtual size, rounded up, that a transaction of weight `base` can reach once
/// each of its `inputs` inputs carries a witness of at most `max_satisfaction` weight
/// units: one unit per input for the witness count, two for the marker and flag.
pub open spec fn finalized_vsize(max_satisfaction: nat, base: nat, inputs: nat) -> nat {
    (base + 2 + (max_satisfaction + 1) * inputs + 3) / 4
}

/// The bound on the finalized size of `tx`, or what overflowed on the way to it.
pub open spec fn vsize_bound(max_satisfaction: u64, tx: TransactionView) -> Result<u64, Seq<char>> {
    let witness = (max_satisfaction + 1) * tx.input.len();
    let weight = transaction_weight(tx) + 2 + witness;
    if max_satisfaction + 1 > u64::MAX {
        Err("escape maximum witness weight overflow"@)
    } else if witness > u64::MAX {
        Err("escape maximum satisfaction weight overflow"@)
    } else if weight > u64::MAX {
        Err("escape maximum finalized weight overflow"@)
    } else if weight + 3 > u64::MAX {
        Err("escape maximum finalized vsize overflow"@)
    } else {
        Ok(
            finalized_vsize(
                max_satisfaction as nat,
                transaction_weight(tx) as nat,
                tx.input.len(),
            ) as u64,
        )
    }
}

/// The least fee increase of a replacement of that size.
pub open spec fn min_fee_delta(vsize: u64) -> u64 {
    saturating(vsize * ESCAPE_RBF_INCREMENTAL_RELAY_SAT_VB)
}

/// Whether every input declares its coin.
pub open spec fn declares_all(inputs: Seq<PsbtInputView>) -> bool {
    forall|i: int| 0 <= i < inputs.len() ==> (#[trigger] inputs[i]).witness_utxo is Some
}

/// The fee of `psbt` by the coins it declares; unknown where an input declares
/// none.
pub open spec fn fee_of(psbt: PsbtView) -> Option<u64> {
    if declares_all(psbt.inputs) {
        Some(saturating(declared_total(psbt.inputs) - output_total(psbt.unsigned_tx.output)))
    } else {
        None
    }
}

/// The escape and its bumps, lowest fee first.
pub open spec fn ladder_of(escape: PsbtView, bumps: Seq<PsbtView>) -> Seq<PsbtView> {
    seq![escape] + bumps
}

/// What is wrong with a sequence number from input `index` on.
pub open spec fn sequence_fault(inputs: Seq<TxIn>, index: int, rung: nat) -> Option<Seq<char>>
    decreases inputs.len() - index,
{
    if index >= inputs.len() {
        None
    } else if inputs[index].sequence != ESCAPE_RBF_SEQUENCE {
        Some(
            "escape ladder rung "@ + decimal(rung) + " input "@ + decimal(index as nat)
                + " nSequence "@ + hex_word(inputs[index].sequence) + " is not "@ + hex_word(
                ESCAPE_RBF_SEQUENCE,
            )
                + ": every rung of a ladder must signal BIP125 replacement, or a bump cannot replace the rung below it"@,
        )
    } else {
        sequence_fault(inputs, index + 1, rung)
    }
}

/// What is wrong with the rung `rung` taken by itself.
pub open spec fn rung_fault(ladder: Seq<PsbtView>, rung: int) -> Option<Seq<char>> {
    let tx = ladder[rung].unsigned_tx;
    let base_version = ladder[0].unsigned_tx.version;
    if tx.version != base_version {
        Some(
            "escape ladder rung "@ + decimal(rung as nat) + " has transaction version "@
                + signed_decimal(tx.version as int)
                + ", but every rung must keep the base escape's version "@ + signed_decimal(
                base_version as int,
            ) + ": a fee bump may change only output values"@,
        )
    } else if tx.lock_time != 0 {
        Some(
            "escape ladder rung "@ + decimal(rung as nat) + " has nLockTime "@ + decimal(
                tx.lock_time as nat,
            )
                + ", but a replaceable escape must be final at T (nLockTime 0): with RBF-signalling nSequence, nSequence no longer makes it final"@,
        )
    } else {
        sequence_fault(tx.input, 0, rung as nat)
    }
}

/// What is wrong with a rung from `rung` on, each taken by itself.
pub open spec fn rungs_fault(ladder: Seq<PsbtView>, rung: int) -> Option<Seq<char>>
    decreases ladder.len() - rung,
{
    if rung >= ladder.len() {
        None
    } else {
        match rung_fault(ladder, rung) {
            Some(fault) => Some(fault),
            None => rungs_fault(ladder, rung + 1),
        }
    }
}

/// Whether both spend the same coins in the same order.
pub open spec fn same_coins(a: TransactionView, b: TransactionView) -> bool {
    a.input.len() == b.input.len() && forall|i: int|
        0 <= i < a.input.len() ==> (#[trigger] a.input[i]).previous_output
            == b.input[i].previous_output
}

/// Whether both pay the same scripts in the same order.
pub open spec fn same_scripts(a: TransactionView, b: TransactionView) -> bool {
    a.output.len() == b.output.len() && forall|i: int|
        0 <= i < a.output.len() ==> (#[trigger] a.output[i]).script_pubkey
            == b.output[i].script_pubkey
}

/// Whether no output of `a` pays more than the same output of `b`.
pub open spec fn pays_no_more(a: TransactionView, b: TransactionView) -> bool {
    forall|i: int|
        0 <= i < a.output.len() && i < b.output.len() ==> (#[trigger] a.output[i]).value
            <= b.output[i].value
}

/// What is wrong with the step from the rung below up to `rung`.
pub open spec fn step_fault(
    max_satisfaction: u64,
    ladder: Seq<PsbtView>,
    rung: int,
) -> Option<Seq<char>> {
    let base = ladder[0].unsigned_tx;
    let below = ladder[rung - 1];
    let this = ladder[rung];
    let number = decimal(rung as nat);
    if !same_coins(this.unsigned_tx, base) {
        Some(
            "escape ladder rung "@ + number
                + " spends a different input set than the escape, so it could never replace it"@,
        )
    } else if !same_scripts(this.unsigned_tx, base) {
        Some(
            "escape ladder rung "@ + number
                + " pays a different set of output scripts than the escape: a fee bump may change the fee, never what is swept"@,
        )
    } else if !pays_no_more(this.unsigned_tx, below.unsigned_tx) {
        Some(
            "escape ladder rung "@ + number
                + " raises an output value above the rung below it: a bump may only lower an output to pay a higher fee, never move value between outputs — otherwise an intermediate rung's escape coverage could dip below the lower rungs' and the prefix release would hand a t-1 set a share for an under-coverage escape"@,
        )
    } else {
        match fee_of(this) {
            None => Some(
                "escape ladder rung "@ + number + " has an input without a witness_utxo"@,
            ),
            Some(fee) => match vsize_bound(max_satisfaction, this.unsigned_tx) {
                Err(e) => Some(
                    "cannot bound escape ladder rung "@ + number + "'s finalized size: "@ + e,
                ),
                Ok(vsize) => {
                    let previous = fee_of(below)->0;
                    if fee < previous {
                        Some(
                            "escape ladder rung "@ + number + " pays "@ + decimal(fee as nat)
                                + " sat, not more than the "@ + decimal(previous as nat)
                                + " sat of the rung below it: a replacement must pay a strictly higher fee (BIP125 rule 3) and the ladder must ascend"@,
                        )
                    } else if fee - previous < min_fee_delta(vsize) {
                        Some(
                            "escape ladder rung "@ + number + " raises the fee by only "@ + decimal(
                                (fee - previous) as nat,
                            ) + " sat, below the "@ + decimal(min_fee_delta(vsize) as nat)
                                + " sat needed to relay its at-most-"@ + decimal(vsize as nat)
                                + "-vB replacement at "@ + decimal(
                                ESCAPE_RBF_INCREMENTAL_RELAY_SAT_VB as nat,
                            ) + " sat/vB"@,
                        )
                    } else {
                        None
                    }
                },
            },
        }
    }
}

/// What is wrong with a step from `rung` on.
pub open spec fn steps_fault(
    max_satisfaction: u64,
    ladder: Seq<PsbtView>,
    rung: int,
) -> Option<Seq<char>>
    decreases ladder.len() - rung,
{
    if rung >= ladder.len() {
        None
    } else {
        match step_fault(max_satisfaction, ladder, rung) {
            Some(fault) => Some(fault),
            None => steps_fault(max_satisfaction, ladder, rung + 1),
        }
    }
}

/// What is wrong with a ladder, if anything. An escape without bumps has none to be
/// wrong.
pub open spec fn ladder_fault(
    max_satisfaction: u64,
    escape: PsbtView,
    bumps: Seq<PsbtView>,
    self_paired: bool,
) -> Option<Seq<char>> {
    let ladder = ladder_of(escape, bumps);
    if bumps.len() == 0 {
        None
    } else if self_paired {
        Some(
            "a self-paired request has no delayed sweep to fee-bump; its spend and escape are the same transaction, which `escape_class_residual` refuses outright"@,
        )
    } else {
        match rungs_fault(ladder, 0) {
            Some(fault) => Some(fault),
            None => if fee_of(escape) is None {
                Some("the escape has an input without a witness_utxo, so its fee is unknown"@)
            } else {
                steps_fault(max_satisfaction, ladder, 1)
            },
        }
    }
}

/// The refusal of a faulty ladder.
pub open spec fn ladder_refusal(fault: Seq<char>) -> SignResponseView {
    refused(RefusalCode::PsbtInconsistent, "escape:bump_ladder"@, fault)
}

/// The sequence number that the inputs of an escape must carry.
pub fn expected_escape_sequence(laddered: bool) -> (sequence: u32)
    ensures
        sequence == escape_sequence(laddered),
{
    if laddered {
        ESCAPE_RBF_SEQUENCE
    } else {
        ESCAPE_FINAL_SEQUENCE
    }
}

/// The virtual size that `tx` can reach once every missing signature is added, given
/// the weight that satisfies one vault input at most.
pub fn maximum_finalized_vsize_for(max_vault_satisfaction_weight: u64, tx: &Transaction) -> (out:
    Result<u64, String>)
    ensures
        match out {
            Ok(vsize) => vsize_bound(max_vault_satisfaction_weight, tx@) == Result::<
                u64,
                Seq<char>,
            >::Ok(vsize),
            Err(e) => vsize_bound(max_vault_satisfaction_weight, tx@) == Result::<
                u64,
                Seq<char>,
            >::Err(e@),
        },
{
    let inputs: u64 = tx.input.len() as u64;
    assert(tx@.input.len() == inputs);
    let per_input = match max_vault_satisfaction_weight.checked_add(1) {
        Some(w) => w,
        None => return Err(owned("escape maximum witness weight overflow")),
    };
    let witness = match per_input.checked_mul(inputs) {
        Some(w) => w,
        None => return Err(owned("escape maximum satisfaction weight overflow")),
    };
    let base = weight(tx);
    let total = match base.checked_add(2) {
        Some(w) => match w.checked_add(witness) {
            Some(w) => w,
            None => return Err(owned("escape maximum finalized weight overflow")),
        },
        None => {
            assert(witness >= 0);
            return Err(owned("escape maximum finalized weight overflow"));
        },
    };
    match total.checked_add(3) {
        Some(w) => Ok(w / 4),
        None => Err(owned("escape maximum finalized vsize overflow")),
    }
}

/// The least fee increase, in satoshi, that a replacement of `tx` must pay over what
/// it replaces.
pub fn escape_replacement_min_fee_delta(max_vault_satisfaction_weight: u64, tx: &Transaction) -> (out:
    Result<u64, String>)
    ensures
        match out {
            Ok(delta) => vsize_bound(max_vault_satisfaction_weight, tx@) is Ok && delta
                == min_fee_delta(vsize_bound(max_vault_satisfaction_weight, tx@)->Ok_0),
            Err(e) => vsize_bound(max_vault_satisfaction_weight, tx@) == Result::<
                u64,
                Seq<char>,
            >::Err(e@),
        },
{
    match maximum_finalized_vsize_for(max_vault_satisfaction_weight, tx) {
        Ok(vsize) => Ok(fee_delta(vsize)),
        Err(e) => Err(e),
    }
}

fn fee_delta(vsize: u64) -> (delta: u64)
    ensures
        delta == min_fee_delta(vsize),
{
    match vsize.checked_mul(ESCAPE_RBF_INCREMENTAL_RELAY_SAT_VB) {
        Some(delta) => delta,
        None => u64::MAX,
    }
}

/// The fee of `psbt` by the coins that its inputs declare.
pub fn psbt_fee(psbt: &Psbt) -> (fee: Option<u64>)
    ensures
        fee == fee_of(psbt@),
{
    let ghost views = psbt@.inputs;
    let mut total_in: u64 = 0;
    let mut i: usize = 0;
    while i < psbt.inputs.len()
        invariant
            i <= psbt.inputs.len(),
            views == psbt@.inputs,
            views == psbt.inputs@.map_values(|i: PsbtInput| i@),
            forall|k: int| 0 <= k < i ==> (#[trigger] views[k]).witness_utxo is Some,
            total_in == declared_total(views.take(i as int)),
        decreases psbt.inputs.len() - i,
    {
        assert(views[i as int] == psbt.inputs@[i as int]@);
        assert(views.take(i + 1).drop_last() =~= views.take(i as int));
        match &psbt.inputs[i].witness_utxo {
            Some(utxo) => {
                total_in = total_in.saturating_add(utxo.value);
            },
            None => {
                assert(views[i as int].witness_utxo is None);
                return None;
            },
        }
        i += 1;
    }
    assert(views.take(i as int) =~= views);
    Some(total_in.saturating_sub(total_out(&psbt.unsigned_tx.output)))
}

fn coins_match(a: &Transaction, b: &Transaction) -> (same: bool)
    ensures
        same == same_coins(a@, b@),
{
    if a.input.len() != b.input.len() {
        return false;
    }
    let mut i: usize = 0;
    while i < a.input.len()
        invariant
            i <= a.input.len(),
            a.input.len() == b.input.len(),
            forall|k: int|
                0 <= k < i ==> (#[trigger] a@.input[k]).previous_output
                    == b@.input[k].previous_output,
        decreases a.input.len() - i,
    {
        if !same_outpoint(&a.input[i].previous_output, &b.input[i].previous_output) {
            assert(a@.input[i as int].previous_output != b@.input[i as int].previous_output);
            return false;
        }
        i += 1;
    }
    true
}

fn scripts_match(a: &Transaction, b: &Transaction) -> (same: bool)
    ensures
        same == same_scripts(a@, b@),
{
    if a.output.len() != b.output.len() {
        return false;
    }
    let mut i: usize = 0;
    while i < a.output.len()
        invariant
            i <= a.output.len(),
            a.output.len() == b.output.len(),
            forall|k: int|
                0 <= k < i ==> (#[trigger] a@.output[k]).script_pubkey
                    == b@.output[k].script_pubkey,
        decreases a.output.len() - i,
    {
        assert(a@.output[i as int] == a.output@[i as int]@);
        assert(b@.output[i as int] == b.output@[i as int]@);
        if !same_bytes(&a.output[i].script_pubkey, &b.output[i].script_pubkey) {
            return false;
        }
        i += 1;
    }
    true
}

fn values_fall(a: &Transaction, b: &Transaction) -> (fall: bool)
    ensures
        fall == pays_no_more(a@, b@),
{
    let mut i: usize = 0;
    while i < a.output.len() && i < b.output.len()
        invariant
            i <= a.output.len(),
            i <= b.output.len(),
            forall|k: int|
                0 <= k < i ==> (#[trigger] a@.output[k]).value <= b@.output[k].value,
        decreases a.output.len() - i,
    {
        assert(a@.output[i as int] == a.output@[i as int]@);
        assert(b@.output[i as int] == b.output@[i as int]@);
        if a.output[i].value > b.output[i].value {
            return false;
        }
        i += 1;
    }
    true
}

fn rung_text(rung: usize) -> (text: String)
    ensures
        text@ == "escape ladder rung "@ + decimal(rung as nat),
{
    let mut text = owned("escape ladder rung ");
    push_decimal(&mut text, rung as u64);
    text
}

fn check_sequences(tx: &Transaction, rung: usize) -> (out: Result<(), String>)
    ensures
        match out {
            Ok(()) => sequence_fault(tx@.input, 0, rung as nat) is None,
            Err(e) => sequence_fault(tx@.input, 0, rung as nat) == Some(e@),
        },
{
    let mut index: usize = 0;
    while index < tx.input.len()
        invariant
            index <= tx.input.len(),
            sequence_fault(tx@.input, 0, rung as nat) == sequence_fault(
                tx@.input,
                index as int,
                rung as nat,
            ),
        decreases tx.input.len() - index,
    {
        if tx.input[index].sequence != ESCAPE_RBF_SEQUENCE {
            let mut fault = rung_text(rung);
            fault.append(" input ");
            push_decimal(&mut fault, index as u64);
            fault.append(" nSequence ");
            push_hex_word(&mut fault, tx.input[index].sequence);
            fault.append(" is not ");
            push_hex_word(&mut fault, ESCAPE_RBF_SEQUENCE);
            fault.append(
                ": every rung of a ladder must signal BIP125 replacement, or a bump cannot replace the rung below it",
            );
            return Err(fault);
        }
        index += 1;
    }
    Ok(())
}

fn check_rung(base: &Transaction, tx: &Transaction, rung: usize, Ghost(ladder): Ghost<
    Seq<PsbtView>,
>) -> (out: Result<(), String>)
    requires
        rung < ladder.len(),
        ladder[0].unsigned_tx == base@,
        ladder[rung as int].unsigned_tx == tx@,
    ensures
        match out {
            Ok(()) => rung_fault(ladder, rung as int) is None,
            Err(e) => rung_fault(ladder, rung as int) == Some(e@),
        },
{
    if tx.version != base.version {
        let mut fault = rung_text(rung);
        fault.append(" has transaction version ");
        push_signed_decimal(&mut fault, tx.version);
        fault.append(", but every rung must keep the base escape's version ");
        push_signed_decimal(&mut fault, base.version);
        fault.append(": a fee bump may change only output values");
        return Err(fault);
    }
    if tx.lock_time != 0 {
        let mut fault = rung_text(rung);
        fault.append(" has nLockTime ");
        push_decimal(&mut fault, tx.lock_time as u64);
        fault.append(
            ", but a replaceable escape must be final at T (nLockTime 0): with RBF-signalling nSequence, nSequence no longer makes it final",
        );
        return Err(fault);
    }
    check_sequences(tx, rung)
}

fn check_step(
    max_satisfaction: u64,
    base: &Psbt,
    below: &Psbt,
    this: &Psbt,
    previous: u64,
    rung: usize,
    Ghost(ladder): Ghost<Seq<PsbtView>>,
) -> (out: Result<u64, String>)
    requires
        0 < rung < ladder.len(),
        ladder[0] == base@,
        ladder[rung - 1] == below@,
        ladder[rung as int] == this@,
        fee_of(below@) == Some(previous),
    ensures
        match out {
            Ok(fee) => step_fault(max_satisfaction, ladder, rung as int) is None && fee_of(this@)
                == Some(fee),
            Err(e) => step_fault(max_satisfaction, ladder, rung as int) == Some(e@),
        },
{
    if !coins_match(&this.unsigned_tx, &base.unsigned_tx) {
        let mut fault = rung_text(rung);
        fault.append(
            " spends a different input set than the escape, so it could never replace it",
        );
        return Err(fault);
    }
    if !scripts_match(&this.unsigned_tx, &base.unsigned_tx) {
        let mut fault = rung_text(rung);
        fault.append(
            " pays a different set of output scripts than the escape: a fee bump may change the fee, never what is swept",
        );
        return Err(fault);
    }
    if !values_fall(&this.unsigned_tx, &below.unsigned_tx) {
        let mut fault = rung_text(rung);
        fault.append(
            " raises an output value above the rung below it: a bump may only lower an output to pay a higher fee, never move value between outputs — otherwise an intermediate rung's escape coverage could dip below the lower rungs' and the prefix release would hand a t-1 set a share for an under-coverage escape",
        );
        return Err(fault);
    }
    let fee = match psbt_fee(this) {
        Some(fee) => fee,
        None => {
            let mut fault = rung_text(rung);
            fault.append(" has an input without a witness_utxo");
            return Err(fault);
        },
    };
    let vsize = match maximum_finalized_vsize_for(max_satisfaction, &this.unsigned_tx) {
        Ok(vsize) => vsize,
        Err(e) => {
            let mut fault = owned("cannot bound escape ladder rung ");
            push_decimal(&mut fault, rung as u64);
            fault.append("'s finalized size: ");
            fault.append(e.as_str());
            return Err(fault);
        },
    };
    let minimum: u64 = fee_delta(vsize);
    if fee < previous {
        let mut fault = rung_text(rung);
        fault.append(" pays ");
        push_decimal(&mut fault, fee);
        fault.append(" sat, not more than the ");
        push_decimal(&mut fault, previous);
        fault.append(
            " sat of the rung below it: a replacement must pay a strictly higher fee (BIP125 rule 3) and the ladder must ascend",
        );
        return Err(fault);
    }
    let delta: u64 = fee - previous;
    if delta < minimum {
        let mut fault = rung_text(rung);
        fault.append(" raises the fee by only ");
        push_decimal(&mut fault, delta);
        fault.append(" sat, below the ");
        push_decimal(&mut fault, minimum);
        fault.append(" sat needed to relay its at-most-");
        push_decimal(&mut fault, vsize);
        fault.append("-vB replacement at ");
        push_decimal(&mut fault, ESCAPE_RBF_INCREMENTAL_RELAY_SAT_VB);
        fault.append(" sat/vB");
        return Err(fault);
    }
    Ok(fee)
}

fn check_ladder(max_satisfaction: u64, escape: &Psbt, bumps: &Vec<Psbt>, self_paired: bool) -> (out:
    Result<(), String>)
    ensures
        match out {
            Ok(()) => ladder_fault(
                max_satisfaction,
                escape@,
                bumps@.map_values(|p: Psbt| p@),
                self_paired,
            ) is None,
            Err(e) => ladder_fault(
                max_satisfaction,
                escape@,
                bumps@.map_values(|p: Psbt| p@),
                self_paired,
            ) == Some(e@),
        },
{
    let ghost views = bumps@.map_values(|p: Psbt| p@);
    let ghost ladder = ladder_of(escape@, views);
    if bumps.len() == 0 {
        return Ok(());
    }
    if self_paired {
        return Err(
            owned(
                "a self-paired request has no delayed sweep to fee-bump; its spend and escape are the same transaction, which `escape_class_residual` refuses outright",
            ),
        );
    }
    assert(ladder[0] == escape@);
    if let Err(e) = check_rung(&escape.unsigned_tx, &escape.unsigned_tx, 0, Ghost(ladder)) {
        return Err(e);
    }
    let mut i: usize = 0;
    while i < bumps.len()
        invariant
            i <= bumps.len(),
            views == bumps@.map_values(|p: Psbt| p@),
            ladder == ladder_of(escape@, views),
            bumps.len() > 0,
            !self_paired,
            rungs_fault(ladder, 0) == rungs_fault(ladder, i + 1),
        decreases bumps.len() - i,
    {
        assert(ladder[i + 1] == bumps@[i as int]@);
        if let Err(e) = check_rung(
            &escape.unsigned_tx,
            &bumps[i].unsigned_tx,
            i + 1,
            Ghost(ladder),
        ) {
            return Err(e);
        }
        i += 1;
    }
    let mut previous = match psbt_fee(escape) {
        Some(fee) => fee,
        None => return Err(
            owned("the escape has an input without a witness_utxo, so its fee is unknown"),
        ),
    };
    let mut i: usize = 0;
    while i < bumps.len()
        invariant
            i <= bumps.len(),
            views == bumps@.map_values(|p: Psbt| p@),
            ladder == ladder_of(escape@, views),
            bumps.len() > 0,
            !self_paired,
            rungs_fault(ladder, 0) is None,
            fee_of(escape@) is Some,
            fee_of(ladder[i as int]) == Some(previous),
            steps_fault(max_satisfaction, ladder, 1) == steps_fault(
                max_satisfaction,
                ladder,
                i + 1,
            ),
        decreases bumps.len() - i,
    {
        assert(ladder[i + 1] == bumps@[i as int]@);
        let below = if i == 0 {
            escape
        } else {
            &bumps[i - 1]
        };
        assert(ladder[i as int] == below@);
        match check_step(
            max_satisfaction,
            escape,
            below,
            &bumps[i],
            previous,
            i + 1,
            Ghost(ladder),
        ) {
            Ok(fee) => {
                previous = fee;
            },
            Err(e) => return Err(e),
        }
        i += 1;
    }
    Ok(())
}

/// Checks that the bumps of an escape are a ladder: every rung spends the same coins
/// and pays the same scripts as the escape, is replaceable and final, lowers outputs
/// only, and pays enough more than the rung below to replace it.
pub fn ensure_escape_ladder(
    max_vault_satisfaction_weight: u64,
    escape: &Psbt,
    bumps: &Vec<Psbt>,
    self_paired: bool,
) -> (out: Result<(), SignResponse>)
    ensures
        match out {
            Ok(()) => ladder_fault(
                max_vault_satisfaction_weight,
                escape@,
                bumps@.map_values(|p: Psbt| p@),
                self_paired,
            ) is None,
            Err(r) => ladder_fault(
                max_vault_satisfaction_weight,
                escape@,
                bumps@.map_values(|p: Psbt| p@),
                self_paired,
            ) matches Some(fault) && r@ == ladder_refusal(fault),
        },
{
    match check_ladder(max_vault_satisfaction_weight, escape, bumps, self_paired) {
        Ok(()) => Ok(()),
        Err(e) => Err(refusal(RefusalCode::PsbtInconsistent, "escape:bump_ladder", e)),
    }
}

} // verus!
