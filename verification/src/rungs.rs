//! What an accepted fee ladder promises, and the choice of a rung.

use vstd::prelude::*;

use crate::codec::{outputs_size, unsigned_weight};
use crate::ladder::{
    escape_sequence, fee_of, ladder_fault, ladder_of, min_fee_delta, pays_no_more, rung_fault,
    rungs_fault, same_coins, same_scripts, sequence_fault, step_fault, steps_fault, vsize_bound,
    ESCAPE_RBF_SEQUENCE,
};
use crate::node::NodeParams;
use crate::sweep::{
    anchor_of, bump_target, fee_over, first_where, last_where, marked_total, rung_objection, stepped,
    unexpected_sequence, ScoredLadderView, SweepEnv, FEE_ANCHOR_QUANTUM, FEE_TARGET_STEP_SAT_VB,
};
use crate::tx::{PsbtView, TransactionView, TxIn, TxOutView};

verus! {

proof fn lemma_no_rung_fault(ladder: Seq<PsbtView>, from: int, rung: int)
    requires
        rungs_fault(ladder, from) is None,
        from <= rung < ladder.len(),
    ensures
        rung_fault(ladder, rung) is None,
    decreases rung - from,
{
    if from < rung {
        lemma_no_rung_fault(ladder, from + 1, rung);
    }
}

pub(crate) proof fn lemma_no_step_fault(max_satisfaction: u64, ladder: Seq<PsbtView>, from: int, rung: int)
    requires
        steps_fault(max_satisfaction, ladder, from) is None,
        from <= rung < ladder.len(),
    ensures
        step_fault(max_satisfaction, ladder, rung) is None,
    decreases rung - from,
{
    if from < rung {
        lemma_no_step_fault(max_satisfaction, ladder, from + 1, rung);
    }
}

proof fn lemma_no_sequence_fault(inputs: Seq<TxIn>, from: int, rung: nat, index: int)
    requires
        sequence_fault(inputs, from, rung) is None,
        from <= index < inputs.len(),
    ensures
        inputs[index].sequence == ESCAPE_RBF_SEQUENCE,
    decreases index - from,
{
    if from < index {
        lemma_no_sequence_fault(inputs, from + 1, rung, index);
    }
}

/// Every rung of an accepted ladder spends the coins of the escape and pays its
/// scripts, in the same order and with the same version; every rung is final at once
/// and signals that it may be replaced.
pub proof fn a_ladder_keeps_what_it_sweeps(
    max_satisfaction: u64,
    escape: PsbtView,
    bumps: Seq<PsbtView>,
    self_paired: bool,
    rung: int,
)
    requires
        bumps.len() > 0,
        ladder_fault(max_satisfaction, escape, bumps, self_paired) is None,
        0 <= rung <= bumps.len(),
    ensures
        ({
            let tx = ladder_of(escape, bumps)[rung].unsigned_tx;
            &&& !self_paired
            &&& same_coins(tx, escape.unsigned_tx)
            &&& same_scripts(tx, escape.unsigned_tx)
            &&& tx.version == escape.unsigned_tx.version
            &&& tx.lock_time == 0
            &&& forall|i: int|
                0 <= i < tx.input.len() ==> (#[trigger] tx.input[i]).sequence
                    == ESCAPE_RBF_SEQUENCE
        }),
{
    let ladder = ladder_of(escape, bumps);
    let tx = ladder[rung].unsigned_tx;
    assert(ladder[0] == escape);
    lemma_no_rung_fault(ladder, 0, rung);
    assert forall|i: int| 0 <= i < tx.input.len() implies (#[trigger] tx.input[i]).sequence
        == ESCAPE_RBF_SEQUENCE by {
        lemma_no_sequence_fault(tx.input, 0, rung as nat, i);
    }
    if rung > 0 {
        lemma_no_step_fault(max_satisfaction, ladder, 1, rung);
    }
}

/// A rung pays more than every rung below it, by at least what relaying it as a
/// replacement costs.
pub proof fn a_ladder_ascends(
    max_satisfaction: u64,
    escape: PsbtView,
    bumps: Seq<PsbtView>,
    self_paired: bool,
    low: int,
    high: int,
)
    requires
        ladder_fault(max_satisfaction, escape, bumps, self_paired) is None,
        0 <= low < high <= bumps.len(),
    ensures
        ({
            let ladder = ladder_of(escape, bumps);
            let size = vsize_bound(max_satisfaction, ladder[high].unsigned_tx);
            &&& fee_of(ladder[low]) is Some
            &&& fee_of(ladder[high]) is Some
            &&& size is Ok
            &&& fee_of(ladder[high])->0 - fee_of(ladder[low])->0 >= min_fee_delta(size->Ok_0)
        }),
    decreases high - low,
{
    let ladder = ladder_of(escape, bumps);
    assert(ladder[0] == escape);
    lemma_no_step_fault(max_satisfaction, ladder, 1, high);
    if low > 0 {
        lemma_no_step_fault(max_satisfaction, ladder, 1, low);
    }
    if low + 1 < high {
        a_ladder_ascends(max_satisfaction, escape, bumps, self_paired, low, high - 1);
    }
}

/// No output of a rung pays more than the same output of a rung below it: a higher
/// fee is all that a bump can take.
pub proof fn a_ladder_only_lowers_outputs(
    max_satisfaction: u64,
    escape: PsbtView,
    bumps: Seq<PsbtView>,
    self_paired: bool,
    low: int,
    high: int,
)
    requires
        ladder_fault(max_satisfaction, escape, bumps, self_paired) is None,
        0 <= low <= high <= bumps.len(),
    ensures
        ({
            let ladder = ladder_of(escape, bumps);
            &&& ladder[low].unsigned_tx.output.len() == ladder[high].unsigned_tx.output.len()
            &&& pays_no_more(ladder[high].unsigned_tx, ladder[low].unsigned_tx)
        }),
    decreases high - low,
{
    let ladder = ladder_of(escape, bumps);
    assert(ladder[0] == escape);
    if low < high {
        a_ladder_only_lowers_outputs(
            max_satisfaction,
            escape,
            bumps,
            self_paired,
            low,
            high - 1,
        );
        lemma_no_step_fault(max_satisfaction, ladder, 1, high);
        a_ladder_keeps_what_it_sweeps(max_satisfaction, escape, bumps, self_paired, low);
        a_ladder_keeps_what_it_sweeps(max_satisfaction, escape, bumps, self_paired, high - 1);
        let top = ladder[high].unsigned_tx;
        let mid = ladder[high - 1].unsigned_tx;
        let bottom = ladder[low].unsigned_tx;
        assert forall|i: int| 0 <= i < top.output.len() && i < bottom.output.len() implies (
        #[trigger] top.output[i]).value <= bottom.output[i].value by {
            assert(top.output[i].value <= mid.output[i].value);
            assert(mid.output[i].value <= bottom.output[i].value);
        }
    }
}

proof fn lemma_outputs_size(a: Seq<TxOutView>, b: Seq<TxOutView>)
    requires
        a.len() == b.len(),
        forall|i: int| 0 <= i < a.len() ==> (#[trigger] a[i]).script_pubkey == b[i].script_pubkey,
    ensures
        outputs_size(a) == outputs_size(b),
    decreases a.len(),
{
    if a.len() > 0 {
        assert(a.last().script_pubkey == b.last().script_pubkey);
        assert forall|i: int| 0 <= i < a.drop_last().len() implies (
        #[trigger] a.drop_last()[i]).script_pubkey == b.drop_last()[i].script_pubkey by {
            assert(a[i].script_pubkey == b[i].script_pubkey);
        }
        lemma_outputs_size(a.drop_last(), b.drop_last());
    }
}

/// Every rung weighs the same before it is signed: a bump is never larger than what
/// it replaces.
pub proof fn rungs_weigh_the_same(
    max_satisfaction: u64,
    escape: PsbtView,
    bumps: Seq<PsbtView>,
    self_paired: bool,
    rung: int,
)
    requires
        bumps.len() > 0,
        ladder_fault(max_satisfaction, escape, bumps, self_paired) is None,
        0 <= rung <= bumps.len(),
    ensures
        unsigned_weight(ladder_of(escape, bumps)[rung].unsigned_tx) == unsigned_weight(
            escape.unsigned_tx,
        ),
{
    a_ladder_keeps_what_it_sweeps(max_satisfaction, escape, bumps, self_paired, rung);
    lemma_outputs_size(
        ladder_of(escape, bumps)[rung].unsigned_tx.output,
        escape.unsigned_tx.output,
    );
}

proof fn lemma_marked_total_falls(
    high: Seq<TxOutView>,
    low: Seq<TxOutView>,
    chosen: Seq<bool>,
    start: u64,
    n: int,
)
    requires
        n <= high.len(),
        n <= low.len(),
        forall|i: int| 0 <= i < n ==> (#[trigger] high[i]).value <= low[i].value,
    ensures
        marked_total(high, chosen, start, n) <= marked_total(low, chosen, start, n),
    decreases n,
{
    if n > 0 {
        assert(high[n - 1].value <= low[n - 1].value);
        lemma_marked_total_falls(high, low, chosen, start, n - 1);
    }
}

pub(crate) proof fn lemma_sequences_expected(inputs: Seq<TxIn>, expected: u32, from: int)
    requires
        0 <= from,
        forall|i: int| 0 <= i < inputs.len() ==> (#[trigger] inputs[i]).sequence == expected,
    ensures
        unexpected_sequence(inputs, expected, from) is None,
    decreases inputs.len() - from,
{
    if from < inputs.len() {
        assert(inputs[from].sequence == expected);
        lemma_sequences_expected(inputs, expected, from + 1);
    }
}

pub(crate) proof fn lemma_expected_sequences(inputs: Seq<TxIn>, expected: u32, from: int)
    requires
        0 <= from,
        unexpected_sequence(inputs, expected, from) is None,
    ensures
        forall|i: int| from <= i < inputs.len() ==> (#[trigger] inputs[i]).sequence == expected,
    decreases inputs.len() - from,
{
    if from < inputs.len() {
        lemma_expected_sequences(inputs, expected, from + 1);
    }
}

/// A rung that may fire can be mined at once: either every sequence number is final or
/// its lock time is zero, and no sequence number sets a relative lock.
pub proof fn what_fires_is_final(
    params: NodeParams,
    env: SweepEnv,
    tx: TransactionView,
    vsize: u64,
    pays_escape: Option<Seq<bool>>,
)
    requires
        rung_objection(params, env, tx, vsize, pays_escape) is None,
    ensures
        tx.lock_time == 0 || forall|i: int|
            0 <= i < tx.input.len() ==> (#[trigger] tx.input[i]).sequence == 0xffff_ffff,
        forall|i: int|
            0 <= i < tx.input.len() ==> (#[trigger] tx.input[i]).sequence >= 0x8000_0000,
{
    lemma_expected_sequences(tx.input, escape_sequence(env.laddered), 0);
}

/// What a rung delivers to the escape wallet never grows from rung to rung. So a rung
/// below one that may fire may fire too, as soon as it pays the floor.
pub proof fn coverage_falls_along_a_ladder(
    max_satisfaction: u64,
    escape: PsbtView,
    bumps: Seq<PsbtView>,
    self_paired: bool,
    low: int,
    high: int,
    params: NodeParams,
    env: SweepEnv,
    vsize_low: u64,
    vsize_high: u64,
    pays_escape: Option<Seq<bool>>,
)
    requires
        bumps.len() > 0,
        ladder_fault(max_satisfaction, escape, bumps, self_paired) is None,
        0 <= low <= high <= bumps.len(),
        env.laddered,
        rung_objection(
            params,
            env,
            ladder_of(escape, bumps)[high].unsigned_tx,
            vsize_high,
            pays_escape,
        ) is None,
        vsize_low > 0,
        fee_over(env.total_in, ladder_of(escape, bumps)[low].unsigned_tx)
            >= params.escape_feerate_floor * vsize_low,
    ensures
        rung_objection(
            params,
            env,
            ladder_of(escape, bumps)[low].unsigned_tx,
            vsize_low,
            pays_escape,
        ) is None,
{
    let ladder = ladder_of(escape, bumps);
    let top = ladder[high].unsigned_tx;
    let bottom = ladder[low].unsigned_tx;
    a_ladder_only_lowers_outputs(max_satisfaction, escape, bumps, self_paired, low, high);
    a_ladder_keeps_what_it_sweeps(max_satisfaction, escape, bumps, self_paired, low);
    lemma_sequences_expected(bottom.input, ESCAPE_RBF_SEQUENCE, 0);
    if let Some(chosen) = pays_escape {
        lemma_marked_total_falls(
            top.output,
            bottom.output,
            chosen,
            env.paired_delivered,
            top.output.len() as int,
        );
    }
}

pub(crate) proof fn lemma_first_where(p: spec_fn(int) -> bool, from: int, to: int)
    ensures
        match first_where(p, from, to) {
            Some(r) => from <= r < to && p(r) && forall|i: int| from <= i < r ==> !#[trigger] p(i),
            None => forall|i: int| from <= i < to ==> !#[trigger] p(i),
        },
    decreases to - from,
{
    if from < to {
        lemma_first_where(p, from + 1, to);
    }
}

pub(crate) proof fn lemma_last_where(p: spec_fn(int) -> bool, to: int)
    ensures
        match last_where(p, to) {
            Some(r) => 0 <= r < to && p(r) && forall|i: int| r < i < to ==> !#[trigger] p(i),
            None => forall|i: int| 0 <= i < to ==> !#[trigger] p(i),
        },
    decreases to,
{
    if to > 0 {
        lemma_last_where(p, to - 1);
    }
}

/// The rung selected on a ladder of several never lies below the latch, and may
/// fire.
pub proof fn selection_respects_the_latch(
    ladder: ScoredLadderView,
    floor: u64,
    reading: Result<Option<u64>, Seq<char>>,
    latch: int,
)
    requires
        ladder.rungs.len() > 1,
        ladder.admissible.len() == ladder.rungs.len(),
        0 <= latch < ladder.rungs.len(),
    ensures
        ladder.selection(floor, reading, latch) matches Ok((selected, target, required)) ==> {
            &&& latch <= selected < ladder.rungs.len()
            &&& ladder.ok(selected)
            &&& required >= floor
            &&& required >= target
        },
{
    let target = match reading {
        Ok(Some(t)) => t,
        _ => 0u64,
    };
    let required = if target > floor {
        target
    } else {
        floor
    };
    let n = ladder.rungs.len() as int;
    lemma_first_where(|r: int| ladder.reaches(r, required), 0, n);
    lemma_first_where(|r: int| ladder.ok(r), ladder.needed(required), n);
    lemma_last_where(|r: int| ladder.ok(r), n);
}

/// Where nothing is latched, a rung is selected as soon as one may fire, and it is no
/// dearer than any rung that may fire and pays what is required.
pub proof fn selection_is_the_cheapest_that_pays(
    ladder: ScoredLadderView,
    floor: u64,
    reading: Result<Option<u64>, Seq<char>>,
    rung: int,
)
    requires
        ladder.rungs.len() > 1,
        ladder.admissible.len() == ladder.rungs.len(),
        0 <= rung < ladder.rungs.len(),
        ladder.ok(rung),
    ensures
        ({
            let out = ladder.selection(floor, reading, 0);
            &&& out is Ok
            &&& ladder.reaches(rung, out->Ok_0.2) ==> out->Ok_0.0 <= rung
        }),
{
    let target = match reading {
        Ok(Some(t)) => t,
        _ => 0u64,
    };
    let required = if target > floor {
        target
    } else {
        floor
    };
    let n = ladder.rungs.len() as int;
    let pays = |r: int| ladder.reaches(r, required);
    let ok = |r: int| ladder.ok(r);
    lemma_first_where(pays, 0, n);
    lemma_first_where(ok, ladder.needed(required), n);
    lemma_last_where(ok, n);
    assert(ok(rung));
    if ladder.reaches(rung, required) {
        assert(pays(rung));
    }
}

/// Nodes whose tips lie in one quantum of blocks anchor the bump target at one
/// height, at or below the tip.
pub proof fn one_quantum_has_one_anchor(a: u32, b: u32)
    ensures
        anchor_of(a) <= a < anchor_of(a) + FEE_ANCHOR_QUANTUM,
        anchor_of(a) % 6 == 0,
        a < anchor_of(a) + 6,
        a / FEE_ANCHOR_QUANTUM == b / FEE_ANCHOR_QUANTUM <==> anchor_of(a) == anchor_of(b),
{
}

/// The target is the feerate rounded down by less than one step.
pub proof fn the_target_is_stepped_down(median: u64)
    ensures
        stepped(median) <= median < stepped(median) + FEE_TARGET_STEP_SAT_VB,
        stepped(median) % FEE_TARGET_STEP_SAT_VB == 0,
        stepped(median) % 5 == 0,
        median < stepped(median) + 5,
{
}

/// There is a bump target exactly where the tip and the anchor block could be read and the
/// block has a median feerate: that feerate, stepped down. A reading that failed is told.
pub proof fn a_target_needs_a_reading(
    tip: Result<u32, Seq<char>>,
    median: Result<Option<u64>, Seq<char>>,
)
    ensures
        bump_target(tip, median) is Ok <==> tip is Ok && median is Ok,
        tip is Ok && median is Ok ==> (bump_target(tip, median)->Ok_0 is Some <==> median->Ok_0
            is Some),
        bump_target(tip, median) matches Ok(Some(target)) ==> target <= median->Ok_0->0 < target
            + 5 && target % 5 == 0,
{
}

/// A latch only raises what would be selected without it: the rung selected is the higher
/// of the two, for the same target and the same feerate; and where one would be selected
/// without the latch, none is only if that higher rung may not fire.
pub proof fn a_latch_only_raises(
    ladder: ScoredLadderView,
    floor: u64,
    reading: Result<Option<u64>, Seq<char>>,
    latch: int,
)
    requires
        ladder.rungs.len() > 1,
        ladder.admissible.len() == ladder.rungs.len(),
        0 <= latch < ladder.rungs.len(),
    ensures
        ({
            let free = ladder.selection(floor, reading, 0);
            let held = ladder.selection(floor, reading, latch);
            &&& free is Err ==> held is Err
            &&& free matches Ok((rung, target, required)) ==> {
                let higher = if rung > latch {
                    rung
                } else {
                    latch
                };
                &&& held is Ok <==> ladder.admissible[higher] is Ok
                &&& held matches Ok(out) ==> out == (higher, target, required)
            }
        }),
{
    let target = match reading {
        Ok(Some(t)) => t,
        _ => 0u64,
    };
    let required = if target > floor {
        target
    } else {
        floor
    };
    let n = ladder.rungs.len() as int;
    lemma_first_where(|r: int| ladder.reaches(r, required), 0, n);
    lemma_first_where(|r: int| ladder.ok(r), ladder.needed(required), n);
    lemma_last_where(|r: int| ladder.ok(r), n);
}

/// A ladder of one rung needs no reading and no latch: it is selected exactly where it may
/// fire, at the floor.
pub proof fn a_single_rung_fires_if_it_may(
    ladder: ScoredLadderView,
    floor: u64,
    reading: Result<Option<u64>, Seq<char>>,
    latch: int,
)
    requires
        ladder.rungs.len() == 1,
        ladder.admissible.len() == 1,
    ensures
        ladder.selection(floor, reading, latch) is Ok <==> ladder.admissible[0] is Ok,
        ladder.selection(floor, reading, latch) matches Ok(out) ==> out == (0int, 0u64, floor),
        ladder.admissible[0] matches Err(reason) ==> ladder.selection(floor, reading, latch)
            == Err::<(int, u64, u64), Seq<char>>(reason),
{
}

} // verus!
