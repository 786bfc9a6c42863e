//! The fire-time rules of the duress sweep: which rung of the armed escape's fee
//! ladder may go out, and at which fee.

use vstd::prelude::*;

use crate::codec::{compute_txid, transaction_id};
use crate::ladder::{escape_sequence, expected_escape_sequence};
use crate::node::{p2wsh_script, Node, NodeParams, NodeView};
use crate::prevouts::{outpoint_text, prevout_views, push_outpoint, Prevout, PrevoutView};
use crate::text::{
    decimal, hex_word, owned, push_decimal, push_decimal_wide, push_hex_word, push_txid,
    same_bytes, txid_text,
};
use crate::tx::{
    output_total, same_outpoint, same_txid, saturating, total_out, OutPoint, Transaction,
    TransactionView, TxIn, TxOut, TxOutView,
};

verus! {

/// The number of blocks that the anchor height of the bump target is rounded to.
pub const FEE_ANCHOR_QUANTUM: u32 = 6;

/// The step, in satoshi per virtual byte, that the bump target is rounded down to.
pub const FEE_TARGET_STEP_SAT_VB: u64 = 5;

/// The first number from `from` up to `to` that satisfies `p`.
pub open spec fn first_where(p: spec_fn(int) -> bool, from: int, to: int) -> Option<int>
    decreases to - from,
{
    if from >= to {
        None
    } else if p(from) {
        Some(from)
    } else {
        first_where(p, from + 1, to)
    }
}

/// The last number below `to` that satisfies `p`.
pub open spec fn last_where(p: spec_fn(int) -> bool, to: int) -> Option<int>
    decreases to,
{
    if to <= 0 {
        None
    } else if p(to - 1) {
        Some(to - 1)
    } else {
        last_where(p, to - 1)
    }
}

/// The anchor height for a tip: the last height at or below it that the quantum
/// divides.
pub open spec fn anchor_of(tip: u32) -> u32 {
    (tip - tip % FEE_ANCHOR_QUANTUM) as u32
}

/// A feerate rounded down to the step.
pub open spec fn stepped(median: u64) -> u64 {
    (median / FEE_TARGET_STEP_SAT_VB * FEE_TARGET_STEP_SAT_VB) as u64
}

/// A text, or the sentence that a complaint is put into.
pub open spec fn texted<T>(r: Result<T, String>) -> Result<T, Seq<char>> {
    match r {
        Ok(v) => Ok(v),
        Err(e) => Err(e@),
    }
}

/// The bump target by the chain's readings.
pub open spec fn bump_target(
    tip: Result<u32, Seq<char>>,
    median: Result<Option<u64>, Seq<char>>,
) -> Result<Option<u64>, Seq<char>> {
    match tip {
        Err(e) => Err("cannot read the tip height for the escape bump target: "@ + e),
        Ok(_) => match median {
            Err(e) => Err("cannot read the anchor block's feerate: "@ + e),
            Ok(None) => Ok(None),
            Ok(Some(median)) => Ok(Some(stepped(median))),
        },
    }
}

/// The height of the block whose feerate sets the bump target.
pub fn escape_bump_anchor(tip: u32) -> (anchor: u32)
    ensures
        anchor == anchor_of(tip),
{
    tip - tip % FEE_ANCHOR_QUANTUM
}

/// The bump target in satoshi per virtual byte, from the chain's tip height and from
/// the median feerate of the block at [`escape_bump_anchor`]. Both are the same on
/// every node of one chain. No reading means no target.
pub fn escape_bump_target_feerate(
    tip: Result<u32, String>,
    median: Result<Option<u64>, String>,
) -> (target: Result<Option<u64>, String>)
    ensures
        texted(target) == bump_target(texted(tip), texted(median)),
{
    match tip {
        Err(e) => {
            let mut text = owned("cannot read the tip height for the escape bump target: ");
            text.append(e.as_str());
            Err(text)
        },
        Ok(_) => match median {
            Err(e) => {
                let mut text = owned("cannot read the anchor block's feerate: ");
                text.append(e.as_str());
                Err(text)
            },
            Ok(None) => Ok(None),
            Ok(Some(median)) => {
                proof {
                    assert(median / 5 * 5 <= median);
                }
                Ok(Some(median / FEE_TARGET_STEP_SAT_VB * FEE_TARGET_STEP_SAT_VB))
            },
        },
    }
}

/// A fee ladder whose rungs have been judged one by one.
pub struct ScoredLadder<'a> {
    pub rungs: &'a Vec<Transaction>,
    pub maximum_vsizes: &'a Vec<u64>,
    pub admissible: &'a Vec<Result<(), String>>,
    pub total_in: u64,
}

/// The contents of a [`ScoredLadder`].
pub struct ScoredLadderView {
    pub rungs: Seq<TransactionView>,
    pub maximum_vsizes: Seq<u64>,
    pub admissible: Seq<Result<(), Seq<char>>>,
    pub total_in: u64,
}

impl View for ScoredLadder<'_> {
    type V = ScoredLadderView;

    open spec fn view(&self) -> ScoredLadderView {
        ScoredLadderView {
            rungs: self.rungs@.map_values(|t: Transaction| t@),
            maximum_vsizes: self.maximum_vsizes@,
            admissible: self.admissible@.map_values(|r: Result<(), String>| texted(r)),
            total_in: self.total_in,
        }
    }
}

/// The fee of a transaction that spends `total_in`.
pub open spec fn fee_over(total_in: u64, tx: TransactionView) -> u64 {
    saturating(total_in - output_total(tx.output))
}

impl ScoredLadderView {
    /// Whether rung `rung` pays at least `required` per virtual byte at its largest
    /// size.
    pub open spec fn reaches(self, rung: int, required: u64) -> bool {
        &&& 0 <= rung < self.rungs.len()
        &&& rung < self.maximum_vsizes.len()
        &&& fee_over(self.total_in, self.rungs[rung]) >= required * self.maximum_vsizes[rung]
    }

    /// Whether rung `rung` may fire.
    pub open spec fn ok(self, rung: int) -> bool {
        0 <= rung < self.admissible.len() && self.admissible[rung] is Ok
    }

    /// The cheapest rung that pays `required`; the top where none does.
    pub open spec fn needed(self, required: u64) -> int {
        match first_where(|r: int| self.reaches(r, required), 0, self.rungs.len() as int) {
            Some(r) => r,
            None => self.rungs.len() - 1,
        }
    }

    /// The cheapest admissible rung from the needed one up; failing that the dearest
    /// admissible one.
    pub open spec fn choice(self, required: u64) -> Option<int> {
        let n = self.rungs.len() as int;
        match first_where(|r: int| self.ok(r), self.needed(required), n) {
            Some(r) => Some(r),
            None => last_where(|r: int| self.ok(r), n),
        }
    }

    /// The rung to fire at, the target read and the feerate required; or why no rung
    /// may fire.
    pub open spec fn selection(
        self,
        floor: u64,
        reading: Result<Option<u64>, Seq<char>>,
        latch: int,
    ) -> Result<(int, u64, u64), Seq<char>> {
        if self.rungs.len() <= 1 {
            if self.admissible.len() == 0 {
                Err("the armed escape has no candidate transaction"@)
            } else {
                match self.admissible[0] {
                    Ok(()) => Ok((0, 0, floor)),
                    Err(reason) => Err(reason),
                }
            }
        } else {
            let target = match reading {
                Ok(Some(t)) => t,
                _ => 0,
            };
            let required = if target > floor {
                target
            } else {
                floor
            };
            match self.choice(required) {
                None => if self.admissible.len() > 0 && self.admissible[0] is Err {
                    Err(self.admissible[0]->Err_0)
                } else {
                    Err("no escape ladder rung is admissible"@)
                },
                Some(choice) => {
                    let selected = if choice > latch {
                        choice
                    } else {
                        latch
                    };
                    if selected < self.admissible.len() && self.admissible[selected] is Err {
                        Err(
                            "escape ladder rung "@ + decimal(selected as nat)
                                + " is already latched but no longer admissible, and a lower rung cannot replace a higher one that may already be in the mempool: "@
                                + self.admissible[selected]->Err_0,
                        )
                    } else {
                        Ok((selected, target, required))
                    }
                },
            }
        }
    }
}

impl ScoredLadder<'_> {
    /// Whether rung `rung` pays at least `required` per virtual byte even at its
    /// largest size.
    pub fn reaches(&self, rung: usize, required: u64) -> (enough: bool)
        ensures
            enough == self@.reaches(rung as int, required),
    {
        if rung >= self.rungs.len() || rung >= self.maximum_vsizes.len() {
            return false;
        }
        assert(self@.rungs[rung as int] == self.rungs@[rung as int]@);
        let fee: u64 = self.total_in.saturating_sub(total_out(&self.rungs[rung].output));
        let vsize: u64 = self.maximum_vsizes[rung];
        proof {
            assert(required * vsize <= u64::MAX * u64::MAX) by (nonlinear_arith)
                requires
                    required <= u64::MAX,
                    vsize <= u64::MAX,
            ;
        }
        fee as u128 >= required as u128 * vsize as u128
    }

    fn ok(&self, rung: usize) -> (ok: bool)
        ensures
            ok == self@.ok(rung as int),
    {
        if rung >= self.admissible.len() {
            return false;
        }
        assert(self@.admissible[rung as int] == texted(self.admissible@[rung as int]));
        self.admissible[rung].is_ok()
    }

    fn find_needed(&self, required: u64) -> (needed: usize)
        requires
            self.rungs.len() > 0,
        ensures
            needed == self@.needed(required),
            needed < self.rungs.len(),
    {
        let ghost p = |r: int| self@.reaches(r, required);
        let mut rung: usize = 0;
        while rung < self.rungs.len()
            invariant
                rung <= self.rungs.len(),
                p == (|r: int| self@.reaches(r, required)),
                first_where(p, 0, self.rungs.len() as int) == first_where(
                    p,
                    rung as int,
                    self.rungs.len() as int,
                ),
            decreases self.rungs.len() - rung,
        {
            if self.reaches(rung, required) {
                assert(p(rung as int));
                return rung;
            }
            assert(!p(rung as int));
            rung += 1;
        }
        self.rungs.len() - 1
    }

    fn find_choice(&self, required: u64) -> (choice: Option<usize>)
        requires
            self.rungs.len() > 0,
        ensures
            match choice {
                Some(c) => self@.choice(required) == Some(c as int),
                None => self@.choice(required) is None,
            },
    {
        let ghost p = |r: int| self@.ok(r);
        let ghost n = self.rungs.len() as int;
        let needed: usize = self.find_needed(required);
        let mut rung: usize = needed;
        while rung < self.rungs.len()
            invariant
                rung <= self.rungs.len(),
                p == (|r: int| self@.ok(r)),
                n == self.rungs.len(),
                needed == self@.needed(required),
                first_where(p, needed as int, n) == first_where(p, rung as int, n),
            decreases self.rungs.len() - rung,
        {
            if self.ok(rung) {
                assert(p(rung as int));
                return Some(rung);
            }
            assert(!p(rung as int));
            rung += 1;
        }
        assert(first_where(p, needed as int, n) is None);
        let mut top: usize = self.rungs.len();
        while top > 0
            invariant
                top <= self.rungs.len(),
                p == (|r: int| self@.ok(r)),
                n == self.rungs.len(),
                needed == self@.needed(required),
                first_where(p, needed as int, n) is None,
                last_where(p, n) == last_where(p, top as int),
            decreases top,
        {
            top -= 1;
            if self.ok(top) {
                assert(p(top as int));
                return Some(top);
            }
            assert(!p(top as int));
        }
        None
    }
}

/// Picks the rung that the sweep should fire at: the cheapest that pays the larger of
/// the bump target and the floor, among those that may fire, and never one below the
/// rung already latched. The answer gives the rung, the target and the feerate
/// required. A ladder of one rung needs no reading of the chain.
pub fn select_escape_rung(
    escape_feerate_floor: u64,
    ladder: &ScoredLadder,
    reading: Result<Option<u64>, String>,
    latch: usize,
) -> (out: Result<(usize, u64, u64), String>)
    ensures
        match out {
            Ok((selected, target, required)) => ladder@.selection(
                escape_feerate_floor,
                texted(reading),
                latch as int,
            ) == Result::<(int, u64, u64), Seq<char>>::Ok((selected as int, target, required)),
            Err(e) => ladder@.selection(escape_feerate_floor, texted(reading), latch as int)
                == Result::<(int, u64, u64), Seq<char>>::Err(e@),
        },
{
    let ghost view = ladder@;
    if ladder.rungs.len() <= 1 {
        if ladder.admissible.len() == 0 {
            return Err(owned("the armed escape has no candidate transaction"));
        }
        assert(view.admissible[0] == texted(ladder.admissible@[0]));
        return match &ladder.admissible[0] {
            Ok(()) => Ok((0, 0, escape_feerate_floor)),
            Err(reason) => Err(reason.clone()),
        };
    }
    let target: u64 = match reading {
        Ok(Some(target)) => target,
        _ => 0,
    };
    let required: u64 = if target > escape_feerate_floor {
        target
    } else {
        escape_feerate_floor
    };
    let choice: usize = match ladder.find_choice(required) {
        Some(choice) => choice,
        None => {
            if ladder.admissible.len() > 0 {
                assert(view.admissible[0] == texted(ladder.admissible@[0]));
                if let Err(reason) = &ladder.admissible[0] {
                    return Err(reason.clone());
                }
            }
            return Err(owned("no escape ladder rung is admissible"));
        },
    };
    let selected: usize = if choice > latch {
        choice
    } else {
        latch
    };
    if selected < ladder.admissible.len() {
        assert(view.admissible[selected as int] == texted(ladder.admissible@[selected as int]));
        if let Err(reason) = &ladder.admissible[selected] {
            let mut text = owned("escape ladder rung ");
            push_decimal(&mut text, selected as u64);
            text.append(
                " is already latched but no longer admissible, and a lower rung cannot replace a higher one that may already be in the mempool: ",
            );
            text.append(reason.as_str());
            return Err(text);
        }
    }
    Ok((selected, target, required))
}

/// What is the same for every rung of a ladder: what the escape sweeps, what it is
/// measured against, what was delivered already, and whether there is a ladder.
#[derive(Clone, Copy, Debug)]
pub struct SweepEnv {
    pub total_in: u64,
    pub protected_value: u64,
    pub paired_delivered: u64,
    pub laddered: bool,
}

/// The sum, from `start`, of the outputs among the first `n` that `chosen` marks.
pub open spec fn marked_total(outputs: Seq<TxOutView>, chosen: Seq<bool>, start: u64, n: int) -> u64
    decreases n,
{
    if n <= 0 {
        start
    } else if n - 1 < chosen.len() && chosen[n - 1] {
        saturating(marked_total(outputs, chosen, start, n - 1) + outputs[n - 1].value)
    } else {
        marked_total(outputs, chosen, start, n - 1)
    }
}

/// The complaint about the first sequence number from `index` on that is not the
/// expected one.
pub open spec fn unexpected_sequence(inputs: Seq<TxIn>, expected: u32, index: int) -> Option<
    Seq<char>,
>
    decreases inputs.len() - index,
{
    if index >= inputs.len() {
        None
    } else if inputs[index].sequence != expected {
        Some(
            "escape input "@ + decimal(index as nat) + " nSequence "@ + hex_word(
                inputs[index].sequence,
            ) + " is not "@ + hex_word(expected)
                + " — a non-final / relative-locking escape, or one whose replaceability does not match its fee-bump ladder, is not broadcastable-at-T"@,
        )
    } else {
        unexpected_sequence(inputs, expected, index + 1)
    }
}

/// Why a rung may not fire, if it may not. `pays_escape` marks the outputs that pay
/// the escape wallet.
pub open spec fn rung_objection(
    params: NodeParams,
    env: SweepEnv,
    tx: TransactionView,
    vsize: u64,
    pays_escape: Option<Seq<bool>>,
) -> Option<Seq<char>> {
    let fee = fee_over(env.total_in, tx);
    let floor_sats = params.escape_feerate_floor * vsize;
    match unexpected_sequence(tx.input, escape_sequence(env.laddered), 0) {
        Some(e) => Some(e),
        None => if env.laddered && tx.lock_time != 0 {
            Some(
                "escape nLockTime "@ + decimal(tx.lock_time as nat)
                    + " is not 0 — a replaceable escape with a lock time is not final, and is not broadcastable-at-T"@,
            )
        } else if vsize == 0 {
            Some("escape has zero vsize"@)
        } else if fee < floor_sats {
            Some(
                "escape feerate below the panic floor: "@ + decimal(fee as nat) + " sat over "@
                    + decimal(vsize as nat) + " vB is under "@ + decimal(
                    params.escape_feerate_floor as nat,
                ) + " sat/vB ("@ + decimal(floor_sats as nat) + " sat)"@,
            )
        } else {
            match pays_escape {
                None => Some("no escape descriptor configured"@),
                Some(chosen) => {
                    let delivered = marked_total(
                        tx.output,
                        chosen,
                        env.paired_delivered,
                        tx.output.len() as int,
                    );
                    if delivered * 100 < env.protected_value * params.escape_coverage_pct {
                        Some(
                            "escape coverage below "@ + decimal(params.escape_coverage_pct as nat)
                                + "%: "@ + decimal(delivered as nat)
                                + " sat to the escape wallet over "@ + decimal(
                                env.protected_value as nat,
                            )
                                + " sat of protected confirmed + authorized-unconfirmed vault value"@,
                        )
                    } else {
                        None
                    }
                },
            }
        },
    }
}

fn sum_marked(outputs: &Vec<TxOut>, chosen: &Vec<bool>, start: u64) -> (total: u64)
    ensures
        total == marked_total(
            outputs@.map_values(|o: TxOut| o@),
            chosen@,
            start,
            outputs.len() as int,
        ),
{
    let ghost views = outputs@.map_values(|o: TxOut| o@);
    let mut total: u64 = start;
    let mut i: usize = 0;
    while i < outputs.len()
        invariant
            i <= outputs.len(),
            views == outputs@.map_values(|o: TxOut| o@),
            total == marked_total(views, chosen@, start, i as int),
        decreases outputs.len() - i,
    {
        assert(views[i as int] == outputs@[i as int]@);
        if i < chosen.len() && chosen[i] {
            total = total.saturating_add(outputs[i].value);
        }
        i += 1;
    }
    total
}

fn check_expected_sequences(tx: &Transaction, expected: u32) -> (out: Result<(), String>)
    ensures
        match out {
            Ok(()) => unexpected_sequence(tx@.input, expected, 0) is None,
            Err(e) => unexpected_sequence(tx@.input, expected, 0) == Some(e@),
        },
{
    let mut i: usize = 0;
    while i < tx.input.len()
        invariant
            i <= tx.input.len(),
            unexpected_sequence(tx@.input, expected, 0) == unexpected_sequence(
                tx@.input,
                expected,
                i as int,
            ),
        decreases tx.input.len() - i,
    {
        if tx.input[i].sequence != expected {
            let mut text = owned("escape input ");
            push_decimal(&mut text, i as u64);
            text.append(" nSequence ");
            push_hex_word(&mut text, tx.input[i].sequence);
            text.append(" is not ");
            push_hex_word(&mut text, expected);
            text.append(
                " — a non-final / relative-locking escape, or one whose replaceability does not match its fee-bump ladder, is not broadcastable-at-T",
            );
            return Err(text);
        }
        i += 1;
    }
    Ok(())
}

/// Judges one rung of the armed escape: that it is final, by its sequence numbers and,
/// where they leave it replaceable, by its lock time; its feerate over `feerate_vsize`;
/// and what it delivers to the escape wallet.
pub fn sweep_rung_admissible(
    params: &NodeParams,
    env: &SweepEnv,
    tx: &Transaction,
    feerate_vsize: u64,
    pays_escape: &Option<Vec<bool>>,
) -> (out: Result<(), String>)
    ensures
        ({
            let chosen = match pays_escape {
                Some(c) => Some(c@),
                None => None,
            };
            match out {
                Ok(()) => rung_objection(*params, *env, tx@, feerate_vsize, chosen) is None,
                Err(e) => rung_objection(*params, *env, tx@, feerate_vsize, chosen) == Some(e@),
            }
        }),
{
    if let Err(e) = check_expected_sequences(tx, expected_escape_sequence(env.laddered)) {
        return Err(e);
    }
    if env.laddered && tx.lock_time != 0 {
        let mut text = owned("escape nLockTime ");
        push_decimal(&mut text, tx.lock_time as u64);
        text.append(
            " is not 0 — a replaceable escape with a lock time is not final, and is not broadcastable-at-T",
        );
        return Err(text);
    }
    let fee: u64 = env.total_in.saturating_sub(total_out(&tx.output));
    if feerate_vsize == 0 {
        return Err(owned("escape has zero vsize"));
    }
    proof {
        assert(params.escape_feerate_floor * feerate_vsize <= u64::MAX * u64::MAX)
            by (nonlinear_arith)
            requires
                params.escape_feerate_floor <= u64::MAX,
                feerate_vsize <= u64::MAX,
        ;
        assert(env.protected_value * params.escape_coverage_pct <= u64::MAX * 255)
            by (nonlinear_arith)
            requires
                env.protected_value <= u64::MAX,
                params.escape_coverage_pct <= 255,
        ;
    }
    let floor_sats: u128 = params.escape_feerate_floor as u128 * feerate_vsize as u128;
    if (fee as u128) < floor_sats {
        let mut text = owned("escape feerate below the panic floor: ");
        push_decimal(&mut text, fee);
        text.append(" sat over ");
        push_decimal(&mut text, feerate_vsize);
        text.append(" vB is under ");
        push_decimal(&mut text, params.escape_feerate_floor);
        text.append(" sat/vB (");
        push_decimal_wide(&mut text, floor_sats);
        text.append(" sat)");
        return Err(text);
    }
    let delivered: u64 = match pays_escape {
        Some(chosen) => sum_marked(&tx.output, chosen, env.paired_delivered),
        None => return Err(owned("no escape descriptor configured")),
    };
    if (delivered as u128) * 100 < env.protected_value as u128 * params.escape_coverage_pct as u128 {
        let mut text = owned("escape coverage below ");
        push_decimal(&mut text, params.escape_coverage_pct as u64);
        text.append("%: ");
        push_decimal(&mut text, delivered);
        text.append(" sat to the escape wallet over ");
        push_decimal(&mut text, env.protected_value);
        text.append(" sat of protected confirmed + authorized-unconfirmed vault value");
        return Err(text);
    }
    Ok(())
}

/// A registered candidate as the coverage rule reads it: its transaction, the coins
/// it spends with their amounts, and whether it pays a hot wallet.
#[derive(Debug)]
pub struct CoverageContext {
    pub tx: Transaction,
    pub inputs: Vec<(OutPoint, u64)>,
    pub hot: bool,
}

/// The contents of a [`CoverageContext`].
pub struct CoverageView {
    pub tx: TransactionView,
    pub inputs: Seq<(OutPoint, u64)>,
    pub hot: bool,
}

impl View for CoverageContext {
    type V = CoverageView;

    open spec fn view(&self) -> CoverageView {
        CoverageView { tx: self.tx@, inputs: self.inputs@, hot: self.hot }
    }
}

/// What the escape sweeps, summed from input `i` on over `acc`. A coin that the
/// chain does not show counts with the amount on file only while a rung of the same
/// escape is what hides it.
pub open spec fn swept_from(
    candidate: CoverageView,
    prevouts: Seq<Option<PrevoutView>>,
    resident: bool,
    i: int,
    acc: u64,
) -> Result<u64, Seq<char>>
    decreases prevouts.len() - i,
{
    if i >= prevouts.len() || i >= candidate.tx.input.len() || i >= candidate.inputs.len() {
        Ok(acc)
    } else if candidate.tx.input[i].previous_output != candidate.inputs[i].0 {
        Err("armed escape input context does not match its transaction"@)
    } else {
        match prevouts[i] {
            Some(p) => swept_from(
                candidate,
                prevouts,
                resident,
                i + 1,
                saturating(acc + p.txout.value),
            ),
            None => if resident {
                swept_from(
                    candidate,
                    prevouts,
                    resident,
                    i + 1,
                    saturating(acc + candidate.inputs[i].1),
                )
            } else {
                Err(
                    "escape prevout "@ + outpoint_text(candidate.tx.input[i].previous_output)
                        + " is unknown to this node (spent or missing)"@,
                )
            },
        }
    }
}

/// What the escape sweeps, or why that cannot be said.
pub open spec fn swept(
    candidate: CoverageView,
    prevouts: Result<Seq<Option<PrevoutView>>, Seq<char>>,
    resident: bool,
) -> Result<u64, Seq<char>> {
    match prevouts {
        Err(e) => Err("cannot read escape prevouts: "@ + e),
        Ok(prevouts) => if prevouts.len() != candidate.tx.input.len() {
            Err(
                "chain backend returned "@ + decimal(prevouts.len()) + " escape prevouts for "@
                    + decimal(candidate.tx.input.len()) + " inputs"@,
            )
        } else {
            swept_from(candidate, prevouts, resident, 0, 0)
        },
    }
}

/// The vault's unspent value over the first `n` coins, leaving out those that the
/// resident rung itself created.
pub open spec fn unspent_total(
    unspent: Seq<(OutPoint, PrevoutView)>,
    resident: Option<[u8; 32]>,
    n: int,
) -> u64
    decreases n,
{
    if n <= 0 {
        0
    } else if resident == Some(unspent[n - 1].0.txid) {
        unspent_total(unspent, resident, n - 1)
    } else {
        saturating(unspent_total(unspent, resident, n - 1) + unspent[n - 1].1.txout.value)
    }
}

/// Whether the coin is among those shown.
pub open spec fn shown(unspent: Seq<(OutPoint, PrevoutView)>, coin: OutPoint) -> bool {
    exists|i: int| 0 <= i < unspent.len() && (#[trigger] unspent[i]).0 == coin
}

/// `start` and the amounts of the escape's own first `n` coins that are not shown.
pub open spec fn restored_total(
    inputs: Seq<(OutPoint, u64)>,
    unspent: Seq<(OutPoint, PrevoutView)>,
    start: u64,
    n: int,
) -> u64
    decreases n,
{
    if n <= 0 {
        start
    } else if shown(unspent, inputs[n - 1].0) {
        restored_total(inputs, unspent, start, n - 1)
    } else {
        saturating(restored_total(inputs, unspent, start, n - 1) + inputs[n - 1].1)
    }
}

/// The value that the sweep is measured against before its paired spend is counted
/// in: the vault's unspent value. A resident rung hides the escape's own coins and may
/// have left change, so then the coins count and the change does not.
pub open spec fn protected_value(
    candidate: CoverageView,
    unspent: Seq<(OutPoint, PrevoutView)>,
    resident: Option<[u8; 32]>,
) -> u64 {
    let visible = unspent_total(unspent, resident, unspent.len() as int);
    if resident is Some {
        restored_total(candidate.inputs, unspent, visible, candidate.inputs.len() as int)
    } else {
        visible
    }
}

/// The sum of the amounts of the first `n` coins.
pub open spec fn coins_total(inputs: Seq<(OutPoint, u64)>, n: int) -> u64
    decreases n,
{
    if n <= 0 {
        0
    } else {
        saturating(coins_total(inputs, n - 1) + inputs[n - 1].1)
    }
}

/// The sum of the first `n` outputs that pay one of `scripts`.
pub open spec fn paid_to(outputs: Seq<TxOutView>, scripts: Seq<Seq<u8>>, n: int) -> u64
    decreases n,
{
    if n <= 0 {
        0
    } else if scripts.contains(outputs[n - 1].script_pubkey) {
        saturating(paid_to(outputs, scripts, n - 1) + outputs[n - 1].value)
    } else {
        paid_to(outputs, scripts, n - 1)
    }
}

/// Whether the escape spends the coin.
pub open spec fn spends(tx: TransactionView, coin: OutPoint) -> bool {
    exists|i: int| 0 <= i < tx.input.len() && (#[trigger] tx.input[i]).previous_output == coin
}

/// The first coin of the paired spend from `i` on that the escape spends too.
pub open spec fn shared_coin(tx: TransactionView, inputs: Seq<(OutPoint, u64)>, i: int) -> Option<
    OutPoint,
>
    decreases inputs.len() - i,
{
    if i >= inputs.len() {
        None
    } else if spends(tx, inputs[i].0) {
        Some(inputs[i].0)
    } else {
        shared_coin(tx, inputs, i + 1)
    }
}

/// What the paired spend adds to the two sides of the coverage rule: what has left
/// the vault in it, and what of that reached the escape wallet. A hot spend is
/// superseded by the sweep and adds nothing; an escape-class one must be disjoint and
/// confirmed.
pub open spec fn paired_share(
    escape: TransactionView,
    paired: CoverageView,
    confirmed: Result<bool, Seq<char>>,
    vault_scripts: Seq<Seq<u8>>,
    pays_escape: Seq<bool>,
) -> Result<(u64, u64), Seq<char>> {
    let txid = txid_text(transaction_id(paired.tx)@);
    if paired.hot {
        Ok((0, 0))
    } else {
        match shared_coin(escape, paired.inputs, 0) {
            Some(coin) => Err(
                "residual escape shares input "@ + outpoint_text(coin)
                    + " with its completed escape-class spend — not disjoint (ADR-0012 class-aware coverage)"@,
            ),
            None => match confirmed {
                Err(e) => Err("cannot confirm paired escape-class spend "@ + txid + ": "@ + e),
                Ok(false) => Err(
                    "paired escape-class spend "@ + txid
                        + " is not confirmed, so its outputs cannot count as delivered in union coverage"@,
                ),
                Ok(true) => {
                    let input_value = coins_total(paired.inputs, paired.inputs.len() as int);
                    let change = paid_to(
                        paired.tx.output,
                        vault_scripts,
                        paired.tx.output.len() as int,
                    );
                    if change > input_value {
                        Err(
                            "paired escape-class spend returns more value to the vault than its inputs"@,
                        )
                    } else {
                        Ok(
                            (
                                (input_value - change) as u64,
                                marked_total(
                                    paired.tx.output,
                                    pays_escape,
                                    0,
                                    paired.tx.output.len() as int,
                                ),
                            ),
                        )
                    }
                },
            },
        }
    }
}

/// What the chain and the registry answered about an armed escape.
pub struct SweepFacts {
    /// The escape's registered context.
    pub candidate: Option<CoverageContext>,
    /// The chain's coins for the escape's inputs.
    pub prevouts: Result<Vec<Option<Prevout>>, String>,
    /// The id of the escape's rung in the mempool, if one is there.
    pub resident: Option<[u8; 32]>,
    /// Whether the policy names an escape wallet.
    pub escape_configured: bool,
    /// The vault's unspent coins.
    pub vault_unspent: Result<Vec<(OutPoint, Prevout)>, String>,
    /// Whether a paired spend is registered, and its context.
    pub pairing: Option<Option<CoverageContext>>,
    /// Whether the paired spend is confirmed.
    pub paired_confirmed: Result<bool, String>,
    /// Which outputs of the paired spend pay the escape wallet.
    pub paired_pays_escape: Vec<bool>,
    /// Whether the escape has fee bumps.
    pub laddered: bool,
}

/// The vault's unspent coins.
pub open spec fn unspent_views(unspent: Seq<(OutPoint, Prevout)>) -> Seq<(OutPoint, PrevoutView)> {
    unspent.map_values(|u: (OutPoint, Prevout)| (u.0, u.1@))
}

/// The byte strings in `list`.
pub open spec fn byte_strings(list: Seq<Vec<u8>>) -> Seq<Seq<u8>> {
    list.map_values(|b: Vec<u8>| b@)
}

/// The output scripts that hold the vault's coins.
pub open spec fn vault_scripts_of(node: NodeView) -> Seq<Seq<u8>> {
    seq![p2wsh_script(node.keys.witness_script)]
}

impl SweepFacts {
    /// The environment of a sweep by `node`, or why the sweep cannot be judged.
    pub open spec fn env(self, node: NodeView) -> Result<SweepEnv, Seq<char>> {
        match self.candidate {
            None => Err("armed escape candidate context is unavailable"@),
            Some(candidate) => {
                let prevouts = match self.prevouts {
                    Ok(p) => Ok(prevout_views(p@)),
                    Err(e) => Err(e@),
                };
                match swept(candidate@, prevouts, self.resident is Some) {
                    Err(e) => Err(e),
                    Ok(total_in) => if !self.escape_configured {
                        Err("no escape descriptor configured"@)
                    } else {
                        match self.vault_unspent {
                            Err(e) => Err("cannot enumerate the protected vault balance: "@ + e@),
                            Ok(unspent) => {
                                let protected = protected_value(
                                    candidate@,
                                    unspent_views(unspent@),
                                    self.resident,
                                );
                                if protected == 0 {
                                    Err(
                                        "protected confirmed + authorized-unconfirmed vault balance is empty"@,
                                    )
                                } else {
                                    match self.pairing {
                                        None => Err(
                                            "armed escape has no registered paired spend"@,
                                        ),
                                        Some(None) => Err(
                                            "armed escape's paired spend context is unavailable"@,
                                        ),
                                        Some(Some(paired)) => match paired_share(
                                            candidate@.tx,
                                            paired@,
                                            texted(self.paired_confirmed),
                                            vault_scripts_of(node),
                                            self.paired_pays_escape@,
                                        ) {
                                            Err(e) => Err(e),
                                            Ok((departed, delivered)) => Ok(
                                                SweepEnv {
                                                    total_in,
                                                    protected_value: saturating(
                                                        protected + departed,
                                                    ),
                                                    paired_delivered: delivered,
                                                    laddered: self.laddered,
                                                },
                                            ),
                                        },
                                    }
                                }
                            },
                        }
                    },
                }
            },
        }
    }
}

fn sum_swept(candidate: &CoverageContext, prevouts: &Vec<Option<Prevout>>, resident: bool) -> (out:
    Result<u64, String>)
    requires
        prevouts.len() == candidate.tx.input.len(),
    ensures
        texted(out) == swept_from(candidate@, prevout_views(prevouts@), resident, 0, 0),
{
    let ghost view = candidate@;
    let ghost seen = prevout_views(prevouts@);
    let mut total: u64 = 0;
    let mut i: usize = 0;
    while i < prevouts.len() && i < candidate.inputs.len()
        invariant
            i <= prevouts.len(),
            i <= candidate.inputs.len(),
            prevouts.len() == candidate.tx.input.len(),
            view == candidate@,
            seen == prevout_views(prevouts@),
            swept_from(view, seen, resident, 0, 0) == swept_from(
                view,
                seen,
                resident,
                i as int,
                total,
            ),
        decreases prevouts.len() - i,
    {
        let outpoint = candidate.tx.input[i].previous_output;
        if !same_outpoint(&outpoint, &candidate.inputs[i].0) {
            return Err(owned("armed escape input context does not match its transaction"));
        }
        let value: u64 = match &prevouts[i] {
            Some(p) => p.txout.value,
            None => {
                if resident {
                    candidate.inputs[i].1
                } else {
                    let mut text = owned("escape prevout ");
                    push_outpoint(&mut text, &outpoint);
                    text.append(" is unknown to this node (spent or missing)");
                    return Err(text);
                }
            },
        };
        total = total.saturating_add(value);
        i += 1;
    }
    Ok(total)
}

fn same_resident(resident: &Option<[u8; 32]>, txid: &[u8; 32]) -> (same: bool)
    ensures
        same == (*resident == Some(*txid)),
{
    match resident {
        Some(r) => same_txid(r, txid),
        None => false,
    }
}

fn is_shown(unspent: &Vec<(OutPoint, Prevout)>, coin: &OutPoint) -> (found: bool)
    ensures
        found == shown(unspent_views(unspent@), *coin),
{
    let ghost views = unspent_views(unspent@);
    let mut i: usize = 0;
    while i < unspent.len()
        invariant
            i <= unspent.len(),
            views == unspent_views(unspent@),
            forall|k: int| 0 <= k < i ==> (#[trigger] views[k]).0 != *coin,
        decreases unspent.len() - i,
    {
        assert(views[i as int].0 == unspent@[i as int].0);
        if same_outpoint(&unspent[i].0, coin) {
            return true;
        }
        i += 1;
    }
    false
}

fn sum_protected(
    candidate: &CoverageContext,
    unspent: &Vec<(OutPoint, Prevout)>,
    resident: &Option<[u8; 32]>,
) -> (total: u64)
    ensures
        total == protected_value(candidate@, unspent_views(unspent@), *resident),
{
    let ghost views = unspent_views(unspent@);
    let mut total: u64 = 0;
    let mut i: usize = 0;
    while i < unspent.len()
        invariant
            i <= unspent.len(),
            views == unspent_views(unspent@),
            total == unspent_total(views, *resident, i as int),
        decreases unspent.len() - i,
    {
        assert(views[i as int] == (unspent@[i as int].0, unspent@[i as int].1@));
        if !same_resident(resident, &unspent[i].0.txid) {
            total = total.saturating_add(unspent[i].1.txout.value);
        }
        i += 1;
    }
    if resident.is_none() {
        return total;
    }
    let ghost visible = total;
    let mut i: usize = 0;
    while i < candidate.inputs.len()
        invariant
            i <= candidate.inputs.len(),
            views == unspent_views(unspent@),
            total == restored_total(candidate@.inputs, views, visible, i as int),
        decreases candidate.inputs.len() - i,
    {
        if !is_shown(unspent, &candidate.inputs[i].0) {
            total = total.saturating_add(candidate.inputs[i].1);
        }
        i += 1;
    }
    total
}

fn does_spend(tx: &Transaction, coin: &OutPoint) -> (found: bool)
    ensures
        found == spends(tx@, *coin),
{
    let mut i: usize = 0;
    while i < tx.input.len()
        invariant
            i <= tx.input.len(),
            forall|k: int| 0 <= k < i ==> (#[trigger] tx@.input[k]).previous_output != *coin,
        decreases tx.input.len() - i,
    {
        if same_outpoint(&tx.input[i].previous_output, coin) {
            assert(tx@.input[i as int].previous_output == *coin);
            return true;
        }
        i += 1;
    }
    false
}

fn find_shared(tx: &Transaction, inputs: &Vec<(OutPoint, u64)>) -> (shared: Option<OutPoint>)
    ensures
        shared == shared_coin(tx@, inputs@, 0),
{
    let mut i: usize = 0;
    while i < inputs.len()
        invariant
            i <= inputs.len(),
            shared_coin(tx@, inputs@, 0) == shared_coin(tx@, inputs@, i as int),
        decreases inputs.len() - i,
    {
        if does_spend(tx, &inputs[i].0) {
            return Some(inputs[i].0);
        }
        i += 1;
    }
    None
}

fn lists_bytes(list: &Vec<Vec<u8>>, bytes: &Vec<u8>) -> (found: bool)
    ensures
        found == byte_strings(list@).contains(bytes@),
{
    let ghost views = byte_strings(list@);
    let mut i: usize = 0;
    while i < list.len()
        invariant
            i <= list.len(),
            views == byte_strings(list@),
            forall|k: int| 0 <= k < i ==> views[k] != bytes@,
        decreases list.len() - i,
    {
        assert(views[i as int] == list@[i as int]@);
        if same_bytes(&list[i], bytes) {
            return true;
        }
        i += 1;
    }
    false
}

fn share_of_paired(
    escape: &Transaction,
    paired: &CoverageContext,
    confirmed: &Result<bool, String>,
    vault_scripts: &Vec<Vec<u8>>,
    pays_escape: &Vec<bool>,
) -> (out: Result<(u64, u64), String>)
    ensures
        texted(out) == paired_share(
            escape@,
            paired@,
            texted(*confirmed),
            byte_strings(vault_scripts@),
            pays_escape@,
        ),
{
    if paired.hot {
        return Ok((0, 0));
    }
    if let Some(coin) = find_shared(escape, &paired.inputs) {
        let mut text = owned("residual escape shares input ");
        push_outpoint(&mut text, &coin);
        text.append(" with its completed escape-class spend — not disjoint (ADR-0012 class-aware coverage)");
        return Err(text);
    }
    let txid = compute_txid(&paired.tx);
    match confirmed {
        Err(e) => {
            let mut text = owned("cannot confirm paired escape-class spend ");
            push_txid(&mut text, txid.as_slice());
            text.append(": ");
            text.append(e.as_str());
            return Err(text);
        },
        Ok(false) => {
            let mut text = owned("paired escape-class spend ");
            push_txid(&mut text, txid.as_slice());
            text.append(
                " is not confirmed, so its outputs cannot count as delivered in union coverage",
            );
            return Err(text);
        },
        Ok(true) => {},
    }
    let mut input_value: u64 = 0;
    let mut i: usize = 0;
    while i < paired.inputs.len()
        invariant
            i <= paired.inputs.len(),
            input_value == coins_total(paired@.inputs, i as int),
        decreases paired.inputs.len() - i,
    {
        input_value = input_value.saturating_add(paired.inputs[i].1);
        i += 1;
    }
    let ghost outputs = paired@.tx.output;
    let mut change: u64 = 0;
    let mut i: usize = 0;
    while i < paired.tx.output.len()
        invariant
            i <= paired.tx.output.len(),
            outputs == paired.tx.output@.map_values(|o: TxOut| o@),
            change == paid_to(outputs, byte_strings(vault_scripts@), i as int),
        decreases paired.tx.output.len() - i,
    {
        assert(outputs[i as int] == paired.tx.output@[i as int]@);
        if lists_bytes(vault_scripts, &paired.tx.output[i].script_pubkey) {
            change = change.saturating_add(paired.tx.output[i].value);
        }
        i += 1;
    }
    if change > input_value {
        return Err(
            owned("paired escape-class spend returns more value to the vault than its inputs"),
        );
    }
    Ok((input_value - change, sum_marked(&paired.tx.output, pays_escape, 0)))
}

/// The part of fire-time admissibility that is the same for every rung, from what the
/// chain and the registry answered. A sweep that cannot be judged does not fire.
pub fn sweep_env(node: &Node, facts: &SweepFacts) -> (out: Result<SweepEnv, String>)
    ensures
        texted(out) == facts.env(node@),
{
    let vault_scripts = node.vault_scripts();
    assert(byte_strings(vault_scripts@) =~= vault_scripts_of(node@));
    let candidate = match &facts.candidate {
        Some(candidate) => candidate,
        None => return Err(owned("armed escape candidate context is unavailable")),
    };
    let total_in: u64 = match &facts.prevouts {
        Err(e) => {
            let mut text = owned("cannot read escape prevouts: ");
            text.append(e.as_str());
            return Err(text);
        },
        Ok(prevouts) => {
            if prevouts.len() != candidate.tx.input.len() {
                let mut text = owned("chain backend returned ");
                push_decimal(&mut text, prevouts.len() as u64);
                text.append(" escape prevouts for ");
                push_decimal(&mut text, candidate.tx.input.len() as u64);
                text.append(" inputs");
                return Err(text);
            }
            match sum_swept(candidate, prevouts, facts.resident.is_some()) {
                Ok(total) => total,
                Err(e) => return Err(e),
            }
        },
    };
    if !facts.escape_configured {
        return Err(owned("no escape descriptor configured"));
    }
    let protected: u64 = match &facts.vault_unspent {
        Err(e) => {
            let mut text = owned("cannot enumerate the protected vault balance: ");
            text.append(e.as_str());
            return Err(text);
        },
        Ok(unspent) => sum_protected(candidate, unspent, &facts.resident),
    };
    if protected == 0 {
        return Err(
            owned("protected confirmed + authorized-unconfirmed vault balance is empty"),
        );
    }
    let paired = match &facts.pairing {
        None => return Err(owned("armed escape has no registered paired spend")),
        Some(None) => return Err(owned("armed escape's paired spend context is unavailable")),
        Some(Some(paired)) => paired,
    };
    match share_of_paired(
        &candidate.tx,
        paired,
        &facts.paired_confirmed,
        &vault_scripts,
        &facts.paired_pays_escape,
    ) {
        Err(e) => Err(e),
        Ok((departed, delivered)) => Ok(
            SweepEnv {
                total_in,
                protected_value: protected.saturating_add(departed),
                paired_delivered: delivered,
                laddered: facts.laddered,
            },
        ),
    }
}

} // verus!
