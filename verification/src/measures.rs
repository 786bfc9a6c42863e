//! Laws of what is counted and weighed: amounts, fees, sizes and what a sweep
//! protects.

use vstd::prelude::*;

use crate::codec::transaction_weight;
use crate::ladder::{fee_of, min_fee_delta, vsize_bound};
use crate::node::{p2wsh_script, NodeParams, NodeView};
use crate::prevouts::{prevout_views, PrevoutView};
use crate::refresh::feerate_refusal;
use crate::rungs::{lemma_expected_sequences, lemma_sequences_expected};
use crate::sweep::{
    coins_total, marked_total, paid_to, paired_share, protected_value, restored_total,
    rung_objection, shared_coin, shown, spends, swept, swept_from, texted, unspent_total,
    unspent_views, vault_scripts_of, CoverageView, ScoredLadderView, SweepEnv, SweepFacts,
};
use crate::tx::{
    declared_total, output_total, OutPoint, PsbtInputView, PsbtView, TransactionView, TxOutView,
};

verus! {

/// The sum of numbers.
pub open spec fn sum(amounts: Seq<int>) -> int
    decreases amounts.len(),
{
    if amounts.len() == 0 {
        0
    } else {
        sum(amounts.drop_last()) + amounts.last()
    }
}

/// A number, or the largest amount where it is larger.
pub open spec fn capped(a: int) -> int {
    if a > u64::MAX {
        u64::MAX as int
    } else {
        a
    }
}

/// The sum of amounts is at least each of them, and one more amount adds just itself.
pub proof fn a_sum_counts_each_amount(amounts: Seq<int>, more: int)
    requires
        forall|i: int| 0 <= i < amounts.len() ==> #[trigger] amounts[i] >= 0,
    ensures
        sum(amounts) >= 0,
        forall|i: int| 0 <= i < amounts.len() ==> sum(amounts) >= #[trigger] amounts[i],
        sum(amounts.push(more)) == sum(amounts) + more,
    decreases amounts.len(),
{
    assert(amounts.push(more).drop_last() =~= amounts);
    if amounts.len() > 0 {
        let rest = amounts.drop_last();
        assert forall|i: int| 0 <= i < rest.len() implies #[trigger] rest[i] >= 0 by {
            assert(amounts[i] >= 0);
        }
        a_sum_counts_each_amount(rest, 0);
        assert forall|i: int| 0 <= i < amounts.len() implies sum(amounts)
            >= #[trigger] amounts[i] by {
            if i < rest.len() {
                assert(rest[i] == amounts[i]);
            }
        }
    }
}

/// The amounts of the outputs.
pub open spec fn output_amounts(outputs: Seq<TxOutView>) -> Seq<int> {
    outputs.map_values(|o: TxOutView| o.value as int)
}

/// The amounts of the coins that the inputs declare; none counts as nothing.
pub open spec fn declared_amounts(inputs: Seq<PsbtInputView>) -> Seq<int> {
    inputs.map_values(
        |i: PsbtInputView|
            match i.witness_utxo {
                Some(utxo) => utxo.value as int,
                None => 0,
            },
    )
}

/// What a transaction pays out is the sum of all its outputs.
pub proof fn every_output_counts(outputs: Seq<TxOutView>)
    ensures
        output_total(outputs) == capped(sum(output_amounts(outputs))),
        sum(output_amounts(outputs)) >= 0,
    decreases outputs.len(),
{
    if outputs.len() > 0 {
        every_output_counts(outputs.drop_last());
        assert(output_amounts(outputs).drop_last() =~= output_amounts(outputs.drop_last()));
    }
}

/// What a transaction declares to spend is the sum over all its inputs.
pub proof fn every_declared_coin_counts(inputs: Seq<PsbtInputView>)
    ensures
        declared_total(inputs) == capped(sum(declared_amounts(inputs))),
        sum(declared_amounts(inputs)) >= 0,
    decreases inputs.len(),
{
    if inputs.len() > 0 {
        every_declared_coin_counts(inputs.drop_last());
        assert(declared_amounts(inputs).drop_last() =~= declared_amounts(inputs.drop_last()));
    }
}

/// The fee of a transaction is what its coins hold beyond its outputs, and it is known
/// exactly where every input declares its coin.
pub proof fn a_fee_is_what_the_outputs_leave(psbt: PsbtView)
    ensures
        fee_of(psbt) is Some <==> forall|i: int|
            0 <= i < psbt.inputs.len() ==> (#[trigger] psbt.inputs[i]).witness_utxo is Some,
        ({
            let spent = capped(sum(declared_amounts(psbt.inputs)));
            let paid = capped(sum(output_amounts(psbt.unsigned_tx.output)));
            fee_of(psbt) matches Some(fee) ==> if spent >= paid {
                fee + paid == spent
            } else {
                fee == 0
            }
        }),
{
    every_declared_coin_counts(psbt.inputs);
    every_output_counts(psbt.unsigned_tx.output);
}

/// The bound on the finalized size covers the weight that the transaction has once every
/// one of its inputs carries the largest witness, and no more than rounding up takes:
/// the witness is counted for each input. It fails only where that weight is beyond
/// all bounds.
pub proof fn the_size_bound_counts_every_witness(max_satisfaction: u64, tx: TransactionView)
    ensures
        ({
            let full = transaction_weight(tx) + 2 + (max_satisfaction + 1) * tx.input.len();
            match vsize_bound(max_satisfaction, tx) {
                Ok(vsize) => full <= 4 * vsize < full + 4,
                Err(_) => full + 3 > u64::MAX || max_satisfaction == u64::MAX,
            }
        }),
{
    let inputs = tx.input.len();
    assert((max_satisfaction + 1) * inputs >= 0) by (nonlinear_arith)
        requires
            max_satisfaction >= 0,
            inputs >= 0,
    ;
}

/// A larger witness makes the bound larger by what it adds for each of the inputs.
pub proof fn the_size_bound_grows_with_each_input(
    max_satisfaction: u64,
    more: u64,
    tx: TransactionView,
)
    requires
        vsize_bound(max_satisfaction, tx) is Ok,
        max_satisfaction + 4 * more <= u64::MAX,
        vsize_bound((max_satisfaction + 4 * more) as u64, tx) is Ok,
    ensures
        vsize_bound((max_satisfaction + 4 * more) as u64, tx)->Ok_0 == vsize_bound(
            max_satisfaction,
            tx,
        )->Ok_0 + more * tx.input.len(),
{
    let inputs = tx.input.len();
    the_size_bound_counts_every_witness(max_satisfaction, tx);
    the_size_bound_counts_every_witness((max_satisfaction + 4 * more) as u64, tx);
    assert((max_satisfaction + 4 * more + 1) * inputs == (max_satisfaction + 1) * inputs + 4 * (more
        * inputs)) by (nonlinear_arith);
}

/// A replacement pays at least one satoshi more for each virtual byte of its bound.
pub proof fn a_replacement_pays_for_its_size(vsize: u64)
    ensures
        min_fee_delta(vsize) == vsize,
{
}

/// The amounts that the chain shows unspent; those created by `left_out` do not count.
pub open spec fn shown_amounts(
    unspent: Seq<(OutPoint, PrevoutView)>,
    left_out: Option<[u8; 32]>,
) -> Seq<int> {
    unspent.map_values(
        |u: (OutPoint, PrevoutView)|
            if left_out == Some(u.0.txid) {
                0
            } else {
                u.1.txout.value as int
            },
    )
}

/// The amounts of the coins that the chain does not show.
pub open spec fn hidden_amounts(
    inputs: Seq<(OutPoint, u64)>,
    unspent: Seq<(OutPoint, PrevoutView)>,
) -> Seq<int> {
    inputs.map_values(
        |coin: (OutPoint, u64)|
            if unspent.map_values(|u: (OutPoint, PrevoutView)| u.0).contains(coin.0) {
                0
            } else {
                coin.1 as int
            },
    )
}

proof fn lemma_unspent_total(
    unspent: Seq<(OutPoint, PrevoutView)>,
    resident: Option<[u8; 32]>,
    n: int,
)
    requires
        0 <= n <= unspent.len(),
    ensures
        unspent_total(unspent, resident, n) == capped(sum(shown_amounts(unspent, resident).take(n))),
        sum(shown_amounts(unspent, resident).take(n)) >= 0,
    decreases n,
{
    let amounts = shown_amounts(unspent, resident);
    if n > 0 {
        lemma_unspent_total(unspent, resident, n - 1);
        assert(amounts.take(n).drop_last() =~= amounts.take(n - 1));
        assert(amounts.take(n).last() == amounts[n - 1]);
    }
}

proof fn lemma_restored_total(
    inputs: Seq<(OutPoint, u64)>,
    unspent: Seq<(OutPoint, PrevoutView)>,
    start: u64,
    n: int,
)
    requires
        0 <= n <= inputs.len(),
    ensures
        restored_total(inputs, unspent, start, n) == capped(
            start + sum(hidden_amounts(inputs, unspent).take(n)),
        ),
        sum(hidden_amounts(inputs, unspent).take(n)) >= 0,
    decreases n,
{
    let amounts = hidden_amounts(inputs, unspent);
    if n > 0 {
        lemma_restored_total(inputs, unspent, start, n - 1);
        assert(amounts.take(n).drop_last() =~= amounts.take(n - 1));
        assert(amounts.take(n).last() == amounts[n - 1]);
        let coins = unspent.map_values(|u: (OutPoint, PrevoutView)| u.0);
        let coin = inputs[n - 1].0;
        assert(shown(unspent, coin) == coins.contains(coin)) by {
            if shown(unspent, coin) {
                let i = choose|i: int| 0 <= i < unspent.len() && (#[trigger] unspent[i]).0 == coin;
                assert(coins[i] == coin);
            }
            if coins.contains(coin) {
                let i = choose|i: int| 0 <= i < coins.len() && coins[i] == coin;
                assert(unspent[i].0 == coin);
            }
        }
    }
}

/// While no rung is resident, the sweep is measured against the sum of all of the
/// vault's unspent coins: it is at least each coin, and a coin more raises it by that
/// coin.
pub proof fn every_unspent_coin_is_protected(
    candidate: CoverageView,
    unspent: Seq<(OutPoint, PrevoutView)>,
    more: (OutPoint, PrevoutView),
)
    ensures
        protected_value(candidate, unspent, None) == capped(
            sum(unspent.map_values(|u: (OutPoint, PrevoutView)| u.1.txout.value as int)),
        ),
        forall|i: int|
            0 <= i < unspent.len() ==> protected_value(candidate, unspent, None) >= (
            #[trigger] unspent[i]).1.txout.value,
        protected_value(candidate, unspent.push(more), None) == capped(
            protected_value(candidate, unspent, None) + more.1.txout.value,
        ),
{
    let amounts = unspent.map_values(|u: (OutPoint, PrevoutView)| u.1.txout.value as int);
    lemma_unspent_total(unspent, None, unspent.len() as int);
    assert(shown_amounts(unspent, None) =~= amounts);
    assert(amounts.take(unspent.len() as int) =~= amounts);
    a_sum_counts_each_amount(amounts, more.1.txout.value as int);
    assert forall|i: int| 0 <= i < unspent.len() implies protected_value(candidate, unspent, None)
        >= (#[trigger] unspent[i]).1.txout.value by {
        assert(sum(amounts) >= amounts[i]);
    }
    let longer = unspent.push(more);
    lemma_unspent_total(longer, None, longer.len() as int);
    assert(shown_amounts(longer, None).take(longer.len() as int) =~= amounts.push(
        more.1.txout.value as int,
    ));
}

/// While a rung of the escape is resident, the sweep is measured against the coins that
/// the rung did not create and the escape's own coins that the rung hides.
pub proof fn a_resident_rung_changes_nothing_protected(
    candidate: CoverageView,
    unspent: Seq<(OutPoint, PrevoutView)>,
    rung: [u8; 32],
)
    ensures
        protected_value(candidate, unspent, Some(rung)) == capped(
            sum(shown_amounts(unspent, Some(rung))) + sum(hidden_amounts(candidate.inputs, unspent)),
        ),
{
    let shown = shown_amounts(unspent, Some(rung));
    let hidden = hidden_amounts(candidate.inputs, unspent);
    lemma_unspent_total(unspent, Some(rung), unspent.len() as int);
    assert(shown.take(unspent.len() as int) =~= shown);
    lemma_restored_total(
        candidate.inputs,
        unspent,
        unspent_total(unspent, Some(rung), unspent.len() as int),
        candidate.inputs.len() as int,
    );
    assert(hidden.take(candidate.inputs.len() as int) =~= hidden);
}

/// The amounts that the sweep's inputs bring in: what the chain shows, or what is on
/// file where it shows nothing.
pub open spec fn swept_amounts(
    inputs: Seq<(OutPoint, u64)>,
    prevouts: Seq<Option<PrevoutView>>,
) -> Seq<int> {
    Seq::new(
        prevouts.len(),
        |i: int|
            match prevouts[i] {
                Some(p) => p.txout.value as int,
                None => inputs[i].1 as int,
            },
    )
}

proof fn lemma_swept_from(
    candidate: CoverageView,
    prevouts: Seq<Option<PrevoutView>>,
    resident: bool,
    i: int,
    acc: u64,
)
    requires
        0 <= i <= prevouts.len(),
        prevouts.len() == candidate.tx.input.len(),
        prevouts.len() <= candidate.inputs.len(),
        acc == capped(sum(swept_amounts(candidate.inputs, prevouts).take(i))),
        sum(swept_amounts(candidate.inputs, prevouts).take(i)) >= 0,
    ensures
        swept_from(candidate, prevouts, resident, i, acc) matches Ok(total) ==> {
            &&& total == capped(sum(swept_amounts(candidate.inputs, prevouts)))
            &&& forall|k: int|
                i <= k < prevouts.len() ==> (#[trigger] candidate.tx.input[k]).previous_output
                    == candidate.inputs[k].0 && (prevouts[k] is Some || resident)
        },
        swept_from(candidate, prevouts, resident, i, acc) is Err ==> exists|k: int|
            i <= k < prevouts.len() && ((#[trigger] candidate.tx.input[k]).previous_output
                != candidate.inputs[k].0 || (prevouts[k] is None && !resident)),
    decreases prevouts.len() - i,
{
    let amounts = swept_amounts(candidate.inputs, prevouts);
    if i < prevouts.len() {
        assert(amounts.take(i + 1).drop_last() =~= amounts.take(i));
        assert(amounts.take(i + 1).last() == amounts[i]);
        if candidate.tx.input[i].previous_output == candidate.inputs[i].0 && (prevouts[i] is Some
            || resident) {
            let next = capped(acc + amounts[i]) as u64;
            lemma_swept_from(candidate, prevouts, resident, i + 1, next);
            assert(swept_from(candidate, prevouts, resident, i, acc) == swept_from(
                candidate,
                prevouts,
                resident,
                i + 1,
                next,
            ));
        }
    } else {
        assert(amounts.take(i) =~= amounts);
    }
}

/// What an escape sweeps is the sum over all its inputs. It is known exactly where the
/// chain answers for each input, the inputs are those on file, and no coin is gone
/// unless a resident rung of the same escape took it.
pub proof fn every_swept_coin_counts(
    candidate: CoverageView,
    prevouts: Seq<Option<PrevoutView>>,
    resident: bool,
)
    requires
        prevouts.len() <= candidate.inputs.len(),
    ensures
        swept(candidate, Ok(prevouts), resident) matches Ok(total) ==> total == capped(
            sum(swept_amounts(candidate.inputs, prevouts)),
        ),
        swept(candidate, Ok(prevouts), resident) is Ok <==> {
            &&& prevouts.len() == candidate.tx.input.len()
            &&& forall|k: int|
                0 <= k < prevouts.len() ==> (#[trigger] candidate.tx.input[k]).previous_output
                    == candidate.inputs[k].0 && (prevouts[k] is Some || resident)
        },
{
    assert(swept_amounts(candidate.inputs, prevouts).take(0) =~= Seq::<int>::empty());
    if prevouts.len() == candidate.tx.input.len() {
        lemma_swept_from(candidate, prevouts, resident, 0, 0);
    }
}

/// The amounts of the outputs that `chosen` marks.
pub open spec fn marked_amounts(outputs: Seq<TxOutView>, chosen: Seq<bool>) -> Seq<int> {
    Seq::new(
        outputs.len(),
        |i: int|
            if i < chosen.len() && chosen[i] {
                outputs[i].value as int
            } else {
                0
            },
    )
}

proof fn lemma_marked_total(outputs: Seq<TxOutView>, chosen: Seq<bool>, start: u64, n: int)
    requires
        0 <= n <= outputs.len(),
    ensures
        marked_total(outputs, chosen, start, n) == capped(
            start + sum(marked_amounts(outputs, chosen).take(n)),
        ),
        sum(marked_amounts(outputs, chosen).take(n)) >= 0,
    decreases n,
{
    let amounts = marked_amounts(outputs, chosen);
    if n > 0 {
        lemma_marked_total(outputs, chosen, start, n - 1);
        assert(amounts.take(n).drop_last() =~= amounts.take(n - 1));
        assert(amounts.take(n).last() == amounts[n - 1]);
    } else {
        assert(amounts.take(n) =~= Seq::<int>::empty());
    }
}

/// The amounts of the coins.
pub open spec fn coin_amounts(coins: Seq<(OutPoint, u64)>) -> Seq<int> {
    coins.map_values(|c: (OutPoint, u64)| c.1 as int)
}

proof fn lemma_coins_total(coins: Seq<(OutPoint, u64)>, n: int)
    requires
        0 <= n <= coins.len(),
    ensures
        coins_total(coins, n) == capped(sum(coin_amounts(coins).take(n))),
        sum(coin_amounts(coins).take(n)) >= 0,
    decreases n,
{
    let amounts = coin_amounts(coins);
    if n > 0 {
        lemma_coins_total(coins, n - 1);
        assert(amounts.take(n).drop_last() =~= amounts.take(n - 1));
        assert(amounts.take(n).last() == amounts[n - 1]);
    }
}

/// The amounts of the outputs that pay one of `scripts`.
pub open spec fn returned_amounts(outputs: Seq<TxOutView>, scripts: Seq<Seq<u8>>) -> Seq<int> {
    outputs.map_values(
        |o: TxOutView|
            if scripts.contains(o.script_pubkey) {
                o.value as int
            } else {
                0
            },
    )
}

proof fn lemma_paid_to(outputs: Seq<TxOutView>, scripts: Seq<Seq<u8>>, n: int)
    requires
        0 <= n <= outputs.len(),
    ensures
        paid_to(outputs, scripts, n) == capped(sum(returned_amounts(outputs, scripts).take(n))),
        sum(returned_amounts(outputs, scripts).take(n)) >= 0,
    decreases n,
{
    let amounts = returned_amounts(outputs, scripts);
    if n > 0 {
        lemma_paid_to(outputs, scripts, n - 1);
        assert(amounts.take(n).drop_last() =~= amounts.take(n - 1));
        assert(amounts.take(n).last() == amounts[n - 1]);
    }
}

proof fn lemma_shared_coin(tx: TransactionView, inputs: Seq<(OutPoint, u64)>, i: int)
    requires
        0 <= i <= inputs.len(),
    ensures
        shared_coin(tx, inputs, i) is None <==> forall|a: int, b: int|
            0 <= a < tx.input.len() && i <= b < inputs.len() ==> (
            #[trigger] tx.input[a]).previous_output != (#[trigger] inputs[b]).0,
    decreases inputs.len() - i,
{
    if i < inputs.len() {
        lemma_shared_coin(tx, inputs, i + 1);
        if spends(tx, inputs[i].0) {
            let a = choose|a: int|
                0 <= a < tx.input.len() && (#[trigger] tx.input[a]).previous_output
                    == inputs[i].0;
            assert(tx.input[a].previous_output == inputs[i].0);
        }
    }
}

/// A hot spend adds nothing to the coverage rule. An escape-class spend counts only once
/// it is confirmed and where it shares no coin with the escape. What has left the vault
/// in it is all that its coins held but for what it paid back to the vault; what was
/// delivered is the sum of all its outputs to the escape wallet.
pub proof fn a_paired_spend_counts_what_left_the_vault(
    escape: TransactionView,
    paired: CoverageView,
    confirmed: Result<bool, Seq<char>>,
    vault_scripts: Seq<Seq<u8>>,
    pays_escape: Seq<bool>,
)
    ensures
        ({
            let share = paired_share(escape, paired, confirmed, vault_scripts, pays_escape);
            let spent = capped(sum(coin_amounts(paired.inputs)));
            let change = capped(sum(returned_amounts(paired.tx.output, vault_scripts)));
            let apart = forall|a: int, b: int|
                0 <= a < escape.input.len() && 0 <= b < paired.inputs.len() ==> (
                #[trigger] escape.input[a]).previous_output != (#[trigger] paired.inputs[b]).0;
            &&& paired.hot ==> share == Ok::<(u64, u64), Seq<char>>((0, 0))
            &&& !paired.hot ==> (share is Ok <==> apart && confirmed == Ok::<bool, Seq<char>>(true)
                && change <= spent)
            &&& !paired.hot ==> (share matches Ok((departed, delivered)) ==> {
                &&& departed + change == spent
                &&& delivered == capped(sum(marked_amounts(paired.tx.output, pays_escape)))
            })
        }),
{
    let outputs = paired.tx.output;
    let n = outputs.len() as int;
    lemma_shared_coin(escape, paired.inputs, 0);
    lemma_coins_total(paired.inputs, paired.inputs.len() as int);
    lemma_paid_to(outputs, vault_scripts, n);
    lemma_marked_total(outputs, pays_escape, 0, n);
    let coins = coin_amounts(paired.inputs);
    assert(coins.take(paired.inputs.len() as int) =~= coins);
    assert(returned_amounts(outputs, vault_scripts).take(n) =~= returned_amounts(
        outputs,
        vault_scripts,
    ));
    assert(marked_amounts(outputs, pays_escape).take(n) =~= marked_amounts(outputs, pays_escape));
}

/// A rung may fire exactly where it is final at once, where its fee is at least the floor
/// for every virtual byte, and where the escape wallet gets, with what the paired spend
/// delivered, at least the percentage of the protected value that the policy asks for.
pub proof fn what_fires_pays_and_covers(
    params: NodeParams,
    env: SweepEnv,
    tx: TransactionView,
    vsize: u64,
    pays_escape: Option<Seq<bool>>,
)
    ensures
        rung_objection(params, env, tx, vsize, pays_escape) is None <==> {
            let paid = capped(sum(output_amounts(tx.output)));
            &&& forall|i: int|
                0 <= i < tx.input.len() ==> (#[trigger] tx.input[i]).sequence == if env.laddered {
                    0xffff_fffdu32
                } else {
                    0xffff_ffffu32
                }
            &&& env.laddered ==> tx.lock_time == 0
            &&& vsize > 0
            &&& params.escape_feerate_floor * vsize <= if env.total_in > paid {
                env.total_in - paid
            } else {
                0
            }
            &&& pays_escape matches Some(chosen)
            &&& env.protected_value * params.escape_coverage_pct <= 100 * capped(
                env.paired_delivered + sum(marked_amounts(tx.output, chosen)),
            )
        },
{
    let n = tx.output.len() as int;
    let expected = if env.laddered {
        0xffff_fffdu32
    } else {
        0xffff_ffffu32
    };
    every_output_counts(tx.output);
    if let Some(chosen) = pays_escape {
        lemma_marked_total(tx.output, chosen, env.paired_delivered, n);
        assert(marked_amounts(tx.output, chosen).take(n) =~= marked_amounts(tx.output, chosen));
    }
    if forall|i: int| 0 <= i < tx.input.len() ==> (#[trigger] tx.input[i]).sequence == expected {
        lemma_sequences_expected(tx.input, expected, 0);
    }
    if rung_objection(params, env, tx, vsize, pays_escape) is None {
        lemma_expected_sequences(tx.input, expected, 0);
    }
}

/// A rung reaches a feerate exactly where what it leaves of the swept coins pays that
/// rate for every virtual byte of its largest size.
pub proof fn a_rung_reaches_what_it_pays(ladder: ScoredLadderView, rung: int, required: u64)
    requires
        0 <= rung < ladder.rungs.len(),
        rung < ladder.maximum_vsizes.len(),
    ensures
        ladder.reaches(rung, required) <==> required * ladder.maximum_vsizes[rung] <= {
            let paid = capped(sum(output_amounts(ladder.rungs[rung].output)));
            if ladder.total_in > paid {
                ladder.total_in - paid
            } else {
                0
            }
        },
{
    every_output_counts(ladder.rungs[rung].output);
}

/// A refresh passes the fee cap exactly where its fee is at most the capped rate for every
/// virtual byte of its unsigned size, rounded up; one without a size passes.
pub proof fn a_refresh_pays_at_most_the_cap(node: NodeView, refresh: PsbtView, vsize: int)
    requires
        transaction_weight(refresh.unsigned_tx) <= 4 * vsize < transaction_weight(
            refresh.unsigned_tx,
        ) + 4,
    ensures
        feerate_refusal(node, refresh) is None <==> {
            let spent = capped(sum(declared_amounts(refresh.inputs)));
            let paid = capped(sum(output_amounts(refresh.unsigned_tx.output)));
            vsize == 0 || spent - paid <= node.params.refresh_max_feerate * vsize
        },
{
    every_declared_coin_counts(refresh.inputs);
    every_output_counts(refresh.unsigned_tx.output);
    let rate = node.params.refresh_max_feerate;
    assert(rate * vsize >= 0) by (nonlinear_arith)
        requires
            rate >= 0,
            vsize >= 0,
    ;
}

/// A sweep can be judged only where its escape, the vault's coins and the paired spend are
/// known. Its inputs then bring in the sum of their coins; what it is measured against
/// is all of the vault's unspent value, more by what has left the vault in the paired
/// spend; and what that spend delivered is the sum of its outputs to the escape wallet.
pub proof fn a_sweep_is_measured_against_the_vault(facts: SweepFacts, node: NodeView)
    requires
        facts.env(node) is Ok,
        facts.candidate matches Some(c) && facts.prevouts matches Ok(p) && p@.len()
            <= c@.inputs.len(),
    ensures
        ({
            let env = facts.env(node)->Ok_0;
            let candidate = facts.candidate->0@;
            let unspent = unspent_views(facts.vault_unspent->Ok_0@);
            let shown = match facts.resident {
                None => sum(unspent.map_values(|u: (OutPoint, PrevoutView)| u.1.txout.value as int)),
                Some(rung) => sum(shown_amounts(unspent, Some(rung))) + sum(
                    hidden_amounts(candidate.inputs, unspent),
                ),
            };
            let paired = facts.pairing->0->0@;
            let vault = seq![p2wsh_script(node.keys.witness_script)];
            &&& facts.escape_configured
            &&& facts.vault_unspent is Ok
            &&& facts.pairing is Some && facts.pairing->0 is Some
            &&& shown > 0
            &&& env.laddered == facts.laddered
            &&& env.total_in == capped(
                sum(swept_amounts(candidate.inputs, prevout_views(facts.prevouts->Ok_0@))),
            )
            &&& paired.hot ==> env.protected_value == capped(shown) && env.paired_delivered == 0
            &&& !paired.hot ==> {
                &&& texted(facts.paired_confirmed) == Ok::<bool, Seq<char>>(true)
                &&& env.protected_value == capped(
                    capped(shown) + capped(sum(coin_amounts(paired.inputs))) - capped(
                        sum(returned_amounts(paired.tx.output, vault)),
                    ),
                )
                &&& env.paired_delivered == capped(
                    sum(marked_amounts(paired.tx.output, facts.paired_pays_escape@)),
                )
            }
        }),
{
    let candidate = facts.candidate->0@;
    let prevouts = prevout_views(facts.prevouts->Ok_0@);
    every_swept_coin_counts(candidate, prevouts, facts.resident is Some);
    let unspent = unspent_views(facts.vault_unspent->Ok_0@);
    match facts.resident {
        None => {
            let amounts = unspent.map_values(
                |u: (OutPoint, PrevoutView)| u.1.txout.value as int,
            );
            lemma_unspent_total(unspent, None, unspent.len() as int);
            assert(shown_amounts(unspent, None) =~= amounts);
            assert(amounts.take(unspent.len() as int) =~= amounts);
        },
        Some(rung) => {
            a_resident_rung_changes_nothing_protected(candidate, unspent, rung);
        },
    }
    a_paired_spend_counts_what_left_the_vault(
        candidate.tx,
        facts.pairing->0->0@,
        texted(facts.paired_confirmed),
        vault_scripts_of(node),
        facts.paired_pays_escape@,
    );
}

/// A sweep can be judged as soon as its escape is registered as it is, the chain shows each
/// of its coins or a resident rung hides them, the escape wallet is configured, the vault
/// holds something, and the paired spend is known and hot, or apart from it and
/// confirmed and not gainful.
pub proof fn a_known_sweep_can_be_judged(facts: SweepFacts, node: NodeView)
    requires
        facts.candidate matches Some(c) && facts.prevouts matches Ok(p) && p@.len()
            <= c@.inputs.len(),
        ({
            let candidate = facts.candidate->0@;
            let prevouts = prevout_views(facts.prevouts->Ok_0@);
            let paired = facts.pairing->0->0@;
            let vault = seq![p2wsh_script(node.keys.witness_script)];
            &&& prevouts.len() == candidate.tx.input.len()
            &&& forall|k: int|
                0 <= k < prevouts.len() ==> (#[trigger] candidate.tx.input[k]).previous_output
                    == candidate.inputs[k].0 && (prevouts[k] is Some || facts.resident is Some)
            &&& facts.escape_configured
            &&& facts.vault_unspent matches Ok(unspent) && protected_value(
                candidate,
                unspent_views(unspent@),
                facts.resident,
            ) > 0
            &&& facts.pairing is Some && facts.pairing->0 is Some
            &&& paired.hot || {
                &&& forall|a: int, b: int|
                    0 <= a < candidate.tx.input.len() && 0 <= b < paired.inputs.len() ==> (
                    #[trigger] candidate.tx.input[a]).previous_output != (
                    #[trigger] paired.inputs[b]).0
                &&& facts.paired_confirmed == Ok::<bool, String>(true)
                &&& capped(sum(returned_amounts(paired.tx.output, vault))) <= capped(
                    sum(coin_amounts(paired.inputs)),
                )
            }
        }),
    ensures
        facts.env(node) is Ok,
{
    let candidate = facts.candidate->0@;
    every_swept_coin_counts(
        candidate,
        prevout_views(facts.prevouts->Ok_0@),
        facts.resident is Some,
    );
    a_paired_spend_counts_what_left_the_vault(
        candidate.tx,
        facts.pairing->0->0@,
        texted(facts.paired_confirmed),
        vault_scripts_of(node),
        facts.paired_pays_escape@,
    );
}

} // verus!
