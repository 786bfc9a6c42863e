//! Laws of what a node remembers, and for how long.

use vstd::prelude::*;

use crate::node::NodeView;
use crate::proto::{RefusalCode, SignResponseView};
use crate::refresh::{interval_refusal, spend_comes_first};
use crate::replay::{
    pending_at, recorded, refreshed_within, seconds_since, unexpired, EntryView,
};
use crate::tx::{OutPoint, TxIn};
use crate::verdict::filed;

verus! {

/// A verdict on file is given again up to its expiry and not from then on, and filing it
/// changes nothing under any other key.
pub proof fn a_verdict_is_given_until_it_expires(
    log: Map<Seq<char>, EntryView>,
    key: Seq<char>,
    expiry: u64,
    verdict: SignResponseView,
    other: Seq<char>,
    now: u64,
)
    requires
        other != key,
    ensures
        ({
            let after = log.insert(key, EntryView { expiry, verdict });
            &&& now < expiry ==> recorded(after, key, now) == Some(verdict)
            &&& now >= expiry ==> recorded(after, key, now) is None
            &&& recorded(after, other, now) == recorded(log, other, now)
        }),
{
}

/// Pruning verdicts at one time changes no answer at that time or later, and leaves
/// nothing that has expired.
pub proof fn pruning_keeps_every_verdict_that_counts(
    log: Map<Seq<char>, EntryView>,
    key: Seq<char>,
    now: u64,
    later: u64,
)
    requires
        now <= later,
    ensures
        recorded(unexpired(log, now), key, later) == recorded(log, key, later),
        unexpired(log, now).contains_key(key) ==> unexpired(log, now)[key].expiry > now
            && log.contains_key(key) && unexpired(log, now)[key] == log[key],
{
}

/// A spend is pending through the second of its expiry and no longer, and pruning at one
/// time changes nothing at that time or later.
pub proof fn a_spend_is_pending_through_its_expiry(
    log: Map<Seq<char>, u64>,
    id: Seq<char>,
    now: u64,
    later: u64,
)
    requires
        now <= later,
    ensures
        pending_at(log, now).contains_key(id) <==> log.contains_key(id) && now <= log[id],
        pending_at(log, now).contains_key(id) ==> pending_at(log, now)[id] == log[id],
        pending_at(pending_at(log, now), later) == pending_at(log, later),
{
    assert(pending_at(pending_at(log, now), later) =~= pending_at(log, later));
}

/// A refresh has to wait exactly while a spend is pending that has not expired, or while a
/// spend is on its way through the node.
pub proof fn a_refresh_waits_for_every_spend(node: NodeView, now: u64)
    ensures
        spend_comes_first(node, now) <==> {
            ||| node.spend_preflight > 0
            ||| exists|id: Seq<char>| #[trigger]
                node.sign_state.pending.contains_key(id) && now <= node.sign_state.pending[id]
        },
{
    let pending = node.sign_state.pending;
    if exists|id: Seq<char>| pending_at(pending, now).contains_key(id) {
        let id = choose|id: Seq<char>| pending_at(pending, now).contains_key(id);
        assert(pending.contains_key(id));
    }
    if exists|id: Seq<char>| #[trigger] pending.contains_key(id) && now <= pending[id] {
        let id = choose|id: Seq<char>| #[trigger] pending.contains_key(id) && now <= pending[id];
        assert(pending_at(pending, now).contains_key(id));
    }
}

proof fn lemma_interval_iff(
    log: Map<OutPoint, u64>,
    inputs: Seq<TxIn>,
    now: u64,
    min_interval: u64,
    from: int,
)
    requires
        0 <= from <= inputs.len(),
    ensures
        interval_refusal(log, inputs, now, min_interval, from) is None <==> forall|i: int|
            from <= i < inputs.len() && log.contains_key(
                (#[trigger] inputs[i]).previous_output,
            ) ==> min_interval == 0 || log[inputs[i].previous_output] + min_interval <= now,
    decreases inputs.len() - from,
{
    if from < inputs.len() {
        lemma_interval_iff(log, inputs, now, min_interval, from + 1);
        let coin = inputs[from].previous_output;
        if log.contains_key(coin) && seconds_since(log[coin], now) < min_interval {
            assert(!(min_interval == 0 || log[inputs[from].previous_output] + min_interval
                <= now));
        }
    }
}

/// A refresh passes the rest rule exactly where each of its coins was last refreshed at
/// least the whole interval ago, if it ever was.
pub proof fn every_coin_must_have_rested(
    log: Map<OutPoint, u64>,
    inputs: Seq<TxIn>,
    now: u64,
    min_interval: u64,
)
    ensures
        interval_refusal(log, inputs, now, min_interval, 0) is None <==> forall|i: int|
            0 <= i < inputs.len() && log.contains_key((#[trigger] inputs[i]).previous_output)
                ==> min_interval == 0 || log[inputs[i].previous_output] + min_interval <= now,
{
    lemma_interval_iff(log, inputs, now, min_interval, 0);
}

/// Pruning the coins refreshed at one time frees no coin at that time or later: it forgets
/// only coins that have rested.
pub proof fn pruning_frees_no_coin(
    log: Map<OutPoint, u64>,
    inputs: Seq<TxIn>,
    now: u64,
    later: u64,
    min_interval: u64,
)
    requires
        now <= later,
    ensures
        interval_refusal(refreshed_within(log, now, min_interval), inputs, later, min_interval, 0)
            is None <==> interval_refusal(log, inputs, later, min_interval, 0) is None,
        forall|coin: OutPoint| #[trigger]
            refreshed_within(log, now, min_interval).contains_key(coin) ==> log.contains_key(coin)
                && refreshed_within(log, now, min_interval)[coin] == log[coin] && now < log[coin]
                + min_interval,
{
    let pruned = refreshed_within(log, now, min_interval);
    lemma_interval_iff(log, inputs, later, min_interval, 0);
    lemma_interval_iff(pruned, inputs, later, min_interval, 0);
    assert forall|i: int|
        0 <= i < inputs.len() && log.contains_key((#[trigger] inputs[i]).previous_output)
            && !pruned.contains_key(inputs[i].previous_output) implies log[inputs[i].previous_output]
        + min_interval <= later || min_interval == 0 by {
        let coin = inputs[i].previous_output;
        assert(!(seconds_since(log[coin], now) < min_interval));
    }
}

/// What may be given again to the same request: an acceptance, and of the refusals those
/// alone that judge where a transaction pays and what it costs. Nothing that a clock, a
/// pin, a signature, the chain or the load of the node had a part in is filed.
pub proof fn only_lasting_verdicts_are_filed(
    node: NodeView,
    key: Seq<char>,
    expiry: u64,
    verdict: SignResponseView,
)
    ensures
        ({
            let after = filed(node, key, expiry, verdict).sign_state.replay;
            let lasting = match verdict {
                SignResponseView::Accepted(_) => true,
                SignResponseView::Refusal(r) => match r.code {
                    RefusalCode::DestNotAllowed => true,
                    RefusalCode::ChangeNotDerivable => true,
                    RefusalCode::FeeExceedsCap => true,
                    _ => false,
                },
            };
            &&& lasting ==> after == node.sign_state.replay.insert(
                key,
                EntryView { expiry, verdict },
            )
            &&& !lasting ==> after == node.sign_state.replay
        }),
        filed(node, key, expiry, verdict).sign_state.pending == node.sign_state.pending,
        filed(node, key, expiry, verdict).authorized == node.authorized,
        filed(node, key, expiry, verdict).errands == node.errands,
        filed(node, key, expiry, verdict).outbox == node.outbox,
{
}

} // verus!
