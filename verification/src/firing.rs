//! Laws of the sweep as it is planned, found on the network and broadcast.

use vstd::prelude::*;

use crate::broadcast::{
    settles, BroadcastEventView, BroadcastOutcome, BroadcastStepView, BroadcastTerms,
    CombineEndView, CombineEventView, CombineFault, CombineStepView, CombineTerms,
};
use crate::codec::{raw_transaction_id, transaction_id};
use crate::crypto::sha256_digest;
use crate::fire::{
    latched_sweep, mark_views, mempool_view, network_state, no_longer_held, polled,
    request_expiry, resident_id, rung_scores, rung_sizes, rungs_view, settled, settled_ids, sweep_plan,
    ArmedEscapeState, PreflightFacts,
};
use crate::ladder::vsize_bound;
use crate::measures::{
    capped, marked_amounts, output_amounts, sum, what_fires_pays_and_covers,
};
use crate::node::{heartbeat_bucket, p2wsh_script, NodeParams, NodeView};
use crate::proto::TaggedRequestView;
use crate::rungs::{lemma_first_where, lemma_last_where};
use crate::sweep::{first_where, rung_objection, texted, ScoredLadderView, SweepEnv, SweepFacts};
use crate::tx::TransactionView;

verus! {

/// The sizes of a ladder are the bounds of its rungs, one for each and in order; they are
/// known exactly where each bound is.
pub proof fn every_rung_is_sized(max_satisfaction: u64, rungs: Seq<TransactionView>)
    ensures
        match rung_sizes(max_satisfaction, rungs) {
            Ok(sizes) => sizes.len() == rungs.len() && forall|i: int|
                0 <= i < rungs.len() ==> vsize_bound(max_satisfaction, #[trigger] rungs[i]) == Ok::<
                    u64,
                    Seq<char>,
                >(sizes[i]),
            Err(_) => exists|i: int|
                0 <= i < rungs.len() && vsize_bound(max_satisfaction, #[trigger] rungs[i]) is Err,
        },
    decreases rungs.len(),
{
    if rungs.len() > 0 {
        let rest = rungs.drop_last();
        every_rung_is_sized(max_satisfaction, rest);
        match rung_sizes(max_satisfaction, rest) {
            Ok(before) => {
                if let Ok(sizes) = rung_sizes(max_satisfaction, rungs) {
                    assert forall|i: int| 0 <= i < rungs.len() implies vsize_bound(
                        max_satisfaction,
                        #[trigger] rungs[i],
                    ) == Ok::<u64, Seq<char>>(sizes[i]) by {
                        if i < rest.len() {
                            assert(rest[i] == rungs[i]);
                        }
                    }
                } else {
                    assert(vsize_bound(max_satisfaction, rungs[rungs.len() - 1]) is Err);
                }
            },
            Err(_) => {
                let i = choose|i: int|
                    0 <= i < rest.len() && vsize_bound(max_satisfaction, #[trigger] rest[i])
                        is Err;
                assert(vsize_bound(max_satisfaction, rungs[i]) is Err);
            },
        }
    }
}

/// Where nothing is latched, what is selected may fire. Some rung up to it pays what is
/// required, or there is no dearer rung that may fire; and no rung below it both may fire
/// and lies at or above one that pays.
pub proof fn selection_pays_if_it_can(
    ladder: ScoredLadderView,
    floor: u64,
    reading: Result<Option<u64>, Seq<char>>,
)
    requires
        ladder.rungs.len() > 1,
        ladder.admissible.len() == ladder.rungs.len(),
    ensures
        ladder.selection(floor, reading, 0) matches Ok((selected, target, required)) ==> {
            &&& ladder.admissible[selected] is Ok
            &&& target == match reading {
                Ok(Some(read)) => read,
                _ => 0,
            }
            &&& required == if target > floor {
                target
            } else {
                floor
            }
            &&& {
                ||| exists|q: int| 0 <= q <= selected && #[trigger] ladder.reaches(q, required)
                ||| forall|r: int|
                    selected < r < ladder.rungs.len() ==> (#[trigger] ladder.admissible[r]) is Err
            }
            &&& forall|q: int, r: int|
                0 <= q <= r < selected && #[trigger] ladder.reaches(q, required) ==> (
                #[trigger] ladder.admissible[r]) is Err
        },
        ladder.selection(floor, reading, 0) is Err ==> forall|r: int|
            0 <= r < ladder.rungs.len() ==> (#[trigger] ladder.admissible[r]) is Err,
{
    let target = match reading {
        Ok(Some(t)) => t,
        _ => 0u64,
    };
    let required = if target > floor {
        target
    } else {
        floor
    };
    let n = ladder.rungs.len() as int;
    let pays = |r: int| ladder.reaches(r, required);
    let ok = |r: int| ladder.ok(r);
    lemma_first_where(pays, 0, n);
    lemma_first_where(ok, ladder.needed(required), n);
    lemma_last_where(ok, n);
    if let Some(s) = ladder.choice(required) {
        assert(ok(s));
        let needed = ladder.needed(required);
        if first_where(ok, needed, n) is None {
            assert forall|r: int| s < r < n implies (#[trigger] ladder.admissible[r]) is Err by {
                assert(!ok(r));
            }
        } else if first_where(pays, 0, n) is Some {
            assert(pays(needed));
            assert(ladder.reaches(needed, required));
        } else {
            assert(s == n - 1);
        }
        assert forall|q: int, r: int|
            0 <= q <= r < s && #[trigger] ladder.reaches(q, required) implies (
        #[trigger] ladder.admissible[r]) is Err by {
            assert(pays(q));
            assert(!ok(r));
        }
    } else {
        assert forall|r: int| 0 <= r < n implies (#[trigger] ladder.admissible[r]) is Err by {
            assert(!ok(r));
        }
    }
}

/// A plan fires a rung of the ladder that may fire, at its own size, never below the
/// latch; it requires the floor and the target. The lowest rung it names may fire too,
/// and none below that one may.
pub proof fn a_plan_fires_what_may_fire(
    params: NodeParams,
    env: SweepEnv,
    rungs: Seq<TransactionView>,
    pays_escape: Seq<Option<Seq<bool>>>,
    reading: Result<Option<u64>, Seq<char>>,
    latch: int,
)
    requires
        pays_escape.len() == rungs.len(),
        0 <= latch < rungs.len(),
        sweep_plan(params, env, rungs, pays_escape, reading, latch) is Ok,
    ensures
        ({
            let (selected, target, required, lowest) = sweep_plan(
                params,
                env,
                rungs,
                pays_escape,
                reading,
                latch,
            )->Ok_0;
            let max = params.max_vault_satisfaction_weight;
            &&& latch <= selected < rungs.len()
            &&& required >= params.escape_feerate_floor && required >= target
            &&& vsize_bound(max, rungs[selected]) matches Ok(size) && rung_objection(
                params,
                env,
                rungs[selected],
                size,
                pays_escape[selected],
            ) is None
            &&& 0 <= lowest <= selected
            &&& vsize_bound(max, rungs[lowest]) matches Ok(size) && rung_objection(
                params,
                env,
                rungs[lowest],
                size,
                pays_escape[lowest],
            ) is None
            &&& forall|r: int|
                0 <= r < lowest ==> (vsize_bound(max, #[trigger] rungs[r]) matches Ok(size)
                    ==> rung_objection(params, env, rungs[r], size, pays_escape[r]) is Some)
        }),
{
    let max = params.max_vault_satisfaction_weight;
    every_rung_is_sized(max, rungs);
    let sizes = rung_sizes(max, rungs)->Ok_0;
    let admissible = rung_scores(params, env, rungs, sizes, pays_escape);
    let ladder = ScoredLadderView {
        rungs,
        maximum_vsizes: sizes,
        admissible,
        total_in: env.total_in,
    };
    let n = rungs.len() as int;
    let (selected, target, required) = ladder.selection(
        params.escape_feerate_floor,
        reading,
        latch,
    )->Ok_0;
    if rungs.len() > 1 {
        crate::rungs::selection_respects_the_latch(
            ladder,
            params.escape_feerate_floor,
            reading,
            latch,
        );
    }
    assert(admissible[selected] is Ok);
    let ok = |r: int| admissible[r] is Ok;
    lemma_first_where(ok, 0, n);
    assert(ok(selected));
    let lowest = sweep_plan(params, env, rungs, pays_escape, reading, latch)->Ok_0.3;
    assert(ok(lowest));
    assert(vsize_bound(max, rungs[selected]) == Ok::<u64, Seq<char>>(sizes[selected]));
    assert(vsize_bound(max, rungs[lowest]) == Ok::<u64, Seq<char>>(sizes[lowest]));
    assert forall|r: int| 0 <= r < lowest implies (vsize_bound(
        max,
        #[trigger] rungs[r],
    ) matches Ok(size) ==> rung_objection(params, env, rungs[r], size, pays_escape[r]) is Some) by {
        assert(!ok(r));
        assert(vsize_bound(max, rungs[r]) == Ok::<u64, Seq<char>>(sizes[r]));
    }
}

/// An armed escape that is judged fit delivers the share of the protected value that the
/// policy asks for, and pays the floor for every virtual byte that it can have; it is
/// measured with the rung that was found in the mempool, which is one of its own.
pub proof fn a_fit_sweep_covers_the_vault(node: NodeView, facts: PreflightFacts)
    requires
        facts.judgement(node) is Ok,
        facts.rungs is Some,
        facts.pays_escape@.len() == facts.rungs->0@.len(),
        facts.latch < facts.rungs->0@.len(),
    ensures
        ({
            let rungs = rungs_view(facts.rungs)->0;
            let marks = mark_views(facts.pays_escape@);
            let (resident, env, plan) = facts.judgement(node)->Ok_0;
            let tx = rungs[plan.0];
            let paid = capped(sum(output_amounts(tx.output)));
            let fee = if env.total_in > paid {
                env.total_in - paid
            } else {
                0
            };
            &&& facts.latch <= plan.0 < rungs.len()
            &&& env.laddered == (rungs.len() > 1)
            &&& (SweepFacts { resident, laddered: rungs.len() > 1, ..facts.sweep }).env(node) == Ok::<
                SweepEnv,
                Seq<char>,
            >(env)
            &&& resident matches Some(id) ==> exists|i: int|
                0 <= i < rungs.len() && transaction_id(#[trigger] rungs[i]) == id
            &&& vsize_bound(node.params.max_vault_satisfaction_weight, tx) matches Ok(vsize)
                && node.params.escape_feerate_floor * vsize <= fee
            &&& marks[plan.0] matches Some(chosen) && env.protected_value
                * node.params.escape_coverage_pct <= 100 * capped(
                env.paired_delivered + sum(marked_amounts(tx.output, chosen)),
            )
        }),
{
    let rungs = rungs_view(facts.rungs)->0;
    let marks = mark_views(facts.pays_escape@);
    let (resident, env, plan) = facts.judgement(node)->Ok_0;
    a_plan_fires_what_may_fire(
        node.params,
        env,
        rungs,
        marks,
        texted(facts.reading),
        facts.latch as int,
    );
    what_a_resident_rung_is(Some(rungs), mempool_view(facts.mempool));
    let size = vsize_bound(node.params.max_vault_satisfaction_weight, rungs[plan.0])->Ok_0;
    what_fires_pays_and_covers(node.params, env, rungs[plan.0], size, marks[plan.0]);
}

/// A rung counts as resident only where the mempool returned a transaction whose id is
/// that of a rung of this ladder and just the one it was returned for; none counts only
/// where there is no ladder or nothing was found.
pub proof fn what_a_resident_rung_is(
    rungs: Option<Seq<TransactionView>>,
    found: Result<Option<([u8; 32], Seq<u8>)>, Seq<char>>,
)
    ensures
        resident_id(rungs, found) matches Ok(Some(id)) ==> {
            &&& rungs is Some
            &&& exists|i: int|
                0 <= i < rungs->0.len() && transaction_id(#[trigger] rungs->0[i]) == id
            &&& found matches Ok(Some((named, raw))) && named == id && raw_transaction_id(raw)
                == Ok::<[u8; 32], Seq<char>>(id)
        },
        resident_id(rungs, found) == Ok::<Option<[u8; 32]>, Seq<char>>(None) <==> rungs is None
            || found == Ok::<Option<([u8; 32], Seq<u8>)>, Seq<char>>(None),
{
    if let Ok(Some(id)) = resident_id(rungs, found) {
        let ids = crate::fire::rung_ids(rungs->0);
        let i = choose|i: int| 0 <= i < ids.len() && ids[i] == id;
        assert(transaction_id(rungs->0[i]) == id);
    }
}

/// A transaction counts as settled where it is in the mempool or confirmed, and as not
/// settled only where both are known to be false.
pub proof fn what_settled_means(
    mempool: Result<bool, Seq<char>>,
    confirmed: Result<bool, Seq<char>>,
)
    ensures
        settled(mempool, confirmed) == Ok::<bool, Seq<char>>(true) <==> mempool == Ok::<
            bool,
            Seq<char>,
        >(true) || (mempool == Ok::<bool, Seq<char>>(false) && confirmed == Ok::<bool, Seq<char>>(
            true,
        )),
        settled(mempool, confirmed) == Ok::<bool, Seq<char>>(false) <==> mempool == Ok::<
            bool,
            Seq<char>,
        >(false) && confirmed == Ok::<bool, Seq<char>>(false),
{
}

proof fn lemma_network_state(
    txids: Seq<[u8; 32]>,
    confirmed: Seq<Result<bool, Seq<char>>>,
    latched: nat,
    resident: Option<[u8; 32]>,
    from: int,
)
    requires
        0 <= from <= txids.len(),
        confirmed.len() == txids.len(),
    ensures
        match network_state(txids, confirmed, latched, resident, from) {
            Err(e) => exists|i: int|
                from <= i < txids.len() && (#[trigger] confirmed[i]) == Err::<bool, Seq<char>>(e)
                    && forall|k: int|
                    from <= k < i ==> (#[trigger] confirmed[k]) == Ok::<bool, Seq<char>>(false),
            Ok(ArmedEscapeState::Confirmed(id)) => exists|i: int|
                from <= i < txids.len() && (#[trigger] confirmed[i]) == Ok::<bool, Seq<char>>(true)
                    && txids[i] == id && forall|k: int|
                    from <= k < i ==> (#[trigger] confirmed[k]) == Ok::<bool, Seq<char>>(false),
            Ok(ArmedEscapeState::InMempoolAtOrAboveLatch) => (forall|i: int|
                from <= i < txids.len() ==> (#[trigger] confirmed[i]) == Ok::<bool, Seq<char>>(
                    false,
                )) && resident is Some && exists|i: int|
                latched <= i < txids.len() && #[trigger] txids[i] == resident->0,
            Ok(ArmedEscapeState::Absent) => (forall|i: int|
                from <= i < txids.len() ==> (#[trigger] confirmed[i]) == Ok::<bool, Seq<char>>(
                    false,
                )) && (resident matches Some(id) ==> forall|i: int|
                0 <= i < txids.len() && #[trigger] txids[i] == id ==> exists|k: int|
                    0 <= k < latched && k <= i && #[trigger] txids[k] == id),
        },
    decreases txids.len() - from,
{
    if from < txids.len() {
        lemma_network_state(txids, confirmed, latched, resident, from + 1);
        if confirmed[from] == Ok::<bool, Seq<char>>(false) {
            match network_state(txids, confirmed, latched, resident, from + 1) {
                Err(e) => {
                    let i = choose|i: int|
                        from + 1 <= i < txids.len() && (#[trigger] confirmed[i]) == Err::<
                            bool,
                            Seq<char>,
                        >(e) && forall|k: int|
                            from + 1 <= k < i ==> (#[trigger] confirmed[k]) == Ok::<
                                bool,
                                Seq<char>,
                            >(false);
                    assert forall|k: int| from <= k < i implies (#[trigger] confirmed[k]) == Ok::<
                        bool,
                        Seq<char>,
                    >(false) by {}
                },
                Ok(ArmedEscapeState::Confirmed(id)) => {
                    let i = choose|i: int|
                        from + 1 <= i < txids.len() && (#[trigger] confirmed[i]) == Ok::<
                            bool,
                            Seq<char>,
                        >(true) && txids[i] == id && forall|k: int|
                            from + 1 <= k < i ==> (#[trigger] confirmed[k]) == Ok::<
                                bool,
                                Seq<char>,
                            >(false);
                    assert forall|k: int| from <= k < i implies (#[trigger] confirmed[k]) == Ok::<
                        bool,
                        Seq<char>,
                    >(false) by {}
                },
                Ok(_) => {},
            }
        } else {
            assert(confirmed[from] == confirmed[from]);
        }
    } else if let Some(id) = resident {
        let p = |k: int| txids[k] == id;
        lemma_first_where(p, 0, txids.len() as int);
        match first_where(p, 0, txids.len() as int) {
            Some(at) => {
                assert(p(at));
                assert(txids[at] == id);
                assert forall|i: int| 0 <= i < txids.len() && #[trigger] txids[i] == id implies at
                    <= i by {
                    if i < at {
                        assert(!p(i));
                    }
                }
            },
            None => {
                assert forall|i: int| 0 <= i < txids.len() implies #[trigger] txids[i] != id by {
                    assert(!p(i));
                }
            },
        }
    }
}

/// An armed escape counts as confirmed only where one of its rungs is, by the first that is
/// and where each below it is known not to be; as in the mempool
/// only where none is confirmed and the resident transaction is a rung at or above the
/// latch; and as absent only where none is confirmed and no such rung is resident.
pub proof fn where_the_network_stands(
    txids: Seq<[u8; 32]>,
    confirmed: Seq<Result<bool, Seq<char>>>,
    latched: nat,
    resident: Option<[u8; 32]>,
)
    requires
        confirmed.len() == txids.len(),
        forall|i: int, j: int| 0 <= i < j < txids.len() ==> txids[i] != txids[j],
    ensures
        match network_state(txids, confirmed, latched, resident, 0) {
            Err(e) => exists|i: int|
                0 <= i < txids.len() && (#[trigger] confirmed[i]) == Err::<bool, Seq<char>>(e)
                    && forall|k: int|
                    0 <= k < i ==> (#[trigger] confirmed[k]) == Ok::<bool, Seq<char>>(false),
            Ok(ArmedEscapeState::Confirmed(id)) => exists|i: int|
                0 <= i < txids.len() && (#[trigger] confirmed[i]) == Ok::<bool, Seq<char>>(true)
                    && txids[i] == id && forall|k: int|
                    0 <= k < i ==> (#[trigger] confirmed[k]) == Ok::<bool, Seq<char>>(false),
            Ok(ArmedEscapeState::InMempoolAtOrAboveLatch) => (forall|i: int|
                0 <= i < txids.len() ==> (#[trigger] confirmed[i]) == Ok::<bool, Seq<char>>(false))
                && resident is Some && exists|i: int|
                latched <= i < txids.len() && #[trigger] txids[i] == resident->0,
            Ok(ArmedEscapeState::Absent) => (forall|i: int|
                0 <= i < txids.len() ==> (#[trigger] confirmed[i]) == Ok::<bool, Seq<char>>(false))
                && (resident matches Some(id) ==> forall|i: int|
                latched <= i < txids.len() ==> #[trigger] txids[i] != id),
        },
{
    lemma_network_state(txids, confirmed, latched, resident, 0);
    if network_state(txids, confirmed, latched, resident, 0) == Ok::<ArmedEscapeState, Seq<char>>(
        ArmedEscapeState::Absent,
    ) {
        if let Some(id) = resident {
            assert forall|i: int| latched <= i < txids.len() implies #[trigger] txids[i] != id by {
                if txids[i] == id {
                    let k = choose|k: int| 0 <= k < latched && k <= i && #[trigger] txids[k] == id;
                    assert(txids[k] != txids[i]);
                }
            }
        }
    }
}

/// A rung is latched only once its package is put together and while the escape is still
/// registered; the latch has moved exactly where it is higher than before.
pub proof fn when_a_rung_is_latched(
    assembled: Result<(), Seq<char>>,
    latched: Option<usize>,
    latch: usize,
)
    ensures
        latched_sweep(assembled, latched, latch) is Ok <==> assembled is Ok && latched is Some,
        latched_sweep(assembled, latched, latch) matches Ok(moved) ==> moved == (latched->0 > latch),
{
}

/// Settling a candidate ends the wait for it, for the one it is paired with and for those
/// that it invalidates, and for no other spend.
pub proof fn settling_frees_its_own(
    node: NodeView,
    id: Seq<char>,
    paired: Option<Seq<char>>,
    invalidated: Seq<Seq<char>>,
    other: Seq<char>,
)
    ensures
        ({
            let before = node.sign_state.pending;
            let after = no_longer_held(node, settled_ids(id, paired, invalidated)).sign_state.pending;
            &&& after.contains_key(other) <==> before.contains_key(other) && other != id && paired
                != Some(other) && forall|i: int|
                0 <= i < invalidated.len() ==> #[trigger] invalidated[i] != other
            &&& after.contains_key(other) ==> after[other] == before[other]
        }),
        no_longer_held(node, settled_ids(id, paired, invalidated)).authorized == node.authorized,
        no_longer_held(node, settled_ids(id, paired, invalidated)).sign_state.replay
            == node.sign_state.replay,
{
    if invalidated.contains(other) {
        let i = choose|i: int| 0 <= i < invalidated.len() && invalidated[i] == other;
        assert(invalidated[i] == other);
    }
    if exists|i: int| 0 <= i < invalidated.len() && #[trigger] invalidated[i] == other {
        let i = choose|i: int| 0 <= i < invalidated.len() && #[trigger] invalidated[i] == other;
        assert(invalidated.contains(other));
    }
}

/// A request is handed on until it expires, not longer.
pub proof fn a_request_is_handed_on_until_it_expires(request: TaggedRequestView)
    ensures
        request matches TaggedRequestView::Spend(spend) ==> request_expiry(request)
            == spend.expiry,
        request matches TaggedRequestView::Refresh(refresh) ==> request_expiry(request)
            == refresh.expiry,
{
}

/// The heartbeat is the clock rounded down to tens of seconds.
pub proof fn the_heartbeat_is_coarse(now: u64)
    ensures
        heartbeat_bucket(now) <= now < heartbeat_bucket(now) + 10,
        heartbeat_bucket(now) % 10 == 0,
{
}

/// A candidate that is not settled, whose package can be put together and passes the test
/// of the mempool, is sent; what was sent is told.
pub proof fn a_good_package_is_sent(terms: BroadcastTerms, txid: [u8; 32])
    ensures
        ({
            let tested = BroadcastStepView::Settled.next(
                BroadcastEventView::Settled(Ok(false)),
                terms,
            ).next(BroadcastEventView::Assembled(Ok(())), terms).next(
                BroadcastEventView::Tested(Ok(None)),
                terms,
            );
            &&& tested is Send
            &&& tested.next(BroadcastEventView::Sent(txid), terms) == BroadcastStepView::Done(
                Ok(BroadcastOutcome::Sent(txid)),
            )
        }),
{
}

/// What fails on the way to the network is told as it was, and nothing is sent; a candidate
/// that is settled is not sent again; and a failed sending counts as settled only where
/// the network has the transaction after all.
pub proof fn a_failed_broadcast_is_told(terms: BroadcastTerms, error: Seq<char>)
    ensures
        ({
            let failed = BroadcastStepView::Done(Err(error));
            let there = BroadcastStepView::Done(Ok(BroadcastOutcome::AlreadySettled(terms.txid)));
            let after = BroadcastStepView::Send.next(BroadcastEventView::Failed { error }, terms);
            &&& BroadcastStepView::Settled.next(BroadcastEventView::Settled(Ok(true)), terms)
                == there
            &&& BroadcastStepView::Settled.next(BroadcastEventView::Settled(Err(error)), terms)
                == failed
            &&& BroadcastStepView::Assemble.next(BroadcastEventView::Assembled(Err(error)), terms)
                == failed
            &&& BroadcastStepView::Test.next(BroadcastEventView::Tested(Err(error)), terms)
                == failed
            &&& BroadcastStepView::Test.next(
                BroadcastEventView::Tested(Ok(Some(error))),
                terms,
            ) matches BroadcastStepView::Done(Err(_))
            &&& BroadcastStepView::Send.next(
                BroadcastEventView::Closed { reason: error },
                terms,
            ) matches BroadcastStepView::Done(Err(_))
            &&& after.next(BroadcastEventView::Settled(Ok(true)), terms) == there
            &&& after.next(BroadcastEventView::Settled(Ok(false)), terms) == failed
            &&& after.next(BroadcastEventView::Settled(Err(error)), terms) == failed
        }),
{
}

/// A due candidate that the network does not have, that a quorum has signed and, for an
/// armed escape, that is judged fit, is broadcast; what was sent is told.
pub proof fn a_due_candidate_is_broadcast(terms: CombineTerms, txid: [u8; 32])
    ensures
        ({
            let finish = |step: CombineStepView| step.next(CombineEventView::Finalized(true), terms);
            let absent = CombineEventView::Network(Ok(ArmedEscapeState::Absent));
            let sent = |step: CombineStepView|
                step.next(
                    CombineEventView::Broadcast(Ok(BroadcastOutcome::Sent(txid))),
                    terms,
                ) == CombineStepView::Done(CombineEndView::Sent(txid));
            &&& !terms.armed_escape ==> sent(
                finish(terms.first().next(CombineEventView::Settled(Ok(false)), terms)),
            )
            &&& terms.armed_escape && terms.judged ==> sent(
                finish(terms.first().next(absent, terms)).next(
                    CombineEventView::Judged(Ok(())),
                    terms,
                ),
            )
            &&& terms.armed_escape && !terms.judged ==> sent(
                finish(
                    terms.first().next(absent, terms).next(
                        CombineEventView::Preflight(Ok(())),
                        terms,
                    ),
                ).next(CombineEventView::Judged(Ok(())), terms),
            )
        }),
{
}

/// What stops a due candidate is told with the stage that it was stopped at; one without a
/// quorum waits, and an armed escape that the network has is not sent again.
pub proof fn what_stops_a_due_candidate(terms: CombineTerms, reason: Seq<char>, txid: [u8; 32])
    ensures
        ({
            let gave_up = |step: CombineStepView, fault: CombineFault|
                step == CombineStepView::Done(CombineEndView::GivenUp { fault, reason });
            let waits = CombineStepView::Done(CombineEndView::Waits);
            &&& gave_up(
                CombineStepView::Network.next(CombineEventView::Network(Err(reason)), terms),
                CombineFault::Settlement,
            )
            &&& gave_up(
                CombineStepView::Settled.next(CombineEventView::Settled(Err(reason)), terms),
                CombineFault::Settlement,
            )
            &&& gave_up(
                CombineStepView::Preflight.next(CombineEventView::Preflight(Err(reason)), terms),
                CombineFault::Preflight,
            )
            &&& gave_up(
                CombineStepView::Judge.next(CombineEventView::Judged(Err(reason)), terms),
                CombineFault::Inadmissible,
            )
            &&& gave_up(
                CombineStepView::Broadcast.next(CombineEventView::Broadcast(Err(reason)), terms),
                CombineFault::Broadcast,
            )
            &&& CombineStepView::Finalize.next(CombineEventView::Finalized(false), terms) == waits
            &&& CombineStepView::Network.next(
                CombineEventView::Network(Ok(ArmedEscapeState::InMempoolAtOrAboveLatch)),
                terms,
            ) == waits
            &&& CombineStepView::Network.next(
                CombineEventView::Network(Ok(ArmedEscapeState::Confirmed(txid))),
                terms,
            ) == CombineStepView::Done(CombineEndView::EscapeConfirmed(txid))
            &&& !settles(CombineEndView::Waits, terms)
            &&& !settles(CombineEndView::EscapeConfirmed(txid), terms)
            &&& settles(CombineEndView::Sent(txid), terms) == !terms.armed_escape
        }),
{
}

/// What is looked at in a pass is each held candidate that may be polled, and no other.
pub proof fn what_is_polled(held: Seq<Seq<char>>, pollable: Seq<bool>, id: Seq<char>)
    requires
        pollable.len() == held.len(),
    ensures
        forall|i: int|
            0 <= i < held.len() && pollable[i] ==> polled(held, pollable).contains(
                #[trigger] held[i],
            ),
        (forall|i: int| 0 <= i < held.len() && pollable[i] ==> #[trigger] held[i] != id)
            ==> !polled(held, pollable).contains(id),
{
}

/// The vault's output script is version zero and the digest of its witness script.
pub proof fn the_vault_script_holds_a_digest(witness_script: Seq<u8>)
    ensures
        p2wsh_script(witness_script).len() == 34,
        p2wsh_script(witness_script)[0] == 0,
        p2wsh_script(witness_script)[1] == 32,
        p2wsh_script(witness_script).skip(2) == sha256_digest(witness_script)@,
{
    assert(p2wsh_script(witness_script).skip(2) =~= sha256_digest(witness_script)@);
}

/// As soon as every rung's size is known and one rung may fire, a sweep without a latch is
/// planned.
pub proof fn a_sweep_that_can_fire_is_planned(
    params: NodeParams,
    env: SweepEnv,
    rungs: Seq<TransactionView>,
    pays_escape: Seq<Option<Seq<bool>>>,
    reading: Result<Option<u64>, Seq<char>>,
    rung: int,
)
    requires
        pays_escape.len() == rungs.len(),
        0 <= rung < rungs.len(),
        forall|i: int|
            0 <= i < rungs.len() ==> vsize_bound(
                params.max_vault_satisfaction_weight,
                #[trigger] rungs[i],
            ) is Ok,
        rung_objection(
            params,
            env,
            rungs[rung],
            vsize_bound(params.max_vault_satisfaction_weight, rungs[rung])->Ok_0,
            pays_escape[rung],
        ) is None,
    ensures
        sweep_plan(params, env, rungs, pays_escape, reading, 0) is Ok,
{
    let max = params.max_vault_satisfaction_weight;
    every_rung_is_sized(max, rungs);
    let sizes = rung_sizes(max, rungs)->Ok_0;
    let admissible = rung_scores(params, env, rungs, sizes, pays_escape);
    let ladder = ScoredLadderView {
        rungs,
        maximum_vsizes: sizes,
        admissible,
        total_in: env.total_in,
    };
    assert(vsize_bound(max, rungs[rung]) == Ok::<u64, Seq<char>>(sizes[rung]));
    assert(admissible[rung] is Ok);
    if rungs.len() > 1 {
        selection_pays_if_it_can(ladder, params.escape_feerate_floor, reading);
    }
}

} // verus!
