//! Laws of what a spend leaves behind at each stage of its way: to whom it is handed on,
//! what it reserves and what is given back.

use vstd::prelude::*;

use crate::acceptance::{lemma_bumps_refuse, lemma_signature_refuses, lemma_truth_refuses};
use crate::codec::transaction_id;
use crate::commitment::acceptance_key;
use crate::ingress::{
    armed_job, charged, clock_refusal, committed, counted, decoded_pair, ingress_guard, reopened,
    ClockStage, Ingress, SignJobView, SpendPairView,
};
use crate::node::NodeView;
use crate::pin::{effective_verdict, PinCharge, PinVerdict};
use crate::policy::{Classification, PolicyVerdictView, TxClass};
use crate::prevouts::{fetch_failure, PrevoutFetchView};
use crate::proto::{
    RefusalCode, SignRequest, SignRequestView, SignResponseView, TaggedRequestView,
};
use crate::refresh::{refresh_looked_up, RefreshJobView};
use crate::registry::{released, ErrandView, GuardView, MemoUpgrade, RegisterAnswer};
use crate::replay::{recorded, EntryView};
use crate::silence::accepts;
use crate::spend::{
    admitted_job, admitted_run, charged_run, fetched_coins, judged, looked_up, metered,
    opened_run, pair_candidates, pair_signing_failure, pair_txids, paired, pairing_refusal,
    policy_views, registered, replay_pruned, stores_pruned, too_short, PairIdsView, PairingView,
    ReserveAnswer, SignFacts,
};
use crate::tx::OutPoint;
use crate::verdict::{spend_refusal, staged, AnswerView};
use crate::windows::an_accepted_spend_is_remembered;

verus! {

/// Whether the node has handed this spend on, once more than before.
pub open spec fn handed_on(before: NodeView, after: NodeView, request: SignRequestView) -> bool {
    after.outbox == before.outbox.push(TaggedRequestView::Spend(request))
}

/// A spend that the clock stops after its pin was compared is handed on; one that passes
/// goes on with the carrier's word, and its claim is its own still only where the memo was
/// superseded by it.
pub proof fn after_the_pin(
    node: NodeView,
    request: SignRequestView,
    job: SignJobView,
    upgrade: Option<MemoUpgrade>,
)
    ensures
        ({
            let (after, passed) = committed(node, request, job, upgrade);
            &&& passed is Ok <==> clock_refusal(
                node,
                request.expiry,
                job.raw_now,
                job.now,
                ClockStage::Pin,
            ) is None
            &&& passed is Ok ==> after == node
            &&& passed is Err ==> handed_on(node, after, request)
            &&& passed matches Ok(next) ==> {
                &&& next.now == job.now && next.raw_now == job.raw_now
                &&& next.verdict == job.verdict && next.carrier == job.carrier
                &&& next.first_seen == job.first_seen
                &&& next.guard is Some <==> job.guard is Some
                &&& next.guard matches Some(g) ==> {
                    &&& g.nonce == job.guard->0.nonce
                    &&& g.generation == job.guard->0.generation
                    &&& upgrade matches Some(u) ==> g.ruling_carrier == Some(job.carrier)
                        && g.owns_memo == (job.guard->0.owns_memo && u == MemoUpgrade::Superseded)
                    &&& upgrade is None ==> g == job.guard->0
                }
            }
        }),
{
}

/// A spend under a pin that the budget of attempts refuses is refused for its pin, handed
/// on, and made to wait for the backoff; one that the budget lets pass goes on as it was.
pub proof fn after_the_charge(
    node: NodeView,
    request: SignRequestView,
    job: SignJobView,
    charge: PinCharge,
)
    ensures
        ({
            let (after, passed) = charged(node, request, job, charge);
            let wait = ErrandView::Wait { secs: charge.backoff_secs };
            &&& passed is Ok <==> !charge.refuse
            &&& !charge.refuse ==> after == node && passed == Ok::<SignJobView, AnswerView>(job)
            &&& charge.refuse ==> {
                &&& handed_on(node, after, request)
                &&& passed matches Err(Ok(SignResponseView::Refusal(r))) && r.code
                    == RefusalCode::BadPin
                &&& charge.backoff_secs > 0 ==> after.errands.contains(wait)
                &&& charge.backoff_secs == 0 && !node.errands.contains(wait)
                    ==> !after.errands.contains(wait)
            }
        }),
{
    let (after, passed) = charged(node, request, job, charge);
    let wait = ErrandView::Wait { secs: charge.backoff_secs };
    if charge.refuse {
        let n = node.errands.len() as int + if node.channel is Some {
            1int
        } else {
            0int
        };
        if charge.backoff_secs > 0 {
            assert(after.errands[n] == wait);
        } else if !node.errands.contains(wait) && after.errands.contains(wait) {
            let k = choose|k: int| 0 <= k < after.errands.len() && after.errands[k] == wait;
            if k < node.errands.len() {
                assert(node.errands[k] == wait);
            }
        }
    }
}

/// A spend is opened on a node that is not locked down, at a clock that it passes, where
/// its texts can be read. One that the clock stops is handed on, the others are not.
pub proof fn after_the_chain(
    node: NodeView,
    request: SignRequestView,
    job: SignJobView,
    raw_now: u64,
)
    ensures
        ({
            let (after, passed) = reopened(node, request, job, raw_now);
            let now = node.sign_state.coord_nonces.effective_now(raw_now);
            let timely = clock_refusal(node, request.expiry, raw_now, now, ClockStage::Preflight)
                is None;
            &&& passed is Ok <==> !node.lockdown && timely && decoded_pair(request) is Ok
            &&& passed matches Ok((next, pair)) ==> {
                &&& after == node
                &&& decoded_pair(request) == Ok::<SpendPairView, AnswerView>(pair)
                &&& next.now == now && next.raw_now == raw_now
                &&& next.verdict == job.verdict && next.carrier == job.carrier && next.guard
                    == job.guard
            }
            &&& !node.lockdown && !timely ==> handed_on(node, after, request)
            &&& node.lockdown || timely ==> after.outbox == node.outbox
        }),
{
}

/// A spend that was answered before in just this form, or refused before under its name,
/// is answered as before; the first is handed on and scheduled once more, under the pin
/// that it came with now. One whose coins could not be looked up is handed on. Only where
/// nothing is on file and the chain answered is it judged.
pub proof fn after_the_lookup(
    node: NodeView,
    request: SignRequestView,
    job: SignJobView,
    pair: SpendPairView,
    ids: PairIdsView,
    fetched: (Option<PrevoutFetchView>, Option<PrevoutFetchView>),
)
    ensures
        ({
            let (after, passed) = looked_up(node, request, job, pair, ids, fetched);
            let key = acceptance_key(pair_candidates(pair, ids));
            let whole = recorded(node.sign_state.replay, key, job.now);
            let named = recorded(node.sign_state.replay, ids.spend, job.now);
            let lost = fetch_failure(fetched.0, fetched.1);
            &&& passed is Ok <==> whole is None && named is None && lost is None
            &&& passed matches Ok(k) ==> k == key && after.outbox == node.outbox
            &&& whole matches Some(v) ==> passed == Err::<Seq<char>, AnswerView>(Ok(v))
                && handed_on(node, after, request)
            &&& whole is Some && node.channel is Some ==> after.errands.contains(
                ErrandView::ApplyCachedSchedule {
                    escape: ids.escape,
                    duress: job.verdict == PinVerdict::Duress,
                    now: job.now,
                    epsilon_secs: node.params.epsilon_secs,
                },
            ) && after.errands.contains(
                ErrandView::RecordIntentPair {
                    carrier: job.carrier,
                    spend: ids.spend,
                    escape: ids.escape,
                },
            )
            &&& whole is None ==> (named matches Some(v) ==> passed == Err::<Seq<char>, AnswerView>(
                Ok(v),
            ) && after.outbox == node.outbox)
            &&& whole is None && named is None ==> (lost matches Some(r) ==> passed == Err::<
                Seq<char>,
                AnswerView,
            >(Ok(r)) && handed_on(node, after, request))
        }),
{
    let (after, passed) = looked_up(node, request, job, pair, ids, fetched);
    let key = acceptance_key(pair_candidates(pair, ids));
    if recorded(node.sign_state.replay, key, job.now) is Some && node.channel is Some {
        let n = node.errands.len() as int;
        assert(after.errands[n] is ApplyCachedSchedule);
        assert(after.errands[n + 1] is RecordIntentPair);
    }
}

/// A spend that fails a check is refused for it; it is handed on exactly where the refusal
/// is over the hot limit, which other nodes may see differently, and filed under its name
/// until it expires where it lasts. One that passes goes on under the class that the
/// policy gave it.
pub proof fn after_the_judgement(
    node: NodeView,
    request: SignRequestView,
    job: SignJobView,
    pair: SpendPairView,
    ids: PairIdsView,
    fetched: Option<PrevoutFetchView>,
    policy: PolicyVerdictView,
)
    ensures
        ({
            let (after, passed) = judged(node, request, job, pair, ids, fetched, policy);
            let refusal = spend_refusal(node, pair.spend, fetched, policy);
            &&& passed is Ok <==> refusal is None && (policy.classification matches Ok(c) && c.class
                != TxClass::Refresh)
            &&& passed matches Ok(c) ==> policy.classification == Ok::<
                Classification,
                crate::policy::ViolationView,
            >(c) && after == node
            &&& refusal matches Some(r) ==> passed == Err::<Classification, AnswerView>(Ok(r))
            &&& refusal matches Some(SignResponseView::Refusal(r)) ==> if r.code
                == RefusalCode::HotBudgetExceeded {
                handed_on(node, after, request)
            } else {
                after.outbox == node.outbox
            }
            &&& refusal matches Some(SignResponseView::Refusal(r)) ==> if r.code
                == RefusalCode::DestNotAllowed || r.code == RefusalCode::ChangeNotDerivable
                || r.code == RefusalCode::FeeExceedsCap {
                after.sign_state.replay == node.sign_state.replay.insert(
                    ids.spend,
                    EntryView { expiry: request.expiry, verdict: SignResponseView::Refusal(r) },
                )
            } else {
                after.sign_state.replay == node.sign_state.replay
            }
        }),
{
}

/// A hot spend that the ledger has no room for is refused for its velocity and handed on;
/// nothing is metered for another spend or on a node without peers.
pub proof fn after_the_ledger(
    node: NodeView,
    request: SignRequestView,
    job: SignJobView,
    c: Classification,
    answer: ReserveAnswer,
)
    ensures
        ({
            let (after, passed) = metered(node, request, job, c, answer);
            let asked = c.class == TxClass::Hot && node.channel is Some;
            &&& passed is Err <==> asked && answer is Err
            &&& passed is Ok ==> after == node
            &&& passed matches Ok(reserved) ==> reserved == (asked && answer == Ok::<
                bool,
                crate::registry::HotReserveRefusal,
            >(true))
            &&& passed is Err ==> handed_on(node, after, request) && (
            passed matches Err(Ok(SignResponseView::Refusal(r))) && r.code
                == RefusalCode::HotVelocityExceeded)
        }),
{
}

/// A pair is signed exactly where its escape does, there is time, and every transaction of
/// it can be signed; it is then handed on. One for which the time is too short is handed
/// on unsigned, for others to judge; one whose escape does not do is not.
pub proof fn after_the_pairing(
    node: NodeView,
    request: SignRequestView,
    job: SignJobView,
    p: PairingView,
    reserved: bool,
)
    ensures
        ({
            let (after, passed) = paired(node, request, job, p, reserved);
            let bad = pairing_refusal(node, p) is Some;
            let late = too_short(node, request.expiry, job.now, p.class) is Some;
            let unsigned = pair_signing_failure(node.keys, p.pair) is Some;
            &&& passed is Ok <==> !bad && !late && !unsigned
            &&& passed matches Ok(kept) ==> handed_on(node, after, request) && (kept is Some
                <==> node.channel is Some)
            &&& bad ==> after.outbox == node.outbox && passed == Err::<
                Option<crate::registry::RegistrationView>,
                AnswerView,
            >(Ok(pairing_refusal(node, p)->0))
            &&& !bad && late ==> handed_on(node, after, request)
            &&& !bad && !late && unsigned ==> after.outbox == node.outbox
            &&& passed is Ok ==> after.sign_state == node.sign_state && after.authorized
                == node.authorized
        }),
{
}

/// The key that an acceptance is filed under covers every transaction of the request:
/// requests that differ in the bytes of the spend, of the escape or of any bump, or in the
/// number of bumps, have different candidates.
pub proof fn the_candidates_cover_the_request(
    a: SpendPairView,
    a_ids: PairIdsView,
    b: SpendPairView,
    b_ids: PairIdsView,
)
    requires
        pair_candidates(a, a_ids) == pair_candidates(b, b_ids),
    ensures
        a_ids == b_ids,
        a.spend_bytes == b.spend_bytes,
        a.escape_bytes == b.escape_bytes,
        a.bump_bytes == b.bump_bytes,
{
    let x = pair_candidates(a, a_ids);
    let y = pair_candidates(b, b_ids);
    assert(x[0] == y[0] && x[1] == y[1]);
    assert(x.len() == a.bump_bytes.len() + 2);
    assert(y.len() == b.bump_bytes.len() + 2);
    assert forall|i: int| 0 <= i < a.bump_bytes.len() implies a.bump_bytes[i]
        == b.bump_bytes[i] by {
        assert(x[i + 2].1 == a.bump_bytes[i]);
        assert(y[i + 2].1 == b.bump_bytes[i]);
    }
    assert(a.bump_bytes =~= b.bump_bytes);
}

/// Before a spend or a refresh is judged the node forgets what no longer counts, and no
/// more: each verdict, each pending spend and each rest that counts now stays as it is.
pub proof fn nothing_that_counts_is_forgotten(
    node: NodeView,
    now: u64,
    key: Seq<char>,
    coin: OutPoint,
)
    ensures
        ({
            let after = stores_pruned(replay_pruned(node, now), now);
            let (was, left) = (node.sign_state, after.sign_state);
            let interval = node.params.refresh_min_interval_secs;
            &&& recorded(left.replay, key, now) == recorded(was.replay, key, now)
            &&& left.pending.contains_key(key) <==> was.pending.contains_key(key) && now
                <= was.pending[key]
            &&& left.pending.contains_key(key) ==> left.pending[key] == was.pending[key]
            &&& was.refreshes.contains_key(coin) && interval > 0 && now < was.refreshes[coin] + interval
                ==> left.refreshes.contains_key(coin)
            &&& left.refreshes.contains_key(coin) ==> was.refreshes.contains_key(coin)
                && left.refreshes[coin] == was.refreshes[coin]
            &&& left.coord_nonces == was.coord_nonces
            &&& after.authorized == node.authorized && after.outbox == node.outbox
            &&& node.channel is Some ==> after.errands == node.errands.push(
                ErrandView::PruneStore { now },
            )
            &&& node.channel is None ==> after.errands == node.errands
        }),
{
}

/// A refresh that was answered before, in just this form or under its name, is answered as
/// before; else it is judged.
pub proof fn after_the_refresh_lookup(node: NodeView, job: RefreshJobView, id: Seq<char>)
    ensures
        ({
            let (after, passed) = refresh_looked_up(node, job, id);
            let key = acceptance_key(seq![(id, job.bytes)]);
            let whole = recorded(node.sign_state.replay, key, job.now);
            let named = recorded(node.sign_state.replay, id, job.now);
            &&& passed is Ok <==> whole is None && named is None
            &&& passed matches Ok(k) ==> k == key
            &&& whole matches Some(v) ==> passed == Err::<Seq<char>, AnswerView>(Ok(v))
            &&& whole is None ==> (named matches Some(v) ==> passed == Err::<Seq<char>, AnswerView>(
                Ok(v),
            ))
            &&& after.outbox == node.outbox && after.authorized == node.authorized
        }),
{
}

/// A spend that has passed the entrance was first seen then, at the node's own time, and
/// counts as under a wrong pin until the pin is compared.
pub proof fn a_spend_starts_under_a_wrong_pin(node: NodeView, request: &SignRequest, at: Ingress)
    ensures
        ({
            let job = admitted_job(node, request, at);
            &&& job.first_seen == job.now
            &&& job.now >= at.raw_now && job.now >= node.sign_state.coord_nonces.high_water
            &&& job.now == at.raw_now || job.now == node.sign_state.coord_nonces.high_water
            &&& job.raw_now == at.raw_now
            &&& job.verdict == PinVerdict::Wrong
            &&& job.guard == ingress_guard(node, request, at)
        }),
{
}

proof fn lemma_opened_on_file(
    node: NodeView,
    request: SignRequestView,
    job: SignJobView,
    pair: SpendPairView,
    fetched: (Option<PrevoutFetchView>, Option<PrevoutFetchView>),
    facts: SignFacts,
)
    requires
        accepts(opened_run(node, request, job, pair, fetched, facts).1),
        fetched.0 matches Some(Err(r)) ==> r is Refusal,
        fetched.1 matches Some(Err(r)) ==> r is Refusal,
        recorded(
            node.sign_state.replay,
            acceptance_key(pair_candidates(pair, facts.ids@)),
            job.now,
        ) is None,
        recorded(node.sign_state.replay, facts.ids@.spend, job.now) is None,
    ensures
        ({
            let (after, answer) = opened_run(node, request, job, pair, fetched, facts);
            let key = acceptance_key(pair_candidates(pair, facts.ids@));
            &&& handed_on(node, after, request)
            &&& after.authorized.contains(transaction_id(pair.spend.unsigned_tx))
            &&& after.authorized.contains(transaction_id(pair.escape.unsigned_tx))
            &&& forall|i: int|
                0 <= i < pair.bumps.len() ==> after.authorized.contains(
                    transaction_id((#[trigger] pair.bumps[i]).unsigned_tx),
                )
            &&& facts.spend_policy@.classification matches Ok(c)
            &&& c.class == TxClass::Hot ==> after.sign_state.pending.contains_pair(
                facts.ids@.spend,
                request.expiry,
            )
            &&& answer matches Ok(SignResponseView::Accepted(a))
            &&& a.commitment_id == facts.ids@.spend && a.first_seen == job.now
            &&& after.sign_state.replay.contains_key(key)
            &&& after.sign_state.replay[key].expiry == request.expiry
            &&& after.sign_state.replay[key].verdict == SignResponseView::Accepted(a)
        }),
{
    reveal(opened_run);
    let ids = facts.ids@;
    let (n1, found) = looked_up(node, request, job, pair, ids, fetched);
    lemma_truth_refuses(pair.spend, fetched.0);
    lemma_signature_refuses(node.keys, pair.spend, 0);
    after_the_lookup(node, request, job, pair, ids, fetched);
    if let Ok(key) = found {
        let (n2, class) = judged(n1, request, job, pair, ids, fetched.0, facts.spend_policy@);
        after_the_judgement(n1, request, job, pair, ids, fetched.0, facts.spend_policy@);
        assert(spend_refusal(n1, pair.spend, fetched.0, facts.spend_policy@) == spend_refusal(
            node,
            pair.spend,
            fetched.0,
            facts.spend_policy@,
        ));
        if let Ok(c) = class {
            let p = PairingView {
                pair,
                ids,
                class: c,
                fetched: fetched.1,
                escape_policy: facts.escape_policy@,
                bump_policies: policy_views(facts.bump_policies@),
            };
            let (n3, metered_as) = metered(n2, request, job, c, facts.reserve);
            after_the_ledger(n2, request, job, c, facts.reserve);
            if let Ok(reserved) = metered_as {
                let (n4, signed) = paired(n3, request, job, p, reserved);
                after_the_pairing(n3, request, job, p, reserved);
                lemma_pairing_refuses(n3, p);
                if signed is Ok {
                    an_accepted_spend_is_remembered(
                        n4,
                        request,
                        job,
                        pair,
                        ids,
                        key,
                        c,
                        reserved,
                        facts.kept,
                    );
                }
            }
        }
    }
}

proof fn lemma_pairing_refuses(node: NodeView, p: PairingView)
    requires
        p.fetched matches Some(Err(r)) ==> r is Refusal,
    ensures
        pairing_refusal(node, p) matches Some(r) ==> r is Refusal,
{
    lemma_truth_refuses(p.pair.escape, p.fetched);
    lemma_signature_refuses(node.keys, p.pair.escape, 0);
    lemma_bumps_refuse(node, p.pair.bumps, p.fetched, p.bump_policies, 0);
}

/// A spend that is accepted and was not on file before has been handed on; its own
/// transaction, its escape and every bump count as authorized; a hot one is pending until
/// it expires; and its answer is on file for as long, under the whole request.
pub proof fn an_accepted_spend_is_on_file(
    node: NodeView,
    request: SignRequestView,
    job: SignJobView,
    facts: SignFacts,
)
    requires
        accepts(admitted_run(node, request, job, facts).1),
        decoded_pair(request) is Ok,
        ({
            let now = node.sign_state.coord_nonces.effective_now(facts.reopen_at);
            let pair = decoded_pair(request)->Ok_0;
            let key = acceptance_key(pair_candidates(pair, facts.ids@));
            &&& recorded(node.sign_state.replay, key, now) is None
            &&& recorded(node.sign_state.replay, facts.ids@.spend, now) is None
        }),
    ensures
        ({
            let (after, answer) = admitted_run(node, request, job, facts);
            let now = node.sign_state.coord_nonces.effective_now(facts.reopen_at);
            let pair = decoded_pair(request)->Ok_0;
            let key = acceptance_key(pair_candidates(pair, facts.ids@));
            &&& handed_on(node, after, request)
            &&& after.authorized.contains(transaction_id(pair.spend.unsigned_tx))
            &&& after.authorized.contains(transaction_id(pair.escape.unsigned_tx))
            &&& forall|i: int|
                0 <= i < pair.bumps.len() ==> after.authorized.contains(
                    transaction_id((#[trigger] pair.bumps[i]).unsigned_tx),
                )
            &&& facts.spend_policy@.classification matches Ok(c)
            &&& c.class == TxClass::Hot ==> after.sign_state.pending.contains_pair(
                facts.ids@.spend,
                request.expiry,
            )
            &&& answer matches Ok(SignResponseView::Accepted(a))
            &&& a.commitment_id == facts.ids@.spend && a.first_seen == now
            &&& after.sign_state.replay.contains_key(key)
            &&& after.sign_state.replay[key].expiry == request.expiry
            &&& after.sign_state.replay[key].verdict == SignResponseView::Accepted(a)
        }),
{
    reveal(admitted_run);
    reveal(charged_run);
    let verdict = effective_verdict(facts.compared, request.pin, node.params.max_pin_bytes);
    let armed = armed_job(node, job, verdict, facts.carrier@, facts.commit_at);
    let n = counted(node, verdict);
    let (n1, j1) = committed(n, request, armed, facts.upgrade);
    after_the_pin(n, request, armed, facts.upgrade);
    if let Ok(j1) = j1 {
        let (n2, j2) = charged(n1, request, j1, facts.charge);
        after_the_charge(n1, request, j1, facts.charge);
        if let Ok(j2) = j2 {
            let (n3, j3) = reopened(n2, request, j2, facts.reopen_at);
            after_the_chain(n2, request, j2, facts.reopen_at);
            if let Ok((j3, pair)) = j3 {
                assert(n3 == n);
                let fetched = fetched_coins(n3, request, facts);
                lemma_opened_on_file(n3, request, j3, pair, fetched, facts);
            }
        }
    }
}

/// What is handed on is marked as such with the channel, under its carrier.
pub proof fn what_is_handed_on_is_marked(
    node: NodeView,
    request: TaggedRequestView,
    carrier: Seq<char>,
)
    ensures
        ({
            let after = staged(node, request, carrier);
            &&& after.outbox == node.outbox.push(request)
            &&& node.channel is Some ==> after.errands == node.errands.push(
                ErrandView::MarkCarrierPropagated { carrier },
            )
            &&& node.channel is None ==> after.errands == node.errands
            &&& after.sign_state == node.sign_state && after.authorized == node.authorized
        }),
{
}

/// A spend that the clock stops after its pin was compared is answered so, and handed on;
/// one that the budget of attempts stops next is refused for its pin, and handed on; one
/// that the clock stops after the look at the chain is answered so, and handed on. None of
/// them is accepted.
pub proof fn what_stops_a_spend_on_its_way(
    node: NodeView,
    request: SignRequestView,
    job: SignJobView,
    facts: SignFacts,
)
    ensures
        ({
            let (after, answer) = admitted_run(node, request, job, facts);
            let log = node.sign_state.coord_nonces;
            let early = clock_refusal(
                node,
                request.expiry,
                facts.commit_at,
                log.effective_now(facts.commit_at),
                ClockStage::Pin,
            );
            let later = clock_refusal(
                node,
                request.expiry,
                facts.reopen_at,
                log.effective_now(facts.reopen_at),
                ClockStage::Preflight,
            );
            &&& early matches Some(r) ==> answer == Ok::<SignResponseView, Seq<char>>(r)
                && handed_on(node, after, request)
            &&& early is None && facts.charge.refuse ==> (
            answer matches Ok(SignResponseView::Refusal(r)) && r.code == RefusalCode::BadPin)
                && handed_on(node, after, request)
            &&& early is None && !facts.charge.refuse && node.lockdown ==> (
            answer matches Ok(SignResponseView::Refusal(r)) && r.code
                == RefusalCode::FraudSuspected)
            &&& early is None && !facts.charge.refuse && !node.lockdown ==> (later matches Some(r)
                ==> answer == Ok::<SignResponseView, Seq<char>>(r) && handed_on(
                node,
                after,
                request,
            ))
        }),
{
    reveal(admitted_run);
    reveal(charged_run);
    let verdict = effective_verdict(facts.compared, request.pin, node.params.max_pin_bytes);
    let armed = armed_job(node, job, verdict, facts.carrier@, facts.commit_at);
    let n = counted(node, verdict);
    let (n1, j1) = committed(n, request, armed, facts.upgrade);
    after_the_pin(n, request, armed, facts.upgrade);
    if let Ok(j1) = j1 {
        let (n2, j2) = charged(n1, request, j1, facts.charge);
        after_the_charge(n1, request, j1, facts.charge);
        if let Ok(j2) = j2 {
            after_the_chain(n2, request, j2, facts.reopen_at);
        }
    }
}

/// A guard that ends gives back what it holds, and nothing else: its claim on the nonce
/// where that is its own, under its generation, and the ruling of the carrier where it
/// has one.
pub proof fn what_a_guard_gives_back(node: NodeView, guard: GuardView)
    ensures
        ({
            let given = guard.release();
            let claim = ErrandView::ReleaseNonceClaim {
                nonce: guard.nonce,
                generation: guard.generation,
            };
            &&& released(node, Some(guard)).errands == node.errands + given
            &&& released(node, None) == node
            &&& guard.owns_memo <==> given.contains(claim)
            &&& forall|carrier: Seq<char>|
                guard.ruling_carrier == Some(carrier) <==> #[trigger] given.contains(
                    ErrandView::EndCarrierRuling { carrier },
                )
            &&& given.len() == (if guard.owns_memo {
                1int
            } else {
                0int
            }) + (if guard.ruling_carrier is Some {
                1int
            } else {
                0int
            })
            &&& released(node, Some(guard)).sign_state == node.sign_state
            &&& released(node, Some(guard)).outbox == node.outbox
        }),
{
    let given = guard.release();
    let claim = ErrandView::ReleaseNonceClaim {
        nonce: guard.nonce,
        generation: guard.generation,
    };
    if guard.owns_memo {
        assert(given[0] == claim);
    }
    assert forall|carrier: Seq<char>|
        guard.ruling_carrier == Some(carrier) <==> #[trigger] given.contains(
            ErrandView::EndCarrierRuling { carrier },
        ) by {
        if guard.ruling_carrier == Some(carrier) {
            assert(given[given.len() - 1] == ErrandView::EndCarrierRuling { carrier });
        }
    }
}

proof fn lemma_no_budget_in_release(guard: Option<GuardView>, node: NodeView, id: Seq<char>)
    ensures
        released(node, guard).errands.contains(ErrandView::ReleaseHotBudget { commitment_id: id })
            ==> node.errands.contains(ErrandView::ReleaseHotBudget { commitment_id: id }),
{
    let errand = ErrandView::ReleaseHotBudget { commitment_id: id };
    let after = released(node, guard).errands;
    if after.contains(errand) {
        let k = choose|k: int| 0 <= k < after.len() && after[k] == errand;
        if k < node.errands.len() {
            assert(node.errands[k] == errand);
        }
    }
}

/// A reservation that the spend did not make is not given back with it: it stands for an
/// earlier one of the same name.
pub proof fn an_earlier_reservation_is_left_alone(
    node: NodeView,
    request: SignRequestView,
    job: SignJobView,
    p: PairingView,
    key: Seq<char>,
    answer: RegisterAnswer,
    id: Seq<char>,
)
    ensures
        ({
            let errand = ErrandView::ReleaseHotBudget { commitment_id: id };
            &&& paired(node, request, job, p, false).0.errands.contains(errand)
                ==> node.errands.contains(errand)
            &&& registered(
                node,
                request,
                job,
                p.ids,
                key,
                p.class,
                false,
                pair_txids(p.pair),
                answer,
            ).0.errands.contains(errand) ==> node.errands.contains(errand)
        }),
{
    let errand = ErrandView::ReleaseHotBudget { commitment_id: id };
    let sent = staged(node, TaggedRequestView::Spend(request), job.carrier);
    lemma_no_budget_in_release(job.guard, node, id);
    lemma_no_budget_in_release(job.guard, sent, id);
    if sent.errands.contains(errand) {
        let k = choose|k: int| 0 <= k < sent.errands.len() && sent.errands[k] == errand;
        assert(node.errands[k] == errand);
    }
}

} // verus!
