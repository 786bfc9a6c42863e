//! What an onlooker can and cannot tell from a spend, and what a spend leaves
//! behind: laws over the whole of its way.

use vstd::prelude::*;

use crate::commitment::acceptance_key;
use crate::coord::signature_refusal;
use crate::ingress::{
    after_ingress, armed_job, charged, closed, committed, counted, entry_request, ingress_answer,
    ingress_guard, reopened, ruling_guard, staged_and_closed, takes_nonce, with_nonces, Ingress,
    SignJobView, SpendPairView,
};
use crate::node::NodeView;
use crate::pin::{effective_verdict, PinCharge, PinVerdict};
use crate::policy::{Classification, PolicyVerdictView, TxClass};
use crate::prevouts::PrevoutFetchView;
use crate::proto::{SignRequest, SignRequestView, SignResponseView, TaggedRequestView};
use crate::refresh::spend_comes_first;
use crate::registry::{released, ErrandView, GuardView, MemoGeneration};
use crate::replay::{pending_at, NonceClaim, NonceDecision, NonceLogView};
use crate::spend::{
    admitted_job, admitted_run, bumps_refusal, charged_run, classed_run, fetched_coins, judged,
    kept_refusal, lemma_opened_goes_by, looked_up, metered, nonces_after, opened_run,
    over_hot_limit, pair_candidates, pair_txids, paired, pairing_refusal, policy_views, registered,
    reopened_run, replay_pruned, rescheduled, sign_run, spend_accepted, spend_class, unwound,
    PairIdsView, PairingView, SignFacts,
};
use crate::verdict::{filed, spend_refusal, staged, AnswerView};

verus! {

/// Whether two spends differ in nothing but the pin, and the coordinator's signature
/// over it.
pub open spec fn same_but_pin(r: SignRequestView, q: SignRequestView) -> bool {
    r == (SignRequestView { pin: r.pin, coord_sig: r.coord_sig, ..q })
}

/// Whether two requests are the same, or spends that differ in the pin alone.
pub open spec fn requests_alike(r: TaggedRequestView, q: TaggedRequestView) -> bool {
    match (r, q) {
        (TaggedRequestView::Spend(r), TaggedRequestView::Spend(q)) => same_but_pin(r, q),
        _ => r == q,
    }
}

/// Whether two outboxes hold the same requests but for their pins.
pub open spec fn outboxes_alike(a: Seq<TaggedRequestView>, b: Seq<TaggedRequestView>) -> bool {
    &&& a.len() == b.len()
    &&& forall|i: int| 0 <= i < a.len() ==> requests_alike(#[trigger] a[i], b[i])
}

/// Whether two claims on a nonce differ in nothing but the tag of the signature.
pub open spec fn generations_alike(g: MemoGeneration, h: MemoGeneration) -> bool {
    g.expiry == h.expiry && g.deadline == h.deadline
}

/// Whether two errands differ in nothing but what stands for the request they are about,
/// its carrier and the tag of its signature, and in the flag of a schedule.
pub open spec fn errand_alike(e: ErrandView, f: ErrandView) -> bool {
    match (e, f) {
        (
            ErrandView::ClaimNonce { nonce: n, generation: g, mono_now: t },
            ErrandView::ClaimNonce { nonce: m, generation: h, mono_now: u },
        ) => n == m && generations_alike(g, h) && t == u,
        (
            ErrandView::ReleaseNonceClaim { nonce: n, generation: g },
            ErrandView::ReleaseNonceClaim { nonce: m, generation: h },
        ) => n == m && generations_alike(g, h),
        (ErrandView::EndCarrierRuling { .. }, ErrandView::EndCarrierRuling { .. }) => true,
        (
            ErrandView::MarkCarrierPropagated { .. },
            ErrandView::MarkCarrierPropagated { .. },
        ) => true,
        (
            ErrandView::ApplyCachedSchedule { escape: x, duress: _, now: t, epsilon_secs: d },
            ErrandView::ApplyCachedSchedule { escape: y, duress: _, now: u, epsilon_secs: e },
        ) => x == y && t == u && d == e,
        (
            ErrandView::RecordIntentPair { carrier: _, spend: s, escape: x },
            ErrandView::RecordIntentPair { carrier: _, spend: t, escape: y },
        ) => s == t && x == y,
        _ => e == f,
    }
}

/// Whether two lists of errands are alike, one by one.
pub open spec fn errands_alike(a: Seq<ErrandView>, b: Seq<ErrandView>) -> bool {
    &&& a.len() == b.len()
    &&& forall|i: int| 0 <= i < a.len() ==> errand_alike(#[trigger] a[i], b[i])
}

/// Whether two nodes differ in nothing but the count of duress arms, the pins in the
/// requests that they hand on, and what names these requests in errands for the channel.
pub open spec fn alike(a: NodeView, b: NodeView) -> bool {
    &&& errands_alike(a.errands, b.errands)
    &&& outboxes_alike(a.outbox, b.outbox)
    &&& a == (NodeView {
        errands: a.errands,
        outbox: a.outbox,
        duress_arm: a.duress_arm,
        ..b
    })
}

/// Whether two claims differ in nothing but what names the request.
pub open spec fn guards_alike(g: Option<GuardView>, h: Option<GuardView>) -> bool {
    match (g, h) {
        (Some(g), Some(h)) => {
            &&& g.nonce == h.nonce
            &&& generations_alike(g.generation, h.generation)
            &&& g.owns_memo == h.owns_memo
            &&& g.ruling_carrier is Some == h.ruling_carrier is Some
        },
        _ => g is None && h is None,
    }
}

/// Whether two spends on their way differ in nothing but which pin was given.
pub open spec fn jobs_alike(j: SignJobView, k: SignJobView) -> bool {
    &&& guards_alike(j.guard, k.guard)
    &&& j == (SignJobView { verdict: j.verdict, carrier: j.carrier, guard: j.guard, ..k })
}

/// Whether the surroundings have answered two spends alike, but for what the pin was
/// found to be, and for what is made from the request: its digest, its carrier, and the
/// tag of its signature.
pub open spec fn facts_alike(x: SignFacts, y: SignFacts) -> bool {
    &&& x == (SignFacts { at: x.at, compared: x.compared, carrier: x.carrier, ..y })
    &&& x.at == (Ingress { digest: x.at.digest, signature_tag: x.at.signature_tag, ..y.at })
}

proof fn lemma_push(a: Seq<ErrandView>, b: Seq<ErrandView>, e: ErrandView, f: ErrandView)
    requires
        errands_alike(a, b),
        errand_alike(e, f),
    ensures
        errands_alike(a.push(e), b.push(f)),
{
}

proof fn lemma_append(
    a: Seq<ErrandView>,
    b: Seq<ErrandView>,
    more: Seq<ErrandView>,
    others: Seq<ErrandView>,
)
    requires
        errands_alike(a, b),
        errands_alike(more, others),
    ensures
        errands_alike(a + more, b + others),
{
    assert forall|i: int| 0 <= i < (a + more).len() implies errand_alike(
        #[trigger] (a + more)[i],
        (b + others)[i],
    ) by {
        if i >= a.len() {
            assert(errand_alike(more[i - a.len()], others[i - a.len()]));
        } else {
            assert(errand_alike(a[i], b[i]));
        }
    }
}

proof fn lemma_staged(
    a: NodeView,
    b: NodeView,
    r: SignRequestView,
    q: SignRequestView,
    c: Seq<char>,
    d: Seq<char>,
)
    requires
        alike(a, b),
        same_but_pin(r, q),
    ensures
        alike(
            staged(a, TaggedRequestView::Spend(r), c),
            staged(b, TaggedRequestView::Spend(q), d),
        ),
{
    lemma_push(
        a.errands,
        b.errands,
        ErrandView::MarkCarrierPropagated { carrier: c },
        ErrandView::MarkCarrierPropagated { carrier: d },
    );
    let (x, y) = (TaggedRequestView::Spend(r), TaggedRequestView::Spend(q));
    assert(requests_alike(x, y));
    assert(outboxes_alike(a.outbox.push(x), b.outbox.push(y)));
}

proof fn lemma_released(a: NodeView, b: NodeView, g: Option<GuardView>, h: Option<GuardView>)
    requires
        alike(a, b),
        guards_alike(g, h),
    ensures
        alike(released(a, g), released(b, h)),
        alike(closed(a, g), closed(b, h)),
{
    if let (Some(g), Some(h)) = (g, h) {
        assert(errands_alike(g.release(), h.release()));
        lemma_append(a.errands, b.errands, g.release(), h.release());
    }
}

proof fn lemma_staged_and_closed(
    a: NodeView,
    b: NodeView,
    r: SignRequestView,
    q: SignRequestView,
    j: SignJobView,
    k: SignJobView,
)
    requires
        alike(a, b),
        same_but_pin(r, q),
        jobs_alike(j, k),
    ensures
        alike(staged_and_closed(a, r, j), staged_and_closed(b, q, k)),
{
    lemma_staged(a, b, r, q, j.carrier, k.carrier);
    lemma_released(
        staged(a, TaggedRequestView::Spend(r), j.carrier),
        staged(b, TaggedRequestView::Spend(q), k.carrier),
        j.guard,
        k.guard,
    );
}

proof fn lemma_unwound(a: NodeView, b: NodeView, ids: PairIdsView, reserved: bool)
    requires
        alike(a, b),
    ensures
        alike(unwound(a, ids, reserved), unwound(b, ids, reserved)),
{
    let e = ErrandView::ReleaseHotBudget { commitment_id: ids.spend };
    lemma_push(a.errands, b.errands, e, e);
}

proof fn lemma_filed(a: NodeView, b: NodeView, key: Seq<char>, expiry: u64, v: SignResponseView)
    requires
        alike(a, b),
    ensures
        alike(filed(a, key, expiry, v), filed(b, key, expiry, v)),
{
}

proof fn lemma_classed_alike(
    a: NodeView,
    b: NodeView,
    r: SignRequestView,
    q: SignRequestView,
    j: SignJobView,
    k: SignJobView,
    pair: SpendPairView,
    key: Seq<char>,
    c: Classification,
    escape_fetch: Option<PrevoutFetchView>,
    facts: SignFacts,
)
    requires
        alike(a, b),
        same_but_pin(r, q),
        jobs_alike(j, k),
    ensures
        ({
            let x = classed_run(a, r, j, pair, key, c, escape_fetch, facts);
            let y = classed_run(b, q, k, pair, key, c, escape_fetch, facts);
            alike(x.0, y.0) && x.1 == y.1
        }),
{
    let p = PairingView {
        pair,
        ids: facts.ids@,
        class: c,
        fetched: escape_fetch,
        escape_policy: facts.escape_policy@,
        bump_policies: policy_views(facts.bump_policies@),
    };
    lemma_staged_and_closed(a, b, r, q, j, k);
    let (a1, x) = metered(a, r, j, c, facts.reserve);
    let (b1, y) = metered(b, q, k, c, facts.reserve);
    assert(x == y);
    if let Ok(reserved) = x {
        assert(a1 == a && b1 == b);
        lemma_unwound(a, b, p.ids, reserved);
        lemma_released(
            unwound(a, p.ids, reserved),
            unwound(b, p.ids, reserved),
            j.guard,
            k.guard,
        );
        lemma_staged_and_closed(
            unwound(a, p.ids, reserved),
            unwound(b, p.ids, reserved),
            r,
            q,
            j,
            k,
        );
        let (a2, x) = paired(a, r, j, p, reserved);
        let (b2, y) = paired(b, q, k, p, reserved);
        assert(pairing_refusal(a, p) == pairing_refusal(b, p)) by {
            lemma_pairing_same(a, b, p);
        }
        if x is Ok {
            lemma_staged(a, b, r, q, j.carrier, k.carrier);
            assert(alike(a2, b2));
            lemma_registered_alike(
                a2,
                b2,
                r,
                q,
                j,
                k,
                key,
                c,
                reserved,
                pair_txids(pair),
                facts,
            );
        }
    }
}

proof fn lemma_bumps_same(
    a: NodeView,
    b: NodeView,
    p: PairingView,
    rung: int,
)
    requires
        alike(a, b),
    ensures
        bumps_refusal(a, p.pair.bumps, p.fetched, p.bump_policies, rung)
            == bumps_refusal(b, p.pair.bumps, p.fetched, p.bump_policies, rung),
    decreases p.pair.bumps.len() - rung,
{
    if rung < p.pair.bumps.len() {
        lemma_bumps_same(a, b, p, rung + 1);
    }
}

proof fn lemma_pairing_same(a: NodeView, b: NodeView, p: PairingView)
    requires
        alike(a, b),
    ensures
        pairing_refusal(a, p) == pairing_refusal(b, p),
{
    lemma_bumps_same(a, b, p, 0);
}

proof fn lemma_registered_alike(
    a: NodeView,
    b: NodeView,
    r: SignRequestView,
    q: SignRequestView,
    j: SignJobView,
    k: SignJobView,
    key: Seq<char>,
    c: Classification,
    reserved: bool,
    txids: Seq<[u8; 32]>,
    facts: SignFacts,
)
    requires
        alike(a, b),
        same_but_pin(r, q),
        jobs_alike(j, k),
    ensures
        ({
            let x = registered(a, r, j, facts.ids@, key, c, reserved, txids, facts.kept);
            let y = registered(b, q, k, facts.ids@, key, c, reserved, txids, facts.kept);
            alike(x.0, y.0) && x.1 == y.1
        }),
{
    let ids = facts.ids@;
    lemma_unwound(a, b, ids, reserved);
    lemma_released(unwound(a, ids, reserved), unwound(b, ids, reserved), j.guard, k.guard);
    if let (Some(g), Some(h)) = (j.guard, k.guard) {
        assert(errands_alike(g.release(), h.release()));
        lemma_append(a.errands, b.errands, g.release(), h.release());
    }
}

proof fn lemma_opened_alike(
    a: NodeView,
    b: NodeView,
    r: SignRequestView,
    q: SignRequestView,
    j: SignJobView,
    k: SignJobView,
    pair: SpendPairView,
    fetched: (Option<PrevoutFetchView>, Option<PrevoutFetchView>),
    facts: SignFacts,
)
    requires
        alike(a, b),
        same_but_pin(r, q),
        jobs_alike(j, k),
    ensures
        ({
            let x = opened_run(a, r, j, pair, fetched, facts);
            let y = opened_run(b, q, k, pair, fetched, facts);
            alike(x.0, y.0) && x.1 == y.1
        }),
{
    reveal(opened_run);
    let ids = facts.ids@;
    let a0 = replay_pruned(a, j.now);
    let b0 = replay_pruned(b, k.now);
    assert(alike(a0, b0));
    let e = |job: SignJobView| ErrandView::ApplyCachedSchedule {
        escape: ids.escape,
        duress: job.verdict == PinVerdict::Duress,
        now: job.now,
        epsilon_secs: a.params.epsilon_secs,
    };
    let f = |job: SignJobView| ErrandView::RecordIntentPair {
        carrier: job.carrier,
        spend: ids.spend,
        escape: ids.escape,
    };
    lemma_push(a0.errands, b0.errands, e(j), e(k));
    lemma_push(a0.errands.push(e(j)), b0.errands.push(e(k)), f(j), f(k));
    assert(alike(rescheduled(a0, j, ids), rescheduled(b0, k, ids)));
    lemma_staged_and_closed(rescheduled(a0, j, ids), rescheduled(b0, k, ids), r, q, j, k);
    lemma_staged_and_closed(a0, b0, r, q, j, k);
    lemma_released(a0, b0, j.guard, k.guard);
    let g = ErrandView::PruneStore { now: j.now };
    lemma_push(a0.errands, b0.errands, g, g);
    let (a1, x) = looked_up(a, r, j, pair, ids, fetched);
    let (b1, y) = looked_up(b, q, k, pair, ids, fetched);
    assert(alike(a1, b1) && x == y);
    if let Ok(key) = x {
        let policy = facts.spend_policy@;
        lemma_judged_alike(a1, b1, r, q, j, k, pair, ids, fetched.0, policy);
        let (a2, c) = judged(a1, r, j, pair, ids, fetched.0, policy);
        let (b2, d) = judged(b1, q, k, pair, ids, fetched.0, policy);
        if let Ok(c) = c {
            lemma_classed_alike(a2, b2, r, q, j, k, pair, key, c, fetched.1, facts);
        }
    }
}

proof fn lemma_judged_alike(
    a: NodeView,
    b: NodeView,
    r: SignRequestView,
    q: SignRequestView,
    j: SignJobView,
    k: SignJobView,
    pair: SpendPairView,
    ids: PairIdsView,
    fetched: Option<PrevoutFetchView>,
    policy: PolicyVerdictView,
)
    requires
        alike(a, b),
        same_but_pin(r, q),
        jobs_alike(j, k),
    ensures
        ({
            let x = judged(a, r, j, pair, ids, fetched, policy);
            let y = judged(b, q, k, pair, ids, fetched, policy);
            alike(x.0, y.0) && x.1 == y.1
        }),
{
    lemma_staged(a, b, r, q, j.carrier, k.carrier);
    match spend_refusal(a, pair.spend, fetched, policy) {
        Some(v) => {
            let (a3, b3) = if over_hot_limit(v) {
                (
                    staged(a, TaggedRequestView::Spend(r), j.carrier),
                    staged(b, TaggedRequestView::Spend(q), k.carrier),
                )
            } else {
                (a, b)
            };
            lemma_filed(a3, b3, ids.spend, r.expiry, v);
            lemma_released(
                filed(a3, ids.spend, r.expiry, v),
                filed(b3, ids.spend, r.expiry, v),
                j.guard,
                k.guard,
            );
        },
        None => {
            if let Err(v) = spend_class(policy) {
                lemma_filed(a, b, ids.spend, r.expiry, v);
                lemma_released(
                    filed(a, ids.spend, r.expiry, v),
                    filed(b, ids.spend, r.expiry, v),
                    j.guard,
                    k.guard,
                );
            }
        },
    }
}

proof fn lemma_charged_alike(
    a: NodeView,
    b: NodeView,
    r: SignRequestView,
    q: SignRequestView,
    j: SignJobView,
    k: SignJobView,
    charge: PinCharge,
)
    requires
        alike(a, b),
        same_but_pin(r, q),
        jobs_alike(j, k),
    ensures
        ({
            let x = charged(a, r, j, charge);
            let y = charged(b, q, k, charge);
            &&& alike(x.0, y.0)
            &&& x.1 is Ok == y.1 is Ok
            &&& x.1 is Err ==> x.1->Err_0 == y.1->Err_0
        }),
{
    lemma_staged(a, b, r, q, j.carrier, k.carrier);
    let x = staged(a, TaggedRequestView::Spend(r), j.carrier);
    let y = staged(b, TaggedRequestView::Spend(q), k.carrier);
    let x = NodeView { spend_preflight: x.spend_preflight.wrapping_sub(1), ..x };
    let y = NodeView { spend_preflight: y.spend_preflight.wrapping_sub(1), ..y };
    let w = ErrandView::Wait { secs: charge.backoff_secs };
    lemma_push(x.errands, y.errands, w, w);
    lemma_released(x, y, j.guard, k.guard);
    lemma_released(
        NodeView { errands: x.errands.push(w), ..x },
        NodeView { errands: y.errands.push(w), ..y },
        j.guard,
        k.guard,
    );
}

proof fn lemma_reopened_alike(
    a: NodeView,
    b: NodeView,
    r: SignRequestView,
    q: SignRequestView,
    j: SignJobView,
    k: SignJobView,
    x: SignFacts,
    y: SignFacts,
)
    requires
        alike(a, b),
        same_but_pin(r, q),
        jobs_alike(j, k),
        facts_alike(x, y),
    ensures
        ({
            let p = reopened_run(a, r, j, x);
            let q = reopened_run(b, q, k, y);
            alike(p.0, q.0) && p.1 == q.1
        }),
{
    let now = a.sign_state.coord_nonces.effective_now(x.reopen_at);
    let j3 = SignJobView { raw_now: x.reopen_at, now, ..j };
    let k3 = SignJobView { raw_now: x.reopen_at, now, ..k };
    lemma_staged_and_closed(a, b, r, q, j3, k3);
    lemma_released(a, b, j3.guard, k3.guard);
    let (a3, passed) = reopened(a, r, j, x.reopen_at);
    let (b3, followed) = reopened(b, q, k, y.reopen_at);
    if let Ok((j3, pair)) = passed {
        let k3 = followed->Ok_0.0;
        let fetched = fetched_coins(a3, r, x);
        assert(fetched == fetched_coins(b3, q, y));
        lemma_opened_alike(a3, b3, r, q, j3, k3, pair, fetched, x);
        lemma_opened_goes_by(b3, q, k3, pair, fetched, x, y);
    }
}

proof fn lemma_charged_run_alike(
    a: NodeView,
    b: NodeView,
    r: SignRequestView,
    q: SignRequestView,
    j: SignJobView,
    k: SignJobView,
    x: SignFacts,
    y: SignFacts,
)
    requires
        alike(a, b),
        same_but_pin(r, q),
        jobs_alike(j, k),
        facts_alike(x, y),
    ensures
        ({
            let p = charged_run(a, r, j, x);
            let q = charged_run(b, q, k, y);
            alike(p.0, q.0) && p.1 == q.1
        }),
{
    reveal(charged_run);
    lemma_charged_alike(a, b, r, q, j, k, x.charge);
    if !x.charge.refuse {
        lemma_reopened_alike(a, b, r, q, j, k, x, y);
    }
}

proof fn lemma_admitted_alike(
    a: NodeView,
    b: NodeView,
    r: SignRequestView,
    q: SignRequestView,
    j: SignJobView,
    k: SignJobView,
    x: SignFacts,
    y: SignFacts,
)
    requires
        alike(a, b),
        same_but_pin(r, q),
        jobs_alike(j, k),
        facts_alike(x, y),
    ensures
        ({
            let p = admitted_run(a, r, j, x);
            let q = admitted_run(b, q, k, y);
            alike(p.0, q.0) && p.1 == q.1
        }),
{
    reveal(admitted_run);
    let v = effective_verdict(x.compared, r.pin, a.params.max_pin_bytes);
    let w = effective_verdict(y.compared, q.pin, b.params.max_pin_bytes);
    let j0 = armed_job(a, j, v, x.carrier@, x.commit_at);
    let k0 = armed_job(b, k, w, y.carrier@, y.commit_at);
    let (a0, b0) = (counted(a, v), counted(b, w));
    assert(alike(a0, b0));
    let j1 = SignJobView { guard: ruling_guard(j0.guard, j0.carrier, x.upgrade), ..j0 };
    let k1 = SignJobView { guard: ruling_guard(k0.guard, k0.carrier, y.upgrade), ..k0 };
    assert(jobs_alike(j1, k1));
    lemma_staged_and_closed(a0, b0, r, q, j1, k1);
    let (a1, passed) = committed(a0, r, j0, x.upgrade);
    let (b1, followed) = committed(b0, q, k0, y.upgrade);
    if passed is Ok {
        lemma_charged_run_alike(a1, b1, r, q, j1, k1, x, y);
    }
}

proof fn lemma_nonces_alike(
    log: NonceLogView,
    claim: NonceClaim,
    after: NonceLogView,
    other: NonceLogView,
)
    requires
        log.claimed(claim, after),
        log.claimed(claim, other),
    ensures
        after == other,
{
    if log.decision(claim) == NonceDecision::Accepted {
        let live = log.live(claim.now, claim.mono_now);
        assert(after.high_water == other.high_water);
    }
}

/// A normal pin and a duress pin look alike. Take two spends that differ in nothing but
/// the pin and the coordinator's signature, both properly signed or both faulted alike,
/// which the surroundings answer alike but for what the pin is found to be and what is
/// made from the request. They get the same answer, and leave the node the same but for
/// the count of duress arms, the pins in the requests it hands on, and what names these
/// requests in its errands: all it remembers, all it authorized, and how many requests
/// it hands on are equal.
pub proof fn duress_is_silent(
    node: NodeView,
    normal: &SignRequest,
    duress: &SignRequest,
    normal_facts: SignFacts,
    duress_facts: SignFacts,
    normal_nonces: NonceLogView,
    duress_nonces: NonceLogView,
)
    requires
        same_but_pin(normal@, duress@),
        facts_alike(normal_facts, duress_facts),
        signature_refusal(
            normal_facts.at.digest,
            normal.coord_sig@,
            node.keys.coordinator_auth,
        ) == signature_refusal(
            duress_facts.at.digest,
            duress.coord_sig@,
            node.keys.coordinator_auth,
        ),
        nonces_after(node, normal, normal_facts.at, normal_nonces),
        nonces_after(node, duress, duress_facts.at, duress_nonces),
    ensures
        ({
            let x = sign_run(node, normal, normal_facts, normal_nonces);
            let y = sign_run(node, duress, duress_facts, duress_nonces);
            &&& x.1 == y.1
            &&& alike(x.0, y.0)
            &&& x.0.sign_state == y.0.sign_state
            &&& x.0.authorized == y.0.authorized
            &&& x.0.outbox.len() == y.0.outbox.len()
        }),
{
    let (x, y) = (normal_facts.at, duress_facts.at);
    assert(ingress_answer(node, normal, x) == ingress_answer(node, duress, y));
    assert(takes_nonce(node, normal, x) == takes_nonce(node, duress, y));
    if takes_nonce(node, normal, x) {
        lemma_nonces_alike(
            node.sign_state.coord_nonces,
            entry_request(normal, x.digest).claim(
                x.raw_now,
                node.params.max_commitment_age_secs,
                x.mono_now,
            ),
            normal_nonces,
            duress_nonces,
        );
    }
    let a = with_nonces(after_ingress(node, normal, x), normal_nonces);
    let b = with_nonces(after_ingress(node, duress, y), duress_nonces);
    assert(outboxes_alike(node.outbox, node.outbox)) by {
        assert forall|i: int| 0 <= i < node.outbox.len() implies requests_alike(
            #[trigger] node.outbox[i],
            node.outbox[i],
        ) by {}
    }
    assert(errands_alike(node.errands, node.errands));
    let (g, h) = (ingress_guard(node, normal, x), ingress_guard(node, duress, y));
    assert(guards_alike(g, h));
    if let (Some(g), Some(h)) = (g, h) {
        let e = ErrandView::ClaimNonce {
            nonce: g.nonce,
            generation: g.generation,
            mono_now: x.mono_now->0,
        };
        let f = ErrandView::ClaimNonce {
            nonce: h.nonce,
            generation: h.generation,
            mono_now: y.mono_now->0,
        };
        lemma_push(node.errands, node.errands, e, f);
    }
    assert(outboxes_alike(
        node.outbox.push(TaggedRequestView::Spend(normal@)),
        node.outbox.push(TaggedRequestView::Spend(duress@)),
    ));
    assert(alike(a, b));
    if ingress_answer(node, normal, x) is None {
        lemma_admitted_alike(
            a,
            b,
            normal@,
            duress@,
            admitted_job(node, normal, x),
            admitted_job(node, duress, y),
            normal_facts,
            duress_facts,
        );
    }
}

/// Whether an answer accepts.
pub open spec fn accepts(answer: AnswerView) -> bool {
    answer matches Ok(v) && v is Accepted
}

/// What a spend on its way may have done to the node: it is handed on at most once,
/// in just the form it came in, and unless `answer` accepts it, no transaction became
/// authorized and no spend pending.
pub open spec fn traced(
    before: NodeView,
    after: NodeView,
    request: SignRequestView,
    accepted: bool,
) -> bool {
    &&& after.outbox == before.outbox || after.outbox == before.outbox.push(
        TaggedRequestView::Spend(request),
    )
    &&& before.authorized.subset_of(after.authorized)
    &&& !accepted ==> after.authorized == before.authorized
    &&& !accepted ==> after.sign_state.pending.submap_of(before.sign_state.pending)
}

proof fn lemma_classed_traces(
    node: NodeView,
    request: SignRequestView,
    job: SignJobView,
    pair: SpendPairView,
    key: Seq<char>,
    c: Classification,
    escape_fetch: Option<PrevoutFetchView>,
    facts: SignFacts,
)
    ensures
        ({
            let run = classed_run(node, request, job, pair, key, c, escape_fetch, facts);
            &&& traced(node, run.0, request, accepts(run.1))
            &&& run.0.spend_preflight == node.spend_preflight.wrapping_sub(1)
            &&& run.0.duress_arm == node.duress_arm
        }),
{
}

proof fn lemma_opened_traces(
    node: NodeView,
    request: SignRequestView,
    job: SignJobView,
    pair: SpendPairView,
    fetched: (Option<PrevoutFetchView>, Option<PrevoutFetchView>),
    facts: SignFacts,
)
    ensures
        ({
            let run = opened_run(node, request, job, pair, fetched, facts);
            &&& traced(node, run.0, request, accepts(run.1))
            &&& run.0.spend_preflight == node.spend_preflight.wrapping_sub(1)
            &&& run.0.duress_arm == node.duress_arm
        }),
{
    reveal(opened_run);
    let ids = facts.ids@;
    let (n1, found) = looked_up(node, request, job, pair, ids, fetched);
    assert(n1.sign_state.pending.submap_of(node.sign_state.pending));
    if let Ok(key) = found {
        let (n2, class) = judged(n1, request, job, pair, ids, fetched.0, facts.spend_policy@);
        if let Ok(c) = class {
            lemma_classed_traces(n2, request, job, pair, key, c, fetched.1, facts);
        }
    }
}

proof fn lemma_charged_traces(
    node: NodeView,
    request: SignRequestView,
    job: SignJobView,
    facts: SignFacts,
)
    ensures
        ({
            let run = charged_run(node, request, job, facts);
            &&& traced(node, run.0, request, accepts(run.1))
            &&& run.0.spend_preflight == node.spend_preflight.wrapping_sub(1)
            &&& run.0.duress_arm == node.duress_arm
        }),
{
    reveal(charged_run);
    let (n1, j1) = charged(node, request, job, facts.charge);
    if let Ok(j1) = j1 {
        let (n2, j2) = reopened(n1, request, j1, facts.reopen_at);
        if let Ok((j2, pair)) = j2 {
            lemma_opened_traces(n2, request, j2, pair, fetched_coins(n2, request, facts), facts);
        }
    }
}

/// Every spend that passes the entrance leaves the preflight again. It is handed on at
/// most once, unchanged. A spend that is not accepted makes no transaction
/// authorized and holds nothing back.
pub proof fn a_spend_leaves_no_trace_but_its_verdict(
    node: NodeView,
    request: SignRequestView,
    job: SignJobView,
    facts: SignFacts,
)
    ensures
        ({
            let run = admitted_run(node, request, job, facts);
            &&& traced(node, run.0, request, accepts(run.1))
            &&& run.0.spend_preflight == node.spend_preflight.wrapping_sub(1)
        }),
{
    reveal(admitted_run);
    let verdict = effective_verdict(facts.compared, request.pin, node.params.max_pin_bytes);
    let armed = armed_job(node, job, verdict, facts.carrier@, facts.commit_at);
    let (n1, j1) = committed(counted(node, verdict), request, armed, facts.upgrade);
    if let Ok(j1) = j1 {
        lemma_charged_traces(n1, request, j1, facts);
    }
}

/// A lockout refuses but does not disarm: whatever the attempt cost and whatever stops
/// the spend, the intent of its pin is counted; and one that its pin or the budget
/// stops is handed on to the peers all the same, with this node counted among those
/// that hold it.
pub proof fn a_lockout_does_not_disarm(
    node: NodeView,
    request: SignRequestView,
    job: SignJobView,
    facts: SignFacts,
)
    ensures
        ({
            let verdict = effective_verdict(facts.compared, request.pin, node.params.max_pin_bytes);
            let (after, answer) = admitted_run(node, request, job, facts);
            &&& after.duress_arm == counted(node, verdict).duress_arm
            &&& facts.charge.refuse ==> {
                &&& !accepts(answer)
                &&& after.outbox == node.outbox.push(TaggedRequestView::Spend(request))
                &&& node.channel is Some ==> after.errands.contains(
                    ErrandView::MarkCarrierPropagated { carrier: facts.carrier@ },
                )
            }
        }),
{
    reveal(admitted_run);
    reveal(charged_run);
    let verdict = effective_verdict(facts.compared, request.pin, node.params.max_pin_bytes);
    let armed = armed_job(node, job, verdict, facts.carrier@, facts.commit_at);
    let (n1, j1) = committed(counted(node, verdict), request, armed, facts.upgrade);
    let after = admitted_run(node, request, job, facts).0;
    if let Ok(j1) = j1 {
        lemma_charged_traces(n1, request, j1, facts);
    }
    if facts.charge.refuse && node.channel is Some {
        assert(after.errands[node.errands.len() as int] == ErrandView::MarkCarrierPropagated {
            carrier: facts.carrier@,
        });
    }
}

/// A spend that the registry keeps is accepted for good: as long as its verdict is on
/// file and has not expired, the same transactions under the same commitments get the
/// same verdict again, and nothing of them is judged anew.
pub proof fn an_accepted_spend_is_answered_alike(
    node: NodeView,
    request: SignRequestView,
    job: SignJobView,
    pair: SpendPairView,
    c: Classification,
    reserved: bool,
    facts: SignFacts,
    later: NodeView,
    again: SignRequestView,
    again_job: SignJobView,
    fetched: (Option<PrevoutFetchView>, Option<PrevoutFetchView>),
)
    requires
        kept_refusal(node, facts.ids@, c, facts.kept) is None,
        ({
            let key = acceptance_key(pair_candidates(pair, facts.ids@));
            let (after, _) = registered(
                node,
                request,
                job,
                facts.ids@,
                key,
                c,
                reserved,
                pair_txids(pair),
                facts.kept,
            );
            &&& later.sign_state.replay.contains_key(key)
            &&& later.sign_state.replay[key] == after.sign_state.replay[key]
        }),
        again_job.now < request.expiry,
    ensures
        looked_up(later, again, again_job, pair, facts.ids@, fetched).1 == Result::<
            Seq<char>,
            AnswerView,
        >::Err(Ok(spend_accepted(node, job, facts.ids@, c))),
{
}

/// An accepted hot spend stands before every refresh through the second of its expiry,
/// as long as it is held; an accepted escape holds nothing back.
pub proof fn an_accepted_hot_spend_blocks_refreshes(
    node: NodeView,
    request: SignRequestView,
    job: SignJobView,
    key: Seq<char>,
    c: Classification,
    reserved: bool,
    txids: Seq<[u8; 32]>,
    facts: SignFacts,
    now: u64,
)
    requires
        kept_refusal(node, facts.ids@, c, facts.kept) is None,
    ensures
        ({
            let (after, answer) = registered(
                node,
                request,
                job,
                facts.ids@,
                key,
                c,
                reserved,
                txids,
                facts.kept,
            );
            &&& accepts(answer)
            &&& txids.to_set().subset_of(after.authorized)
            &&& c.class == TxClass::Hot && now <= request.expiry ==> spend_comes_first(after, now)
            &&& c.class != TxClass::Hot ==> after.sign_state.pending == node.sign_state.pending
        }),
{
    let (after, _) = registered(
        node,
        request,
        job,
        facts.ids@,
        key,
        c,
        reserved,
        txids,
        facts.kept,
    );
    if c.class == TxClass::Hot && now <= request.expiry {
        assert(pending_at(after.sign_state.pending, now).contains_key(facts.ids@.spend));
    }
}

/// Once every spend has expired and none is on its way, nothing stands before a
/// refresh.
pub proof fn expired_spends_block_nothing(node: NodeView, now: u64)
    requires
        node.spend_preflight == 0,
        forall|id: Seq<char>|
            node.sign_state.pending.contains_key(id) ==> #[trigger] node.sign_state.pending[id]
                < now,
    ensures
        !spend_comes_first(node, now),
{
    assert forall|id: Seq<char>| !pending_at(node.sign_state.pending, now).contains_key(id) by {
        if node.sign_state.pending.contains_key(id) {
            assert(node.sign_state.pending[id] < now);
        }
    }
}

/// Whether the last errands of the node give the claim back.
pub open spec fn claim_given_back(node: NodeView, guard: Option<GuardView>) -> bool {
    guard matches Some(g) ==> g.release().is_suffix_of(node.errands)
}

proof fn lemma_released_ends(node: NodeView, guard: Option<GuardView>)
    ensures
        claim_given_back(released(node, guard), guard),
        claim_given_back(closed(node, guard), guard),
{
    if let Some(g) = guard {
        let all = node.errands + g.release();
        assert(all.subrange(all.len() - g.release().len(), all.len() as int) =~= g.release());
    }
}

proof fn lemma_classed_gives_back(
    node: NodeView,
    request: SignRequestView,
    job: SignJobView,
    pair: SpendPairView,
    key: Seq<char>,
    c: Classification,
    escape_fetch: Option<PrevoutFetchView>,
    facts: SignFacts,
)
    ensures
        claim_given_back(
            classed_run(node, request, job, pair, key, c, escape_fetch, facts).0,
            job.guard,
        ),
{
    let run = classed_run(node, request, job, pair, key, c, escape_fetch, facts);
    assert(exists|before: NodeView| run.0 == #[trigger] closed(before, job.guard));
    let before = choose|before: NodeView| run.0 == #[trigger] closed(before, job.guard);
    lemma_released_ends(before, job.guard);
}

proof fn lemma_opened_gives_back(
    node: NodeView,
    request: SignRequestView,
    job: SignJobView,
    pair: SpendPairView,
    fetched: (Option<PrevoutFetchView>, Option<PrevoutFetchView>),
    facts: SignFacts,
)
    ensures
        claim_given_back(
            opened_run(node, request, job, pair, fetched, facts).0,
            job.guard,
        ),
{
    reveal(opened_run);
    let ids = facts.ids@;
    let (n1, found) = looked_up(node, request, job, pair, ids, fetched);
    if let Ok(key) = found {
        let (n2, class) = judged(n1, request, job, pair, ids, fetched.0, facts.spend_policy@);
        if let Ok(c) = class {
            lemma_classed_gives_back(n2, request, job, pair, key, c, fetched.1, facts);
        } else {
            assert(exists|before: NodeView| n2 == #[trigger] closed(before, job.guard));
            let before = choose|before: NodeView| n2 == #[trigger] closed(before, job.guard);
            lemma_released_ends(before, job.guard);
        }
    } else {
        assert(exists|before: NodeView| n1 == #[trigger] closed(before, job.guard));
        let before = choose|before: NodeView| n1 == #[trigger] closed(before, job.guard);
        lemma_released_ends(before, job.guard);
    }
}

/// However the way of a spend ends, its claim is given back: the memo, unless another
/// has it now, and the carrier, once it was ruled. These are the last errands of the
/// spend, so that nothing of it is left to do after them.
pub proof fn every_claim_is_given_back(
    node: NodeView,
    request: SignRequestView,
    job: SignJobView,
    facts: SignFacts,
)
    ensures
        ({
            let carrier = if node.channel is Some {
                facts.carrier@
            } else {
                Seq::empty()
            };
            claim_given_back(
                admitted_run(node, request, job, facts).0,
                ruling_guard(job.guard, carrier, facts.upgrade),
            )
        }),
{
    reveal(admitted_run);
    reveal(charged_run);
    let verdict = effective_verdict(facts.compared, request.pin, node.params.max_pin_bytes);
    let armed = armed_job(node, job, verdict, facts.carrier@, facts.commit_at);
    let guard = ruling_guard(job.guard, armed.carrier, facts.upgrade);
    let (n1, j1) = committed(counted(node, verdict), request, armed, facts.upgrade);
    if let Ok(j1) = j1 {
        assert(j1.guard == guard);
        let (n2, j2) = charged(n1, request, j1, facts.charge);
        if let Ok(j2) = j2 {
            let (n3, j3) = reopened(n2, request, j2, facts.reopen_at);
            if let Ok((j3, pair)) = j3 {
                lemma_opened_gives_back(
                    n3,
                    request,
                    j3,
                    pair,
                    fetched_coins(n3, request, facts),
                    facts,
                );
            } else {
                assert(exists|before: NodeView| n3 == #[trigger] closed(before, guard));
                let before = choose|before: NodeView| n3 == #[trigger] closed(before, guard);
                lemma_released_ends(before, guard);
            }
        } else {
            assert(exists|before: NodeView| n2 == #[trigger] released(before, guard));
            let before = choose|before: NodeView| n2 == #[trigger] released(before, guard);
            lemma_released_ends(before, guard);
        }
    } else {
        assert(exists|before: NodeView| n1 == #[trigger] closed(before, guard));
        let before = choose|before: NodeView| n1 == #[trigger] closed(before, guard);
        lemma_released_ends(before, guard);
    }
}

} // verus!
