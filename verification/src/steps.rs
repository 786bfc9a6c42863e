//! The order of a request's stretches: what is to be asked of the surroundings next, and
//! what the node makes of the reply. Whatever the node owes is due before the next
//! question is asked.

use vstd::prelude::*;

use crate::codec::decoded;
use crate::commitment::{commitment, Commitment, CommitmentView};
use crate::ingress::{
    after_ingress, arm_intent, armed_job, charged, closed, committed, counted, entry_request,
    fire_arm_hook, ingress_answer, intent_view, reopened, sign_charge, sign_commit, sign_ingress,
    sign_reopen, takes_nonce, with_nonces, ArmIntent, ArmIntentView, Ingress, SignJob, SignJobView,
    SpendPair, SpendPairView,
};
use crate::node::{Node, NodeView};
use crate::pin::{effective_verdict, pin_verdict, PinCharge, PinVerdict};
use crate::policy::{Classification, PolicyVerdict};
use crate::prevouts::{fetch_opt_view, PrevoutFetch, PrevoutFetchView};
use crate::proto::{RefreshRequest, RefreshRequestView, SignRequest, SignRequestView};
use crate::refresh::{
    refresh_commitment, refresh_entry, refresh_entry_answer, refresh_ingress, refresh_judge,
    refresh_judged, refresh_lookup, refresh_looked_up, refresh_register,
    refresh_registered, refresh_reopen, refresh_reopened, refresh_run, refresh_takes_nonce,
    RefreshFacts, RefreshIngress, RefreshJob, RefreshJobView,
};
use crate::registry::{
    registration_view, reserve_view, HotReserve, HotReserveView, MemoUpgrade, RegisterAnswer,
    Registration, RegistrationView,
};
use crate::spend::{
    admitted_job, admitted_run, answers, charged_run, classed_run, hot_reserve,
    judged, looked_up, metered, opened_run, pair_commitments, pair_txids, paired, policy_views,
    registered, reserve_ask, sign_judge, sign_lookup, sign_pair, sign_register,
    sign_reserve, PairIds, PairIdsView, PairingView, ReserveAnswer, SignFacts,
};
use crate::tx::OutPoint;
use crate::verdict::{
    answer_view, chain_answer_view, coins_of, lockdown_verdict, prefetch_outpoints,
    prefetch_prevouts, prefetched, Answer, AnswerView, ChainAnswer,
};

verus! {

/// What is to be asked next about a spend that has passed the entrance.
#[derive(Debug)]
pub enum SpendStep {
    /// What the pin is, and the carrier of the request.
    Compare { job: SignJob },
    /// To record the intent with the channel, if there is one.
    Arm { job: SignJob, intent: Option<ArmIntent> },
    /// What the attempt costs.
    Charge { job: SignJob },
    /// What the chain shows of the coins.
    Look {
        job: SignJob,
        spend_coins: Option<Vec<OutPoint>>,
        escape_coins: Option<Vec<OutPoint>>,
    },
    /// The names of the two commitments.
    Name {
        job: SignJob,
        pair: SpendPair,
        spend: Commitment,
        escape: Commitment,
        spend_fetch: Option<PrevoutFetch>,
        escape_fetch: Option<PrevoutFetch>,
    },
    /// What the policy says of the spend.
    Judge {
        job: SignJob,
        pair: SpendPair,
        ids: PairIds,
        key: String,
        spend_fetch: Option<PrevoutFetch>,
        escape_fetch: Option<PrevoutFetch>,
    },
    /// To reserve the hot outflow, if there is any to reserve.
    Reserve {
        job: SignJob,
        pair: SpendPair,
        ids: PairIds,
        key: String,
        class: Classification,
        reserve: Option<HotReserve>,
        escape_fetch: Option<PrevoutFetch>,
    },
    /// What the policy says of the escape and of its fee bumps.
    JudgePair {
        job: SignJob,
        pair: SpendPair,
        ids: PairIds,
        key: String,
        class: Classification,
        reserved: bool,
        escape_fetch: Option<PrevoutFetch>,
    },
    /// To keep the pair, if there is a registry.
    Register {
        job: SignJob,
        ids: PairIds,
        key: String,
        class: Classification,
        reserved: bool,
        txids: Vec<[u8; 32]>,
        ask: Option<Registration>,
    },
    /// Nothing more: the spend is answered.
    Done(Answer),
}

/// The contents of a [`SpendStep`].
pub enum SpendStepView {
    Compare { job: SignJobView },
    Arm { job: SignJobView, intent: Option<ArmIntentView> },
    Charge { job: SignJobView },
    Look {
        job: SignJobView,
        spend_coins: Option<Seq<OutPoint>>,
        escape_coins: Option<Seq<OutPoint>>,
    },
    Name {
        job: SignJobView,
        pair: SpendPairView,
        spend: CommitmentView,
        escape: CommitmentView,
        spend_fetch: Option<PrevoutFetchView>,
        escape_fetch: Option<PrevoutFetchView>,
    },
    Judge {
        job: SignJobView,
        pair: SpendPairView,
        ids: PairIdsView,
        key: Seq<char>,
        spend_fetch: Option<PrevoutFetchView>,
        escape_fetch: Option<PrevoutFetchView>,
    },
    Reserve {
        job: SignJobView,
        pair: SpendPairView,
        ids: PairIdsView,
        key: Seq<char>,
        class: Classification,
        reserve: Option<HotReserveView>,
        escape_fetch: Option<PrevoutFetchView>,
    },
    JudgePair {
        job: SignJobView,
        pair: SpendPairView,
        ids: PairIdsView,
        key: Seq<char>,
        class: Classification,
        reserved: bool,
        escape_fetch: Option<PrevoutFetchView>,
    },
    Register {
        job: SignJobView,
        ids: PairIdsView,
        key: Seq<char>,
        class: Classification,
        reserved: bool,
        txids: Seq<[u8; 32]>,
        ask: Option<RegistrationView>,
    },
    Done(AnswerView),
}

/// The coins in `coins`, if there are any to look up.
pub open spec fn coins_view(coins: Option<Vec<OutPoint>>) -> Option<Seq<OutPoint>> {
    match coins {
        Some(c) => Some(c@),
        None => None,
    }
}

impl View for SpendStep {
    type V = SpendStepView;

    open spec fn view(&self) -> SpendStepView {
        match self {
            SpendStep::Compare { job } => SpendStepView::Compare { job: job@ },
            SpendStep::Arm { job, intent } => SpendStepView::Arm {
                job: job@,
                intent: intent_view(*intent),
            },
            SpendStep::Charge { job } => SpendStepView::Charge { job: job@ },
            SpendStep::Look { job, spend_coins, escape_coins } => SpendStepView::Look {
                job: job@,
                spend_coins: coins_view(*spend_coins),
                escape_coins: coins_view(*escape_coins),
            },
            SpendStep::Name { job, pair, spend, escape, spend_fetch, escape_fetch } => {
                SpendStepView::Name {
                    job: job@,
                    pair: pair@,
                    spend: spend@,
                    escape: escape@,
                    spend_fetch: fetch_opt_view(*spend_fetch),
                    escape_fetch: fetch_opt_view(*escape_fetch),
                }
            },
            SpendStep::Judge { job, pair, ids, key, spend_fetch, escape_fetch } => {
                SpendStepView::Judge {
                    job: job@,
                    pair: pair@,
                    ids: ids@,
                    key: key@,
                    spend_fetch: fetch_opt_view(*spend_fetch),
                    escape_fetch: fetch_opt_view(*escape_fetch),
                }
            },
            SpendStep::Reserve { job, pair, ids, key, class, reserve, escape_fetch } => {
                SpendStepView::Reserve {
                    job: job@,
                    pair: pair@,
                    ids: ids@,
                    key: key@,
                    class: *class,
                    reserve: reserve_view(*reserve),
                    escape_fetch: fetch_opt_view(*escape_fetch),
                }
            },
            SpendStep::JudgePair { job, pair, ids, key, class, reserved, escape_fetch } => {
                SpendStepView::JudgePair {
                    job: job@,
                    pair: pair@,
                    ids: ids@,
                    key: key@,
                    class: *class,
                    reserved: *reserved,
                    escape_fetch: fetch_opt_view(*escape_fetch),
                }
            },
            SpendStep::Register { job, ids, key, class, reserved, txids, ask } => {
                SpendStepView::Register {
                    job: job@,
                    ids: ids@,
                    key: key@,
                    class: *class,
                    reserved: *reserved,
                    txids: txids@,
                    ask: registration_view(*ask),
                }
            },
            SpendStep::Done(answer) => SpendStepView::Done(answer_view(*answer)),
        }
    }
}

/// The reply to what was asked about a spend.
#[derive(Debug)]
pub enum SpendEvent {
    /// What the comparison of the pin found, the carrier, and the wall clock since.
    Compared { compared: PinVerdict, carrier: String, raw_now: u64 },
    /// What became of the memo when the intent was recorded.
    Armed(Option<MemoUpgrade>),
    Charged(PinCharge),
    /// What the chain shows of the coins, and the wall clock since.
    Looked { spend_chain: ChainAnswer, escape_chain: ChainAnswer, raw_now: u64 },
    Named(PairIds),
    Judged(PolicyVerdict),
    Reserved(ReserveAnswer),
    /// What the policy says of the escape, and of each fee bump in order.
    PairJudged { escape_policy: PolicyVerdict, bump_policies: Vec<PolicyVerdict> },
    Registered(RegisterAnswer),
}

/// The coins to look up for the transaction in `text`.
pub open spec fn coins_to_look_up(node: NodeView, text: Seq<char>, field: Seq<char>) -> Option<
    Seq<OutPoint>,
> {
    match decoded(text, field) {
        Ok(psbt) if node.has_backend => Some(coins_of(psbt.unsigned_tx.input)),
        _ => None,
    }
}

fn coins_for(node: &Node, text: &String, field: &str) -> (coins: Option<Vec<OutPoint>>)
    ensures
        coins_view(coins) == coins_to_look_up(node@, text@, field@),
{
    prefetch_outpoints(node, text, field)
}

impl SpendStepView {
    /// Whether `event` can be a reply here: the policy has judged every fee bump, and the
    /// registry speaks of no candidate that it was not given.
    pub open spec fn takes(self, event: SpendEvent) -> bool {
        &&& self matches SpendStepView::JudgePair { pair, .. } ==> (
        event matches SpendEvent::PairJudged { bump_policies, .. } ==> bump_policies.len()
            == pair.bumps.len())
        &&& self matches SpendStepView::Register { ids, .. } ==> (
        event matches SpendEvent::Registered(kept) ==> answers(kept, ids))
    }

    /// The node after the reply, and what is to be asked then. A reply to something else
    /// changes nothing.
    #[verifier::opaque]
    pub open spec fn next(self, node: NodeView, request: SignRequestView, event: SpendEvent) -> (
        NodeView,
        SpendStepView,
    ) {
        match (self, event) {
            (
                SpendStepView::Compare { job },
                SpendEvent::Compared { compared, carrier, raw_now },
            ) => {
                let verdict = effective_verdict(compared, request.pin, node.params.max_pin_bytes);
                let armed = armed_job(node, job, verdict, carrier@, raw_now);
                if node.lockdown {
                    (closed(node, job.guard), SpendStepView::Done(Ok(lockdown_verdict())))
                } else {
                    (
                        counted(node, verdict),
                        SpendStepView::Arm { job: armed, intent: arm_intent(node, armed) },
                    )
                }
            },
            (SpendStepView::Arm { job, .. }, SpendEvent::Armed(upgrade)) => {
                match committed(node, request, job, upgrade) {
                    (node, Ok(job)) => (node, SpendStepView::Charge { job }),
                    (node, Err(a)) => (node, SpendStepView::Done(a)),
                }
            },
            (SpendStepView::Charge { job }, SpendEvent::Charged(charge)) => {
                match charged(node, request, job, charge) {
                    (node, Ok(job)) => (
                        node,
                        SpendStepView::Look {
                            job,
                            spend_coins: coins_to_look_up(node, request.psbt, "spend"@),
                            escape_coins: coins_to_look_up(node, request.escape_psbt, "escape"@),
                        },
                    ),
                    (node, Err(a)) => (node, SpendStepView::Done(a)),
                }
            },
            (SpendStepView::Look { job, .. }, SpendEvent::Looked { spend_chain, escape_chain, raw_now }) => {
                match reopened(node, request, job, raw_now) {
                    (node, Ok((job, pair))) => {
                        let version = node.params.policy_version;
                        (
                            node,
                            SpendStepView::Name {
                                job,
                                pair,
                                spend: commitment(
                                    node.wallet_id,
                                    version,
                                    pair.spend,
                                    request.expiry,
                                ),
                                escape: commitment(
                                    node.wallet_id,
                                    version,
                                    pair.escape,
                                    request.expiry,
                                ),
                                spend_fetch: prefetched(
                                    node,
                                    request.psbt,
                                    "spend"@,
                                    chain_answer_view(spend_chain),
                                ),
                                escape_fetch: prefetched(
                                    node,
                                    request.escape_psbt,
                                    "escape"@,
                                    chain_answer_view(escape_chain),
                                ),
                            },
                        )
                    },
                    (node, Err(a)) => (node, SpendStepView::Done(a)),
                }
            },
            (
                SpendStepView::Name { job, pair, spend_fetch, escape_fetch, .. },
                SpendEvent::Named(ids),
            ) => {
                match looked_up(node, request, job, pair, ids@, (spend_fetch, escape_fetch)) {
                    (node, Ok(key)) => (
                        node,
                        SpendStepView::Judge {
                            job,
                            pair,
                            ids: ids@,
                            key,
                            spend_fetch,
                            escape_fetch,
                        },
                    ),
                    (node, Err(a)) => (node, SpendStepView::Done(a)),
                }
            },
            (
                SpendStepView::Judge { job, pair, ids, key, spend_fetch, escape_fetch },
                SpendEvent::Judged(policy),
            ) => {
                match judged(node, request, job, pair, ids, spend_fetch, policy@) {
                    (node, Ok(class)) => (
                        node,
                        SpendStepView::Reserve {
                            job,
                            pair,
                            ids,
                            key,
                            class,
                            reserve: if node.channel is Some {
                                hot_reserve(request, job, ids, class)
                            } else {
                                None
                            },
                            escape_fetch,
                        },
                    ),
                    (node, Err(a)) => (node, SpendStepView::Done(a)),
                }
            },
            (
                SpendStepView::Reserve { job, pair, ids, key, class, escape_fetch, .. },
                SpendEvent::Reserved(answer),
            ) => {
                match metered(node, request, job, class, answer) {
                    (node, Ok(reserved)) => (
                        node,
                        SpendStepView::JudgePair {
                            job,
                            pair,
                            ids,
                            key,
                            class,
                            reserved,
                            escape_fetch,
                        },
                    ),
                    (node, Err(a)) => (node, SpendStepView::Done(a)),
                }
            },
            (
                SpendStepView::JudgePair { job, pair, ids, key, class, reserved, escape_fetch },
                SpendEvent::PairJudged { escape_policy, bump_policies },
            ) => {
                let p = PairingView {
                    pair,
                    ids,
                    class,
                    fetched: escape_fetch,
                    escape_policy: escape_policy@,
                    bump_policies: policy_views(bump_policies@),
                };
                match paired(node, request, job, p, reserved) {
                    (node, Ok(ask)) => (
                        node,
                        SpendStepView::Register {
                            job,
                            ids,
                            key,
                            class,
                            reserved,
                            txids: pair_txids(pair),
                            ask,
                        },
                    ),
                    (node, Err(a)) => (node, SpendStepView::Done(a)),
                }
            },
            (
                SpendStepView::Register { job, ids, key, class, reserved, txids, .. },
                SpendEvent::Registered(kept),
            ) => {
                let (node, a) = registered(
                    node,
                    request,
                    job,
                    ids,
                    key,
                    class,
                    reserved,
                    txids,
                    kept,
                );
                (node, SpendStepView::Done(a))
            },
            (step, _) => (node, step),
        }
    }
}

/// Takes a spend through the entrance. One that passes has its pin compared next.
pub fn begin_spend(node: &mut Node, request: &SignRequest, at: &Ingress) -> (step: SpendStep)
    requires
        at.mono_now is Some <==> old(node)@.channel is Some,
    ensures
        step@ == match ingress_answer(old(node)@, request, *at) {
            Some(a) => SpendStepView::Done(a),
            None => SpendStepView::Compare { job: admitted_job(old(node)@, request, *at) },
        },
        final(node)@ == with_nonces(
            after_ingress(old(node)@, request, *at),
            final(node)@.sign_state.coord_nonces,
        ),
        takes_nonce(old(node)@, request, *at) ==> old(node)@.sign_state.coord_nonces.claimed(
            entry_request(request, at.digest).claim(
                at.raw_now,
                old(node)@.params.max_commitment_age_secs,
                at.mono_now,
            ),
            final(node)@.sign_state.coord_nonces,
        ),
        !takes_nonce(old(node)@, request, *at) ==> final(node)@.sign_state.coord_nonces == old(
            node,
        )@.sign_state.coord_nonces,
{
    match sign_ingress(node, request, at) {
        Ok(job) => SpendStep::Compare { job },
        Err(a) => SpendStep::Done(a),
    }
}

impl SpendStep {
    /// Takes the reply to what was asked.
    pub fn next(self, node: &mut Node, request: &SignRequest, event: SpendEvent) -> (step: SpendStep)
        requires
            self@.takes(event),
        ensures
            (final(node)@, step@) == self@.next(old(node)@, request@, event),
    {
        reveal(SpendStepView::next);
        match (self, event) {
            (SpendStep::Compare { job }, SpendEvent::Compared { compared, carrier, raw_now }) => {
                let verdict = pin_verdict(compared, &request.pin, node.params.max_pin_bytes);
                match fire_arm_hook(node, job, verdict, carrier, raw_now) {
                    Ok((job, intent)) => SpendStep::Arm { job, intent },
                    Err(a) => SpendStep::Done(a),
                }
            },
            (SpendStep::Arm { job, intent: _ }, SpendEvent::Armed(upgrade)) => {
                match sign_commit(node, request, job, upgrade) {
                    Ok(job) => SpendStep::Charge { job },
                    Err(a) => SpendStep::Done(a),
                }
            },
            (SpendStep::Charge { job }, SpendEvent::Charged(charge)) => {
                match sign_charge(node, request, job, charge) {
                    Ok(job) => SpendStep::Look {
                        job,
                        spend_coins: coins_for(node, &request.psbt, "spend"),
                        escape_coins: coins_for(node, &request.escape_psbt, "escape"),
                    },
                    Err(a) => SpendStep::Done(a),
                }
            },
            (
                SpendStep::Look { job, spend_coins: _, escape_coins: _ },
                SpendEvent::Looked { spend_chain, escape_chain, raw_now },
            ) => {
                let spend_fetch = prefetch_prevouts(node, &request.psbt, "spend", spend_chain);
                let escape_fetch = prefetch_prevouts(
                    node,
                    &request.escape_psbt,
                    "escape",
                    escape_chain,
                );
                match sign_reopen(node, request, job, raw_now) {
                    Ok((job, pair)) => {
                        let (spend, escape) = pair_commitments(node, &pair, request.expiry);
                        SpendStep::Name { job, pair, spend, escape, spend_fetch, escape_fetch }
                    },
                    Err(a) => SpendStep::Done(a),
                }
            },
            (
                SpendStep::Name { job, pair, spend: _, escape: _, spend_fetch, escape_fetch },
                SpendEvent::Named(ids),
            ) => {
                match sign_lookup(node, request, job, &pair, &ids, &spend_fetch, &escape_fetch) {
                    Ok((job, key)) => {
                        SpendStep::Judge { job, pair, ids, key, spend_fetch, escape_fetch }
                    },
                    Err(a) => SpendStep::Done(a),
                }
            },
            (
                SpendStep::Judge { job, pair, ids, key, spend_fetch, escape_fetch },
                SpendEvent::Judged(policy),
            ) => {
                match sign_judge(node, request, job, &pair, &ids, &spend_fetch, &policy) {
                    Ok((job, class)) => {
                        let reserve = reserve_ask(node, request, &job, &ids, class);
                        SpendStep::Reserve { job, pair, ids, key, class, reserve, escape_fetch }
                    },
                    Err(a) => SpendStep::Done(a),
                }
            },
            (
                SpendStep::Reserve { job, pair, ids, key, class, reserve: _, escape_fetch },
                SpendEvent::Reserved(answer),
            ) => {
                match sign_reserve(node, request, job, class, answer) {
                    Ok((job, reserved)) => {
                        SpendStep::JudgePair { job, pair, ids, key, class, reserved, escape_fetch }
                    },
                    Err(a) => SpendStep::Done(a),
                }
            },
            (
                SpendStep::JudgePair { job, pair, ids, key, class, reserved, escape_fetch },
                SpendEvent::PairJudged { escape_policy, bump_policies },
            ) => {
                match sign_pair(
                    node,
                    request,
                    job,
                    pair,
                    &ids,
                    class,
                    reserved,
                    &escape_fetch,
                    &escape_policy,
                    &bump_policies,
                ) {
                    Ok((job, signed)) => SpendStep::Register {
                        job,
                        ids,
                        key,
                        class,
                        reserved,
                        txids: signed.txids,
                        ask: signed.ask,
                    },
                    Err(a) => SpendStep::Done(a),
                }
            },
            (
                SpendStep::Register { job, ids, key, class, reserved, txids, ask: _ },
                SpendEvent::Registered(kept),
            ) => {
                SpendStep::Done(
                    sign_register(
                        node,
                        request,
                        job,
                        &ids,
                        &key,
                        class,
                        reserved,
                        &txids,
                        &kept,
                    ),
                )
            },
            (step, _) => step,
        }
    }
}

/// The reply to `step` among the answers of the surroundings.
pub open spec fn spend_reply(step: SpendStepView, facts: SignFacts) -> SpendEvent {
    match step {
        SpendStepView::Compare { .. } => SpendEvent::Compared {
            compared: facts.compared,
            carrier: facts.carrier,
            raw_now: facts.commit_at,
        },
        SpendStepView::Arm { .. } => SpendEvent::Armed(facts.upgrade),
        SpendStepView::Charge { .. } => SpendEvent::Charged(facts.charge),
        SpendStepView::Look { .. } => SpendEvent::Looked {
            spend_chain: facts.spend_chain,
            escape_chain: facts.escape_chain,
            raw_now: facts.reopen_at,
        },
        SpendStepView::Name { .. } => SpendEvent::Named(facts.ids),
        SpendStepView::Judge { .. } => SpendEvent::Judged(facts.spend_policy),
        SpendStepView::Reserve { .. } => SpendEvent::Reserved(facts.reserve),
        SpendStepView::JudgePair { .. } => SpendEvent::PairJudged {
            escape_policy: facts.escape_policy,
            bump_policies: facts.bump_policies,
        },
        SpendStepView::Register { .. } => SpendEvent::Registered(facts.kept),
        SpendStepView::Done(_) => SpendEvent::Armed(None),
    }
}

/// The node and what is to be asked once at most `n` replies have come.
pub open spec fn spend_driven(
    node: NodeView,
    request: SignRequestView,
    step: SpendStepView,
    facts: SignFacts,
    n: nat,
) -> (NodeView, SpendStepView)
    decreases n,
{
    if n == 0 || step is Done {
        (node, step)
    } else {
        let (node, then) = step.next(node, request, spend_reply(step, facts));
        spend_driven(node, request, then, facts, (n - 1) as nat)
    }
}

/// The pair of a spend as it is judged.
pub open spec fn pairing_of(
    pair: SpendPairView,
    c: Classification,
    escape_fetch: Option<PrevoutFetchView>,
    facts: SignFacts,
) -> PairingView {
    PairingView {
        pair,
        ids: facts.ids@,
        class: c,
        fetched: escape_fetch,
        escape_policy: facts.escape_policy@,
        bump_policies: policy_views(facts.bump_policies@),
    }
}

/// The way of a spend from its reservation to the verdict.
pub open spec fn paired_run(
    node: NodeView,
    request: SignRequestView,
    job: SignJobView,
    pair: SpendPairView,
    key: Seq<char>,
    c: Classification,
    reserved: bool,
    escape_fetch: Option<PrevoutFetchView>,
    facts: SignFacts,
) -> (NodeView, AnswerView) {
    match paired(node, request, job, pairing_of(pair, c, escape_fetch, facts), reserved) {
        (node, Err(a)) => (node, a),
        (node, Ok(_)) => registered(
            node,
            request,
            job,
            facts.ids@,
            key,
            c,
            reserved,
            pair_txids(pair),
            facts.kept,
        ),
    }
}

/// The node and the step at the end of a run.
pub open spec fn spend_end(run: (NodeView, AnswerView)) -> (NodeView, SpendStepView) {
    (run.0, SpendStepView::Done(run.1))
}

proof fn lemma_one_step(
    node: NodeView,
    request: SignRequestView,
    step: SpendStepView,
    facts: SignFacts,
    n: nat,
)
    requires
        n > 0,
        step !is Done,
    ensures
        ({
            let (after, then) = step.next(node, request, spend_reply(step, facts));
            spend_driven(node, request, step, facts, n) == spend_driven(
                after,
                request,
                then,
                facts,
                (n - 1) as nat,
            )
        }),
{
}

proof fn lemma_done(
    node: NodeView,
    request: SignRequestView,
    step: SpendStepView,
    facts: SignFacts,
    n: nat,
)
    requires
        step is Done,
    ensures
        spend_driven(node, request, step, facts, n) == (node, step),
{
}

proof fn lemma_paired_steps(
    node: NodeView,
    request: SignRequestView,
    job: SignJobView,
    pair: SpendPairView,
    key: Seq<char>,
    c: Classification,
    reserved: bool,
    escape_fetch: Option<PrevoutFetchView>,
    facts: SignFacts,
)
    ensures
        spend_driven(
            node,
            request,
            SpendStepView::JudgePair {
                job,
                pair,
                ids: facts.ids@,
                key,
                class: c,
                reserved,
                escape_fetch,
            },
            facts,
            2,
        ) == spend_end(
            paired_run(node, request, job, pair, key, c, reserved, escape_fetch, facts),
        ),
{
    let judge = SpendStepView::JudgePair {
        job,
        pair,
        ids: facts.ids@,
        key,
        class: c,
        reserved,
        escape_fetch,
    };
    lemma_one_step(node, request, judge, facts, 2);
    assert(judge.next(node, request, spend_reply(judge, facts)) == match paired(
        node,
        request,
        job,
        pairing_of(pair, c, escape_fetch, facts),
        reserved,
    ) {
        (node, Ok(ask)) => (
            node,
            SpendStepView::Register {
                job,
                ids: facts.ids@,
                key,
                class: c,
                reserved,
                txids: pair_txids(pair),
                ask,
            },
        ),
        (node, Err(a)) => (node, SpendStepView::Done(a)),
    }) by {
        reveal(SpendStepView::next);
    }
    let (n1, s1) = judge.next(node, request, spend_reply(judge, facts));
    if s1 is Done {
        lemma_done(n1, request, s1, facts, 1);
    } else {
        lemma_one_step(n1, request, s1, facts, 1);
        let (n2, s2) = s1.next(n1, request, spend_reply(s1, facts));
        assert((n2, s2) == spend_end(
            registered(
                n1,
                request,
                job,
                facts.ids@,
                key,
                c,
                reserved,
                pair_txids(pair),
                facts.kept,
            ),
        )) by {
            reveal(SpendStepView::next);
        }
        lemma_done(n2, request, s2, facts, 0);
    }
}

proof fn lemma_classed_steps(
    node: NodeView,
    request: SignRequestView,
    job: SignJobView,
    pair: SpendPairView,
    key: Seq<char>,
    c: Classification,
    reserve: Option<HotReserveView>,
    escape_fetch: Option<PrevoutFetchView>,
    facts: SignFacts,
)
    ensures
        spend_driven(
            node,
            request,
            SpendStepView::Reserve {
                job,
                pair,
                ids: facts.ids@,
                key,
                class: c,
                reserve,
                escape_fetch,
            },
            facts,
            3,
        ) == spend_end(classed_run(node, request, job, pair, key, c, escape_fetch, facts)),
{
    let ask = SpendStepView::Reserve {
        job,
        pair,
        ids: facts.ids@,
        key,
        class: c,
        reserve,
        escape_fetch,
    };
    lemma_one_step(node, request, ask, facts, 3);
    let (n1, s1) = ask.next(node, request, spend_reply(ask, facts));
    let (n, passed) = metered(node, request, job, c, facts.reserve);
    assert((n1, s1) == match passed {
        Ok(reserved) => (
            n,
            SpendStepView::JudgePair {
                job,
                pair,
                ids: facts.ids@,
                key,
                class: c,
                reserved,
                escape_fetch,
            },
        ),
        Err(a) => (n, SpendStepView::Done(a)),
    }) by {
        reveal(SpendStepView::next);
    }
    match passed {
        Ok(reserved) => {
            lemma_paired_steps(
                n1,
                request,
                job,
                pair,
                key,
                c,
                reserved,
                escape_fetch,
                facts,
            );
        },
        Err(_) => {
            lemma_done(n1, request, s1, facts, 2);
        },
    }
}

proof fn lemma_opened_steps(
    node: NodeView,
    request: SignRequestView,
    job: SignJobView,
    pair: SpendPairView,
    commitments: (CommitmentView, CommitmentView),
    fetched: (Option<PrevoutFetchView>, Option<PrevoutFetchView>),
    facts: SignFacts,
)
    ensures
        spend_driven(
            node,
            request,
            SpendStepView::Name {
                job,
                pair,
                spend: commitments.0,
                escape: commitments.1,
                spend_fetch: fetched.0,
                escape_fetch: fetched.1,
            },
            facts,
            5,
        ) == spend_end(opened_run(node, request, job, pair, fetched, facts)),
{
    reveal(opened_run);
    let ids = facts.ids@;
    let name = SpendStepView::Name {
        job,
        pair,
        spend: commitments.0,
        escape: commitments.1,
        spend_fetch: fetched.0,
        escape_fetch: fetched.1,
    };
    lemma_one_step(node, request, name, facts, 5);
    let (n1, s1) = name.next(node, request, spend_reply(name, facts));
    let (n, found) = looked_up(node, request, job, pair, ids, fetched);
    assert((n1, s1) == match found {
        Ok(key) => (
            n,
            SpendStepView::Judge {
                job,
                pair,
                ids,
                key,
                spend_fetch: fetched.0,
                escape_fetch: fetched.1,
            },
        ),
        Err(a) => (n, SpendStepView::Done(a)),
    }) by {
        reveal(SpendStepView::next);
    }
    match found {
        Ok(key) => {
            lemma_one_step(n1, request, s1, facts, 4);
            let (n2, s2) = s1.next(n1, request, spend_reply(s1, facts));
            let (m, class) = judged(n1, request, job, pair, ids, fetched.0, facts.spend_policy@);
            assert((n2, s2) == match class {
                Ok(class) => (
                    m,
                    SpendStepView::Reserve {
                        job,
                        pair,
                        ids,
                        key,
                        class,
                        reserve: if m.channel is Some {
                            hot_reserve(request, job, ids, class)
                        } else {
                            None
                        },
                        escape_fetch: fetched.1,
                    },
                ),
                Err(a) => (m, SpendStepView::Done(a)),
            }) by {
                reveal(SpendStepView::next);
            }
            match class {
                Ok(c) => {
                    lemma_classed_steps(
                        n2,
                        request,
                        job,
                        pair,
                        key,
                        c,
                        s2->reserve,
                        fetched.1,
                        facts,
                    );
                },
                Err(_) => {
                    lemma_done(n2, request, s2, facts, 3);
                },
            }
        },
        Err(_) => {
            lemma_done(n1, request, s1, facts, 4);
        },
    }
}

proof fn lemma_charged_steps(
    node: NodeView,
    request: SignRequestView,
    job: SignJobView,
    facts: SignFacts,
)
    ensures
        spend_driven(node, request, SpendStepView::Charge { job }, facts, 7) == spend_end(
            charged_run(node, request, job, facts),
        ),
{
    reveal(charged_run);
    reveal(SpendStepView::next);
    let charge = SpendStepView::Charge { job };
    lemma_one_step(node, request, charge, facts, 7);
    let (n1, s1) = charge.next(node, request, spend_reply(charge, facts));
    if s1 is Done {
        lemma_done(n1, request, s1, facts, 6);
    } else {
        lemma_one_step(n1, request, s1, facts, 6);
        let (n2, s2) = s1.next(n1, request, spend_reply(s1, facts));
        if let SpendStepView::Name { job, pair, spend, escape, spend_fetch, escape_fetch } = s2 {
            lemma_opened_steps(
                n2,
                request,
                job,
                pair,
                (spend, escape),
                (spend_fetch, escape_fetch),
                facts,
            );
        } else {
            lemma_done(n2, request, s2, facts, 5);
        }
    }
}

/// The steps make the whole way: a spend that has passed the entrance and is carried on
/// by the replies that the surroundings give is answered after at most nine of them, with
/// the answer and the node of the uninterrupted run.
pub proof fn the_steps_make_the_whole_way(
    node: NodeView,
    request: SignRequestView,
    job: SignJobView,
    facts: SignFacts,
)
    requires
        !node.lockdown,
    ensures
        spend_driven(node, request, SpendStepView::Compare { job }, facts, 9) == spend_end(
            admitted_run(node, request, job, facts),
        ),
{
    reveal(admitted_run);
    reveal(SpendStepView::next);
    let compare = SpendStepView::Compare { job };
    lemma_one_step(node, request, compare, facts, 9);
    let (n1, s1) = compare.next(node, request, spend_reply(compare, facts));
    lemma_one_step(n1, request, s1, facts, 8);
    let (n2, s2) = s1.next(n1, request, spend_reply(s1, facts));
    if let SpendStepView::Charge { job } = s2 {
        lemma_charged_steps(n2, request, job, facts);
    } else {
        lemma_done(n2, request, s2, facts, 7);
    }
}

/// What is to be asked next about a refresh that has passed the entrance.
#[derive(Debug)]
pub enum RefreshStep {
    /// What the chain shows of the coins.
    Look { coins: Option<Vec<OutPoint>> },
    /// The name of the commitment.
    Name { job: RefreshJob, commitment: Commitment, fetched: Option<PrevoutFetch> },
    /// What the policy says of the refresh, and the carrier of the request.
    Judge { job: RefreshJob, id: String, key: String, fetched: Option<PrevoutFetch> },
    /// To keep the refresh, if there is a registry.
    Register { job: RefreshJob, id: String, key: String, ask: Option<Registration> },
    /// Nothing more: the refresh is answered.
    Done(Answer),
}

/// The contents of a [`RefreshStep`].
pub enum RefreshStepView {
    Look { coins: Option<Seq<OutPoint>> },
    Name { job: RefreshJobView, commitment: CommitmentView, fetched: Option<PrevoutFetchView> },
    Judge {
        job: RefreshJobView,
        id: Seq<char>,
        key: Seq<char>,
        fetched: Option<PrevoutFetchView>,
    },
    Register {
        job: RefreshJobView,
        id: Seq<char>,
        key: Seq<char>,
        ask: Option<RegistrationView>,
    },
    Done(AnswerView),
}

impl View for RefreshStep {
    type V = RefreshStepView;

    open spec fn view(&self) -> RefreshStepView {
        match self {
            RefreshStep::Look { coins } => RefreshStepView::Look { coins: coins_view(*coins) },
            RefreshStep::Name { job, commitment, fetched } => RefreshStepView::Name {
                job: job@,
                commitment: commitment@,
                fetched: fetch_opt_view(*fetched),
            },
            RefreshStep::Judge { job, id, key, fetched } => RefreshStepView::Judge {
                job: job@,
                id: id@,
                key: key@,
                fetched: fetch_opt_view(*fetched),
            },
            RefreshStep::Register { job, id, key, ask } => RefreshStepView::Register {
                job: job@,
                id: id@,
                key: key@,
                ask: registration_view(*ask),
            },
            RefreshStep::Done(answer) => RefreshStepView::Done(answer_view(*answer)),
        }
    }
}

/// The reply to what was asked about a refresh.
#[derive(Debug)]
pub enum RefreshEvent {
    /// What the chain shows of the coins, and the wall clock since.
    Looked { chain: ChainAnswer, raw_now: u64 },
    Named(String),
    Judged { policy: PolicyVerdict, carrier: String },
    Registered(RegisterAnswer),
}

impl RefreshStepView {
    /// Whether `event` can be a reply here: the registry was given one candidate.
    pub open spec fn takes(self, event: RefreshEvent) -> bool {
        event matches RefreshEvent::Registered(kept) ==> (
        kept matches RegisterAnswer::BuildFailed { index, .. } ==> index == 0)
    }

    /// The node after the reply, and what is to be asked then. A reply to something else
    /// changes nothing.
    pub open spec fn next(self, node: NodeView, request: RefreshRequestView, event: RefreshEvent) -> (
        NodeView,
        RefreshStepView,
    ) {
        match (self, event) {
            (RefreshStepView::Look { .. }, RefreshEvent::Looked { chain, raw_now }) => {
                match refresh_reopened(node, request, raw_now) {
                    Ok(job) => (
                        node,
                        RefreshStepView::Name {
                            job,
                            commitment: commitment(
                                node.wallet_id,
                                node.params.policy_version,
                                job.refresh,
                                request.expiry,
                            ),
                            fetched: prefetched(
                                node,
                                request.refresh_psbt,
                                "refresh"@,
                                chain_answer_view(chain),
                            ),
                        },
                    ),
                    Err(a) => (node, RefreshStepView::Done(a)),
                }
            },
            (RefreshStepView::Name { job, fetched, .. }, RefreshEvent::Named(id)) => {
                match refresh_looked_up(node, job, id@) {
                    (node, Ok(key)) => (
                        node,
                        RefreshStepView::Judge { job, id: id@, key, fetched },
                    ),
                    (node, Err(a)) => (node, RefreshStepView::Done(a)),
                }
            },
            (
                RefreshStepView::Judge { job, id, key, fetched },
                RefreshEvent::Judged { policy, carrier },
            ) => {
                match refresh_judged(node, request, job, id, carrier@, fetched, policy@) {
                    (node, Ok(ask)) => (node, RefreshStepView::Register { job, id, key, ask }),
                    (node, Err(a)) => (node, RefreshStepView::Done(a)),
                }
            },
            (RefreshStepView::Register { job, id, key, .. }, RefreshEvent::Registered(kept)) => {
                let (node, a) = refresh_registered(node, request, job, id, key, kept);
                (node, RefreshStepView::Done(a))
            },
            (step, _) => (node, step),
        }
    }
}

/// Takes a refresh through the entrance. One that passes has its coins looked up next.
pub fn begin_refresh(node: &mut Node, request: &RefreshRequest, at: &RefreshIngress) -> (step:
    RefreshStep)
    ensures
        step@ == match refresh_entry_answer(old(node)@, request, *at) {
            Some(a) => RefreshStepView::Done(a),
            None => RefreshStepView::Look {
                coins: coins_to_look_up(old(node)@, request.refresh_psbt@, "refresh"@),
            },
        },
        final(node)@ == with_nonces(old(node)@, final(node)@.sign_state.coord_nonces),
        refresh_takes_nonce(old(node)@, request, *at) ==> old(node)@.sign_state.coord_nonces.claimed(
            refresh_entry(request, at.digest).claim(
                at.raw_now,
                old(node)@.params.max_commitment_age_secs,
                at.mono_now,
            ),
            final(node)@.sign_state.coord_nonces,
        ),
        !refresh_takes_nonce(old(node)@, request, *at) ==> final(node)@.sign_state.coord_nonces
            == old(node)@.sign_state.coord_nonces,
{
    match refresh_ingress(node, request, at) {
        Ok(()) => RefreshStep::Look { coins: coins_for(node, &request.refresh_psbt, "refresh") },
        Err(a) => RefreshStep::Done(a),
    }
}

impl RefreshStep {
    /// Takes the reply to what was asked.
    pub fn next(self, node: &mut Node, request: &RefreshRequest, event: RefreshEvent) -> (step:
        RefreshStep)
        requires
            self@.takes(event),
        ensures
            (final(node)@, step@) == self@.next(old(node)@, request@, event),
    {
        match (self, event) {
            (RefreshStep::Look { coins: _ }, RefreshEvent::Looked { chain, raw_now }) => {
                let fetched = prefetch_prevouts(node, &request.refresh_psbt, "refresh", chain);
                match refresh_reopen(node, request, raw_now) {
                    Ok(job) => {
                        let commitment = refresh_commitment(node, &job, request.expiry);
                        RefreshStep::Name { job, commitment, fetched }
                    },
                    Err(a) => RefreshStep::Done(a),
                }
            },
            (RefreshStep::Name { job, commitment: _, fetched }, RefreshEvent::Named(id)) => {
                match refresh_lookup(node, &job, &id) {
                    Ok(key) => RefreshStep::Judge { job, id, key, fetched },
                    Err(a) => RefreshStep::Done(a),
                }
            },
            (
                RefreshStep::Judge { job, id, key, fetched },
                RefreshEvent::Judged { policy, carrier },
            ) => {
                match refresh_judge(node, request, &job, &id, &carrier, &fetched, &policy) {
                    Ok(ask) => RefreshStep::Register { job, id, key, ask },
                    Err(a) => RefreshStep::Done(a),
                }
            },
            (RefreshStep::Register { job, id, key, ask: _ }, RefreshEvent::Registered(kept)) => {
                RefreshStep::Done(refresh_register(node, request, &job, &id, &key, &kept))
            },
            (step, _) => step,
        }
    }
}

/// The reply to `step` among the answers of the surroundings.
pub open spec fn refresh_reply(step: RefreshStepView, facts: RefreshFacts) -> RefreshEvent {
    match step {
        RefreshStepView::Look { .. } => RefreshEvent::Looked {
            chain: facts.chain,
            raw_now: facts.reopen_at,
        },
        RefreshStepView::Name { .. } => RefreshEvent::Named(facts.id),
        RefreshStepView::Judge { .. } => RefreshEvent::Judged {
            policy: facts.policy,
            carrier: facts.carrier,
        },
        _ => RefreshEvent::Registered(facts.kept),
    }
}

/// The node and what is to be asked once at most `n` replies have come.
pub open spec fn refresh_driven(
    node: NodeView,
    request: RefreshRequestView,
    step: RefreshStepView,
    facts: RefreshFacts,
    n: nat,
) -> (NodeView, RefreshStepView)
    decreases n,
{
    if n == 0 || step is Done {
        (node, step)
    } else {
        let (node, then) = step.next(node, request, refresh_reply(step, facts));
        refresh_driven(node, request, then, facts, (n - 1) as nat)
    }
}

/// The steps of a refresh make its whole way: one that has passed the entrance and is
/// carried on by the replies that the surroundings give is answered after at most four of
/// them, with the answer and the node of the uninterrupted run.
pub proof fn the_steps_of_a_refresh_make_the_whole_way(
    node: NodeView,
    request: RefreshRequestView,
    coins: Option<Seq<OutPoint>>,
    facts: RefreshFacts,
)
    ensures
        ({
            let run = refresh_run(node, request, facts);
            refresh_driven(node, request, RefreshStepView::Look { coins }, facts, 4) == (
                run.0,
                RefreshStepView::Done(run.1),
            )
        }),
{
    reveal(refresh_run);
    reveal_with_fuel(refresh_driven, 5);
}

} // verus!
