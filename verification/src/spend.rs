//! The way of a spend from its transactions to the verdict, and the whole of it.

use vstd::prelude::*;

use crate::codec::{compute_txid, transaction_id};
use crate::commitment::{
    acceptance_key, acceptance_replay_key, candidate_views, commitment, commitment_of, Candidate,
    Commitment,
};
use crate::ingress::{
    after_ingress, armed_job, charged, close, closed, committed, counted, fire_arm_hook,
    entry_request, ingress_answer, ingress_guard, reopened, sign_charge, sign_commit, sign_ingress,
    sign_reopen, stage_and_close, staged_and_closed, takes_nonce, with_nonces, Ingress, SignJob,
    SignJobView, SpendPair, SpendPairView,
};
use crate::ladder::{ensure_escape_ladder, ladder_fault, ladder_refusal};
use crate::node::{Node, NodeKeys, NodeKeysView, NodeView};
use crate::pin::{effective_verdict, pin_verdict, PinCharge, PinVerdict};
use crate::policy::{
    violation_refusal, violation_response, Classification, PolicyVerdict, PolicyVerdictView,
    TxClass,
};
use crate::prevouts::{
    fetch_failure, fetch_opt_view, node_local_prevout_fetch_failure, refusal_view, PrevoutFetch,
    PrevoutFetchView,
};
use crate::proto::{
    refusal, refused, Accepted, AcceptedView, RefusalCode, SignRequest, SignRequestView,
    SignResponse, SignResponseView, TaggedRequest, TaggedRequestView,
};
use crate::registry::{
    hot_velocity_refusal, psbt_views, register_pair, registration_refusal, registration_verdict,
    registration_view, reserve_view, velocity_refusal, Errand, ErrandView, FireWindow, HotReserve,
    HotReserveRefusal, HotReserveView, MemoUpgrade, RegisterAnswer, RegisterPair, RegisterPairView,
    Registration, RegistrationView,
};
use crate::replay::{
    pending_at, recorded, refreshed_within, unexpired, NonceLogView, SignStateView,
};
use crate::signatures::{add_node_signatures, node_signed, signing_failure};
use crate::table::texts;
use crate::text::{copy_bytes, decimal, owned, push_decimal, same_text};
use crate::tx::{saturating, Psbt, PsbtView};
use crate::verdict::{
    answer_view, chain_answer_view, escape_check, filed, prefetch_prevouts, prefetched,
    record_verdict, spend_refusal, stage_spend_carrier, staged, verify_escape, verify_spend, Answer,
    AnswerView, ChainAnswer,
};

verus! {

/// The commitments of a spend and of its escape, by name.
#[derive(Debug)]
pub struct PairIds {
    pub spend: String,
    pub escape: String,
}

/// The contents of [`PairIds`].
pub struct PairIdsView {
    pub spend: Seq<char>,
    pub escape: Seq<char>,
}

impl View for PairIds {
    type V = PairIdsView;

    open spec fn view(&self) -> PairIdsView {
        PairIdsView { spend: self.spend@, escape: self.escape@ }
    }
}

impl PairIdsView {
    /// Whether the spend is its own escape.
    pub open spec fn self_paired(self) -> bool {
        self.escape == self.spend
    }

    /// The commitments of the candidates that are kept.
    pub open spec fn kept(self) -> Seq<Seq<char>> {
        if self.self_paired() {
            seq![self.spend]
        } else {
            seq![self.spend, self.escape]
        }
    }
}

/// What the pair commits the node to: the names of these two are the pair's ids.
pub fn pair_commitments(node: &Node, pair: &SpendPair, expiry: u64) -> (both: (Commitment, Commitment))
    ensures
        both.0@ == commitment(node@.wallet_id, node@.params.policy_version, pair@.spend, expiry),
        both.1@ == commitment(node@.wallet_id, node@.params.policy_version, pair@.escape, expiry),
{
    let version = node.params.policy_version;
    (
        commitment_of(node.wallet_id, version, &pair.spend, expiry),
        commitment_of(node.wallet_id, version, &pair.escape, expiry),
    )
}

/// The label of a rung of the escape's ladder.
pub open spec fn rung_label(rung: nat) -> Seq<char> {
    "escape_bump:"@ + decimal(rung)
}

/// The candidates that an acceptance of the pair is filed under: every transaction
/// of the request, in order.
pub open spec fn pair_candidates(pair: SpendPairView, ids: PairIdsView) -> Seq<Candidate> {
    seq![(ids.spend, pair.spend_bytes), (ids.escape, pair.escape_bytes)] + Seq::new(
        pair.bump_bytes.len(),
        |i: int| (rung_label(i as nat), pair.bump_bytes[i]),
    )
}

fn pair_key(pair: &SpendPair, ids: &PairIds) -> (key: String)
    ensures
        key@ == acceptance_key(pair_candidates(pair@, ids@)),
{
    let mut list: Vec<(String, Vec<u8>)> = Vec::new();
    list.push((ids.spend.clone(), copy_bytes(&pair.spend_bytes)));
    list.push((ids.escape.clone(), copy_bytes(&pair.escape_bytes)));
    let mut i: usize = 0;
    while i < pair.bump_bytes.len()
        invariant
            i <= pair.bump_bytes.len(),
            list.len() == i + 2,
            list@[0].0@ == ids@.spend,
            list@[0].1@ == pair@.spend_bytes,
            list@[1].0@ == ids@.escape,
            list@[1].1@ == pair@.escape_bytes,
            forall|k: int|
                2 <= k < i + 2 ==> (#[trigger] list@[k]).0@ == rung_label((k - 2) as nat)
                    && list@[k].1@ == pair@.bump_bytes[k - 2],
        decreases pair.bump_bytes.len() - i,
    {
        let mut label = owned("escape_bump:");
        push_decimal(&mut label, i as u64);
        list.push((label, copy_bytes(&pair.bump_bytes[i])));
        i += 1;
    }
    assert(candidate_views(list@) =~= pair_candidates(pair@, ids@));
    acceptance_replay_key(&list)
}

/// The node once its verdicts are pruned.
pub open spec fn replay_pruned(node: NodeView, now: u64) -> NodeView {
    NodeView {
        sign_state: SignStateView {
            replay: unexpired(node.sign_state.replay, now),
            ..node.sign_state
        },
        ..node
    }
}

/// The node once the rest of its memory is pruned.
pub open spec fn stores_pruned(node: NodeView, now: u64) -> NodeView {
    NodeView {
        sign_state: SignStateView {
            pending: pending_at(node.sign_state.pending, now),
            refreshes: refreshed_within(
                node.sign_state.refreshes,
                now,
                node.params.refresh_min_interval_secs,
            ),
            ..node.sign_state
        },
        errands: if node.channel is Some {
            node.errands.push(ErrandView::PruneStore { now })
        } else {
            node.errands
        },
        ..node
    }
}

/// Prunes the spends held and the coins refreshed, and has the channel prune its
/// own.
pub(crate) fn prune_stores(node: &mut Node, now: u64)
    ensures
        final(node)@ == stores_pruned(old(node)@, now),
{
    let interval = node.params.refresh_min_interval_secs;
    node.sign_state.pending.prune(now);
    node.sign_state.refreshes.prune(now, interval);
    if node.channel.is_some() {
        node.tell(Errand::PruneStore { now });
    }
}

/// The node once a spend that was accepted before is scheduled again.
pub open spec fn rescheduled(node: NodeView, job: SignJobView, ids: PairIdsView) -> NodeView {
    match node.channel {
        Some(_) => NodeView {
            errands: node.errands.push(
                ErrandView::ApplyCachedSchedule {
                    escape: ids.escape,
                    duress: job.verdict == PinVerdict::Duress,
                    now: job.now,
                    epsilon_secs: node.params.epsilon_secs,
                },
            ).push(
                ErrandView::RecordIntentPair {
                    carrier: job.carrier,
                    spend: ids.spend,
                    escape: ids.escape,
                },
            ),
            ..node
        },
        None => node,
    }
}

/// A spend held against what the node remembers: one accepted before in just this
/// form is answered as before, scheduled again and handed on; one refused before is
/// answered as before; and one whose coins this node could not look up is handed on
/// for others to judge.
pub open spec fn looked_up(
    node: NodeView,
    request: SignRequestView,
    job: SignJobView,
    pair: SpendPairView,
    ids: PairIdsView,
    fetched: (Option<PrevoutFetchView>, Option<PrevoutFetchView>),
) -> (NodeView, Result<Seq<char>, AnswerView>) {
    let key = acceptance_key(pair_candidates(pair, ids));
    let node = replay_pruned(node, job.now);
    let replay = node.sign_state.replay;
    match recorded(replay, key, job.now) {
        Some(v) => (staged_and_closed(rescheduled(node, job, ids), request, job), Err(Ok(v))),
        None => match recorded(replay, ids.spend, job.now) {
            Some(v) => (closed(node, job.guard), Err(Ok(v))),
            None => match fetch_failure(fetched.0, fetched.1) {
                Some(r) => (staged_and_closed(node, request, job), Err(Ok(r))),
                None => (stores_pruned(node, job.now), Ok(key)),
            },
        },
    }
}

/// Holds a spend against what the node remembers. A spend that passes comes with
/// the key its acceptance is to be filed under.
pub fn sign_lookup(
    node: &mut Node,
    request: &SignRequest,
    job: SignJob,
    pair: &SpendPair,
    ids: &PairIds,
    spend_fetch: &Option<PrevoutFetch>,
    escape_fetch: &Option<PrevoutFetch>,
) -> (out: Result<(SignJob, String), Answer>)
    ensures
        ({
            let (node_after, passed) = looked_up(
                old(node)@,
                request@,
                job@,
                pair@,
                ids@,
                (fetch_opt_view(*spend_fetch), fetch_opt_view(*escape_fetch)),
            );
            &&& final(node)@ == node_after
            &&& match out {
                Ok((j, key)) => j@ == job@ && passed == Result::<Seq<char>, AnswerView>::Ok(key@),
                Err(a) => passed == Result::<Seq<char>, AnswerView>::Err(answer_view(a)),
            }
        }),
{
    let key = pair_key(pair, ids);
    node.sign_state.replay.prune(job.now);
    if let Some(v) = node.sign_state.replay.get(&key, job.now) {
        if node.channel.is_some() {
            let epsilon_secs = node.params.epsilon_secs;
            node.tell(
                Errand::ApplyCachedSchedule {
                    escape: ids.escape.clone(),
                    duress: job.verdict == PinVerdict::Duress,
                    now: job.now,
                    epsilon_secs,
                },
            );
            node.tell(
                Errand::RecordIntentPair {
                    carrier: job.carrier.clone(),
                    spend: ids.spend.clone(),
                    escape: ids.escape.clone(),
                },
            );
        }
        stage_and_close(node, request, job);
        return Err(Ok(v));
    }
    if let Some(v) = node.sign_state.replay.get(&ids.spend, job.now) {
        close(node, job.guard);
        return Err(Ok(v));
    }
    if let Some(r) = node_local_prevout_fetch_failure(spend_fetch, escape_fetch) {
        stage_and_close(node, request, job);
        return Err(Ok(r));
    }
    prune_stores(node, job.now);
    Ok((job, key))
}

/// The verdict on a refresh that came as a spend.
pub open spec fn refresh_as_spend() -> SignResponseView {
    refused(
        RefusalCode::PsbtInconsistent,
        "transaction_class"@,
        "every output pays the vault: a refresh must be submitted as a pin-less RefreshRequest, not a SpendRequest"@,
    )
}

/// The class of a spend, or why it has none that a spend may have.
pub open spec fn spend_class(policy: PolicyVerdictView) -> Result<Classification, SignResponseView> {
    match policy.classification {
        Err(v) => Err(violation_response(v)),
        Ok(c) => if c.class == TxClass::Refresh {
            Err(refresh_as_spend())
        } else {
            Ok(c)
        },
    }
}

/// Whether a verdict says that the spend is too large for the hot limit.
pub open spec fn over_hot_limit(verdict: SignResponseView) -> bool {
    verdict matches SignResponseView::Refusal(r) && r.code == RefusalCode::HotBudgetExceeded
}

/// A spend judged by its signatures, the chain and the policy. A refusal is filed
/// where it may be; one over the hot limit is handed on.
pub open spec fn judged(
    node: NodeView,
    request: SignRequestView,
    job: SignJobView,
    pair: SpendPairView,
    ids: PairIdsView,
    fetched: Option<PrevoutFetchView>,
    policy: PolicyVerdictView,
) -> (NodeView, Result<Classification, AnswerView>) {
    match spend_refusal(node, pair.spend, fetched, policy) {
        Some(r) => {
            let node = if over_hot_limit(r) {
                staged(node, TaggedRequestView::Spend(request), job.carrier)
            } else {
                node
            };
            (closed(filed(node, ids.spend, request.expiry, r), job.guard), Err(Ok(r)))
        },
        None => match spend_class(policy) {
            Ok(c) => (node, Ok(c)),
            Err(r) => (closed(filed(node, ids.spend, request.expiry, r), job.guard), Err(Ok(r))),
        },
    }
}

/// Judges the spend itself.
pub fn sign_judge(
    node: &mut Node,
    request: &SignRequest,
    job: SignJob,
    pair: &SpendPair,
    ids: &PairIds,
    fetched: &Option<PrevoutFetch>,
    policy: &PolicyVerdict,
) -> (out: Result<(SignJob, Classification), Answer>)
    ensures
        ({
            let (node_after, passed) = judged(
                old(node)@,
                request@,
                job@,
                pair@,
                ids@,
                fetch_opt_view(*fetched),
                policy@,
            );
            &&& final(node)@ == node_after
            &&& match out {
                Ok((j, c)) => j@ == job@ && passed == Result::<Classification, AnswerView>::Ok(c),
                Err(a) => passed == Result::<Classification, AnswerView>::Err(answer_view(a)),
            }
        }),
{
    if let Err(r) = verify_spend(node, &pair.spend, fetched, policy) {
        let over = match &r {
            SignResponse::Refusal(refusal) => refusal.code == RefusalCode::HotBudgetExceeded,
            SignResponse::Accepted(_) => false,
        };
        if over {
            stage_spend_carrier(node, TaggedRequest::Spend(request.copy()), &job.carrier);
        }
        record_verdict(node, &ids.spend, request.expiry, &r);
        close(node, job.guard);
        return Err(Ok(r));
    }
    let c = match &policy.classification {
        Ok(c) => *c,
        Err(v) => {
            let r = violation_refusal(v);
            record_verdict(node, &ids.spend, request.expiry, &r);
            close(node, job.guard);
            return Err(Ok(r));
        },
    };
    if c.class == TxClass::Refresh {
        let r = refusal(
            RefusalCode::PsbtInconsistent,
            "transaction_class",
            owned(
                "every output pays the vault: a refresh must be submitted as a pin-less RefreshRequest, not a SpendRequest",
            ),
        );
        record_verdict(node, &ids.spend, request.expiry, &r);
        close(node, job.guard);
        return Err(Ok(r));
    }
    Ok((job, c))
}

/// The hot outflow of a spend, as the ledger is to take it.
pub open spec fn hot_reserve(
    request: SignRequestView,
    job: SignJobView,
    ids: PairIdsView,
    c: Classification,
) -> Option<HotReserveView> {
    if c.class == TxClass::Hot {
        Some(
            HotReserveView {
                commitment_id: ids.spend,
                outflow_sat: c.hot_outflow,
                wall_now: job.raw_now,
                expiry: request.expiry,
            },
        )
    } else {
        None
    }
}

fn reserve_of(request: &SignRequest, job: &SignJob, ids: &PairIds, c: Classification) -> (reserve:
    Option<HotReserve>)
    ensures
        reserve_view(reserve) == hot_reserve(request@, job@, ids@, c),
{
    if c.class == TxClass::Hot {
        Some(
            HotReserve {
                commitment_id: ids.spend.clone(),
                outflow_sat: c.hot_outflow,
                wall_now: job.raw_now,
                expiry: request.expiry,
            },
        )
    } else {
        None
    }
}

/// What the ledger of hot outflow is asked to reserve, if anything: only a node
/// with peers keeps one.
pub fn reserve_ask(
    node: &Node,
    request: &SignRequest,
    job: &SignJob,
    ids: &PairIds,
    c: Classification,
) -> (ask: Option<HotReserve>)
    ensures
        reserve_view(ask) == if node@.channel is Some {
            hot_reserve(request@, job@, ids@, c)
        } else {
            None
        },
{
    if node.channel.is_none() {
        return None;
    }
    reserve_of(request, job, ids, c)
}

/// The ledger's answer: whether the outflow was newly reserved, or why it was not.
pub type ReserveAnswer = Result<bool, HotReserveRefusal>;

/// A spend after the ledger's answer. One that the ledger refuses is handed on.
pub open spec fn metered(
    node: NodeView,
    request: SignRequestView,
    job: SignJobView,
    c: Classification,
    answer: ReserveAnswer,
) -> (NodeView, Result<bool, AnswerView>) {
    if c.class != TxClass::Hot || node.channel is None {
        (node, Ok(false))
    } else {
        match answer {
            Ok(reserved) => (node, Ok(reserved)),
            Err(r) => (
                staged_and_closed(node, request, job),
                Err(Ok(velocity_refusal(node, c.hot_outflow, r))),
            ),
        }
    }
}

/// Takes note of the ledger's answer.
pub fn sign_reserve(
    node: &mut Node,
    request: &SignRequest,
    job: SignJob,
    c: Classification,
    answer: ReserveAnswer,
) -> (out: Result<(SignJob, bool), Answer>)
    ensures
        ({
            let (node_after, passed) = metered(old(node)@, request@, job@, c, answer);
            &&& final(node)@ == node_after
            &&& match out {
                Ok((j, reserved)) => j@ == job@ && passed == Result::<bool, AnswerView>::Ok(
                    reserved,
                ),
                Err(a) => passed == Result::<bool, AnswerView>::Err(answer_view(a)),
            }
        }),
{
    if c.class != TxClass::Hot || node.channel.is_none() {
        return Ok((job, false));
    }
    match answer {
        Ok(reserved) => Ok((job, reserved)),
        Err(refused_by) => {
            let r = hot_velocity_refusal(node, c.hot_outflow, refused_by);
            stage_and_close(node, request, job);
            Err(Ok(r))
        },
    }
}

/// The first rung from `rung` on that does not do as an escape.
pub open spec fn bumps_refusal(
    node: NodeView,
    bumps: Seq<PsbtView>,
    fetched: Option<PrevoutFetchView>,
    policies: Seq<PolicyVerdictView>,
    rung: int,
) -> Option<SignResponseView>
    decreases bumps.len() - rung,
{
    if rung >= bumps.len() {
        None
    } else {
        match escape_check(node, bumps[rung], fetched, policies[rung]) {
            Some(r) => Some(r),
            None => bumps_refusal(node, bumps, fetched, policies, rung + 1),
        }
    }
}

/// The verdict on a transaction that cannot be signed.
pub open spec fn unsigned_verdict(detail: Seq<char>) -> SignResponseView {
    refused(RefusalCode::PsbtInconsistent, "signing"@, detail)
}

/// Why the first rung from `rung` on cannot be signed.
pub open spec fn bumps_signing_failure(
    keys: NodeKeysView,
    bumps: Seq<PsbtView>,
    rung: int,
) -> Option<Seq<char>>
    decreases bumps.len() - rung,
{
    if rung >= bumps.len() {
        None
    } else if signing_failure(keys, bumps[rung], 0) is Some {
        signing_failure(keys, bumps[rung], 0)
    } else {
        bumps_signing_failure(keys, bumps, rung + 1)
    }
}

/// Why the pair cannot be signed, if it cannot.
pub open spec fn pair_signing_failure(keys: NodeKeysView, pair: SpendPairView) ->
    Option<Seq<char>> {
    if signing_failure(keys, pair.spend, 0) is Some {
        signing_failure(keys, pair.spend, 0)
    } else if signing_failure(keys, pair.escape, 0) is Some {
        signing_failure(keys, pair.escape, 0)
    } else {
        bumps_signing_failure(keys, pair.bumps, 0)
    }
}

/// When a spend may be broadcast: a hot one after its hold, an escape at once.
pub open spec fn fires_at(node: NodeView, now: u64, c: Classification) -> u64 {
    if c.class == TxClass::Hot {
        saturating(now + node.params.hold_secs)
    } else {
        now
    }
}

/// The verdict on a hot spend that expires before it could be finished, `None`
/// where it does not.
pub open spec fn too_short(node: NodeView, expiry: u64, now: u64, c: Classification) -> Option<
    SignResponseView,
> {
    let floor = saturating(fires_at(node, now, c) + node.params.combine_slack_secs);
    if c.class == TxClass::Hot && expiry < floor {
        Some(
            refused(
                RefusalCode::ExpiryTooShort,
                "commitment_expiry"@,
                "expiry "@ + decimal(expiry as nat) + " is before "@ + decimal(floor as nat)
                    + " (now "@ + decimal(now as nat) + " + hold_secs "@ + decimal(
                    node.params.hold_secs as nat,
                ) + " + combine_slack_secs "@ + decimal(node.params.combine_slack_secs as nat)
                    + "), so the spend could not finish combining before it expired"@,
            ),
        )
    } else {
        None
    }
}

/// All that the pairing of a spend with its escape goes by.
pub struct PairingView {
    pub pair: SpendPairView,
    pub ids: PairIdsView,
    pub class: Classification,
    pub fetched: Option<PrevoutFetchView>,
    pub escape_policy: PolicyVerdictView,
    pub bump_policies: Seq<PolicyVerdictView>,
}

/// Why the escape of a spend does not do, if it does not: it and each rung of its
/// ladder must be escapes, the ladder must climb, and a spend that completes at once
/// needs an escape of its own.
pub open spec fn pairing_refusal(node: NodeView, p: PairingView) -> Option<SignResponseView> {
    let escape = escape_check(node, p.pair.escape, p.fetched, p.escape_policy);
    let ladder = ladder_fault(
        node.params.max_vault_satisfaction_weight,
        p.pair.escape,
        p.pair.bumps,
        p.ids.self_paired(),
    );
    let bumps = bumps_refusal(node, p.pair.bumps, p.fetched, p.bump_policies, 0);
    if escape is Some {
        escape
    } else if ladder is Some {
        Some(ladder_refusal(ladder->0))
    } else if bumps is Some {
        bumps
    } else if p.class.class == TxClass::Escape && p.ids.self_paired() {
        Some(
            refused(
                RefusalCode::PsbtInconsistent,
                "escape_class_residual"@,
                "an escape-class spend completes immediately, so its mandatory escape must be a distinct disjoint residual candidate for the T-time sweep"@,
            ),
        )
    } else if p.class.class == TxClass::Refresh {
        Some(
            refused(
                RefusalCode::PsbtInconsistent,
                "transaction_class"@,
                "a RefreshRequest must use the pin-less refresh request variant"@,
            ),
        )
    } else {
        None
    }
}

/// The node once a reservation made for the spend is given back.
pub open spec fn unwound(node: NodeView, ids: PairIdsView, reserved: bool) -> NodeView {
    if reserved && node.channel is Some {
        NodeView {
            errands: node.errands.push(ErrandView::ReleaseHotBudget { commitment_id: ids.spend }),
            ..node
        }
    } else {
        node
    }
}

fn unwind(node: &mut Node, ids: &PairIds, reserved: bool)
    ensures
        final(node)@ == unwound(old(node)@, ids@, reserved),
{
    if reserved && node.channel.is_some() {
        node.tell(Errand::ReleaseHotBudget { commitment_id: ids.spend.clone() });
    }
}

/// The pair as it is to be kept.
pub open spec fn pair_to_register(
    node: NodeView,
    request: SignRequestView,
    job: SignJobView,
    p: PairingView,
) -> RegisterPairView {
    let fire_at = fires_at(node, job.now, p.class);
    let latest = saturating(fire_at + node.params.combine_slack_secs);
    RegisterPairView {
        spend: node_signed(node.keys, p.pair.spend),
        spend_commitment_id: p.ids.spend,
        spend_hot: p.class.class == TxClass::Hot,
        duress: job.verdict == PinVerdict::Duress,
        confirmation_required: true,
        escape: node_signed(node.keys, p.pair.escape),
        escape_bumps: p.pair.bumps.map_values(|b: PsbtView| node_signed(node.keys, b)),
        escape_commitment_id: p.ids.escape,
        fire: FireWindow {
            fire_at,
            deadline: if request.expiry < latest {
                request.expiry
            } else {
                latest
            },
        },
        expiry: request.expiry,
        now: job.now,
        hot_reserve: hot_reserve(request, job, p.ids, p.class),
        carrier: job.carrier,
    }
}

/// The transactions of a pair, by id.
pub open spec fn pair_txids(pair: SpendPairView) -> Seq<[u8; 32]> {
    seq![transaction_id(pair.spend.unsigned_tx), transaction_id(pair.escape.unsigned_tx)]
        + pair.bumps.map_values(|b: PsbtView| transaction_id(b.unsigned_tx))
}

/// A spend paired with its escape, signed and handed on. A pair that does not do
/// gives back its reservation; one that expires too soon is handed on for others.
pub open spec fn paired(
    node: NodeView,
    request: SignRequestView,
    job: SignJobView,
    p: PairingView,
    reserved: bool,
) -> (NodeView, Result<Option<RegistrationView>, AnswerView>) {
    let back = unwound(node, p.ids, reserved);
    if pairing_refusal(node, p) is Some {
        (closed(back, job.guard), Err(Ok(pairing_refusal(node, p)->0)))
    } else if too_short(node, request.expiry, job.now, p.class) is Some {
        (
            staged_and_closed(back, request, job),
            Err(Ok(too_short(node, request.expiry, job.now, p.class)->0)),
        )
    } else if pair_signing_failure(node.keys, p.pair) is Some {
        (
            closed(back, job.guard),
            Err(Ok(unsigned_verdict(pair_signing_failure(node.keys, p.pair)->0))),
        )
    } else {
        (
            staged(node, TaggedRequestView::Spend(request), job.carrier),
            Ok(
                if node.channel is Some {
                    Some(
                        pair_to_register(node, request, job, p).registration(
                            node.params.epsilon_secs,
                        ),
                    )
                } else {
                    None
                },
            ),
        )
    }
}

/// What the policy says of several transactions.
pub open spec fn policy_views(policies: Seq<PolicyVerdict>) -> Seq<PolicyVerdictView> {
    policies.map_values(|v: PolicyVerdict| v@)
}

fn check_bumps(
    node: &Node,
    bumps: &Vec<Psbt>,
    fetched: &Option<PrevoutFetch>,
    policies: &Vec<PolicyVerdict>,
) -> (out: Result<(), SignResponse>)
    requires
        policies.len() == bumps.len(),
    ensures
        refusal_view(out) == bumps_refusal(
            node@,
            psbt_views(bumps@),
            fetch_opt_view(*fetched),
            policy_views(policies@),
            0,
        ),
{
    let mut rung: usize = 0;
    while rung < bumps.len()
        invariant
            rung <= bumps.len(),
            policies.len() == bumps.len(),
            bumps_refusal(
                node@,
                psbt_views(bumps@),
                fetch_opt_view(*fetched),
                policy_views(policies@),
                0,
            ) == bumps_refusal(
                node@,
                psbt_views(bumps@),
                fetch_opt_view(*fetched),
                policy_views(policies@),
                rung as int,
            ),
        decreases bumps.len() - rung,
    {
        if let Err(r) = verify_escape(node, &bumps[rung], fetched, &policies[rung]) {
            return Err(r);
        }
        rung += 1;
    }
    Ok(())
}

fn sign_bumps(keys: &NodeKeys, list: Vec<Psbt>) -> (out: Result<Vec<Psbt>, String>)
    ensures
        match out {
            Ok(signed) => {
                &&& bumps_signing_failure(keys@, psbt_views(list@), 0) is None
                &&& psbt_views(signed@) == psbt_views(list@).map_values(
                    |b: PsbtView| node_signed(keys@, b),
                )
            },
            Err(e) => bumps_signing_failure(keys@, psbt_views(list@), 0) == Some(e@),
        },
{
    let ghost before = psbt_views(list@);
    let total = list.len();
    assert(before.len() == total);
    let mut bumps = list;
    let mut signed: Vec<Psbt> = Vec::new();
    let mut rung: usize = 0;
    while bumps.len() > 0
        invariant
            before == psbt_views(list@),
            before.len() <= usize::MAX,
            rung + bumps.len() == before.len(),
            signed.len() == rung,
            forall|k: int| 0 <= k < bumps.len() ==> (#[trigger] bumps@[k])@ == before[rung + k],
            forall|k: int|
                0 <= k < rung ==> (#[trigger] signed@[k])@ == node_signed(keys@, before[k]),
            bumps_signing_failure(keys@, before, 0) == bumps_signing_failure(
                keys@,
                before,
                rung as int,
            ),
        decreases bumps.len(),
    {
        let ghost rest = bumps@;
        let mut bump = bumps.remove(0);
        assert(bump@ == before[rung as int]) by {
            assert(rest[0]@ == before[rung + 0]);
        }
        if let Err(e) = add_node_signatures(keys, &mut bump) {
            return Err(e);
        }
        signed.push(bump);
        proof {
            assert forall|k: int| 0 <= k < bumps.len() implies (#[trigger] bumps@[k])@ == before[rung
                + 1 + k] by {
                assert(bumps@[k] == rest[k + 1]);
            }
        }
        rung += 1;
    }
    assert(psbt_views(signed@) =~= before.map_values(|b: PsbtView| node_signed(keys@, b)));
    Ok(signed)
}

fn txids_of(pair: &SpendPair) -> (txids: Vec<[u8; 32]>)
    ensures
        txids@ == pair_txids(pair@),
{
    let mut txids: Vec<[u8; 32]> = Vec::new();
    txids.push(compute_txid(&pair.spend.unsigned_tx));
    txids.push(compute_txid(&pair.escape.unsigned_tx));
    let mut i: usize = 0;
    while i < pair.bumps.len()
        invariant
            i <= pair.bumps.len(),
            txids.len() == i + 2,
            txids@[0] == transaction_id(pair@.spend.unsigned_tx),
            txids@[1] == transaction_id(pair@.escape.unsigned_tx),
            forall|k: int|
                2 <= k < i + 2 ==> (#[trigger] txids@[k]) == transaction_id(
                    pair@.bumps[k - 2].unsigned_tx,
                ),
        decreases pair.bumps.len() - i,
    {
        txids.push(compute_txid(&pair.bumps[i].unsigned_tx));
        i += 1;
    }
    assert(txids@ =~= pair_txids(pair@));
    txids
}

/// What is left to do for a spend that is signed and handed on.
#[derive(Debug)]
pub struct Signed {
    /// What the registry is to keep; nothing without peers.
    pub ask: Option<Registration>,
    pub txids: Vec<[u8; 32]>,
}

/// Pairs the spend with its escape and signs both.
pub fn sign_pair(
    node: &mut Node,
    request: &SignRequest,
    job: SignJob,
    pair: SpendPair,
    ids: &PairIds,
    c: Classification,
    reserved: bool,
    fetched: &Option<PrevoutFetch>,
    escape_policy: &PolicyVerdict,
    bump_policies: &Vec<PolicyVerdict>,
) -> (out: Result<(SignJob, Signed), Answer>)
    requires
        bump_policies.len() == pair@.bumps.len(),
    ensures
        ({
            let p = PairingView {
                pair: pair@,
                ids: ids@,
                class: c,
                fetched: fetch_opt_view(*fetched),
                escape_policy: escape_policy@,
                bump_policies: policy_views(bump_policies@),
            };
            let (node_after, passed) = paired(old(node)@, request@, job@, p, reserved);
            &&& final(node)@ == node_after
            &&& match out {
                Ok((j, signed)) => {
                    &&& j@ == job@
                    &&& signed.txids@ == pair_txids(pair@)
                    &&& passed == Result::<Option<RegistrationView>, AnswerView>::Ok(
                        registration_view(signed.ask),
                    )
                },
                Err(a) => passed == Result::<Option<RegistrationView>, AnswerView>::Err(
                    answer_view(a),
                ),
            }
        }),
{
    let ghost p = PairingView {
        pair: pair@,
        ids: ids@,
        class: c,
        fetched: fetch_opt_view(*fetched),
        escape_policy: escape_policy@,
        bump_policies: policy_views(bump_policies@),
    };
    let self_paired = same_text(&ids.escape, &ids.spend);
    let checked = check_pair(
        node,
        &pair,
        self_paired,
        c,
        fetched,
        escape_policy,
        bump_policies,
        Ghost(ids@),
    );
    if let Err(r) = checked {
        unwind(node, ids, reserved);
        close(node, job.guard);
        return Err(Ok(r));
    }
    let fire_at = if c.class == TxClass::Hot {
        job.now.saturating_add(node.params.hold_secs)
    } else {
        job.now
    };
    let latest = fire_at.saturating_add(node.params.combine_slack_secs);
    if c.class == TxClass::Hot && request.expiry < latest {
        let mut detail = owned("expiry ");
        push_decimal(&mut detail, request.expiry);
        detail.append(" is before ");
        push_decimal(&mut detail, latest);
        detail.append(" (now ");
        push_decimal(&mut detail, job.now);
        detail.append(" + hold_secs ");
        push_decimal(&mut detail, node.params.hold_secs);
        detail.append(" + combine_slack_secs ");
        push_decimal(&mut detail, node.params.combine_slack_secs);
        detail.append("), so the spend could not finish combining before it expired");
        let r = refusal(RefusalCode::ExpiryTooShort, "commitment_expiry", detail);
        unwind(node, ids, reserved);
        stage_and_close(node, request, job);
        return Err(Ok(r));
    }
    let txids = txids_of(&pair);
    let (spend, escape, bumps) = match sign_all(&node.keys, pair) {
        Ok(signed) => signed,
        Err(detail) => {
            unwind(node, ids, reserved);
            close(node, job.guard);
            return Err(Ok(refusal(RefusalCode::PsbtInconsistent, "signing", detail)));
        },
    };
    stage_spend_carrier(node, TaggedRequest::Spend(request.copy()), &job.carrier);
    let to_keep = RegisterPair {
        spend,
        spend_commitment_id: ids.spend.clone(),
        spend_hot: c.class == TxClass::Hot,
        duress: job.verdict == PinVerdict::Duress,
        confirmation_required: true,
        escape,
        escape_bumps: bumps,
        escape_commitment_id: ids.escape.clone(),
        fire: FireWindow {
            fire_at,
            deadline: if request.expiry < latest {
                request.expiry
            } else {
                latest
            },
        },
        expiry: request.expiry,
        now: job.now,
        hot_reserve: reserve_of(request, &job, ids, c),
        carrier: job.carrier.clone(),
    };
    assert(to_keep@ == pair_to_register(old(node)@, request@, job@, p));
    let ask = register_pair(node, to_keep);
    Ok((job, Signed { ask, txids }))
}

fn check_pair(
    node: &Node,
    pair: &SpendPair,
    self_paired: bool,
    c: Classification,
    fetched: &Option<PrevoutFetch>,
    escape_policy: &PolicyVerdict,
    bump_policies: &Vec<PolicyVerdict>,
    Ghost(ids): Ghost<PairIdsView>,
) -> (out: Result<(), SignResponse>)
    requires
        bump_policies.len() == pair@.bumps.len(),
        self_paired == ids.self_paired(),
    ensures
        refusal_view(out) == pairing_refusal(
            node@,
            PairingView {
                pair: pair@,
                ids,
                class: c,
                fetched: fetch_opt_view(*fetched),
                escape_policy: escape_policy@,
                bump_policies: policy_views(bump_policies@),
            },
        ),
{
    if let Err(r) = verify_escape(node, &pair.escape, fetched, escape_policy) {
        return Err(r);
    }
    if let Err(r) = ensure_escape_ladder(
        node.params.max_vault_satisfaction_weight,
        &pair.escape,
        &pair.bumps,
        self_paired,
    ) {
        return Err(r);
    }
    if let Err(r) = check_bumps(node, &pair.bumps, fetched, bump_policies) {
        return Err(r);
    }
    if c.class == TxClass::Escape && self_paired {
        return Err(
            refusal(
                RefusalCode::PsbtInconsistent,
                "escape_class_residual",
                owned(
                    "an escape-class spend completes immediately, so its mandatory escape must be a distinct disjoint residual candidate for the T-time sweep",
                ),
            ),
        );
    }
    if c.class == TxClass::Refresh {
        return Err(
            refusal(
                RefusalCode::PsbtInconsistent,
                "transaction_class",
                owned("a RefreshRequest must use the pin-less refresh request variant"),
            ),
        );
    }
    Ok(())
}

fn sign_all(keys: &NodeKeys, pair: SpendPair) -> (out: Result<
    (Psbt, Psbt, Vec<Psbt>),
    String,
>)
    ensures
        match out {
            Ok((spend, escape, bumps)) => {
                &&& pair_signing_failure(keys@, pair@) is None
                &&& spend@ == node_signed(keys@, pair@.spend)
                &&& escape@ == node_signed(keys@, pair@.escape)
                &&& psbt_views(bumps@) == pair@.bumps.map_values(
                    |b: PsbtView| node_signed(keys@, b),
                )
            },
            Err(e) => pair_signing_failure(keys@, pair@) == Some(e@),
        },
{
    let mut spend = pair.spend;
    if let Err(e) = add_node_signatures(keys, &mut spend) {
        return Err(e);
    }
    let mut escape = pair.escape;
    if let Err(e) = add_node_signatures(keys, &mut escape) {
        return Err(e);
    }
    match sign_bumps(keys, pair.bumps) {
        Ok(bumps) => Ok((spend, escape, bumps)),
        Err(e) => Err(e),
    }
}

/// The verdict that accepts a spend.
pub open spec fn spend_accepted(node: NodeView, job: SignJobView, ids: PairIdsView, c: Classification) ->
    SignResponseView {
    SignResponseView::Accepted(
        AcceptedView {
            commitment_id: ids.spend,
            first_seen: job.now,
            remaining_secs: saturating(fires_at(node, job.now, c) - job.now),
        },
    )
}

/// Why the registry stops the spend, if it does.
pub open spec fn kept_refusal(
    node: NodeView,
    ids: PairIdsView,
    c: Classification,
    answer: RegisterAnswer,
) -> Option<SignResponseView> {
    match node.channel {
        Some(_) => registration_refusal(
            node,
            ids.kept(),
            if c.class == TxClass::Hot {
                Some(c.hot_outflow)
            } else {
                None
            },
            answer,
        ),
        None => None,
    }
}

/// A spend after the registry's answer. One that is kept is accepted: its
/// transactions count as authorized, a hot one is pending until it expires, and the
/// verdict is filed under the whole request.
pub open spec fn registered(
    node: NodeView,
    request: SignRequestView,
    job: SignJobView,
    ids: PairIdsView,
    key: Seq<char>,
    c: Classification,
    reserved: bool,
    txids: Seq<[u8; 32]>,
    answer: RegisterAnswer,
) -> (NodeView, AnswerView) {
    match kept_refusal(node, ids, c, answer) {
        Some(r) => (closed(unwound(node, ids, reserved), job.guard), Ok(r)),
        None => {
            let v = spend_accepted(node, job, ids, c);
            let known = NodeView {
                authorized: node.authorized.union(txids.to_set()),
                sign_state: SignStateView {
                    pending: if c.class == TxClass::Hot {
                        node.sign_state.pending.insert(ids.spend, request.expiry)
                    } else {
                        node.sign_state.pending
                    },
                    ..node.sign_state
                },
                ..node
            };
            (closed(filed(known, key, request.expiry, v), job.guard), Ok(v))
        },
    }
}

/// Counts the transactions among those accepted.
pub(crate) fn authorize_all(node: &mut Node, txids: &Vec<[u8; 32]>)
    ensures
        final(node)@ == (NodeView {
            authorized: old(node)@.authorized.union(txids@.to_set()),
            ..old(node)@
        }),
{
    let ghost before = node@;
    let mut i: usize = 0;
    assert(before.authorized.union(txids@.take(0).to_set()) =~= before.authorized);
    while i < txids.len()
        invariant
            i <= txids.len(),
            node@ == (NodeView {
                authorized: before.authorized.union(txids@.take(i as int).to_set()),
                ..before
            }),
        decreases txids.len() - i,
    {
        node.authorize(txids[i]);
        proof {
            let now = txids@.take(i + 1);
            let then = txids@.take(i as int);
            assert(now =~= then.push(txids@[i as int]));
            assert forall|t: [u8; 32]| now.to_set().contains(t) == then.to_set().insert(
                txids@[i as int],
            ).contains(t) by {
                if then.contains(t) {
                    let k = choose|k: int| 0 <= k < then.len() && then[k] == t;
                    assert(now[k] == t);
                }
                assert(now[i as int] == txids@[i as int]);
            }
            assert(before.authorized.union(now.to_set()) =~= before.authorized.union(
                then.to_set(),
            ).insert(txids@[i as int]));
        }
        i += 1;
    }
    assert(txids@.take(i as int) =~= txids@);
}

/// Takes note of the registry's answer and answers the spend. Without peers no
/// registry is asked, and `answer` does not count.
pub fn sign_register(
    node: &mut Node,
    request: &SignRequest,
    job: SignJob,
    ids: &PairIds,
    key: &String,
    c: Classification,
    reserved: bool,
    txids: &Vec<[u8; 32]>,
    answer: &RegisterAnswer,
) -> (out: Answer)
    requires
        *answer matches RegisterAnswer::BuildFailed { index, .. } ==> index < ids@.kept().len(),
    ensures
        (final(node)@, answer_view(out)) == registered(
            old(node)@,
            request@,
            job@,
            ids@,
            key@,
            c,
            reserved,
            txids@,
            *answer,
        ),
{
    if node.channel.is_some() {
        let mut kept: Vec<String> = Vec::new();
        kept.push(ids.spend.clone());
        if !same_text(&ids.escape, &ids.spend) {
            kept.push(ids.escape.clone());
        }
        assert(texts(kept@) =~= ids@.kept());
        let outflow = if c.class == TxClass::Hot {
            Some(c.hot_outflow)
        } else {
            None
        };
        if let Err(r) = registration_verdict(node, &kept, outflow, answer) {
            unwind(node, ids, reserved);
            close(node, job.guard);
            return Ok(r);
        }
    }
    authorize_all(node, txids);
    let fire_at = if c.class == TxClass::Hot {
        node.sign_state.pending.record(ids.spend.clone(), request.expiry);
        job.now.saturating_add(node.params.hold_secs)
    } else {
        job.now
    };
    let v = SignResponse::Accepted(
        Accepted {
            commitment_id: ids.spend.clone(),
            first_seen: job.now,
            remaining_secs: fire_at.saturating_sub(job.now),
        },
    );
    record_verdict(node, key, request.expiry, &v);
    close(node, job.guard);
    Ok(v)
}

/// All that the surroundings answer in the course of a spend that nothing else
/// interrupts.
#[derive(Debug)]
pub struct SignFacts {
    pub at: Ingress,
    /// What the comparison of the pin found.
    pub compared: PinVerdict,
    pub carrier: String,
    /// The wall clock after the comparison.
    pub commit_at: u64,
    /// What became of the memo when the intent was recorded.
    pub upgrade: Option<MemoUpgrade>,
    pub charge: PinCharge,
    pub spend_chain: ChainAnswer,
    pub escape_chain: ChainAnswer,
    /// The wall clock after the look at the chain.
    pub reopen_at: u64,
    pub ids: PairIds,
    pub spend_policy: PolicyVerdict,
    pub escape_policy: PolicyVerdict,
    pub bump_policies: Vec<PolicyVerdict>,
    pub reserve: ReserveAnswer,
    pub kept: RegisterAnswer,
}

/// The way of a spend from its class to the verdict.
pub open spec fn classed_run(
    node: NodeView,
    request: SignRequestView,
    job: SignJobView,
    pair: SpendPairView,
    key: Seq<char>,
    c: Classification,
    escape_fetch: Option<PrevoutFetchView>,
    facts: SignFacts,
) -> (NodeView, AnswerView) {
    let p = PairingView {
        pair,
        ids: facts.ids@,
        class: c,
        fetched: escape_fetch,
        escape_policy: facts.escape_policy@,
        bump_policies: policy_views(facts.bump_policies@),
    };
    match metered(node, request, job, c, facts.reserve) {
        (node, Err(a)) => (node, a),
        (node, Ok(reserved)) => match paired(node, request, job, p, reserved) {
            (node, Err(a)) => (node, a),
            (node, Ok(_)) => registered(
                node,
                request,
                job,
                facts.ids@,
                key,
                c,
                reserved,
                pair_txids(pair),
                facts.kept,
            ),
        },
    }
}

/// The way of a spend from its transactions to the verdict.
#[verifier::opaque]
pub open spec fn opened_run(
    node: NodeView,
    request: SignRequestView,
    job: SignJobView,
    pair: SpendPairView,
    fetched: (Option<PrevoutFetchView>, Option<PrevoutFetchView>),
    facts: SignFacts,
) -> (NodeView, AnswerView) {
    match looked_up(node, request, job, pair, facts.ids@, fetched) {
        (node, Err(a)) => (node, a),
        (node, Ok(key)) => match judged(
            node,
            request,
            job,
            pair,
            facts.ids@,
            fetched.0,
            facts.spend_policy@,
        ) {
            (node, Err(a)) => (node, a),
            (node, Ok(c)) => classed_run(node, request, job, pair, key, c, fetched.1, facts),
        },
    }
}

/// What the look at the chain for the two transactions of a request is worth.
pub open spec fn fetched_coins(node: NodeView, request: SignRequestView, facts: SignFacts) -> (
    Option<PrevoutFetchView>,
    Option<PrevoutFetchView>,
) {
    (
        prefetched(node, request.psbt, "spend"@, chain_answer_view(facts.spend_chain)),
        prefetched(node, request.escape_psbt, "escape"@, chain_answer_view(facts.escape_chain)),
    )
}

/// The way of a spend from the look at the chain to the verdict.
pub open spec fn reopened_run(
    node: NodeView,
    request: SignRequestView,
    job: SignJobView,
    facts: SignFacts,
) -> (NodeView, AnswerView) {
    match reopened(node, request, job, facts.reopen_at) {
        (node, Err(a)) => (node, a),
        (node, Ok((job, pair))) => opened_run(
            node,
            request,
            job,
            pair,
            fetched_coins(node, request, facts),
            facts,
        ),
    }
}

/// The way of a spend from the charge for its pin to the verdict.
#[verifier::opaque]
pub open spec fn charged_run(
    node: NodeView,
    request: SignRequestView,
    job: SignJobView,
    facts: SignFacts,
) -> (NodeView, AnswerView) {
    match charged(node, request, job, facts.charge) {
        (node, Err(a)) => (node, a),
        (node, Ok(job)) => reopened_run(node, request, job, facts),
    }
}

/// The way of a spend from the entrance to the verdict.
#[verifier::opaque]
pub open spec fn admitted_run(
    node: NodeView,
    request: SignRequestView,
    job: SignJobView,
    facts: SignFacts,
) -> (NodeView, AnswerView) {
    let verdict = effective_verdict(facts.compared, request.pin, node.params.max_pin_bytes);
    let armed = armed_job(node, job, verdict, facts.carrier@, facts.commit_at);
    match committed(counted(node, verdict), request, armed, facts.upgrade) {
        (node, Err(a)) => (node, a),
        (node, Ok(job)) => charged_run(node, request, job, facts),
    }
}

/// A spend that has just passed the entrance.
pub open spec fn admitted_job(node: NodeView, request: &SignRequest, at: Ingress) -> SignJobView {
    let now = node.sign_state.coord_nonces.effective_now(at.raw_now);
    SignJobView {
        first_seen: now,
        guard: ingress_guard(node, request, at),
        verdict: PinVerdict::Wrong,
        carrier: Seq::empty(),
        raw_now: at.raw_now,
        now,
    }
}

/// What the registry can have answered for these candidates.
pub open spec fn answers(kept: RegisterAnswer, ids: PairIdsView) -> bool {
    kept matches RegisterAnswer::BuildFailed { index, .. } ==> index < ids.kept().len()
}

proof fn lemma_bump_count(texts: Seq<Seq<char>>)
    ensures
        crate::ingress::decoded_bumps(texts) matches Ok(bumps) ==> bumps.len() == texts.len(),
    decreases texts.len(),
{
    if texts.len() > 0 {
        lemma_bump_count(texts.drop_last());
    }
}

fn run_classed(
    node: &mut Node,
    request: &SignRequest,
    job: SignJob,
    pair: SpendPair,
    key: &String,
    c: Classification,
    escape_fetch: &Option<PrevoutFetch>,
    facts: &SignFacts,
) -> (out: Answer)
    requires
        facts.bump_policies.len() == pair@.bumps.len(),
        answers(facts.kept, facts.ids@),
    ensures
        (final(node)@, answer_view(out)) == classed_run(
            old(node)@,
            request@,
            job@,
            pair@,
            key@,
            c,
            fetch_opt_view(*escape_fetch),
            *facts,
        ),
{
    let (job, reserved) = match sign_reserve(node, request, job, c, facts.reserve) {
        Ok(metered) => metered,
        Err(a) => return a,
    };
    let (job, signed) = match sign_pair(
        node,
        request,
        job,
        pair,
        &facts.ids,
        c,
        reserved,
        escape_fetch,
        &facts.escape_policy,
        &facts.bump_policies,
    ) {
        Ok(signed) => signed,
        Err(a) => return a,
    };
    sign_register(
        node,
        request,
        job,
        &facts.ids,
        key,
        c,
        reserved,
        &signed.txids,
        &facts.kept,
    )
}

fn run_opened(
    node: &mut Node,
    request: &SignRequest,
    job: SignJob,
    pair: SpendPair,
    spend_fetch: &Option<PrevoutFetch>,
    escape_fetch: &Option<PrevoutFetch>,
    facts: &SignFacts,
) -> (out: Answer)
    requires
        facts.bump_policies.len() == pair@.bumps.len(),
        answers(facts.kept, facts.ids@),
    ensures
        (final(node)@, answer_view(out)) == opened_run(
            old(node)@,
            request@,
            job@,
            pair@,
            (fetch_opt_view(*spend_fetch), fetch_opt_view(*escape_fetch)),
            *facts,
        ),
{
    reveal(opened_run);
    let (job, key) = match sign_lookup(
        node,
        request,
        job,
        &pair,
        &facts.ids,
        spend_fetch,
        escape_fetch,
    ) {
        Ok(found) => found,
        Err(a) => return a,
    };
    let (job, c) = match sign_judge(
        node,
        request,
        job,
        &pair,
        &facts.ids,
        spend_fetch,
        &facts.spend_policy,
    ) {
        Ok(classed) => classed,
        Err(a) => return a,
    };
    run_classed(node, request, job, pair, &key, c, escape_fetch, facts)
}

/// What is asked before the transactions are read has no part in what comes after.
pub(crate) proof fn lemma_opened_goes_by(
    node: NodeView,
    request: SignRequestView,
    job: SignJobView,
    pair: SpendPairView,
    fetched: (Option<PrevoutFetchView>, Option<PrevoutFetchView>),
    x: SignFacts,
    y: SignFacts,
)
    requires
        x.ids == y.ids,
        x.spend_policy == y.spend_policy,
        x.escape_policy == y.escape_policy,
        x.bump_policies == y.bump_policies,
        x.reserve == y.reserve,
        x.kept == y.kept,
    ensures
        opened_run(node, request, job, pair, fetched, x) == opened_run(
            node,
            request,
            job,
            pair,
            fetched,
            y,
        ),
{
    reveal(opened_run);
}

fn run_admitted(node: &mut Node, request: &SignRequest, job: SignJob, facts: SignFacts) -> (out: Answer)
    requires
        !old(node)@.lockdown,
        facts.bump_policies.len() == request.escape_bumps.len(),
        answers(facts.kept, facts.ids@),
    ensures
        (final(node)@, answer_view(out)) == admitted_run(old(node)@, request@, job@, facts),
{
    reveal(admitted_run);
    reveal(charged_run);
    let ghost told = facts;
    let mut facts = facts;
    let mut carrier = String::new();
    std::mem::swap(&mut carrier, &mut facts.carrier);
    let mut spend_chain: ChainAnswer = Ok(Vec::new());
    std::mem::swap(&mut spend_chain, &mut facts.spend_chain);
    let mut escape_chain: ChainAnswer = Ok(Vec::new());
    std::mem::swap(&mut escape_chain, &mut facts.escape_chain);
    let verdict = pin_verdict(facts.compared, &request.pin, node.params.max_pin_bytes);
    let job = match fire_arm_hook(node, job, verdict, carrier, facts.commit_at) {
        Ok((job, _)) => job,
        Err(a) => return a,
    };
    let job = match sign_commit(node, request, job, facts.upgrade) {
        Ok(job) => job,
        Err(a) => return a,
    };
    let job = match sign_charge(node, request, job, facts.charge) {
        Ok(job) => job,
        Err(a) => return a,
    };
    let spend_fetch = prefetch_prevouts(node, &request.psbt, "spend", spend_chain);
    let escape_fetch = prefetch_prevouts(node, &request.escape_psbt, "escape", escape_chain);
    let (job, pair) = match sign_reopen(node, request, job, facts.reopen_at) {
        Ok(read) => read,
        Err(a) => return a,
    };
    proof {
        lemma_bump_count(request@.escape_bumps);
        lemma_opened_goes_by(
            node@,
            request@,
            job@,
            pair@,
            (fetch_opt_view(spend_fetch), fetch_opt_view(escape_fetch)),
            told,
            facts,
        );
    }
    run_opened(node, request, job, pair, &spend_fetch, &escape_fetch, &facts)
}

/// Whether two nodes agree in what no request changes once it has passed the entrance:
/// all that the node was sealed with, whether it is locked down, the nonces it knows,
/// and the state of its own process.
pub open spec fn same_frame(a: NodeView, b: NodeView) -> bool {
    &&& a.listen_port == b.listen_port
    &&& a.params == b.params
    &&& a.keys == b.keys
    &&& a.wallet_id == b.wallet_id
    &&& a.channel == b.channel
    &&& a.has_backend == b.has_backend
    &&& a.lockdown == b.lockdown
    &&& a.generation_claimed == b.generation_claimed
    &&& a.last_deadline_tick == b.last_deadline_tick
    &&& a.sign_state.coord_nonces == b.sign_state.coord_nonces
}

proof fn lemma_classed_frame(
    node: NodeView,
    request: SignRequestView,
    job: SignJobView,
    pair: SpendPairView,
    key: Seq<char>,
    c: Classification,
    escape_fetch: Option<PrevoutFetchView>,
    facts: SignFacts,
)
    ensures
        same_frame(
            node,
            classed_run(node, request, job, pair, key, c, escape_fetch, facts).0,
        ),
{
}

proof fn lemma_opened_frame(
    node: NodeView,
    request: SignRequestView,
    job: SignJobView,
    pair: SpendPairView,
    fetched: (Option<PrevoutFetchView>, Option<PrevoutFetchView>),
    facts: SignFacts,
)
    ensures
        same_frame(node, opened_run(node, request, job, pair, fetched, facts).0),
{
    reveal(opened_run);
    let (n1, found) = looked_up(node, request, job, pair, facts.ids@, fetched);
    if let Ok(key) = found {
        let (n2, class) = judged(
            n1,
            request,
            job,
            pair,
            facts.ids@,
            fetched.0,
            facts.spend_policy@,
        );
        if let Ok(c) = class {
            lemma_classed_frame(n2, request, job, pair, key, c, fetched.1, facts);
        }
    }
}

pub(crate) proof fn lemma_admitted_frame(
    node: NodeView,
    request: SignRequestView,
    job: SignJobView,
    facts: SignFacts,
)
    ensures
        same_frame(node, admitted_run(node, request, job, facts).0),
{
    reveal(admitted_run);
    reveal(charged_run);
    let verdict = effective_verdict(facts.compared, request.pin, node.params.max_pin_bytes);
    let armed = armed_job(node, job, verdict, facts.carrier@, facts.commit_at);
    let (n1, j1) = committed(counted(node, verdict), request, armed, facts.upgrade);
    if let Ok(j1) = j1 {
        let (n2, j2) = charged(n1, request, j1, facts.charge);
        if let Ok(j2) = j2 {
            let (n3, j3) = reopened(n2, request, j2, facts.reopen_at);
            if let Ok((j3, pair)) = j3 {
                lemma_opened_frame(
                    n3,
                    request,
                    j3,
                    pair,
                    fetched_coins(n3, request, facts),
                    facts,
                );
            }
        }
    }
}

/// Whether `after` is the node's nonce log once the entrance has seen a spend.
pub open spec fn nonces_after(
    node: NodeView,
    request: &SignRequest,
    at: Ingress,
    after: NonceLogView,
) -> bool {
    let nonces = node.sign_state.coord_nonces;
    if takes_nonce(node, request, at) {
        nonces.claimed(
            entry_request(request, at.digest).claim(
                at.raw_now,
                node.params.max_commitment_age_secs,
                at.mono_now,
            ),
            after,
        )
    } else {
        after == nonces
    }
}

/// The whole way of a spend, where the entrance leaves the nonce log `nonces`.
pub open spec fn sign_run(
    node: NodeView,
    request: &SignRequest,
    facts: SignFacts,
    nonces: NonceLogView,
) -> (NodeView, AnswerView) {
    let passed = with_nonces(after_ingress(node, request, facts.at), nonces);
    match ingress_answer(node, request, facts.at) {
        Some(a) => (passed, a),
        None => admitted_run(
            passed,
            request@,
            admitted_job(node, request, facts.at),
            facts,
        ),
    }
}

/// The whole way of a spend that nothing interrupts: the entrance first, then the pin,
/// then the transactions. Whatever the answer, the spend has left the preflight, and
/// the nonce of one that passed the entrance stays taken.
pub fn handle_sign(node: &mut Node, request: &SignRequest, facts: SignFacts) -> (out: Answer)
    requires
        facts.at.mono_now is Some <==> old(node)@.channel is Some,
        facts.bump_policies.len() == request.escape_bumps.len(),
        answers(facts.kept, facts.ids@),
    ensures
        old(node)@.lockdown ==> final(node)@ == old(node)@ && answer_view(out)
            == AnswerView::Ok(crate::verdict::lockdown_verdict()),
        (final(node)@, answer_view(out)) == sign_run(
            old(node)@,
            request,
            facts,
            final(node)@.sign_state.coord_nonces,
        ),
        nonces_after(
            old(node)@,
            request,
            facts.at,
            final(node)@.sign_state.coord_nonces,
        ),
{
    let job = match sign_ingress(node, request, &facts.at) {
        Ok(job) => job,
        Err(a) => return a,
    };
    proof {
        lemma_admitted_frame(node@, request@, job@, facts);
    }
    run_admitted(node, request, job, facts)
}

} // verus!
