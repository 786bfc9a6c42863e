//! The way of a spend up to the point where its transactions are read: the entrance,
//! the pin, and the clocks in between.
//!
//! Each function is one stretch of that way. It takes what the surroundings have
//! answered so far, changes the node, and either lets the spend pass or answers it.
//! An answered spend has given back its nonce claim and its place in the preflight.

use vstd::prelude::*;

use crate::codec::{decode_psbt, decoded, psbt_bytes, psbt_serialization, trimmed};
use crate::coord::{entry_refusal, verify_coord_auth, CoordRequest};
use crate::ladder::MAX_ESCAPE_BUMPS;
use crate::node::{Node, NodeView};
use crate::pin::{duress_delta, PinCharge, PinVerdict};
use crate::proto::{
    refusal, refused, BadRequest, RefusalCode, SignRequest, SignRequestView, SignResponse,
    SignResponseView, TaggedRequest, TaggedRequestView,
};
use crate::registry::{
    guard_view, psbt_views, release, released, DuressTiming, Errand, ErrandView, GuardView,
    InFlightMemoGuard, MemoGeneration, MemoUpgrade,
};
use crate::replay::SignStateView;
use crate::text::{decimal, owned, push_decimal};
use crate::tx::{saturating, Psbt, PsbtView};
use crate::verdict::{
    answer_view, ensure_delivery_horizon, ensure_request_propagatable, fraud_suspected,
    horizon_refusal, lockdown_verdict, pin_refusal, pin_verdict_refusal, propagation_fault,
    stage_spend_carrier, staged, Answer, AnswerView,
};

verus! {

/// What comes with a spend to the entrance.
#[derive(Clone, Copy, Debug)]
pub struct Ingress {
    /// The digest that the coordinator signs.
    pub digest: [u8; 32],
    /// The tag of the coordinator's signature, by which its claim is known.
    pub signature_tag: [u8; 32],
    /// Whether the request fits one message of the channel.
    pub fits: bool,
    pub raw_now: u64,
    /// The channel's own clock.
    pub mono_now: Option<u64>,
}

/// A spend on its way.
#[derive(Debug)]
pub struct SignJob {
    pub first_seen: u64,
    pub guard: Option<InFlightMemoGuard>,
    pub verdict: PinVerdict,
    pub carrier: String,
    /// The wall clock as it was last read.
    pub raw_now: u64,
    /// The same, but never behind what has been forgotten.
    pub now: u64,
}

/// The contents of a [`SignJob`].
pub struct SignJobView {
    pub first_seen: u64,
    pub guard: Option<GuardView>,
    pub verdict: PinVerdict,
    pub carrier: Seq<char>,
    pub raw_now: u64,
    pub now: u64,
}

impl View for SignJob {
    type V = SignJobView;

    open spec fn view(&self) -> SignJobView {
        SignJobView {
            first_seen: self.first_seen,
            guard: guard_view(self.guard),
            verdict: self.verdict,
            carrier: self.carrier@,
            raw_now: self.raw_now,
            now: self.now,
        }
    }
}

/// Where a stretch of the way leads: on, or to an answer.
pub open spec fn passage(out: Result<SignJob, Answer>) -> Result<SignJobView, AnswerView> {
    match out {
        Ok(job) => Ok(job@),
        Err(a) => Err(answer_view(a)),
    }
}

/// The node once a spend is answered: the claim is released and the place in the
/// preflight is given back.
pub open spec fn closed(node: NodeView, guard: Option<GuardView>) -> NodeView {
    NodeView {
        spend_preflight: node.spend_preflight.wrapping_sub(1),
        ..released(node, guard)
    }
}

/// Ends the way of a spend.
pub(crate) fn close(node: &mut Node, guard: Option<InFlightMemoGuard>)
    ensures
        final(node)@ == closed(old(node)@, guard_view(guard)),
{
    release(node, guard);
    node.spend_preflight = node.spend_preflight.wrapping_sub(1);
}

/// The request as the entrance sees it.
pub open spec fn entry_request(request: &SignRequest, digest: [u8; 32]) -> CoordRequest<'_> {
    CoordRequest {
        nonce: &request.nonce,
        expiry: request.expiry,
        spend: true,
        digest,
        coord_sig: &request.coord_sig,
    }
}

/// How the entrance answers a spend, `None` where it passes.
pub open spec fn ingress_answer(node: NodeView, request: &SignRequest, at: Ingress) -> Option<
    AnswerView,
> {
    let entry = entry_refusal(node, entry_request(request, at.digest), at.raw_now, at.mono_now);
    let now = node.sign_state.coord_nonces.effective_now(at.raw_now);
    if node.lockdown {
        Some(Ok(lockdown_verdict()))
    } else if entry is Some {
        Some(Ok(entry->0))
    } else if propagation_fault(node, at.fits) is Some {
        Some(Err(propagation_fault(node, at.fits)->0))
    } else if horizon_refusal(node, request.expiry, now) is Some {
        Some(Ok(horizon_refusal(node, request.expiry, now)->0))
    } else {
        None
    }
}

/// Whether the entrance takes the spend's nonce.
pub open spec fn takes_nonce(node: NodeView, request: &SignRequest, at: Ingress) -> bool {
    !node.lockdown && entry_refusal(
        node,
        entry_request(request, at.digest),
        at.raw_now,
        at.mono_now,
    ) is None
}

/// Whether the entrance answers a spend for its horizon alone: it is handed on all the
/// same.
pub open spec fn only_late(node: NodeView, request: &SignRequest, at: Ingress) -> bool {
    takes_nonce(node, request, at) && propagation_fault(node, at.fits) is None && ingress_answer(
        node,
        request,
        at,
    ) is Some
}

/// The claim that a spend makes on its nonce on a node with peers.
pub open spec fn ingress_guard(node: NodeView, request: &SignRequest, at: Ingress) -> Option<
    GuardView,
> {
    let claim = entry_request(request, at.digest).claim(
        at.raw_now,
        node.params.max_commitment_age_secs,
        at.mono_now,
    );
    match node.channel {
        Some(_) => Some(
            GuardView {
                nonce: request.nonce@,
                generation: MemoGeneration {
                    signature_tag: at.signature_tag,
                    expiry: request.expiry,
                    deadline: node.sign_state.coord_nonces.deadline_for(claim)->0->0,
                },
                owns_memo: true,
                ruling_carrier: None,
            },
        ),
        None => None,
    }
}

/// The errands of a node whose entrance let a spend pass.
pub open spec fn ingress_errands(node: NodeView, request: &SignRequest, at: Ingress) -> Seq<
    ErrandView,
> {
    match ingress_guard(node, request, at) {
        Some(g) => node.errands.push(
            ErrandView::ClaimNonce {
                nonce: g.nonce,
                generation: g.generation,
                mono_now: at.mono_now->0,
            },
        ),
        None => node.errands,
    }
}

/// The node after the entrance, but for its nonce log.
pub open spec fn after_ingress(node: NodeView, request: &SignRequest, at: Ingress) -> NodeView {
    if ingress_answer(node, request, at) is None {
        NodeView {
            spend_preflight: node.spend_preflight.wrapping_add(1),
            errands: ingress_errands(node, request, at),
            ..node
        }
    } else if only_late(node, request, at) {
        NodeView { outbox: node.outbox.push(TaggedRequestView::Spend(request@)), ..node }
    } else {
        node
    }
}

/// The node with another nonce log.
pub open spec fn with_nonces(node: NodeView, nonces: crate::replay::NonceLogView) -> NodeView {
    NodeView {
        sign_state: SignStateView { coord_nonces: nonces, ..node.sign_state },
        ..node
    }
}

/// A spend at the entrance. A locked node answers before anything else; the signature,
/// the window and the nonce come next; then what could not be handed on is turned
/// away; and a spend that expires too soon for the peers is handed on, not worked
/// on. A spend that passes is counted in the preflight and has claimed its nonce.
pub fn sign_ingress(node: &mut Node, request: &SignRequest, at: &Ingress) -> (out: Result<
    SignJob,
    Answer,
>)
    requires
        at.mono_now is Some <==> old(node)@.channel is Some,
    ensures
        passage(out) == match ingress_answer(old(node)@, request, *at) {
            Some(a) => Err(a),
            None => Ok(
                SignJobView {
                    first_seen: old(node)@.sign_state.coord_nonces.effective_now(at.raw_now),
                    guard: ingress_guard(old(node)@, request, *at),
                    verdict: PinVerdict::Wrong,
                    carrier: Seq::empty(),
                    raw_now: at.raw_now,
                    now: old(node)@.sign_state.coord_nonces.effective_now(at.raw_now),
                },
            ),
        },
        final(node)@ == with_nonces(
            after_ingress(old(node)@, request, *at),
            final(node)@.sign_state.coord_nonces,
        ),
        takes_nonce(old(node)@, request, *at) ==> old(node)@.sign_state.coord_nonces.claimed(
            entry_request(request, at.digest).claim(
                at.raw_now,
                old(node)@.params.max_commitment_age_secs,
                at.mono_now,
            ),
            final(node)@.sign_state.coord_nonces,
        ),
        !takes_nonce(old(node)@, request, *at) ==> final(node)@.sign_state.coord_nonces == old(
            node,
        )@.sign_state.coord_nonces,
{
    if node.is_locked_down() {
        return Err(Ok(fraud_suspected()));
    }
    let coord = CoordRequest {
        nonce: &request.nonce,
        expiry: request.expiry,
        spend: true,
        digest: at.digest,
        coord_sig: &request.coord_sig,
    };
    let ghost before = node@;
    let max_age = node.params.max_commitment_age_secs;
    let (now, deadline) = match verify_coord_auth(
        &node.keys.coordinator_auth,
        max_age,
        &coord,
        at.raw_now,
        &mut node.sign_state.coord_nonces,
        at.mono_now,
    ) {
        Ok(accepted) => accepted,
        Err(r) => return Err(Ok(r)),
    };
    if let Err(bad) = ensure_request_propagatable(node, at.fits) {
        return Err(Err(bad));
    }
    if let Some(r) = ensure_delivery_horizon(node, request.expiry, now) {
        node.post(TaggedRequest::Spend(request.copy()));
        return Err(Ok(r));
    }
    node.spend_preflight = node.spend_preflight.wrapping_add(1);
    let guard = match (node.channel, at.mono_now, deadline) {
        (Some(_), Some(mono_now), Some(deadline)) => {
            let generation = MemoGeneration {
                signature_tag: at.signature_tag,
                expiry: request.expiry,
                deadline,
            };
            node.tell(
                Errand::ClaimNonce { nonce: request.nonce.clone(), generation, mono_now },
            );
            Some(
                InFlightMemoGuard {
                    nonce: request.nonce.clone(),
                    generation,
                    owns_memo: true,
                    ruling_carrier: None,
                },
            )
        },
        _ => None,
    };
    let carrier = String::new();
    assert(carrier@ =~= Seq::<char>::empty());
    Ok(
        SignJob {
            first_seen: now,
            guard,
            verdict: PinVerdict::Wrong,
            carrier,
            raw_now: at.raw_now,
            now,
        },
    )
}

/// The intent of a spend's carrier, as the channel is to record it.
#[derive(Debug)]
pub struct ArmIntent {
    pub duress: bool,
    pub carrier: String,
    pub nonce: String,
    pub generation: MemoGeneration,
    pub first_seen: u64,
    pub now: u64,
    pub timing: DuressTiming,
}

/// The contents of an [`ArmIntent`].
pub struct ArmIntentView {
    pub duress: bool,
    pub carrier: Seq<char>,
    pub nonce: Seq<char>,
    pub generation: MemoGeneration,
    pub first_seen: u64,
    pub now: u64,
    pub timing: DuressTiming,
}

impl View for ArmIntent {
    type V = ArmIntentView;

    open spec fn view(&self) -> ArmIntentView {
        ArmIntentView {
            duress: self.duress,
            carrier: self.carrier@,
            nonce: self.nonce@,
            generation: self.generation,
            first_seen: self.first_seen,
            now: self.now,
            timing: self.timing,
        }
    }
}

/// The intent behind `intent`, if there is one.
pub open spec fn intent_view(intent: Option<ArmIntent>) -> Option<ArmIntentView> {
    match intent {
        Some(i) => Some(i@),
        None => None,
    }
}

/// The spend once its pin has been compared at `raw_now`. Without peers there is no
/// carrier.
pub open spec fn armed_job(
    node: NodeView,
    job: SignJobView,
    verdict: PinVerdict,
    carrier: Seq<char>,
    raw_now: u64,
) -> SignJobView {
    SignJobView {
        verdict,
        carrier: if node.channel is Some {
            carrier
        } else {
            Seq::empty()
        },
        raw_now,
        now: node.sign_state.coord_nonces.effective_now(raw_now),
        ..job
    }
}

/// What the channel is asked to record for the spend.
pub open spec fn arm_intent(node: NodeView, job: SignJobView) -> Option<ArmIntentView> {
    match (node.channel, job.guard) {
        (Some(_), Some(g)) => Some(
            ArmIntentView {
                duress: job.verdict == PinVerdict::Duress,
                carrier: job.carrier,
                nonce: g.nonce,
                generation: g.generation,
                first_seen: job.first_seen,
                now: job.now,
                timing: node.duress_timing(),
            },
        ),
        _ => None,
    }
}

/// The node once the intent of a verdict is counted.
pub open spec fn counted(node: NodeView, verdict: PinVerdict) -> NodeView {
    NodeView {
        duress_arm: node.duress_arm.wrapping_add(
            if verdict == PinVerdict::Duress {
                1u64
            } else {
                0u64
            },
        ),
        ..node
    }
}

/// A spend whose pin has been compared. Its intent is counted, and recorded with
/// the channel, before anything that could stop the spend: a wrong pin, a normal
/// one and a duress pin take the same way.
pub fn fire_arm_hook(
    node: &mut Node,
    job: SignJob,
    verdict: PinVerdict,
    carrier: String,
    raw_now: u64,
) -> (out: Result<(SignJob, Option<ArmIntent>), Answer>)
    ensures
        match out {
            Err(a) => {
                &&& old(node)@.lockdown
                &&& answer_view(a) == AnswerView::Ok(lockdown_verdict())
                &&& final(node)@ == closed(old(node)@, job@.guard)
            },
            Ok((armed, intent)) => {
                &&& !old(node)@.lockdown
                &&& armed@ == armed_job(old(node)@, job@, verdict, carrier@, raw_now)
                &&& intent_view(intent) == arm_intent(old(node)@, armed@)
                &&& final(node)@ == counted(old(node)@, verdict)
            },
        },
{
    if node.is_locked_down() {
        close(node, job.guard);
        return Err(Ok(fraud_suspected()));
    }
    let now = node.sign_state.coord_nonces.effective_now(raw_now);
    let (delta, duress) = duress_delta(verdict);
    node.duress_arm = node.duress_arm.wrapping_add(delta);
    let carrier = if node.channel.is_some() {
        carrier
    } else {
        String::new()
    };
    let intent = if node.channel.is_some() {
        match &job.guard {
            Some(g) => Some(
                ArmIntent {
                    duress,
                    carrier: carrier.clone(),
                    nonce: g.nonce.clone(),
                    generation: g.generation,
                    first_seen: job.first_seen,
                    now,
                    timing: node.duress_timing(),
                },
            ),
            None => None,
        }
    } else {
        None
    };
    let armed = SignJob {
        first_seen: job.first_seen,
        guard: job.guard,
        verdict,
        carrier,
        raw_now,
        now,
    };
    proof {
        if node@.channel is None {
            assert(carrier@ =~= Seq::<char>::empty());
        }
    }
    Ok((armed, intent))
}

/// The claim once the channel has said what became of its memo.
pub open spec fn ruling_guard(
    guard: Option<GuardView>,
    carrier: Seq<char>,
    upgrade: Option<MemoUpgrade>,
) -> Option<GuardView> {
    match (guard, upgrade) {
        (Some(g), Some(u)) => Some(
            GuardView {
                ruling_carrier: Some(carrier),
                owns_memo: g.owns_memo && u == MemoUpgrade::Superseded,
                ..g
            },
        ),
        _ => guard,
    }
}

/// Which reading of the clock a refusal speaks of.
#[derive(Clone, Copy, Debug, PartialEq, Eq, Structural)]
pub enum ClockStage {
    Pin,
    Preflight,
}

/// Why the clock stops a spend that has passed the entrance, if it does: the expiry is
/// past, or too far ahead of the wall clock, or too near for the peers.
pub open spec fn clock_refusal(
    node: NodeView,
    expiry: u64,
    raw_now: u64,
    now: u64,
    stage: ClockStage,
) -> Option<SignResponseView> {
    let max_age = node.params.max_commitment_age_secs;
    if expiry <= now {
        Some(
            refused(
                RefusalCode::CommitmentExpired,
                "commitment_expiry"@,
                "expiry "@ + decimal(expiry as nat) + match stage {
                    ClockStage::Pin => " is at or before this node's post-pin clock (now "@,
                    ClockStage::Preflight => " is at or before this node's post-preflight clock (now "@,
                } + decimal(now as nat) + "); forwarded but not signed"@,
            ),
        )
    } else if expiry > saturating(raw_now + max_age) {
        Some(
            refused(
                RefusalCode::CommitmentExpired,
                "commitment_expiry"@,
                "expiry "@ + decimal(expiry as nat) + " exceeds now + max age "@ + decimal(
                    max_age as nat,
                ) + "s (raw clock; a backward step forwarded but did not sign)"@,
            ),
        )
    } else {
        horizon_refusal(node, expiry, now)
    }
}

fn check_clock(node: &Node, expiry: u64, raw_now: u64, now: u64, stage: ClockStage) -> (out: Option<
    SignResponse,
>)
    ensures
        match out {
            Some(r) => clock_refusal(node@, expiry, raw_now, now, stage) == Some(r@),
            None => clock_refusal(node@, expiry, raw_now, now, stage) is None,
        },
{
    let max_age = node.params.max_commitment_age_secs;
    if expiry <= now {
        let mut detail = owned("expiry ");
        push_decimal(&mut detail, expiry);
        match stage {
            ClockStage::Pin => {
                detail.append(" is at or before this node's post-pin clock (now ");
            },
            ClockStage::Preflight => {
                detail.append(" is at or before this node's post-preflight clock (now ");
            },
        }
        push_decimal(&mut detail, now);
        detail.append("); forwarded but not signed");
        return Some(refusal(RefusalCode::CommitmentExpired, "commitment_expiry", detail));
    }
    if expiry > raw_now.saturating_add(max_age) {
        let mut detail = owned("expiry ");
        push_decimal(&mut detail, expiry);
        detail.append(" exceeds now + max age ");
        push_decimal(&mut detail, max_age);
        detail.append("s (raw clock; a backward step forwarded but did not sign)");
        return Some(refusal(RefusalCode::CommitmentExpired, "commitment_expiry", detail));
    }
    ensure_delivery_horizon(node, expiry, now)
}

/// The node once a spend is handed on and answered.
pub open spec fn staged_and_closed(node: NodeView, request: SignRequestView, job: SignJobView) ->
    NodeView {
    closed(staged(node, TaggedRequestView::Spend(request), job.carrier), job.guard)
}

/// Hands the spend on and ends its way.
pub(crate) fn stage_and_close(node: &mut Node, request: &SignRequest, job: SignJob)
    ensures
        final(node)@ == staged_and_closed(old(node)@, request@, job@),
{
    stage_spend_carrier(node, TaggedRequest::Spend(request.copy()), &job.carrier);
    close(node, job.guard);
}

/// A spend after its intent was recorded.
pub open spec fn committed(
    node: NodeView,
    request: SignRequestView,
    job: SignJobView,
    upgrade: Option<MemoUpgrade>,
) -> (NodeView, Result<SignJobView, AnswerView>) {
    let job = SignJobView { guard: ruling_guard(job.guard, job.carrier, upgrade), ..job };
    match clock_refusal(node, request.expiry, job.raw_now, job.now, ClockStage::Pin) {
        Some(r) => (staged_and_closed(node, request, job), Err(Ok(r))),
        None => (node, Ok(job)),
    }
}

/// Takes note of what became of the memo, and looks at the clock again. A spend
/// that the clock stops here is handed on all the same.
pub fn sign_commit(
    node: &mut Node,
    request: &SignRequest,
    job: SignJob,
    upgrade: Option<MemoUpgrade>,
) -> (out: Result<SignJob, Answer>)
    ensures
        (final(node)@, passage(out)) == committed(old(node)@, request@, job@, upgrade),
{
    let mut job = job;
    job.guard = match (job.guard, upgrade) {
        (Some(guard), Some(u)) => {
            let mut guard = guard;
            guard.rules_carrier(&job.carrier);
            if u == MemoUpgrade::Upgraded || u == MemoUpgrade::Reinstalled {
                guard.relinquish();
            }
            Some(guard)
        },
        (guard, _) => guard,
    };
    match check_clock(node, request.expiry, job.raw_now, job.now, ClockStage::Pin) {
        Some(r) => {
            stage_and_close(node, request, job);
            Err(Ok(r))
        },
        None => Ok(job),
    }
}

/// A spend after its attempt was charged. A refused one is handed on and gives up
/// its place in the preflight before it waits; its claim is held until then.
pub open spec fn charged(
    node: NodeView,
    request: SignRequestView,
    job: SignJobView,
    charge: PinCharge,
) -> (NodeView, Result<SignJobView, AnswerView>) {
    if charge.refuse {
        let out = staged(node, TaggedRequestView::Spend(request), job.carrier);
        let out = NodeView { spend_preflight: out.spend_preflight.wrapping_sub(1), ..out };
        let out = if charge.backoff_secs == 0 {
            out
        } else {
            NodeView {
                errands: out.errands.push(ErrandView::Wait { secs: charge.backoff_secs }),
                ..out
            }
        };
        (released(out, job.guard), Err(Ok(pin_verdict_refusal(charge.locked))))
    } else {
        (node, Ok(job))
    }
}

/// Takes note of what the attempt cost.
pub fn sign_charge(node: &mut Node, request: &SignRequest, job: SignJob, charge: PinCharge) -> (out:
    Result<SignJob, Answer>)
    ensures
        (final(node)@, passage(out)) == charged(old(node)@, request@, job@, charge),
{
    if !charge.refuse {
        return Ok(job);
    }
    stage_spend_carrier(node, TaggedRequest::Spend(request.copy()), &job.carrier);
    node.spend_preflight = node.spend_preflight.wrapping_sub(1);
    if charge.backoff_secs != 0 {
        node.tell(Errand::Wait { secs: charge.backoff_secs });
    }
    release(node, job.guard);
    Err(Ok(pin_refusal(charge.locked)))
}

/// The transactions of a spend, with the bytes of each as it came in.
#[derive(Debug)]
pub struct SpendPair {
    pub spend: Psbt,
    pub escape: Psbt,
    pub bumps: Vec<Psbt>,
    pub spend_bytes: Vec<u8>,
    pub escape_bytes: Vec<u8>,
    pub bump_bytes: Vec<Vec<u8>>,
}

/// The contents of a [`SpendPair`].
pub struct SpendPairView {
    pub spend: PsbtView,
    pub escape: PsbtView,
    pub bumps: Seq<PsbtView>,
    pub spend_bytes: Seq<u8>,
    pub escape_bytes: Seq<u8>,
    pub bump_bytes: Seq<Seq<u8>>,
}

impl View for SpendPair {
    type V = SpendPairView;

    open spec fn view(&self) -> SpendPairView {
        SpendPairView {
            spend: self.spend@,
            escape: self.escape@,
            bumps: psbt_views(self.bumps@),
            spend_bytes: self.spend_bytes@,
            escape_bytes: self.escape_bytes@,
            bump_bytes: self.bump_bytes@.map_values(|b: Vec<u8>| b@),
        }
    }
}

/// The bytes of the transaction in `text`.
pub open spec fn bytes_of(text: Seq<char>) -> Seq<u8> {
    psbt_serialization(trimmed(text))
}

/// The transactions in `texts`, or why the first that cannot be read is not.
pub open spec fn decoded_bumps(texts: Seq<Seq<char>>) -> Result<Seq<PsbtView>, Seq<char>>
    decreases texts.len(),
{
    if texts.len() == 0 {
        Ok(Seq::empty())
    } else {
        match decoded_bumps(texts.drop_last()) {
            Err(e) => Err(e),
            Ok(before) => match decoded(texts.last(), "escape_bump"@) {
                Err(e) => Err(e),
                Ok(psbt) => Ok(before.push(psbt)),
            },
        }
    }
}

/// The verdict on a ladder with more rungs than a request may bring.
pub open spec fn too_many_rungs(rungs: nat) -> SignResponseView {
    refused(
        RefusalCode::PsbtInconsistent,
        "escape:bump_ladder"@,
        "the escape fee-bump ladder has "@ + decimal(rungs) + " rungs, more than the "@ + decimal(
            MAX_ESCAPE_BUMPS as nat,
        ) + " a request may authorize"@,
    )
}

/// The transactions of a request, or the answer to one that cannot be read or
/// brings too many rungs.
pub open spec fn decoded_pair(request: SignRequestView) -> Result<SpendPairView, AnswerView> {
    match decoded(request.psbt, "spend"@) {
        Err(e) => Err(Err(e)),
        Ok(spend) => match decoded(request.escape_psbt, "escape"@) {
            Err(e) => Err(Err(e)),
            Ok(escape) => if request.escape_bumps.len() > MAX_ESCAPE_BUMPS {
                Err(Ok(too_many_rungs(request.escape_bumps.len())))
            } else {
                match decoded_bumps(request.escape_bumps) {
                    Err(e) => Err(Err(e)),
                    Ok(bumps) => Ok(
                        SpendPairView {
                            spend,
                            escape,
                            bumps,
                            spend_bytes: bytes_of(request.psbt),
                            escape_bytes: bytes_of(request.escape_psbt),
                            bump_bytes: request.escape_bumps.map_values(
                                |t: Seq<char>| bytes_of(t),
                            ),
                        },
                    ),
                }
            },
        },
    }
}

proof fn lemma_bump_error_stays(texts: Seq<Seq<char>>, i: int)
    requires
        0 <= i <= texts.len(),
        decoded_bumps(texts.take(i)) is Err,
    ensures
        decoded_bumps(texts) == decoded_bumps(texts.take(i)),
    decreases texts.len(),
{
    if i < texts.len() {
        assert(texts.drop_last().take(i) =~= texts.take(i));
        lemma_bump_error_stays(texts.drop_last(), i);
    } else {
        assert(texts.take(i) =~= texts);
    }
}

fn decode_bumps(texts: &Vec<String>) -> (out: Result<(Vec<Psbt>, Vec<Vec<u8>>), BadRequest>)
    ensures
        match out {
            Ok((bumps, bytes)) => {
                &&& decoded_bumps(texts@.map_values(|s: String| s@)) == Result::<
                    Seq<PsbtView>,
                    Seq<char>,
                >::Ok(psbt_views(bumps@))
                &&& bytes@.map_values(|b: Vec<u8>| b@) == texts@.map_values(
                    |s: String| s@,
                ).map_values(|t: Seq<char>| bytes_of(t))
            },
            Err(bad) => decoded_bumps(texts@.map_values(|s: String| s@)) == Result::<
                Seq<PsbtView>,
                Seq<char>,
            >::Err(bad.0@),
        },
{
    let ghost all = texts@.map_values(|s: String| s@);
    let mut bumps: Vec<Psbt> = Vec::new();
    let mut bytes: Vec<Vec<u8>> = Vec::new();
    let mut i: usize = 0;
    assert(all.take(0) =~= Seq::<Seq<char>>::empty());
    assert(psbt_views(bumps@) =~= Seq::<PsbtView>::empty());
    while i < texts.len()
        invariant
            i <= texts.len(),
            all == texts@.map_values(|s: String| s@),
            decoded_bumps(all.take(i as int)) == Result::<Seq<PsbtView>, Seq<char>>::Ok(
                psbt_views(bumps@),
            ),
            bytes.len() == i,
            forall|k: int| 0 <= k < i ==> (#[trigger] bytes@[k])@ == bytes_of(all[k]),
        decreases texts.len() - i,
    {
        let ghost before = bumps@;
        proof {
            let here = all.take(i + 1);
            assert(here.drop_last() =~= all.take(i as int));
            assert(here.last() == texts@[i as int]@);
        }
        match decode_psbt(texts[i].as_str(), "escape_bump") {
            Ok(psbt) => {
                bytes.push(psbt_bytes(texts[i].as_str()));
                bumps.push(psbt);
                assert(psbt_views(bumps@) =~= psbt_views(before).push(psbt@));
            },
            Err(bad) => {
                proof {
                    lemma_bump_error_stays(all, i + 1);
                }
                return Err(bad);
            },
        }
        i += 1;
    }
    assert(all.take(i as int) =~= all);
    assert(bytes@.map_values(|b: Vec<u8>| b@) =~= all.map_values(|t: Seq<char>| bytes_of(t)));
    Ok((bumps, bytes))
}

/// Reads the transactions of a request.
pub fn decode_pair(request: &SignRequest) -> (out: Result<SpendPair, Answer>)
    ensures
        match out {
            Ok(pair) => decoded_pair(request@) == Result::<SpendPairView, AnswerView>::Ok(pair@),
            Err(a) => decoded_pair(request@) == Result::<SpendPairView, AnswerView>::Err(
                answer_view(a),
            ),
        },
{
    let spend = match decode_psbt(request.psbt.as_str(), "spend") {
        Ok(psbt) => psbt,
        Err(bad) => return Err(Err(bad)),
    };
    let escape = match decode_psbt(request.escape_psbt.as_str(), "escape") {
        Ok(psbt) => psbt,
        Err(bad) => return Err(Err(bad)),
    };
    if request.escape_bumps.len() > MAX_ESCAPE_BUMPS {
        let mut detail = owned("the escape fee-bump ladder has ");
        push_decimal(&mut detail, request.escape_bumps.len() as u64);
        detail.append(" rungs, more than the ");
        push_decimal(&mut detail, MAX_ESCAPE_BUMPS as u64);
        detail.append(" a request may authorize");
        return Err(Ok(refusal(RefusalCode::PsbtInconsistent, "escape:bump_ladder", detail)));
    }
    let (bumps, bump_bytes) = match decode_bumps(&request.escape_bumps) {
        Ok(read) => read,
        Err(bad) => return Err(Err(bad)),
    };
    let spend_bytes = psbt_bytes(request.psbt.as_str());
    let escape_bytes = psbt_bytes(request.escape_psbt.as_str());
    Ok(SpendPair { spend, escape, bumps, spend_bytes, escape_bytes, bump_bytes })
}

/// A spend after the look at the chain: the clock is read once more, and its
/// transactions are read.
pub open spec fn reopened(
    node: NodeView,
    request: SignRequestView,
    job: SignJobView,
    raw_now: u64,
) -> (NodeView, Result<(SignJobView, SpendPairView), AnswerView>) {
    let now = node.sign_state.coord_nonces.effective_now(raw_now);
    let job = SignJobView { raw_now, now, ..job };
    if node.lockdown {
        (closed(node, job.guard), Err(Ok(lockdown_verdict())))
    } else {
        match clock_refusal(node, request.expiry, raw_now, now, ClockStage::Preflight) {
            Some(r) => (staged_and_closed(node, request, job), Err(Ok(r))),
            None => match decoded_pair(request) {
                Ok(pair) => (node, Ok((job, pair))),
                Err(a) => (closed(node, job.guard), Err(a)),
            },
        }
    }
}

/// Reads the clock once more and the transactions of the request. A request that
/// cannot be read is not handed on.
pub fn sign_reopen(node: &mut Node, request: &SignRequest, job: SignJob, raw_now: u64) -> (out:
    Result<(SignJob, SpendPair), Answer>)
    ensures
        ({
            let (node_after, passed) = reopened(old(node)@, request@, job@, raw_now);
            &&& final(node)@ == node_after
            &&& match out {
                Ok((j, pair)) => passed == Result::<(SignJobView, SpendPairView), AnswerView>::Ok(
                    (j@, pair@),
                ),
                Err(a) => passed == Result::<(SignJobView, SpendPairView), AnswerView>::Err(
                    answer_view(a),
                ),
            }
        }),
{
    let mut job = job;
    if node.is_locked_down() {
        close(node, job.guard);
        return Err(Ok(fraud_suspected()));
    }
    let now = node.sign_state.coord_nonces.effective_now(raw_now);
    job.raw_now = raw_now;
    job.now = now;
    if let Some(r) = check_clock(node, request.expiry, raw_now, now, ClockStage::Preflight) {
        stage_and_close(node, request, job);
        return Err(Ok(r));
    }
    match decode_pair(request) {
        Ok(pair) => Ok((job, pair)),
        Err(a) => {
            close(node, job.guard);
            Err(a)
        },
    }
}

} // verus!
