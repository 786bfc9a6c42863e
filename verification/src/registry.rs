//! What a node and the registry of its federation channel say to each other: the
//! claim on a nonce, the candidates of an accepted request, and the answers.

use vstd::prelude::*;

use crate::node::{Node, NodeView};
use crate::proto::{refusal, refused, RefusalCode, SignResponse, SignResponseView};
use crate::table::texts;
use crate::text::{decimal, owned, push_decimal, same_text};
use crate::tx::{saturating, Psbt, PsbtView};

verus! {

/// Which claim on a nonce a memo belongs to.
#[derive(Clone, Copy, Debug, PartialEq, Eq)]
pub struct MemoGeneration {
    pub signature_tag: [u8; 32],
    pub expiry: u64,
    pub deadline: u64,
}

/// What became of the memo of a claim when its carrier's intent was recorded.
#[derive(Clone, Copy, Debug, PartialEq, Eq, Structural)]
pub enum MemoUpgrade {
    Upgraded,
    Reinstalled,
    Superseded,
}

/// The sealed timing of the duress path.
#[derive(Clone, Copy, Debug, PartialEq, Eq, Structural)]
pub struct DuressTiming {
    pub duress_delay_secs: u64,
    pub epsilon_secs: u64,
    pub combine_slack_secs: u64,
}

/// Something the node owes its surroundings. Errands are run in order, before
/// anything else is asked.
#[derive(Debug)]
pub enum Errand {
    /// Note that the nonce is being worked on.
    ClaimNonce { nonce: String, generation: MemoGeneration, mono_now: u64 },
    /// Take that note back.
    ReleaseNonceClaim { nonce: String, generation: MemoGeneration },
    /// The request no longer rules its carrier.
    EndCarrierRuling { carrier: String },
    /// The carrier is on its way to the peers.
    MarkCarrierPropagated { carrier: String },
    /// Schedule the escape of a request that was accepted before.
    ApplyCachedSchedule { escape: String, duress: bool, now: u64, epsilon_secs: u64 },
    /// Note which pair of candidates a carrier stands for.
    RecordIntentPair { carrier: String, spend: String, escape: String },
    /// Forget what has run out.
    PruneStore { now: u64 },
    /// Give back a reservation of hot outflow.
    ReleaseHotBudget { commitment_id: String },
    /// Let the caller wait.
    Wait { secs: u64 },
}

/// The contents of an [`Errand`].
pub enum ErrandView {
    ClaimNonce { nonce: Seq<char>, generation: MemoGeneration, mono_now: u64 },
    ReleaseNonceClaim { nonce: Seq<char>, generation: MemoGeneration },
    EndCarrierRuling { carrier: Seq<char> },
    MarkCarrierPropagated { carrier: Seq<char> },
    ApplyCachedSchedule { escape: Seq<char>, duress: bool, now: u64, epsilon_secs: u64 },
    RecordIntentPair { carrier: Seq<char>, spend: Seq<char>, escape: Seq<char> },
    PruneStore { now: u64 },
    ReleaseHotBudget { commitment_id: Seq<char> },
    Wait { secs: u64 },
}

impl View for Errand {
    type V = ErrandView;

    open spec fn view(&self) -> ErrandView {
        match self {
            Errand::ClaimNonce { nonce, generation, mono_now } => ErrandView::ClaimNonce {
                nonce: nonce@,
                generation: *generation,
                mono_now: *mono_now,
            },
            Errand::ReleaseNonceClaim { nonce, generation } => ErrandView::ReleaseNonceClaim {
                nonce: nonce@,
                generation: *generation,
            },
            Errand::EndCarrierRuling { carrier } => ErrandView::EndCarrierRuling {
                carrier: carrier@,
            },
            Errand::MarkCarrierPropagated { carrier } => ErrandView::MarkCarrierPropagated {
                carrier: carrier@,
            },
            Errand::ApplyCachedSchedule { escape, duress, now, epsilon_secs } => {
                ErrandView::ApplyCachedSchedule {
                    escape: escape@,
                    duress: *duress,
                    now: *now,
                    epsilon_secs: *epsilon_secs,
                }
            },
            Errand::RecordIntentPair { carrier, spend, escape } => ErrandView::RecordIntentPair {
                carrier: carrier@,
                spend: spend@,
                escape: escape@,
            },
            Errand::PruneStore { now } => ErrandView::PruneStore { now: *now },
            Errand::ReleaseHotBudget { commitment_id } => ErrandView::ReleaseHotBudget {
                commitment_id: commitment_id@,
            },
            Errand::Wait { secs } => ErrandView::Wait { secs: *secs },
        }
    }
}

/// The claim on a nonce while its request is worked on. Whoever stops working on
/// the request releases it.
#[derive(Debug)]
pub struct InFlightMemoGuard {
    pub nonce: String,
    pub generation: MemoGeneration,
    /// Whether the memo is still this claim's to take back.
    pub owns_memo: bool,
    /// The carrier that the request rules, once its intent is recorded.
    pub ruling_carrier: Option<String>,
}

/// The contents of an [`InFlightMemoGuard`].
pub struct GuardView {
    pub nonce: Seq<char>,
    pub generation: MemoGeneration,
    pub owns_memo: bool,
    pub ruling_carrier: Option<Seq<char>>,
}

impl View for InFlightMemoGuard {
    type V = GuardView;

    open spec fn view(&self) -> GuardView {
        GuardView {
            nonce: self.nonce@,
            generation: self.generation,
            owns_memo: self.owns_memo,
            ruling_carrier: match self.ruling_carrier {
                Some(c) => Some(c@),
                None => None,
            },
        }
    }
}

impl GuardView {
    /// What releasing the claim comes to.
    pub open spec fn release(self) -> Seq<ErrandView> {
        let memo = if self.owns_memo {
            seq![ErrandView::ReleaseNonceClaim { nonce: self.nonce, generation: self.generation }]
        } else {
            Seq::empty()
        };
        match self.ruling_carrier {
            Some(carrier) => memo.push(ErrandView::EndCarrierRuling { carrier }),
            None => memo,
        }
    }
}

/// The claim behind `guard`, if there is one.
pub open spec fn guard_view(guard: Option<InFlightMemoGuard>) -> Option<GuardView> {
    match guard {
        Some(g) => Some(g@),
        None => None,
    }
}

/// The node after the claim was released.
pub open spec fn released(node: NodeView, guard: Option<GuardView>) -> NodeView {
    match guard {
        Some(g) => NodeView { errands: node.errands + g.release(), ..node },
        None => node,
    }
}

impl InFlightMemoGuard {
    /// Leaves the memo to whoever has it now.
    pub fn relinquish(&mut self)
        ensures
            final(self)@ == (GuardView { owns_memo: false, ..old(self)@ }),
    {
        self.owns_memo = false;
    }

    /// The request rules `carrier` until it is done.
    pub fn rules_carrier(&mut self, carrier: &String)
        ensures
            final(self)@ == (GuardView { ruling_carrier: Some(carrier@), ..old(self)@ }),
    {
        self.ruling_carrier = Some(carrier.clone());
    }
}

/// Releases the claim of a request that is done.
pub(crate) fn release(node: &mut Node, guard: Option<InFlightMemoGuard>)
    ensures
        final(node)@ == released(old(node)@, guard_view(guard)),
{
    let ghost before = node@.errands;
    if let Some(g) = guard {
        let ghost held = g@;
        if g.owns_memo {
            node.tell(Errand::ReleaseNonceClaim { nonce: g.nonce, generation: g.generation });
        }
        if let Some(carrier) = g.ruling_carrier {
            node.tell(Errand::EndCarrierRuling { carrier });
        }
        assert(node@.errands =~= before + held.release());
    }
}

/// Why the ledger of hot outflow refuses a reservation.
#[derive(Clone, Copy, Debug, PartialEq, Eq, Structural)]
pub enum HotReserveRefusal {
    /// The sum in the window, without the request, leaves too little room.
    Window(u64),
    Capacity,
}

/// What a velocity refusal says.
pub open spec fn velocity_detail(node: NodeView, outflow: u64, refusal: HotReserveRefusal) -> Seq<
    char,
> {
    let budget = node.params.hot_budget;
    match refusal {
        HotReserveRefusal::Window(sum) => "hot outflow "@ + decimal(outflow as nat)
            + " sat would put this node's "@ + decimal(budget.window_secs as nat)
            + "-second rolling hot outflow at "@ + decimal(saturating(sum + outflow) as nat)
            + " sat, past the Hot budget of "@ + decimal(budget.max_per_window_sat as nat)
            + " sat"@,
        HotReserveRefusal::Capacity => "this node's hot-budget ledger is at capacity for the current "@
            + decimal(budget.window_secs as nat)
            + "-second window; no further hot spend is metered until reservations age out"@,
    }
}

/// The refusal of a spend that the velocity limit stops.
pub open spec fn velocity_refusal(node: NodeView, outflow: u64, refusal: HotReserveRefusal) ->
    SignResponseView {
    refused(
        RefusalCode::HotVelocityExceeded,
        "hot_budget_velocity"@,
        velocity_detail(node, outflow, refusal),
    )
}

/// Words the velocity limit's refusal of a spend.
pub fn hot_velocity_refusal(node: &Node, outflow_sat: u64, refused_by: HotReserveRefusal) -> (response:
    SignResponse)
    ensures
        response@ == velocity_refusal(node@, outflow_sat, refused_by),
{
    let budget = node.params.hot_budget;
    let detail = match refused_by {
        HotReserveRefusal::Window(sum) => {
            let mut s = owned("hot outflow ");
            push_decimal(&mut s, outflow_sat);
            s.append(" sat would put this node's ");
            push_decimal(&mut s, budget.window_secs);
            s.append("-second rolling hot outflow at ");
            push_decimal(&mut s, sum.saturating_add(outflow_sat));
            s.append(" sat, past the Hot budget of ");
            push_decimal(&mut s, budget.max_per_window_sat);
            s.append(" sat");
            s
        },
        HotReserveRefusal::Capacity => {
            let mut s = owned("this node's hot-budget ledger is at capacity for the current ");
            push_decimal(&mut s, budget.window_secs);
            s.append(
                "-second window; no further hot spend is metered until reservations age out",
            );
            s
        },
    };
    refusal(RefusalCode::HotVelocityExceeded, "hot_budget_velocity", detail)
}

/// When a candidate may be broadcast.
#[derive(Clone, Copy, Debug, PartialEq, Eq, Structural)]
pub struct FireWindow {
    pub fire_at: u64,
    pub deadline: u64,
}

/// What a candidate is for.
#[derive(Clone, Copy, Debug, PartialEq, Eq, Structural)]
pub enum CandidateRole {
    Spend,
    Escape,
}

/// A transaction to be kept until the federation may finish it.
#[derive(Debug)]
pub struct CandidateSpec {
    pub psbt: Psbt,
    pub escape_bumps: Vec<Psbt>,
    pub commitment_id: String,
    pub paired_commitment_id: String,
    pub holder_quorum_reached: bool,
    pub role: CandidateRole,
    pub hot: bool,
    pub fire: Option<FireWindow>,
    pub expiry: u64,
}

/// The contents of a [`CandidateSpec`].
pub struct CandidateSpecView {
    pub psbt: PsbtView,
    pub escape_bumps: Seq<PsbtView>,
    pub commitment_id: Seq<char>,
    pub paired_commitment_id: Seq<char>,
    pub holder_quorum_reached: bool,
    pub role: CandidateRole,
    pub hot: bool,
    pub fire: Option<FireWindow>,
    pub expiry: u64,
}

/// The transactions in `psbts`.
pub open spec fn psbt_views(psbts: Seq<Psbt>) -> Seq<PsbtView> {
    psbts.map_values(|p: Psbt| p@)
}

impl View for CandidateSpec {
    type V = CandidateSpecView;

    open spec fn view(&self) -> CandidateSpecView {
        CandidateSpecView {
            psbt: self.psbt@,
            escape_bumps: psbt_views(self.escape_bumps@),
            commitment_id: self.commitment_id@,
            paired_commitment_id: self.paired_commitment_id@,
            holder_quorum_reached: self.holder_quorum_reached,
            role: self.role,
            hot: self.hot,
            fire: self.fire,
            expiry: self.expiry,
        }
    }
}

/// Hot outflow to be reserved.
#[derive(Debug)]
pub struct HotReserve {
    pub commitment_id: String,
    pub outflow_sat: u64,
    pub wall_now: u64,
    pub expiry: u64,
}

/// The contents of a [`HotReserve`].
pub struct HotReserveView {
    pub commitment_id: Seq<char>,
    pub outflow_sat: u64,
    pub wall_now: u64,
    pub expiry: u64,
}

impl View for HotReserve {
    type V = HotReserveView;

    open spec fn view(&self) -> HotReserveView {
        HotReserveView {
            commitment_id: self.commitment_id@,
            outflow_sat: self.outflow_sat,
            wall_now: self.wall_now,
            expiry: self.expiry,
        }
    }
}

/// The reservation behind `reserve`, if there is one.
pub open spec fn reserve_view(reserve: Option<HotReserve>) -> Option<HotReserveView> {
    match reserve {
        Some(r) => Some(r@),
        None => None,
    }
}

/// How a request's escape is to be armed.
#[derive(Debug)]
pub struct ArmDirective {
    pub sweep_escape: String,
    pub spend_commitment_id: String,
    pub carrier: String,
    pub duress: bool,
    pub epsilon_secs: u64,
    pub now: u64,
}

/// The contents of an [`ArmDirective`].
pub struct ArmDirectiveView {
    pub sweep_escape: Seq<char>,
    pub spend_commitment_id: Seq<char>,
    pub carrier: Seq<char>,
    pub duress: bool,
    pub epsilon_secs: u64,
    pub now: u64,
}

impl View for ArmDirective {
    type V = ArmDirectiveView;

    open spec fn view(&self) -> ArmDirectiveView {
        ArmDirectiveView {
            sweep_escape: self.sweep_escape@,
            spend_commitment_id: self.spend_commitment_id@,
            carrier: self.carrier@,
            duress: self.duress,
            epsilon_secs: self.epsilon_secs,
            now: self.now,
        }
    }
}

/// A spend and its escape, signed and ready to be kept.
#[derive(Debug)]
pub struct RegisterPair {
    pub spend: Psbt,
    pub spend_commitment_id: String,
    pub spend_hot: bool,
    pub duress: bool,
    pub confirmation_required: bool,
    pub escape: Psbt,
    pub escape_bumps: Vec<Psbt>,
    pub escape_commitment_id: String,
    pub fire: FireWindow,
    pub expiry: u64,
    pub now: u64,
    pub hot_reserve: Option<HotReserve>,
    pub carrier: String,
}

/// The contents of a [`RegisterPair`].
pub struct RegisterPairView {
    pub spend: PsbtView,
    pub spend_commitment_id: Seq<char>,
    pub spend_hot: bool,
    pub duress: bool,
    pub confirmation_required: bool,
    pub escape: PsbtView,
    pub escape_bumps: Seq<PsbtView>,
    pub escape_commitment_id: Seq<char>,
    pub fire: FireWindow,
    pub expiry: u64,
    pub now: u64,
    pub hot_reserve: Option<HotReserveView>,
    pub carrier: Seq<char>,
}

impl View for RegisterPair {
    type V = RegisterPairView;

    open spec fn view(&self) -> RegisterPairView {
        RegisterPairView {
            spend: self.spend@,
            spend_commitment_id: self.spend_commitment_id@,
            spend_hot: self.spend_hot,
            duress: self.duress,
            confirmation_required: self.confirmation_required,
            escape: self.escape@,
            escape_bumps: psbt_views(self.escape_bumps@),
            escape_commitment_id: self.escape_commitment_id@,
            fire: self.fire,
            expiry: self.expiry,
            now: self.now,
            hot_reserve: reserve_view(self.hot_reserve),
            carrier: self.carrier@,
        }
    }
}

/// What the registry is asked to keep.
#[derive(Debug)]
pub struct Registration {
    pub specs: Vec<CandidateSpec>,
    pub directive: ArmDirective,
    pub hot_reserve: Option<HotReserve>,
}

/// The contents of a [`Registration`].
pub struct RegistrationView {
    pub specs: Seq<CandidateSpecView>,
    pub directive: ArmDirectiveView,
    pub hot_reserve: Option<HotReserveView>,
}

impl View for Registration {
    type V = RegistrationView;

    open spec fn view(&self) -> RegistrationView {
        RegistrationView {
            specs: self.specs@.map_values(|s: CandidateSpec| s@),
            directive: self.directive@,
            hot_reserve: reserve_view(self.hot_reserve),
        }
    }
}

/// The registration behind `registration`, if there is one.
pub open spec fn registration_view(registration: Option<Registration>) -> Option<RegistrationView> {
    match registration {
        Some(r) => Some(r@),
        None => None,
    }
}

impl RegisterPairView {
    /// Whether the spend is its own escape.
    pub open spec fn self_paired(self) -> bool {
        self.escape_commitment_id == self.spend_commitment_id
    }

    /// The candidates of the pair: the spend, which fires in its window, and the
    /// escape, which has none of its own. A spend that is its own escape is kept
    /// once.
    pub open spec fn specs(self) -> Seq<CandidateSpecView> {
        let spend = CandidateSpecView {
            psbt: self.spend,
            escape_bumps: Seq::empty(),
            commitment_id: self.spend_commitment_id,
            paired_commitment_id: self.escape_commitment_id,
            holder_quorum_reached: !self.confirmation_required,
            role: CandidateRole::Spend,
            hot: self.spend_hot,
            fire: Some(self.fire),
            expiry: self.expiry,
        };
        let escape = CandidateSpecView {
            psbt: self.escape,
            escape_bumps: self.escape_bumps,
            commitment_id: self.escape_commitment_id,
            paired_commitment_id: self.spend_commitment_id,
            holder_quorum_reached: !self.confirmation_required,
            role: CandidateRole::Escape,
            hot: false,
            fire: None,
            expiry: self.expiry,
        };
        if self.self_paired() {
            seq![spend]
        } else {
            seq![spend, escape]
        }
    }

    /// What a node with peers asks its registry to keep.
    pub open spec fn registration(self, epsilon_secs: u64) -> RegistrationView {
        RegistrationView {
            specs: self.specs(),
            directive: ArmDirectiveView {
                sweep_escape: self.escape_commitment_id,
                spend_commitment_id: self.spend_commitment_id,
                carrier: self.carrier,
                duress: self.duress,
                epsilon_secs,
                now: self.now,
            },
            hot_reserve: self.hot_reserve,
        }
    }
}

/// What a pair comes to on this node: nothing to be kept where it has no peers.
pub fn register_pair(node: &Node, pair: RegisterPair) -> (ask: Option<Registration>)
    ensures
        registration_view(ask) == if node@.channel is Some {
            Some(pair@.registration(node@.params.epsilon_secs))
        } else {
            None
        },
{
    if node.channel.is_none() {
        return None;
    }
    let ghost whole = pair@;
    let self_paired = same_text(&pair.escape_commitment_id, &pair.spend_commitment_id);
    let directive = ArmDirective {
        sweep_escape: pair.escape_commitment_id.clone(),
        spend_commitment_id: pair.spend_commitment_id.clone(),
        carrier: pair.carrier,
        duress: pair.duress,
        epsilon_secs: node.params.epsilon_secs,
        now: pair.now,
    };
    let mut specs: Vec<CandidateSpec> = Vec::new();
    specs.push(
        CandidateSpec {
            psbt: pair.spend,
            escape_bumps: Vec::new(),
            commitment_id: pair.spend_commitment_id.clone(),
            paired_commitment_id: pair.escape_commitment_id.clone(),
            holder_quorum_reached: !pair.confirmation_required,
            role: CandidateRole::Spend,
            hot: pair.spend_hot,
            fire: Some(pair.fire),
            expiry: pair.expiry,
        },
    );
    assert(specs@[0]@.escape_bumps =~= Seq::<PsbtView>::empty());
    if !self_paired {
        specs.push(
            CandidateSpec {
                psbt: pair.escape,
                escape_bumps: pair.escape_bumps,
                commitment_id: pair.escape_commitment_id,
                paired_commitment_id: pair.spend_commitment_id,
                holder_quorum_reached: !pair.confirmation_required,
                role: CandidateRole::Escape,
                hot: false,
                fire: None,
                expiry: pair.expiry,
            },
        );
    }
    let registration = Registration { specs, directive, hot_reserve: pair.hot_reserve };
    assert(registration@.specs =~= whole.specs());
    Some(registration)
}

/// What became of one candidate.
#[derive(Clone, Copy, Debug, PartialEq, Eq, Structural)]
pub enum RegisterOutcome {
    Held,
    /// The commitment is taken by other signatures or another pair.
    Conflict,
    AtCapacity,
}

/// The registry's answer to a registration.
#[derive(Debug)]
pub enum RegisterAnswer {
    /// The candidate at `index` could not be built; nothing was kept.
    BuildFailed { index: usize, error: String },
    /// The reservation of hot outflow was refused; nothing was kept.
    Refused(HotReserveRefusal),
    /// What became of each candidate.
    Outcomes(Vec<RegisterOutcome>),
}

/// The texts of `list`, one after the other.
pub open spec fn joined(list: Seq<Seq<char>>) -> Seq<char>
    decreases list.len(),
{
    if list.len() == 0 {
        Seq::empty()
    } else if list.len() == 1 {
        list[0]
    } else {
        joined(list.drop_last()) + ", "@ + list.last()
    }
}

/// Why a registration stops the request, if it does. `ids` are the commitments of
/// its candidates and `outflow` the hot outflow it was to reserve.
pub open spec fn registration_refusal(
    node: NodeView,
    ids: Seq<Seq<char>>,
    outflow: Option<u64>,
    answer: RegisterAnswer,
) -> Option<SignResponseView> {
    match answer {
        RegisterAnswer::BuildFailed { index, error } => Some(
            refused(
                RefusalCode::PsbtInconsistent,
                "candidate_registration"@,
                "cannot build candidate "@ + ids[index as int] + ": "@ + error@,
            ),
        ),
        RegisterAnswer::Refused(r) => match outflow {
            Some(sats) => Some(velocity_refusal(node, sats, r)),
            None => Some(
                refused(
                    RefusalCode::PsbtInconsistent,
                    "candidate_registration"@,
                    "a non-hot candidate unexpectedly reached the hot-budget refusal path"@,
                ),
            ),
        },
        RegisterAnswer::Outcomes(outcomes) => if outcomes@.contains(RegisterOutcome::Conflict) {
            Some(
                refused(
                    RefusalCode::PsbtInconsistent,
                    "candidate_identity"@,
                    "this commitment is already registered under a different user-signature instance, sighash, or paired candidate"@,
                ),
            )
        } else if outcomes@.contains(RegisterOutcome::AtCapacity) {
            Some(
                refused(
                    RefusalCode::CandidateCapacity,
                    "candidate_registry_capacity"@,
                    "the bounded candidate registry cannot atomically retain request candidates: "@
                        + joined(ids),
                ),
            )
        } else {
            None
        },
    }
}

fn any_outcome(outcomes: &Vec<RegisterOutcome>, wanted: RegisterOutcome) -> (any: bool)
    ensures
        any == outcomes@.contains(wanted),
{
    let mut i: usize = 0;
    while i < outcomes.len()
        invariant
            i <= outcomes.len(),
            forall|k: int| 0 <= k < i ==> outcomes@[k] != wanted,
        decreases outcomes.len() - i,
    {
        if outcomes[i] == wanted {
            assert(outcomes@.contains(wanted));
            return true;
        }
        i += 1;
    }
    false
}

fn join(ids: &Vec<String>) -> (text: String)
    ensures
        text@ == joined(texts(ids@)),
{
    let mut text = owned("");
    let mut i: usize = 0;
    proof {
        reveal_strlit("");
        assert(texts(ids@).take(0) =~= Seq::<Seq<char>>::empty());
        assert(text@ =~= Seq::<char>::empty());
    }
    while i < ids.len()
        invariant
            i <= ids.len(),
            text@ == joined(texts(ids@).take(i as int)),
        decreases ids.len() - i,
    {
        if i > 0 {
            text.append(", ");
        }
        text.append(ids[i].as_str());
        proof {
            let here = texts(ids@).take(i + 1);
            assert(here.drop_last() =~= texts(ids@).take(i as int));
            assert(here.last() == ids@[i as int]@);
            if i == 0 {
                assert(joined(texts(ids@).take(0)) =~= Seq::<char>::empty());
                assert(text@ =~= ids@[0]@);
            }
        }
        i += 1;
    }
    assert(texts(ids@).take(i as int) =~= texts(ids@));
    text
}

/// Words the registry's answer.
pub fn registration_verdict(
    node: &Node,
    ids: &Vec<String>,
    outflow: Option<u64>,
    answer: &RegisterAnswer,
) -> (out: Result<(), SignResponse>)
    requires
        *answer matches RegisterAnswer::BuildFailed { index, .. } ==> index < ids.len(),
    ensures
        crate::prevouts::refusal_view(out) == registration_refusal(
            node@,
            texts(ids@),
            outflow,
            *answer,
        ),
{
    match answer {
        RegisterAnswer::BuildFailed { index, error } => {
            let mut detail = owned("cannot build candidate ");
            detail.append(ids[*index].as_str());
            detail.append(": ");
            detail.append(error.as_str());
            Err(refusal(RefusalCode::PsbtInconsistent, "candidate_registration", detail))
        },
        RegisterAnswer::Refused(r) => match outflow {
            Some(sats) => Err(hot_velocity_refusal(node, sats, *r)),
            None => Err(
                refusal(
                    RefusalCode::PsbtInconsistent,
                    "candidate_registration",
                    owned("a non-hot candidate unexpectedly reached the hot-budget refusal path"),
                ),
            ),
        },
        RegisterAnswer::Outcomes(outcomes) => {
            if any_outcome(outcomes, RegisterOutcome::Conflict) {
                return Err(
                    refusal(
                        RefusalCode::PsbtInconsistent,
                        "candidate_identity",
                        owned(
                            "this commitment is already registered under a different user-signature instance, sighash, or paired candidate",
                        ),
                    ),
                );
            }
            if any_outcome(outcomes, RegisterOutcome::AtCapacity) {
                let mut detail = owned(
                    "the bounded candidate registry cannot atomically retain request candidates: ",
                );
                let list = join(ids);
                detail.append(list.as_str());
                return Err(
                    refusal(RefusalCode::CandidateCapacity, "candidate_registry_capacity", detail),
                );
            }
            Ok(())
        },
    }
}

} // verus!
