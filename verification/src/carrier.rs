//! Requests that come in from peers: which reply they get, and when the spend they
//! carry counts as confirmed by the peer that sent it.
//!
//! The channel keeps memos of the carriers it has seen. Each type here is one dialogue
//! with it: [`CarrierStep`] after a spend was handled, [`StaleStep`] for a message
//! that came too late. A step says what to ask next, and `next` takes the answer.

use vstd::prelude::*;
use vstd::utf8::encode_utf8;

use crate::coord::{signature_refusal, verify_coord_signature};
use crate::node::{Node, NodeView};
use crate::proto::{SignRequest, SignRequestView, TaggedRequest, TaggedRequestView};
use crate::registry::{DuressTiming, MemoGeneration};
use crate::replay::MAX_COORD_NONCE_BYTES;
use crate::text::same_text;
use crate::verdict::{ensure_request_propagatable, propagation_fault, Answer};

verus! {

/// Why a message is turned away.
#[derive(Clone, Copy, Debug, PartialEq, Eq, Structural)]
pub enum RejectReason {
    UnknownMsgType,
    StaleTimestamp,
    MalformedPayload,
}

/// The reply to a peer's message.
#[derive(Clone, Copy, Debug, PartialEq, Eq, Structural)]
pub enum ChannelReply {
    Accepted,
    Rejected(RejectReason),
    RateLimited { retry_after_secs: u64 },
}

/// The reply of a node without peers, `None` where it has some.
pub fn channel_refusal(node: &Node) -> (reply: Option<ChannelReply>)
    ensures
        reply == if node@.channel is None {
            Some(ChannelReply::Rejected(RejectReason::UnknownMsgType))
        } else {
            None
        },
{
    if node.channel.is_none() {
        Some(ChannelReply::Rejected(RejectReason::UnknownMsgType))
    } else {
        None
    }
}

/// The reply that a request's answer comes to: a verdict of any kind counts as
/// received.
pub open spec fn outcome_reply(readable: bool) -> ChannelReply {
    if readable {
        ChannelReply::Accepted
    } else {
        ChannelReply::Rejected(RejectReason::MalformedPayload)
    }
}

/// The reply that a request's answer comes to.
pub fn reply_to(outcome: &Answer) -> (reply: ChannelReply)
    ensures
        reply == outcome_reply(*outcome is Ok),
{
    match outcome {
        Ok(_) => ChannelReply::Accepted,
        Err(_) => ChannelReply::Rejected(RejectReason::MalformedPayload),
    }
}

/// Whether a spend could have a carrier: its nonce can be one, it can be handed on,
/// and the coordinator signed it.
pub open spec fn may_carry(node: NodeView, spend: SignRequestView, digest: [u8; 32], fits: bool) ->
    bool {
    &&& 0 < encode_utf8(spend.nonce).len() <= MAX_COORD_NONCE_BYTES
    &&& propagation_fault(node, fits) is None
    &&& signature_refusal(digest, spend.coord_sig, node.keys.coordinator_auth) is None
}

/// Whether a spend could have a carrier.
pub fn carries(node: &Node, spend: &SignRequest, digest: &[u8; 32], fits: bool) -> (yes: bool)
    ensures
        yes == may_carry(node@, spend@, *digest, fits),
{
    let bytes = spend.nonce.as_str().as_bytes().len();
    bytes > 0 && bytes <= MAX_COORD_NONCE_BYTES && ensure_request_propagatable(node, fits).is_ok()
        && verify_coord_signature(&node.keys.coordinator_auth, digest, &spend.coord_sig).is_ok()
}

/// What the channel knows of a carrier.
#[derive(Debug)]
pub enum CarrierMemoLookup {
    Exact { carrier: String },
    Vacant,
    Skip,
    InFlight,
    AwaitingPropagation,
    ClockRefused,
    DeriveForConfirmation { memoized: String, generation: MemoGeneration },
}

/// The contents of a [`CarrierMemoLookup`].
pub enum LookupView {
    Exact { carrier: Seq<char> },
    Vacant,
    Skip,
    InFlight,
    AwaitingPropagation,
    ClockRefused,
    DeriveForConfirmation { memoized: Seq<char>, generation: MemoGeneration },
}

impl View for CarrierMemoLookup {
    type V = LookupView;

    open spec fn view(&self) -> LookupView {
        match self {
            CarrierMemoLookup::Exact { carrier } => LookupView::Exact { carrier: carrier@ },
            CarrierMemoLookup::Vacant => LookupView::Vacant,
            CarrierMemoLookup::Skip => LookupView::Skip,
            CarrierMemoLookup::InFlight => LookupView::InFlight,
            CarrierMemoLookup::AwaitingPropagation => LookupView::AwaitingPropagation,
            CarrierMemoLookup::ClockRefused => LookupView::ClockRefused,
            CarrierMemoLookup::DeriveForConfirmation { memoized, generation } => {
                LookupView::DeriveForConfirmation { memoized: memoized@, generation: *generation }
            },
        }
    }
}

/// What is to be asked next about the carrier of a spend that has been handled.
#[derive(Debug)]
pub enum CarrierStep {
    /// What the channel knows of the spend's carrier.
    Lookup,
    /// A place for deriving the carrier.
    Reserve { memoized: String, generation: MemoGeneration },
    /// The right to derive it for this peer.
    Claim { memoized: String, generation: MemoGeneration },
    /// The carrier itself.
    Derive { memoized: String, generation: MemoGeneration },
    /// To note that the derivation met the memo.
    Record { memoized: String, generation: MemoGeneration },
    /// What the channel knows now.
    LookupAgain,
    /// To count the peer's confirmation.
    Confirm { carrier: String },
    /// Nothing more.
    Reply(ChannelReply),
}

/// The contents of a [`CarrierStep`].
pub enum CarrierStepView {
    Lookup,
    Reserve { memoized: Seq<char>, generation: MemoGeneration },
    Claim { memoized: Seq<char>, generation: MemoGeneration },
    Derive { memoized: Seq<char>, generation: MemoGeneration },
    Record { memoized: Seq<char>, generation: MemoGeneration },
    LookupAgain,
    Confirm { carrier: Seq<char> },
    Reply(ChannelReply),
}

impl View for CarrierStep {
    type V = CarrierStepView;

    open spec fn view(&self) -> CarrierStepView {
        match self {
            CarrierStep::Lookup => CarrierStepView::Lookup,
            CarrierStep::Reserve { memoized, generation } => CarrierStepView::Reserve {
                memoized: memoized@,
                generation: *generation,
            },
            CarrierStep::Claim { memoized, generation } => CarrierStepView::Claim {
                memoized: memoized@,
                generation: *generation,
            },
            CarrierStep::Derive { memoized, generation } => CarrierStepView::Derive {
                memoized: memoized@,
                generation: *generation,
            },
            CarrierStep::Record { memoized, generation } => CarrierStepView::Record {
                memoized: memoized@,
                generation: *generation,
            },
            CarrierStep::LookupAgain => CarrierStepView::LookupAgain,
            CarrierStep::Confirm { carrier } => CarrierStepView::Confirm { carrier: carrier@ },
            CarrierStep::Reply(reply) => CarrierStepView::Reply(*reply),
        }
    }
}

/// An answer in the dialogue about a carrier.
#[derive(Debug)]
pub enum CarrierEvent {
    Looked(CarrierMemoLookup),
    Reserved(bool),
    Claimed(bool),
    Derived { carrier: String },
    Recorded(bool),
    /// Whether the channel's clock kept it from counting the confirmation.
    Confirmed { clock_refused: bool },
}

/// The contents of a [`CarrierEvent`].
pub enum CarrierEventView {
    Looked(LookupView),
    Reserved(bool),
    Claimed(bool),
    Derived { carrier: Seq<char> },
    Recorded(bool),
    Confirmed { clock_refused: bool },
}

impl View for CarrierEvent {
    type V = CarrierEventView;

    open spec fn view(&self) -> CarrierEventView {
        match self {
            CarrierEvent::Looked(l) => CarrierEventView::Looked(l@),
            CarrierEvent::Reserved(b) => CarrierEventView::Reserved(*b),
            CarrierEvent::Claimed(b) => CarrierEventView::Claimed(*b),
            CarrierEvent::Derived { carrier } => CarrierEventView::Derived { carrier: carrier@ },
            CarrierEvent::Recorded(b) => CarrierEventView::Recorded(*b),
            CarrierEvent::Confirmed { clock_refused } => CarrierEventView::Confirmed {
                clock_refused: *clock_refused,
            },
        }
    }
}

/// What stays the same throughout the dialogue about a carrier.
#[derive(Clone, Copy, Debug, PartialEq, Eq, Structural)]
pub struct CarrierTerms {
    /// Whether the request could be read.
    pub readable: bool,
    /// How long a peer is to wait when the channel's clock stands in the way.
    pub clock_retry_secs: u64,
}

impl CarrierTerms {
    /// The end of the dialogue without a confirmation.
    pub open spec fn plain(self) -> CarrierStepView {
        CarrierStepView::Reply(outcome_reply(self.readable))
    }

    /// The end of the dialogue where the peer is to come again.
    pub open spec fn later(self, secs: u64) -> CarrierStepView {
        CarrierStepView::Reply(ChannelReply::RateLimited { retry_after_secs: secs })
    }
}

impl CarrierStepView {
    /// How the dialogue goes on. An answer to something that was not asked changes
    /// nothing.
    pub open spec fn next(self, event: CarrierEventView, terms: CarrierTerms) -> CarrierStepView {
        match (self, event) {
            (CarrierStepView::Lookup, CarrierEventView::Looked(l)) => match l {
                LookupView::Exact { carrier } => CarrierStepView::Confirm { carrier },
                LookupView::Vacant => terms.plain(),
                LookupView::Skip => terms.plain(),
                LookupView::InFlight => terms.later(1),
                LookupView::AwaitingPropagation => terms.later(1),
                LookupView::ClockRefused => terms.later(terms.clock_retry_secs),
                LookupView::DeriveForConfirmation { memoized, generation } => {
                    CarrierStepView::Reserve { memoized, generation }
                },
            },
            (CarrierStepView::Reserve { memoized, generation }, CarrierEventView::Reserved(b)) => {
                if b {
                    CarrierStepView::Claim { memoized, generation }
                } else {
                    terms.later(1)
                }
            },
            (CarrierStepView::Claim { memoized, generation }, CarrierEventView::Claimed(b)) => {
                if b {
                    CarrierStepView::Derive { memoized, generation }
                } else {
                    terms.later(1)
                }
            },
            (
                CarrierStepView::Derive { memoized, generation },
                CarrierEventView::Derived { carrier },
            ) => if carrier == memoized {
                CarrierStepView::Record { memoized, generation }
            } else {
                terms.plain()
            },
            (CarrierStepView::Record { .. }, CarrierEventView::Recorded(b)) => if b {
                CarrierStepView::LookupAgain
            } else {
                terms.plain()
            },
            (CarrierStepView::LookupAgain, CarrierEventView::Looked(l)) => match l {
                LookupView::Exact { carrier } => CarrierStepView::Confirm { carrier },
                LookupView::AwaitingPropagation => terms.later(1),
                LookupView::ClockRefused => terms.later(terms.clock_retry_secs),
                _ => terms.plain(),
            },
            (CarrierStepView::Confirm { .. }, CarrierEventView::Confirmed { clock_refused }) => {
                if clock_refused {
                    terms.later(terms.clock_retry_secs)
                } else {
                    terms.plain()
                }
            },
            _ => self,
        }
    }
}

/// The first step after a request from a peer was handled: only a spend on a node
/// that is not locked down can have a carrier to confirm.
pub fn begin_confirmation(
    node: &Node,
    request: &TaggedRequest,
    digest: &[u8; 32],
    fits: bool,
    outcome: &Answer,
) -> (step: CarrierStep)
    ensures
        step@ == match request@ {
            TaggedRequestView::Spend(spend) => if !node@.lockdown && may_carry(
                node@,
                spend,
                *digest,
                fits,
            ) {
                CarrierStepView::Lookup
            } else {
                CarrierStepView::Reply(outcome_reply(*outcome is Ok))
            },
            TaggedRequestView::Refresh(_) => CarrierStepView::Reply(
                outcome_reply(*outcome is Ok),
            ),
        },
{
    match request {
        TaggedRequest::Spend(spend) => {
            if !node.is_locked_down() && carries(node, spend, digest, fits) {
                CarrierStep::Lookup
            } else {
                CarrierStep::Reply(reply_to(outcome))
            }
        },
        TaggedRequest::Refresh(_) => CarrierStep::Reply(reply_to(outcome)),
    }
}

fn plain(terms: &CarrierTerms) -> (step: CarrierStep)
    ensures
        step@ == terms.plain(),
{
    CarrierStep::Reply(
        if terms.readable {
            ChannelReply::Accepted
        } else {
            ChannelReply::Rejected(RejectReason::MalformedPayload)
        },
    )
}

fn later(secs: u64, Ghost(terms): Ghost<CarrierTerms>) -> (step: CarrierStep)
    ensures
        step@ == terms.later(secs),
{
    CarrierStep::Reply(ChannelReply::RateLimited { retry_after_secs: secs })
}

impl CarrierStep {
    /// Takes the answer to what was asked.
    pub fn next(self, event: CarrierEvent, terms: &CarrierTerms) -> (step: CarrierStep)
        ensures
            step@ == self@.next(event@, *terms),
    {
        match (self, event) {
            (CarrierStep::Lookup, CarrierEvent::Looked(l)) => match l {
                CarrierMemoLookup::Exact { carrier } => CarrierStep::Confirm { carrier },
                CarrierMemoLookup::Vacant => plain(terms),
                CarrierMemoLookup::Skip => plain(terms),
                CarrierMemoLookup::InFlight => later(1, Ghost(*terms)),
                CarrierMemoLookup::AwaitingPropagation => later(1, Ghost(*terms)),
                CarrierMemoLookup::ClockRefused => later(terms.clock_retry_secs, Ghost(*terms)),
                CarrierMemoLookup::DeriveForConfirmation { memoized, generation } => {
                    CarrierStep::Reserve { memoized, generation }
                },
            },
            (CarrierStep::Reserve { memoized, generation }, CarrierEvent::Reserved(b)) => if b {
                CarrierStep::Claim { memoized, generation }
            } else {
                later(1, Ghost(*terms))
            },
            (CarrierStep::Claim { memoized, generation }, CarrierEvent::Claimed(b)) => if b {
                CarrierStep::Derive { memoized, generation }
            } else {
                later(1, Ghost(*terms))
            },
            (CarrierStep::Derive { memoized, generation }, CarrierEvent::Derived { carrier }) => {
                if same_text(&carrier, &memoized) {
                    CarrierStep::Record { memoized, generation }
                } else {
                    plain(terms)
                }
            },
            (CarrierStep::Record { memoized: _, generation: _ }, CarrierEvent::Recorded(b)) => if b {
                CarrierStep::LookupAgain
            } else {
                plain(terms)
            },
            (CarrierStep::LookupAgain, CarrierEvent::Looked(l)) => match l {
                CarrierMemoLookup::Exact { carrier } => CarrierStep::Confirm { carrier },
                CarrierMemoLookup::AwaitingPropagation => later(1, Ghost(*terms)),
                CarrierMemoLookup::ClockRefused => later(terms.clock_retry_secs, Ghost(*terms)),
                _ => plain(terms),
            },
            (CarrierStep::Confirm { carrier: _ }, CarrierEvent::Confirmed { clock_refused }) => {
                if clock_refused {
                    later(terms.clock_retry_secs, Ghost(*terms))
                } else {
                    plain(terms)
                }
            },
            (step, _) => step,
        }
    }
}

/// A peer's confirmation of a carrier, as the channel is to count it.
#[derive(Clone, Copy, Debug, PartialEq, Eq, Structural)]
pub struct ConfirmTerms {
    /// How many holders make a quorum.
    pub threshold: usize,
    pub now: u64,
    pub timing: DuressTiming,
}

/// What the channel is told with a confirmation; nothing without peers.
pub fn confirm_carrier(node: &Node, now: u64) -> (terms: Option<ConfirmTerms>)
    ensures
        terms == if node@.channel is Some {
            Some(
                ConfirmTerms {
                    threshold: node@.params.threshold,
                    now: node@.sign_state.coord_nonces.effective_now(now),
                    timing: node@.duress_timing(),
                },
            )
        } else {
            None
        },
{
    if node.channel.is_none() {
        return None;
    }
    Some(
        ConfirmTerms {
            threshold: node.params.threshold,
            now: node.sign_state.coord_nonces.effective_now(now),
            timing: node.duress_timing(),
        },
    )
}

/// A peer's confirmation is counted only for a carrier that the channel has just
/// said to be exactly that of the spend.
pub proof fn only_an_exact_carrier_is_confirmed(
    step: CarrierStepView,
    event: CarrierEventView,
    terms: CarrierTerms,
)
    requires
        !(step is Confirm),
        step.next(event, terms) is Confirm,
    ensures
        step is Lookup || step is LookupAgain,
        event matches CarrierEventView::Looked(l) && l == (LookupView::Exact {
            carrier: step.next(event, terms)->carrier,
        }),
{
}

/// Whether `event` answers what `step` asks.
pub open spec fn fits_step(step: CarrierStepView, event: CarrierEventView) -> bool {
    match step {
        CarrierStepView::Lookup => event is Looked,
        CarrierStepView::Reserve { .. } => event is Reserved,
        CarrierStepView::Claim { .. } => event is Claimed,
        CarrierStepView::Derive { .. } => event is Derived,
        CarrierStepView::Record { .. } => event is Recorded,
        CarrierStepView::LookupAgain => event is Looked,
        CarrierStepView::Confirm { .. } => event is Confirmed,
        CarrierStepView::Reply(_) => false,
    }
}

/// How many answers are still needed at most.
pub open spec fn answers_left(step: CarrierStepView) -> nat {
    match step {
        CarrierStepView::Lookup => 7,
        CarrierStepView::Reserve { .. } => 6,
        CarrierStepView::Claim { .. } => 5,
        CarrierStepView::Derive { .. } => 4,
        CarrierStepView::Record { .. } => 3,
        CarrierStepView::LookupAgain => 2,
        CarrierStepView::Confirm { .. } => 1,
        CarrierStepView::Reply(_) => 0,
    }
}

/// Every answer brings the dialogue nearer to its reply.
pub proof fn the_dialogue_ends(step: CarrierStepView, event: CarrierEventView, terms: CarrierTerms)
    requires
        fits_step(step, event),
    ensures
        answers_left(step.next(event, terms)) < answers_left(step),
{
}

/// What the channel says of the carrier of a message that came too late.
#[derive(Debug)]
pub enum OuterStaleCarrier {
    Retry(u64),
    Terminal,
    Derive { memoized: String, generation: MemoGeneration },
}

/// The contents of an [`OuterStaleCarrier`].
pub enum StaleCarrierView {
    Retry(u64),
    Terminal,
    Derive { memoized: Seq<char>, generation: MemoGeneration },
}

impl View for OuterStaleCarrier {
    type V = StaleCarrierView;

    open spec fn view(&self) -> StaleCarrierView {
        match self {
            OuterStaleCarrier::Retry(secs) => StaleCarrierView::Retry(*secs),
            OuterStaleCarrier::Terminal => StaleCarrierView::Terminal,
            OuterStaleCarrier::Derive { memoized, generation } => StaleCarrierView::Derive {
                memoized: memoized@,
                generation: *generation,
            },
        }
    }
}

/// The reply that such a word of the channel comes to.
pub open spec fn stale_reply(carrier: StaleCarrierView) -> ChannelReply {
    match carrier {
        StaleCarrierView::Retry(secs) => ChannelReply::RateLimited { retry_after_secs: secs },
        StaleCarrierView::Terminal => ChannelReply::Rejected(RejectReason::StaleTimestamp),
        StaleCarrierView::Derive { .. } => ChannelReply::RateLimited { retry_after_secs: 1 },
    }
}

fn reply_of(carrier: &OuterStaleCarrier) -> (reply: ChannelReply)
    ensures
        reply == stale_reply(carrier@),
{
    match carrier {
        OuterStaleCarrier::Retry(secs) => ChannelReply::RateLimited { retry_after_secs: *secs },
        OuterStaleCarrier::Terminal => ChannelReply::Rejected(RejectReason::StaleTimestamp),
        OuterStaleCarrier::Derive { memoized: _, generation: _ } => ChannelReply::RateLimited {
            retry_after_secs: 1,
        },
    }
}

/// What is to be asked next about a spend in a message that came too late.
#[derive(Debug)]
pub enum StaleStep {
    /// What the channel says of the carrier.
    Inspect,
    /// A place for deriving it.
    Reserve,
    /// The same as at first, with a claim on the derivation.
    InspectClaimed,
    /// The carrier itself.
    Derive { memoized: String, generation: MemoGeneration },
    /// What the channel says once it knows whether the derivation met the memo.
    Finish { memoized: String, generation: MemoGeneration, met: bool },
    /// Nothing more.
    Reply(ChannelReply),
}

/// The contents of a [`StaleStep`].
pub enum StaleStepView {
    Inspect,
    Reserve,
    InspectClaimed,
    Derive { memoized: Seq<char>, generation: MemoGeneration },
    Finish { memoized: Seq<char>, generation: MemoGeneration, met: bool },
    Reply(ChannelReply),
}

impl View for StaleStep {
    type V = StaleStepView;

    open spec fn view(&self) -> StaleStepView {
        match self {
            StaleStep::Inspect => StaleStepView::Inspect,
            StaleStep::Reserve => StaleStepView::Reserve,
            StaleStep::InspectClaimed => StaleStepView::InspectClaimed,
            StaleStep::Derive { memoized, generation } => StaleStepView::Derive {
                memoized: memoized@,
                generation: *generation,
            },
            StaleStep::Finish { memoized, generation, met } => StaleStepView::Finish {
                memoized: memoized@,
                generation: *generation,
                met: *met,
            },
            StaleStep::Reply(reply) => StaleStepView::Reply(*reply),
        }
    }
}

/// An answer in the dialogue about a late message.
#[derive(Debug)]
pub enum StaleEvent {
    Said(OuterStaleCarrier),
    /// There is no deadline to ask under: see [`outer_stale_deadline`].
    Closed,
    Reserved(bool),
    Derived { carrier: String },
}

/// The contents of a [`StaleEvent`].
pub enum StaleEventView {
    Said(StaleCarrierView),
    Closed,
    Reserved(bool),
    Derived { carrier: Seq<char> },
}

impl View for StaleEvent {
    type V = StaleEventView;

    open spec fn view(&self) -> StaleEventView {
        match self {
            StaleEvent::Said(c) => StaleEventView::Said(c@),
            StaleEvent::Closed => StaleEventView::Closed,
            StaleEvent::Reserved(b) => StaleEventView::Reserved(*b),
            StaleEvent::Derived { carrier } => StaleEventView::Derived { carrier: carrier@ },
        }
    }
}

/// The end of a matter that is closed.
pub open spec fn stale_end() -> StaleStepView {
    StaleStepView::Reply(ChannelReply::Rejected(RejectReason::StaleTimestamp))
}

impl StaleStepView {
    /// How the dialogue goes on. An answer to something that was not asked changes
    /// nothing.
    pub open spec fn next(self, event: StaleEventView) -> StaleStepView {
        match (self, event) {
            (StaleStepView::Inspect, StaleEventView::Said(c)) => if c is Derive {
                StaleStepView::Reserve
            } else {
                StaleStepView::Reply(stale_reply(c))
            },
            (StaleStepView::Reserve, StaleEventView::Reserved(b)) => if b {
                StaleStepView::InspectClaimed
            } else {
                StaleStepView::Reply(ChannelReply::RateLimited { retry_after_secs: 1 })
            },
            (StaleStepView::InspectClaimed, StaleEventView::Said(c)) => match c {
                StaleCarrierView::Derive { memoized, generation } => StaleStepView::Derive {
                    memoized,
                    generation,
                },
                _ => StaleStepView::Reply(stale_reply(c)),
            },
            (StaleStepView::Derive { memoized, generation }, StaleEventView::Derived { carrier }) => {
                StaleStepView::Finish { memoized, generation, met: carrier == memoized }
            },
            (StaleStepView::Finish { .. }, StaleEventView::Said(c)) => StaleStepView::Reply(
                stale_reply(c),
            ),
            (StaleStepView::Inspect, StaleEventView::Closed) => stale_end(),
            (StaleStepView::InspectClaimed, StaleEventView::Closed) => stale_end(),
            (StaleStepView::Finish { .. }, StaleEventView::Closed) => stale_end(),
            _ => self,
        }
    }
}

/// The first step for a message that came too late: only a spend that could have a
/// carrier is looked into, and anything else is stale.
pub fn begin_outer_stale(node: &Node, request: &TaggedRequest, digest: &[u8; 32], fits: bool) -> (step:
    StaleStep)
    ensures
        step@ == match request@ {
            TaggedRequestView::Spend(spend) => if may_carry(node@, spend, *digest, fits) {
                StaleStepView::Inspect
            } else {
                StaleStepView::Reply(ChannelReply::Rejected(RejectReason::StaleTimestamp))
            },
            TaggedRequestView::Refresh(_) => StaleStepView::Reply(
                ChannelReply::Rejected(RejectReason::StaleTimestamp),
            ),
        },
{
    match request {
        TaggedRequest::Spend(spend) => {
            if carries(node, spend, digest, fits) {
                StaleStep::Inspect
            } else {
                StaleStep::Reply(ChannelReply::Rejected(RejectReason::StaleTimestamp))
            }
        },
        TaggedRequest::Refresh(_) => StaleStep::Reply(
            ChannelReply::Rejected(RejectReason::StaleTimestamp),
        ),
    }
}

/// The deadline under which the channel is asked about the carrier of a late spend.
/// Where there is none the matter is closed ([`StaleEvent::Closed`]): the node is locked
/// down, or the nonce is not on file with that expiry.
pub fn outer_stale_deadline(node: &Node, spend: &SignRequest) -> (deadline: Option<u64>)
    ensures
        deadline == if node@.lockdown {
            None
        } else {
            node@.sign_state.coord_nonces.outer_stale_deadline(spend@.nonce, spend@.expiry)
        },
{
    if node.is_locked_down() {
        return None;
    }
    node.sign_state.coord_nonces.outer_stale_carrier_deadline(&spend.nonce, spend.expiry)
}

fn stale() -> (step: StaleStep)
    ensures
        step@ == stale_end(),
{
    StaleStep::Reply(ChannelReply::Rejected(RejectReason::StaleTimestamp))
}

impl StaleStep {
    /// Takes the answer to what was asked.
    pub fn next(self, event: StaleEvent) -> (step: StaleStep)
        ensures
            step@ == self@.next(event@),
    {
        match (self, event) {
            (StaleStep::Inspect, StaleEvent::Said(c)) => match c {
                OuterStaleCarrier::Derive { memoized: _, generation: _ } => StaleStep::Reserve,
                other => StaleStep::Reply(reply_of(&other)),
            },
            (StaleStep::Reserve, StaleEvent::Reserved(b)) => if b {
                StaleStep::InspectClaimed
            } else {
                StaleStep::Reply(ChannelReply::RateLimited { retry_after_secs: 1 })
            },
            (StaleStep::InspectClaimed, StaleEvent::Said(c)) => match c {
                OuterStaleCarrier::Derive { memoized, generation } => StaleStep::Derive {
                    memoized,
                    generation,
                },
                other => StaleStep::Reply(reply_of(&other)),
            },
            (StaleStep::Derive { memoized, generation }, StaleEvent::Derived { carrier }) => {
                let met = same_text(&carrier, &memoized);
                StaleStep::Finish { memoized, generation, met }
            },
            (
                StaleStep::Finish { memoized: _, generation: _, met: _ },
                StaleEvent::Said(c),
            ) => StaleStep::Reply(reply_of(&c)),
            (StaleStep::Inspect, StaleEvent::Closed) => stale(),
            (StaleStep::InspectClaimed, StaleEvent::Closed) => stale(),
            (StaleStep::Finish { memoized: _, generation: _, met: _ }, StaleEvent::Closed) => {
                stale()
            },
            (step, _) => step,
        }
    }
}

/// A late message is never accepted: its reply turns it away or asks the peer to come
/// again.
pub proof fn a_late_message_is_never_accepted(step: StaleStepView, event: StaleEventView)
    requires
        step != StaleStepView::Reply(ChannelReply::Accepted),
    ensures
        step.next(event) != StaleStepView::Reply(ChannelReply::Accepted),
{
}

/// A carrier that the channel knows exactly is confirmed; one that it wants derived is
/// confirmed once a place is reserved, the derivation is claimed, the carrier derived is
/// the one on file, and the channel has recorded it and then knows it exactly.
pub proof fn a_known_carrier_is_confirmed(
    terms: CarrierTerms,
    memoized: Seq<char>,
    generation: MemoGeneration,
    carrier: Seq<char>,
)
    ensures
        CarrierStepView::Lookup.next(
            CarrierEventView::Looked(LookupView::Exact { carrier }),
            terms,
        ) == (CarrierStepView::Confirm { carrier }),
        CarrierStepView::Lookup.next(
            CarrierEventView::Looked(LookupView::DeriveForConfirmation { memoized, generation }),
            terms,
        ).next(CarrierEventView::Reserved(true), terms).next(
            CarrierEventView::Claimed(true),
            terms,
        ).next(CarrierEventView::Derived { carrier: memoized }, terms).next(
            CarrierEventView::Recorded(true),
            terms,
        ).next(CarrierEventView::Looked(LookupView::Exact { carrier }), terms) == (
        CarrierStepView::Confirm { carrier }),
{
}

/// A carrier that cannot be confirmed now is asked for again: after the time that the
/// clock needs where the clock refused it, else after a second. One that was derived
/// differently, could not be recorded or is not known leaves the plain reply.
pub proof fn an_unconfirmed_carrier_is_retried_or_let_go(
    terms: CarrierTerms,
    memoized: Seq<char>,
    generation: MemoGeneration,
    carrier: Seq<char>,
)
    ensures
        ({
            let soon = CarrierStepView::Reply(ChannelReply::RateLimited { retry_after_secs: 1 });
            let later = CarrierStepView::Reply(
                ChannelReply::RateLimited { retry_after_secs: terms.clock_retry_secs },
            );
            let plain = CarrierStepView::Reply(
                if terms.readable {
                    ChannelReply::Accepted
                } else {
                    ChannelReply::Rejected(RejectReason::MalformedPayload)
                },
            );
            let looked = |l: LookupView| CarrierStepView::Lookup.next(CarrierEventView::Looked(l), terms);
            let again = |l: LookupView|
                CarrierStepView::LookupAgain.next(CarrierEventView::Looked(l), terms);
            let derive = CarrierStepView::Derive { memoized, generation };
            &&& looked(LookupView::InFlight) == soon
            &&& looked(LookupView::AwaitingPropagation) == soon
            &&& looked(LookupView::ClockRefused) == later
            &&& looked(LookupView::Vacant) == plain
            &&& looked(LookupView::Skip) == plain
            &&& again(LookupView::AwaitingPropagation) == soon
            &&& again(LookupView::ClockRefused) == later
            &&& again(LookupView::Vacant) == plain
            &&& again(LookupView::InFlight) == plain
            &&& (CarrierStepView::Reserve { memoized, generation }).next(
                CarrierEventView::Reserved(false),
                terms,
            ) == soon
            &&& (CarrierStepView::Claim { memoized, generation }).next(
                CarrierEventView::Claimed(false),
                terms,
            ) == soon
            &&& carrier != memoized ==> derive.next(CarrierEventView::Derived { carrier }, terms)
                == plain
            &&& (CarrierStepView::Record { memoized, generation }).next(
                CarrierEventView::Recorded(false),
                terms,
            ) == plain
            &&& (CarrierStepView::Confirm { carrier }).next(
                CarrierEventView::Confirmed { clock_refused: true },
                terms,
            ) == later
            &&& (CarrierStepView::Confirm { carrier }).next(
                CarrierEventView::Confirmed { clock_refused: false },
                terms,
            ) == plain
        }),
{
}

/// A spend can have a carrier exactly where its nonce can be one, it fits a message of the
/// channel where there is one, and the coordinator signed it.
pub proof fn what_can_have_a_carrier(
    node: NodeView,
    spend: SignRequestView,
    digest: [u8; 32],
    fits: bool,
)
    ensures
        may_carry(node, spend, digest, fits) <==> {
            &&& 1 <= encode_utf8(spend.nonce).len() <= 64
            &&& node.channel is None || fits
            &&& signature_refusal(digest, spend.coord_sig, node.keys.coordinator_auth) is None
        },
{
}

/// A late spend is told to come again as long as the channel has work for it, for as long
/// as the channel says; else it is rejected for its time. The derivation that the channel
/// asks for is finished with whether it met the carrier on file.
pub proof fn a_late_spend_is_answered_as_the_channel_says(
    memoized: Seq<char>,
    generation: MemoGeneration,
    carrier: Seq<char>,
    met: bool,
    secs: u64,
)
    ensures
        ({
            let retry = |n: u64|
                StaleStepView::Reply(ChannelReply::RateLimited { retry_after_secs: n });
            let ended = StaleStepView::Reply(ChannelReply::Rejected(RejectReason::StaleTimestamp));
            let wanted = StaleEventView::Said(StaleCarrierView::Derive { memoized, generation });
            let told = StaleEventView::Said(StaleCarrierView::Retry(secs));
            let over = StaleEventView::Said(StaleCarrierView::Terminal);
            let finish = StaleStepView::Finish { memoized, generation, met };
            &&& StaleStepView::Inspect.next(told) == retry(secs)
            &&& StaleStepView::Inspect.next(over) == ended
            &&& StaleStepView::Inspect.next(StaleEventView::Closed) == ended
            &&& StaleStepView::Reserve.next(StaleEventView::Reserved(false)) == retry(1)
            &&& StaleStepView::InspectClaimed.next(told) == retry(secs)
            &&& StaleStepView::InspectClaimed.next(over) == ended
            &&& StaleStepView::Inspect.next(wanted).next(StaleEventView::Reserved(true)).next(
                wanted,
            ).next(StaleEventView::Derived { carrier }) == (StaleStepView::Finish {
                memoized,
                generation,
                met: carrier == memoized,
            })
            &&& finish.next(told) == retry(secs)
            &&& finish.next(over) == ended
            &&& finish.next(StaleEventView::Closed) == ended
            &&& finish.next(wanted) == retry(1)
        }),
{
}

} // verus!
