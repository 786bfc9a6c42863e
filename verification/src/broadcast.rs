//! The end of a fire pass: how one due candidate is finished, and how a finished one
//! is broadcast.
//!
//! Both are dialogues with the chain and the channel. A step says what to ask next,
//! and `next` takes the answer.

use vstd::prelude::*;

use crate::fire::{no_longer_held, settled_ids, ArmedEscapeState};
use crate::node::NodeView;
use crate::text::{decimal, owned, push_decimal};

verus! {

/// What became of a broadcast.
#[derive(Clone, Copy, Debug, PartialEq, Eq)]
pub enum BroadcastOutcome {
    Sent([u8; 32]),
    AlreadySettled([u8; 32]),
}

/// What the mempool says of a package before it is sent.
#[derive(Debug)]
pub enum PackageVerdict {
    Accepted,
    Rejected { reason: String },
}

/// What came of sending a transaction.
#[derive(Debug)]
pub enum SendAnswer {
    /// The channel no longer authorizes it.
    Closed { reason: String },
    Sent([u8; 32]),
    Failed { error: String },
}

/// What is to be asked next about a finished candidate.
#[derive(Debug)]
pub enum BroadcastStep {
    /// Whether the transaction is settled already.
    Settled,
    /// To put it together with its ancestors.
    Assemble,
    /// What the mempool says of the package.
    Test,
    /// To send it, while the channel authorizes it.
    Send,
    /// Whether it is settled after all, now that sending failed.
    SettledAfter { error: String },
    /// Nothing more.
    Done(Result<BroadcastOutcome, String>),
}

/// The contents of a [`BroadcastStep`].
pub enum BroadcastStepView {
    Settled,
    Assemble,
    Test,
    Send,
    SettledAfter { error: Seq<char> },
    Done(Result<BroadcastOutcome, Seq<char>>),
}

impl View for BroadcastStep {
    type V = BroadcastStepView;

    open spec fn view(&self) -> BroadcastStepView {
        match self {
            BroadcastStep::Settled => BroadcastStepView::Settled,
            BroadcastStep::Assemble => BroadcastStepView::Assemble,
            BroadcastStep::Test => BroadcastStepView::Test,
            BroadcastStep::Send => BroadcastStepView::Send,
            BroadcastStep::SettledAfter { error } => BroadcastStepView::SettledAfter {
                error: error@,
            },
            BroadcastStep::Done(Ok(outcome)) => BroadcastStepView::Done(Ok(*outcome)),
            BroadcastStep::Done(Err(e)) => BroadcastStepView::Done(Err(e@)),
        }
    }
}

/// An answer in the dialogue about a broadcast.
#[derive(Debug)]
pub enum BroadcastEvent {
    Settled(Result<bool, String>),
    Assembled(Result<(), String>),
    Tested(Result<PackageVerdict, String>),
    Sent(SendAnswer),
}

/// The contents of a [`BroadcastEvent`].
pub enum BroadcastEventView {
    Settled(Result<bool, Seq<char>>),
    Assembled(Result<(), Seq<char>>),
    /// `None` inside where the package is accepted.
    Tested(Result<Option<Seq<char>>, Seq<char>>),
    Closed { reason: Seq<char> },
    Sent([u8; 32]),
    Failed { error: Seq<char> },
}

impl View for BroadcastEvent {
    type V = BroadcastEventView;

    open spec fn view(&self) -> BroadcastEventView {
        match self {
            BroadcastEvent::Settled(Ok(b)) => BroadcastEventView::Settled(Ok(*b)),
            BroadcastEvent::Settled(Err(e)) => BroadcastEventView::Settled(Err(e@)),
            BroadcastEvent::Assembled(Ok(_)) => BroadcastEventView::Assembled(Ok(())),
            BroadcastEvent::Assembled(Err(e)) => BroadcastEventView::Assembled(Err(e@)),
            BroadcastEvent::Tested(Ok(PackageVerdict::Accepted)) => BroadcastEventView::Tested(
                Ok(None),
            ),
            BroadcastEvent::Tested(Ok(PackageVerdict::Rejected { reason })) => {
                BroadcastEventView::Tested(Ok(Some(reason@)))
            },
            BroadcastEvent::Tested(Err(e)) => BroadcastEventView::Tested(Err(e@)),
            BroadcastEvent::Sent(SendAnswer::Closed { reason }) => BroadcastEventView::Closed {
                reason: reason@,
            },
            BroadcastEvent::Sent(SendAnswer::Sent(txid)) => BroadcastEventView::Sent(*txid),
            BroadcastEvent::Sent(SendAnswer::Failed { error }) => BroadcastEventView::Failed {
                error: error@,
            },
        }
    }
}

/// What stays the same throughout the dialogue about a broadcast.
#[derive(Debug)]
pub struct BroadcastTerms {
    pub txid: [u8; 32],
    pub commitment_id: String,
    pub deadline: u64,
}

/// The complaint about an authorization that is closed.
pub open spec fn closed_text(commitment_id: Seq<char>, deadline: u64, reason: Seq<char>) -> Seq<char> {
    "broadcast authorization closed for candidate "@ + commitment_id + " (deadline "@ + decimal(
        deadline as nat,
    ) + "): "@ + reason
}

impl BroadcastStepView {
    /// How the dialogue goes on: a settled transaction is not sent again, a package
    /// that the mempool would not take is not sent at all, and a failed sending counts
    /// for nothing if the transaction is settled all the same. An answer to something
    /// that was not asked changes nothing.
    pub open spec fn next(self, event: BroadcastEventView, terms: BroadcastTerms) ->
        BroadcastStepView {
        let already = BroadcastStepView::Done(Ok(BroadcastOutcome::AlreadySettled(terms.txid)));
        match (self, event) {
            (BroadcastStepView::Settled, BroadcastEventView::Settled(answer)) => match answer {
                Err(e) => BroadcastStepView::Done(Err(e)),
                Ok(true) => already,
                Ok(false) => BroadcastStepView::Assemble,
            },
            (BroadcastStepView::Assemble, BroadcastEventView::Assembled(answer)) => match answer {
                Err(e) => BroadcastStepView::Done(Err(e)),
                Ok(_) => BroadcastStepView::Test,
            },
            (BroadcastStepView::Test, BroadcastEventView::Tested(answer)) => match answer {
                Err(e) => BroadcastStepView::Done(Err(e)),
                Ok(Some(reason)) => BroadcastStepView::Done(
                    Err("package mempool-acceptance failed: "@ + reason),
                ),
                Ok(None) => BroadcastStepView::Send,
            },
            (BroadcastStepView::Send, BroadcastEventView::Closed { reason }) => {
                BroadcastStepView::Done(
                    Err(closed_text(terms.commitment_id@, terms.deadline, reason)),
                )
            },
            (BroadcastStepView::Send, BroadcastEventView::Sent(txid)) => BroadcastStepView::Done(
                Ok(BroadcastOutcome::Sent(txid)),
            ),
            (BroadcastStepView::Send, BroadcastEventView::Failed { error }) => {
                BroadcastStepView::SettledAfter { error }
            },
            (BroadcastStepView::SettledAfter { error }, BroadcastEventView::Settled(answer)) => {
                if answer == Result::<bool, Seq<char>>::Ok(true) {
                    already
                } else {
                    BroadcastStepView::Done(Err(error))
                }
            },
            _ => self,
        }
    }
}

impl BroadcastStep {
    /// Takes the answer to what was asked.
    pub fn next(self, event: BroadcastEvent, terms: &BroadcastTerms) -> (step: BroadcastStep)
        ensures
            step@ == self@.next(event@, *terms),
    {
        match (self, event) {
            (BroadcastStep::Settled, BroadcastEvent::Settled(answer)) => match answer {
                Err(e) => BroadcastStep::Done(Err(e)),
                Ok(true) => BroadcastStep::Done(Ok(BroadcastOutcome::AlreadySettled(terms.txid))),
                Ok(false) => BroadcastStep::Assemble,
            },
            (BroadcastStep::Assemble, BroadcastEvent::Assembled(answer)) => match answer {
                Err(e) => BroadcastStep::Done(Err(e)),
                Ok(_) => BroadcastStep::Test,
            },
            (BroadcastStep::Test, BroadcastEvent::Tested(answer)) => match answer {
                Err(e) => BroadcastStep::Done(Err(e)),
                Ok(PackageVerdict::Rejected { reason }) => {
                    let mut text = owned("package mempool-acceptance failed: ");
                    text.append(reason.as_str());
                    BroadcastStep::Done(Err(text))
                },
                Ok(PackageVerdict::Accepted) => BroadcastStep::Send,
            },
            (BroadcastStep::Send, BroadcastEvent::Sent(answer)) => match answer {
                SendAnswer::Closed { reason } => {
                    let mut text = owned("broadcast authorization closed for candidate ");
                    text.append(terms.commitment_id.as_str());
                    text.append(" (deadline ");
                    push_decimal(&mut text, terms.deadline);
                    text.append("): ");
                    text.append(reason.as_str());
                    BroadcastStep::Done(Err(text))
                },
                SendAnswer::Sent(txid) => BroadcastStep::Done(Ok(BroadcastOutcome::Sent(txid))),
                SendAnswer::Failed { error } => BroadcastStep::SettledAfter { error },
            },
            (BroadcastStep::SettledAfter { error }, BroadcastEvent::Settled(answer)) => match answer {
                Ok(true) => BroadcastStep::Done(Ok(BroadcastOutcome::AlreadySettled(terms.txid))),
                _ => BroadcastStep::Done(Err(error)),
            },
            (step, _) => step,
        }
    }
}

/// A transaction is handed to the network only after the mempool has taken its
/// package.
pub proof fn nothing_is_sent_untested(
    step: BroadcastStepView,
    event: BroadcastEventView,
    terms: BroadcastTerms,
)
    requires
        !(step is Send),
        step.next(event, terms) is Send,
    ensures
        step is Test,
        event == BroadcastEventView::Tested(Ok(None)),
{
}

/// At which point a candidate was given up for this pass.
#[derive(Clone, Copy, Debug, PartialEq, Eq, Structural)]
pub enum CombineFault {
    /// Whether it is settled could not be read.
    Settlement,
    /// The sweep could not be judged before it was finished.
    Preflight,
    /// The finished sweep may not fire.
    Inadmissible,
    /// It could not be broadcast.
    Broadcast,
}

/// How a candidate leaves the pass.
#[derive(Debug)]
pub enum CombineEnd {
    /// Nothing is to be done for it now.
    Waits,
    /// A rung of the armed escape is confirmed; it stays registered in case the chain
    /// turns.
    EscapeConfirmed([u8; 32]),
    /// It is settled without having been broadcast here.
    Settled,
    Sent([u8; 32]),
    GivenUp { fault: CombineFault, reason: String },
}

/// The contents of a [`CombineEnd`].
pub enum CombineEndView {
    Waits,
    EscapeConfirmed([u8; 32]),
    Settled,
    Sent([u8; 32]),
    GivenUp { fault: CombineFault, reason: Seq<char> },
}

impl View for CombineEnd {
    type V = CombineEndView;

    open spec fn view(&self) -> CombineEndView {
        match self {
            CombineEnd::Waits => CombineEndView::Waits,
            CombineEnd::EscapeConfirmed(txid) => CombineEndView::EscapeConfirmed(*txid),
            CombineEnd::Settled => CombineEndView::Settled,
            CombineEnd::Sent(txid) => CombineEndView::Sent(*txid),
            CombineEnd::GivenUp { fault, reason } => CombineEndView::GivenUp {
                fault: *fault,
                reason: reason@,
            },
        }
    }
}

/// What is to be asked next about a due candidate.
#[derive(Debug)]
pub enum CombineStep {
    /// Where the network stands with an armed escape.
    Network,
    /// Whether any other candidate is settled.
    Settled,
    /// To judge an armed escape that was not judged earlier in this pass.
    Preflight,
    /// To finish it with a quorum of signatures.
    Finalize,
    /// Whether the finished sweep may fire.
    Judge,
    /// To broadcast it.
    Broadcast,
    /// Nothing more.
    Done(CombineEnd),
}

/// The contents of a [`CombineStep`].
pub enum CombineStepView {
    Network,
    Settled,
    Preflight,
    Finalize,
    Judge,
    Broadcast,
    Done(CombineEndView),
}

impl View for CombineStep {
    type V = CombineStepView;

    open spec fn view(&self) -> CombineStepView {
        match self {
            CombineStep::Network => CombineStepView::Network,
            CombineStep::Settled => CombineStepView::Settled,
            CombineStep::Preflight => CombineStepView::Preflight,
            CombineStep::Finalize => CombineStepView::Finalize,
            CombineStep::Judge => CombineStepView::Judge,
            CombineStep::Broadcast => CombineStepView::Broadcast,
            CombineStep::Done(end) => CombineStepView::Done(end@),
        }
    }
}

/// An answer in the dialogue about a due candidate.
#[derive(Debug)]
pub enum CombineEvent {
    Network(Result<ArmedEscapeState, String>),
    Settled(Result<bool, String>),
    Preflight(Result<(), String>),
    /// Whether the candidate could be finished.
    Finalized(bool),
    Judged(Result<(), String>),
    Broadcast(Result<BroadcastOutcome, String>),
}

/// The contents of a [`CombineEvent`].
pub enum CombineEventView {
    Network(Result<ArmedEscapeState, Seq<char>>),
    Settled(Result<bool, Seq<char>>),
    Preflight(Result<(), Seq<char>>),
    Finalized(bool),
    Judged(Result<(), Seq<char>>),
    Broadcast(Result<BroadcastOutcome, Seq<char>>),
}

impl View for CombineEvent {
    type V = CombineEventView;

    open spec fn view(&self) -> CombineEventView {
        match self {
            CombineEvent::Network(Ok(s)) => CombineEventView::Network(Ok(*s)),
            CombineEvent::Network(Err(e)) => CombineEventView::Network(Err(e@)),
            CombineEvent::Settled(Ok(b)) => CombineEventView::Settled(Ok(*b)),
            CombineEvent::Settled(Err(e)) => CombineEventView::Settled(Err(e@)),
            CombineEvent::Preflight(Ok(_)) => CombineEventView::Preflight(Ok(())),
            CombineEvent::Preflight(Err(e)) => CombineEventView::Preflight(Err(e@)),
            CombineEvent::Finalized(b) => CombineEventView::Finalized(*b),
            CombineEvent::Judged(Ok(_)) => CombineEventView::Judged(Ok(())),
            CombineEvent::Judged(Err(e)) => CombineEventView::Judged(Err(e@)),
            CombineEvent::Broadcast(Ok(o)) => CombineEventView::Broadcast(Ok(*o)),
            CombineEvent::Broadcast(Err(e)) => CombineEventView::Broadcast(Err(e@)),
        }
    }
}

/// What is known of a due candidate from the start.
#[derive(Clone, Copy, Debug, PartialEq, Eq, Structural)]
pub struct CombineTerms {
    pub armed_escape: bool,
    /// Whether the armed escape was judged earlier in this pass.
    pub judged: bool,
}

/// The end of a candidate that is given up for this pass.
pub open spec fn given_up(fault: CombineFault, reason: Seq<char>) -> CombineStepView {
    CombineStepView::Done(CombineEndView::GivenUp { fault, reason })
}

impl CombineTerms {
    /// The first step for a candidate that is still registered.
    pub open spec fn first(self) -> CombineStepView {
        if self.armed_escape {
            CombineStepView::Network
        } else {
            CombineStepView::Settled
        }
    }

    /// The first step for a candidate that is still registered.
    pub fn begin(&self) -> (step: CombineStep)
        ensures
            step@ == self.first(),
    {
        if self.armed_escape {
            CombineStep::Network
        } else {
            CombineStep::Settled
        }
    }
}

impl CombineStepView {
    /// How the dialogue goes on. An answer to something that was not asked changes
    /// nothing.
    pub open spec fn next(self, event: CombineEventView, terms: CombineTerms) -> CombineStepView {
        match (self, event) {
            (CombineStepView::Network, CombineEventView::Network(answer)) => match answer {
                Err(e) => given_up(CombineFault::Settlement, e),
                Ok(ArmedEscapeState::Confirmed(txid)) => CombineStepView::Done(
                    CombineEndView::EscapeConfirmed(txid),
                ),
                Ok(ArmedEscapeState::InMempoolAtOrAboveLatch) => CombineStepView::Done(
                    CombineEndView::Waits,
                ),
                Ok(ArmedEscapeState::Absent) => if terms.judged {
                    CombineStepView::Finalize
                } else {
                    CombineStepView::Preflight
                },
            },
            (CombineStepView::Settled, CombineEventView::Settled(answer)) => match answer {
                Err(e) => given_up(CombineFault::Settlement, e),
                Ok(true) => CombineStepView::Done(CombineEndView::Settled),
                Ok(false) => CombineStepView::Finalize,
            },
            (CombineStepView::Preflight, CombineEventView::Preflight(answer)) => match answer {
                Err(e) => given_up(CombineFault::Preflight, e),
                Ok(_) => CombineStepView::Finalize,
            },
            (CombineStepView::Finalize, CombineEventView::Finalized(done)) => if !done {
                CombineStepView::Done(CombineEndView::Waits)
            } else if terms.armed_escape {
                CombineStepView::Judge
            } else {
                CombineStepView::Broadcast
            },
            (CombineStepView::Judge, CombineEventView::Judged(answer)) => match answer {
                Err(e) => given_up(CombineFault::Inadmissible, e),
                Ok(_) => CombineStepView::Broadcast,
            },
            (CombineStepView::Broadcast, CombineEventView::Broadcast(answer)) => match answer {
                Err(e) => given_up(CombineFault::Broadcast, e),
                Ok(BroadcastOutcome::Sent(txid)) => CombineStepView::Done(
                    CombineEndView::Sent(txid),
                ),
                Ok(BroadcastOutcome::AlreadySettled(_)) => CombineStepView::Done(
                    CombineEndView::Settled,
                ),
            },
            _ => self,
        }
    }
}

fn give_up(fault: CombineFault, reason: String) -> (step: CombineStep)
    ensures
        step@ == given_up(fault, reason@),
{
    CombineStep::Done(CombineEnd::GivenUp { fault, reason })
}

impl CombineStep {
    /// Takes the answer to what was asked.
    pub fn next(self, event: CombineEvent, terms: &CombineTerms) -> (step: CombineStep)
        ensures
            step@ == self@.next(event@, *terms),
    {
        match (self, event) {
            (CombineStep::Network, CombineEvent::Network(answer)) => match answer {
                Err(e) => give_up(CombineFault::Settlement, e),
                Ok(ArmedEscapeState::Confirmed(txid)) => CombineStep::Done(
                    CombineEnd::EscapeConfirmed(txid),
                ),
                Ok(ArmedEscapeState::InMempoolAtOrAboveLatch) => CombineStep::Done(
                    CombineEnd::Waits,
                ),
                Ok(ArmedEscapeState::Absent) => if terms.judged {
                    CombineStep::Finalize
                } else {
                    CombineStep::Preflight
                },
            },
            (CombineStep::Settled, CombineEvent::Settled(answer)) => match answer {
                Err(e) => give_up(CombineFault::Settlement, e),
                Ok(true) => CombineStep::Done(CombineEnd::Settled),
                Ok(false) => CombineStep::Finalize,
            },
            (CombineStep::Preflight, CombineEvent::Preflight(answer)) => match answer {
                Err(e) => give_up(CombineFault::Preflight, e),
                Ok(_) => CombineStep::Finalize,
            },
            (CombineStep::Finalize, CombineEvent::Finalized(done)) => if !done {
                CombineStep::Done(CombineEnd::Waits)
            } else if terms.armed_escape {
                CombineStep::Judge
            } else {
                CombineStep::Broadcast
            },
            (CombineStep::Judge, CombineEvent::Judged(answer)) => match answer {
                Err(e) => give_up(CombineFault::Inadmissible, e),
                Ok(_) => CombineStep::Broadcast,
            },
            (CombineStep::Broadcast, CombineEvent::Broadcast(answer)) => match answer {
                Err(e) => give_up(CombineFault::Broadcast, e),
                Ok(BroadcastOutcome::Sent(txid)) => CombineStep::Done(CombineEnd::Sent(txid)),
                Ok(BroadcastOutcome::AlreadySettled(_)) => CombineStep::Done(
                    CombineEnd::Settled,
                ),
            },
            (step, _) => step,
        }
    }
}

/// Whether a candidate that leaves the pass in this way is to be settled: counted as
/// broadcast, and no longer held. An armed escape is not, until it is confirmed.
pub open spec fn settles(end: CombineEndView, terms: CombineTerms) -> bool {
    !terms.armed_escape && (end is Settled || end is Sent)
}

/// Whether a candidate that leaves the pass in this way is to be settled.
pub fn is_settled_by(end: &CombineEnd, terms: &CombineTerms) -> (yes: bool)
    ensures
        yes == settles(end@, *terms),
{
    !terms.armed_escape && match end {
        CombineEnd::Settled => true,
        CombineEnd::Sent(_) => true,
        _ => false,
    }
}

/// What the chain already shows is not sent again: the dialogue about a candidate that is
/// found settled ends at once, with nothing finished or broadcast, and the candidate, its
/// pair and what it made impossible are no longer held.
pub proof fn a_settled_candidate_is_not_sent(
    node: NodeView,
    id: Seq<char>,
    paired: Option<Seq<char>>,
    invalidated: Seq<Seq<char>>,
    terms: CombineTerms,
)
    requires
        !terms.armed_escape,
    ensures
        terms.first().next(CombineEventView::Settled(Ok(true)), terms) == CombineStepView::Done(
            CombineEndView::Settled,
        ),
        settles(CombineEndView::Settled, terms),
        ({
            let held = no_longer_held(
                node,
                settled_ids(id, paired, invalidated),
            ).sign_state.pending;
            &&& !held.contains_key(id)
            &&& paired matches Some(other) ==> !held.contains_key(other)
            &&& forall|k: Seq<char>| invalidated.contains(k) ==> !held.contains_key(k)
        }),
{
}

/// Whether an armed escape's finished transaction is judged: it passed that step.
pub open spec fn past_judgement(step: CombineStepView) -> bool {
    ||| step is Broadcast
    ||| step == CombineStepView::Done(CombineEndView::Settled)
    ||| (step matches CombineStepView::Done(end) && end is Sent)
}

/// An armed escape is broadcast only if its finished transaction was judged
/// admissible.
pub proof fn an_armed_escape_is_judged_before_it_is_sent(
    step: CombineStepView,
    event: CombineEventView,
    terms: CombineTerms,
)
    requires
        terms.armed_escape,
        !past_judgement(step),
        !(step is Settled),
        past_judgement(step.next(event, terms)),
    ensures
        step is Judge,
        event matches CombineEventView::Judged(answer) && answer is Ok,
{
}

} // verus!
