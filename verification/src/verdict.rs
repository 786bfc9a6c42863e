//! The checks and the verdicts that spends and refreshes have in common.

use vstd::prelude::*;

use crate::codec::{decode_psbt, decoded};
use crate::node::{Node, NodeView};
use crate::policy::{
    class_name, name_of_class, violation_refusal, violation_response, PolicyVerdict,
    PolicyVerdictView, TxClass,
};
use crate::prevouts::{
    escape_refusal, fetch_opt_view, fetch_outcome, fetch_prevouts, ground_truth_check, of_escape,
    prevout_views, refusal_view, run_prevout_check, Prevout, PrevoutFetch, PrevoutFetchView,
    PrevoutView,
};
use crate::proto::{
    refusal, refused, BadRequest, RefusalCode, SignResponse, SignResponseView, TaggedRequest,
    TaggedRequestView,
};
use crate::registry::{Errand, ErrandView};
use crate::replay::{EntryView, SignStateView};
use crate::signatures::{signatures_refusal, verify_user_signatures};
use crate::text::{decimal, owned, push_decimal};
use crate::tx::{saturating, OutPoint, Psbt, PsbtView, TxIn};

verus! {

/// What a request is answered: a verdict, or that it could not be read.
pub type Answer = Result<SignResponse, BadRequest>;

/// The contents of an [`Answer`].
pub type AnswerView = Result<SignResponseView, Seq<char>>;

/// The contents of `answer`.
pub open spec fn answer_view(answer: Answer) -> AnswerView {
    match answer {
        Ok(r) => Ok(r@),
        Err(bad) => Err(bad.0@),
    }
}

/// The verdict of a node in terminal Lockdown, whatever it is asked.
pub open spec fn lockdown_verdict() -> SignResponseView {
    refused(RefusalCode::FraudSuspected, "lockdown"@, "funds quarantined by policy"@)
}

/// The answer of a node in terminal Lockdown.
pub fn fraud_suspected() -> (response: SignResponse)
    ensures
        response@ == lockdown_verdict(),
{
    refusal(RefusalCode::FraudSuspected, "lockdown", owned("funds quarantined by policy"))
}

/// The verdict on a spend that the pin stops.
pub open spec fn pin_verdict_refusal(locked: bool) -> SignResponseView {
    if locked {
        refused(
            RefusalCode::BadPin,
            "pin_attempt_budget"@,
            "pin attempts are rate-limited; this node is temporarily locked out"@,
        )
    } else {
        refused(RefusalCode::BadPin, "pin"@, "submitted PIN does not match an enrolled PIN"@)
    }
}

/// Refuses a spend for its pin.
pub fn pin_refusal(locked: bool) -> (response: SignResponse)
    ensures
        response@ == pin_verdict_refusal(locked),
{
    if locked {
        refusal(
            RefusalCode::BadPin,
            "pin_attempt_budget",
            owned("pin attempts are rate-limited; this node is temporarily locked out"),
        )
    } else {
        refusal(
            RefusalCode::BadPin,
            "pin",
            owned("submitted PIN does not match an enrolled PIN"),
        )
    }
}

/// Whether a verdict depends on the request alone, so that it may be given again
/// to the same request: an acceptance, or a refusal that no clock, pin, signature
/// instance or chain view had a part in.
pub open spec fn recordable(verdict: SignResponseView) -> bool {
    match verdict {
        SignResponseView::Accepted(_) => true,
        SignResponseView::Refusal(r) => r.code == RefusalCode::DestNotAllowed || r.code
            == RefusalCode::ChangeNotDerivable || r.code == RefusalCode::FeeExceedsCap,
    }
}

/// Whether a verdict may be given again to the same request.
pub fn is_recordable_verdict(verdict: &SignResponse) -> (yes: bool)
    ensures
        yes == recordable(verdict@),
{
    match verdict {
        SignResponse::Accepted(_) => true,
        SignResponse::Refusal(r) => r.code == RefusalCode::DestNotAllowed || r.code
            == RefusalCode::ChangeNotDerivable || r.code == RefusalCode::FeeExceedsCap,
    }
}

/// The node once `verdict` is on file under `key`, if it may be.
pub open spec fn filed(node: NodeView, key: Seq<char>, expiry: u64, verdict: SignResponseView) ->
    NodeView {
    if recordable(verdict) {
        NodeView {
            sign_state: SignStateView {
                replay: node.sign_state.replay.insert(key, EntryView { expiry, verdict }),
                ..node.sign_state
            },
            ..node
        }
    } else {
        node
    }
}

/// Files `verdict` under `key`, if it may be given again.
pub(crate) fn record_verdict(node: &mut Node, key: &String, expiry: u64, verdict: &SignResponse)
    ensures
        final(node)@ == filed(old(node)@, key@, expiry, verdict@),
{
    if is_recordable_verdict(verdict) {
        node.sign_state.replay.record(key.clone(), expiry, verdict.copy());
    }
}

/// What a request that is too large to be handed on is told.
pub open spec fn too_large(max_msg_bytes: u64) -> Seq<char> {
    "request expands beyond the federation-uniform channel max_msg_bytes ("@ + decimal(
        max_msg_bytes as nat,
    ) + ")"@
}

/// Whether the node could hand the request on: `fits` says that it fits one
/// message of the channel.
pub open spec fn propagation_fault(node: NodeView, fits: bool) -> Option<Seq<char>> {
    match node.channel {
        Some(limits) if !fits => Some(too_large(limits.max_msg_bytes)),
        _ => None,
    }
}

/// Refuses to read a request that the node could not hand on to its peers.
pub fn ensure_request_propagatable(node: &Node, fits: bool) -> (out: Result<(), BadRequest>)
    ensures
        match out {
            Ok(()) => propagation_fault(node@, fits) is None,
            Err(bad) => propagation_fault(node@, fits) == Some(bad.0@),
        },
{
    match node.channel {
        Some(limits) => {
            if fits {
                return Ok(());
            }
            let mut text = owned(
                "request expands beyond the federation-uniform channel max_msg_bytes (",
            );
            push_decimal(&mut text, limits.max_msg_bytes);
            text.append(")");
            Err(BadRequest(text))
        },
        None => Ok(()),
    }
}

/// Why a request that expires this soon is refused by a node with peers.
pub open spec fn horizon_refusal(node: NodeView, expiry: u64, now: u64) -> Option<SignResponseView> {
    let horizon = node.params.delivery_horizon_secs;
    let floor = saturating(now + horizon);
    if node.channel is None || expiry >= floor {
        None
    } else {
        Some(
            refused(
                RefusalCode::ExpiryTooShort,
                "delivery_horizon"@,
                "expiry "@ + decimal(expiry as nat) + " is before "@ + decimal(floor as nat)
                    + " (now "@ + decimal(now as nat) + " + delivery_horizon_secs "@ + decimal(
                    horizon as nat,
                )
                    + "), so the coordinator-signed carrier could expire before peer propagation completes"@,
            ),
        )
    }
}

/// Refuses a request that could expire before the peers have it.
pub fn ensure_delivery_horizon(node: &Node, expiry: u64, now: u64) -> (out: Option<SignResponse>)
    ensures
        match out {
            Some(r) => horizon_refusal(node@, expiry, now) == Some(r@),
            None => horizon_refusal(node@, expiry, now) is None,
        },
{
    if node.channel.is_none() {
        return None;
    }
    let floor = now.saturating_add(node.params.delivery_horizon_secs);
    if expiry >= floor {
        return None;
    }
    let mut detail = owned("expiry ");
    push_decimal(&mut detail, expiry);
    detail.append(" is before ");
    push_decimal(&mut detail, floor);
    detail.append(" (now ");
    push_decimal(&mut detail, now);
    detail.append(" + delivery_horizon_secs ");
    push_decimal(&mut detail, node.params.delivery_horizon_secs);
    detail.append(
        "), so the coordinator-signed carrier could expire before peer propagation completes",
    );
    Some(refusal(RefusalCode::ExpiryTooShort, "delivery_horizon", detail))
}

/// The node once the request is staged for its peers.
pub open spec fn staged(node: NodeView, request: TaggedRequestView, carrier: Seq<char>) -> NodeView {
    NodeView {
        outbox: node.outbox.push(request),
        errands: if node.channel is Some {
            node.errands.push(ErrandView::MarkCarrierPropagated { carrier })
        } else {
            node.errands
        },
        ..node
    }
}

/// Stages a spend for the peers.
pub(crate) fn stage_spend_carrier(node: &mut Node, request: TaggedRequest, carrier: &String)
    ensures
        final(node)@ == staged(old(node)@, request@, carrier@),
{
    node.post(request);
    if node.channel.is_some() {
        node.tell(Errand::MarkCarrierPropagated { carrier: carrier.clone() });
    }
}

/// The coins that a transaction spends.
pub open spec fn coins_of(inputs: Seq<TxIn>) -> Seq<OutPoint> {
    inputs.map_values(|i: TxIn| i.previous_output)
}

/// The coins to look up for the transaction in `text`: none are looked up without
/// a view of the chain, or where the text cannot be read.
pub fn prefetch_outpoints(node: &Node, text: &String, field: &str) -> (coins: Option<Vec<OutPoint>>)
    ensures
        match coins {
            Some(c) => node@.has_backend && (decoded(text@, field@) matches Ok(psbt) && c@
                == coins_of(psbt.unsigned_tx.input)),
            None => !node@.has_backend || decoded(text@, field@) is Err,
        },
{
    if !node.has_backend {
        return None;
    }
    match decode_psbt(text.as_str(), field) {
        Ok(psbt) => {
            let inputs = &psbt.unsigned_tx.input;
            let mut coins: Vec<OutPoint> = Vec::new();
            let mut i: usize = 0;
            while i < inputs.len()
                invariant
                    i <= inputs.len(),
                    coins@ == coins_of(inputs@.take(i as int)),
                decreases inputs.len() - i,
            {
                coins.push(inputs[i].previous_output);
                assert(coins_of(inputs@.take(i + 1)) =~= coins_of(inputs@.take(i as int)).push(
                    inputs@[i as int].previous_output,
                ));
                i += 1;
            }
            assert(inputs@.take(i as int) =~= inputs@);
            Some(coins)
        },
        Err(_) => None,
    }
}

/// The chain's answer in plain terms.
pub type ChainAnswer = Result<Vec<Option<Prevout>>, String>;

/// The contents of a [`ChainAnswer`].
pub type ChainAnswerView = Result<Seq<Option<PrevoutView>>, Seq<char>>;

/// The contents of `answer`.
pub open spec fn chain_answer_view(answer: ChainAnswer) -> ChainAnswerView {
    match answer {
        Ok(prevouts) => Ok(prevout_views(prevouts@)),
        Err(e) => Err(e@),
    }
}

/// What the look at the chain for the transaction in `text` is worth.
pub open spec fn prefetched(
    node: NodeView,
    text: Seq<char>,
    field: Seq<char>,
    answer: ChainAnswerView,
) -> Option<PrevoutFetchView> {
    match decoded(text, field) {
        Ok(psbt) if node.has_backend => Some(fetch_outcome(psbt.unsigned_tx.input.len(), answer)),
        _ => None,
    }
}

/// Holds the chain's answer against the transaction that it was asked for.
pub fn prefetch_prevouts(node: &Node, text: &String, field: &str, answer: ChainAnswer) -> (fetch:
    Option<PrevoutFetch>)
    ensures
        fetch_opt_view(fetch) == prefetched(node@, text@, field@, chain_answer_view(answer)),
{
    if !node.has_backend {
        return None;
    }
    match decode_psbt(text.as_str(), field) {
        Ok(psbt) => Some(fetch_prevouts(&psbt, answer)),
        Err(_) => None,
    }
}

/// Why a transaction is refused before its class is looked at, if it is: the user's
/// signatures come first, then the chain, then the policy.
pub open spec fn spend_refusal(
    node: NodeView,
    psbt: PsbtView,
    fetched: Option<PrevoutFetchView>,
    policy: PolicyVerdictView,
) -> Option<SignResponseView> {
    if signatures_refusal(node.keys, psbt, 0) is Some {
        signatures_refusal(node.keys, psbt, 0)
    } else if node.has_backend && ground_truth_check(psbt, fetched) is Some {
        ground_truth_check(psbt, fetched)
    } else {
        match policy.evaluation {
            Ok(()) => None,
            Err(v) => Some(violation_response(v)),
        }
    }
}

/// Checks a transaction, but for its class.
pub fn verify_spend(
    node: &Node,
    psbt: &Psbt,
    fetched: &Option<PrevoutFetch>,
    policy: &PolicyVerdict,
) -> (out: Result<(), SignResponse>)
    ensures
        refusal_view(out) == spend_refusal(node@, psbt@, fetch_opt_view(*fetched), policy@),
{
    if let Err(r) = verify_user_signatures(&node.keys, psbt) {
        return Err(r);
    }
    if node.has_backend {
        if let Err(r) = run_prevout_check(psbt, fetched) {
            return Err(r);
        }
    }
    match &policy.evaluation {
        Ok(()) => Ok(()),
        Err(v) => Err(violation_refusal(v)),
    }
}

/// Why a transaction does not do as a request's escape, if it does not. The checks
/// are those of a spend, and every destination must be the escape wallet.
pub open spec fn escape_check(
    node: NodeView,
    psbt: PsbtView,
    fetched: Option<PrevoutFetchView>,
    policy: PolicyVerdictView,
) -> Option<SignResponseView> {
    let truth = ground_truth_check(psbt, fetched);
    if signatures_refusal(node.keys, psbt, 0) is Some {
        Some(of_escape(signatures_refusal(node.keys, psbt, 0)->0))
    } else if node.has_backend && truth is Some && truth->0 is Refusal {
        Some(of_escape(truth->0))
    } else {
        match policy.evaluation {
            Err(v) => Some(of_escape(violation_response(v))),
            Ok(()) => match policy.classification {
                Err(v) => Some(of_escape(violation_response(v))),
                Ok(c) => if c.class == TxClass::Escape {
                    None
                } else {
                    Some(
                        of_escape(
                            refused(
                                RefusalCode::PsbtInconsistent,
                                "transaction_class"@,
                                "the request's escape is "@ + class_name(c.class)
                                    + "-class: every destination output must pay the escape descriptor"@,
                            ),
                        ),
                    )
                },
            },
        }
    }
}


/// Checks a transaction that is to be a request's escape.
pub fn verify_escape(
    node: &Node,
    psbt: &Psbt,
    fetched: &Option<PrevoutFetch>,
    policy: &PolicyVerdict,
) -> (out: Result<(), SignResponse>)
    ensures
        refusal_view(out) == escape_check(node@, psbt@, fetch_opt_view(*fetched), policy@),
{
    if let Err(r) = verify_user_signatures(&node.keys, psbt) {
        return Err(escape_refusal(&r));
    }
    if node.has_backend {
        if let Err(r) = run_prevout_check(psbt, fetched) {
            if let SignResponse::Refusal(_) = r {
                return Err(escape_refusal(&r));
            }
        }
    }
    if let Err(v) = &policy.evaluation {
        let r = violation_refusal(v);
        return Err(escape_refusal(&r));
    }
    match &policy.classification {
        Ok(c) => {
            if c.class == TxClass::Escape {
                return Ok(());
            }
            let mut detail = owned("the request's escape is ");
            detail.append(name_of_class(c.class));
            detail.append("-class: every destination output must pay the escape descriptor");
            let r = refusal(RefusalCode::PsbtInconsistent, "transaction_class", detail);
            Err(escape_refusal(&r))
        },
        Err(v) => {
            let r = violation_refusal(v);
            Err(escape_refusal(&r))
        },
    }
}

} // verus!
