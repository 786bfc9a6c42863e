//! Refreshes: spends of the vault back to itself, without a pin and without a hold,
//! and second to any spend.

use vstd::prelude::*;

use crate::codec::{
    compute_txid, decode_psbt, decoded, psbt_bytes, transaction_id, transaction_weight, weight,
};
use crate::commitment::{
    acceptance_key, acceptance_replay_key, candidate_views, commitment, commitment_of, Commitment,
};
use crate::coord::{entry_refusal, verify_coord_auth, CoordRequest};
use crate::ingress::{bytes_of, with_nonces};
use crate::node::{Node, NodeView};
use crate::policy::{
    class_name, name_of_class, violation_refusal, violation_response, PolicyVerdict,
    PolicyVerdictView, TxClass,
};
use crate::prevouts::{fetch_opt_view, outpoint_text, push_outpoint, PrevoutFetch, PrevoutFetchView};
use crate::proto::{
    refusal, refused, Accepted, AcceptedView, RefreshRequest, RefreshRequestView, RefusalCode,
    SignResponse, SignResponseView, TaggedRequest, TaggedRequestView,
};
use crate::registry::{
    register_pair, registration_refusal, registration_verdict, registration_view, FireWindow,
    RegisterAnswer, RegisterPair, RegisterPairView, Registration, RegistrationView,
};
use crate::replay::{
    pending_at, recorded, refreshed, seconds_since, NonceLogView, SignStateView,
};
use crate::signatures::{add_node_signatures, node_signed, signing_failure};
use crate::spend::{
    prune_stores, replay_pruned, same_frame, stores_pruned, unsigned_verdict,
};
use crate::table::texts;
use crate::text::{copy_bytes, decimal, owned, push_decimal, push_decimal_wide};
use crate::tx::{
    declared_total, output_total, saturating, total_declared, total_out, OutPoint, Psbt, PsbtView,
    TxIn,
};
use crate::verdict::{
    answer_view, chain_answer_view, ensure_request_propagatable, filed, fraud_suspected,
    lockdown_verdict, prefetch_prevouts, prefetched, propagation_fault, record_verdict,
    spend_refusal, verify_spend, Answer, AnswerView, ChainAnswer,
};

verus! {

/// What comes with a refresh to the entrance.
#[derive(Clone, Copy, Debug)]
pub struct RefreshIngress {
    /// The digest that the coordinator signs.
    pub digest: [u8; 32],
    /// Whether the request fits one message of the channel.
    pub fits: bool,
    pub raw_now: u64,
    /// The channel's own clock.
    pub mono_now: Option<u64>,
}

/// The request as the entrance sees it.
pub open spec fn refresh_entry(request: &RefreshRequest, digest: [u8; 32]) -> CoordRequest<'_> {
    CoordRequest {
        nonce: &request.nonce,
        expiry: request.expiry,
        spend: false,
        digest,
        coord_sig: &request.coord_sig,
    }
}

/// Whether the entrance takes the refresh's nonce.
pub open spec fn refresh_takes_nonce(node: NodeView, request: &RefreshRequest, at: RefreshIngress) ->
    bool {
    !node.lockdown && entry_refusal(
        node,
        refresh_entry(request, at.digest),
        at.raw_now,
        at.mono_now,
    ) is None
}

/// How the entrance answers a refresh, `None` where it passes.
pub open spec fn refresh_entry_answer(
    node: NodeView,
    request: &RefreshRequest,
    at: RefreshIngress,
) -> Option<AnswerView> {
    let entry = entry_refusal(node, refresh_entry(request, at.digest), at.raw_now, at.mono_now);
    if node.lockdown {
        Some(Ok(lockdown_verdict()))
    } else if entry is Some {
        Some(Ok(entry->0))
    } else if propagation_fault(node, at.fits) is Some {
        Some(Err(propagation_fault(node, at.fits)->0))
    } else {
        None
    }
}

/// A refresh at the entrance. Nothing but the nonce log changes here.
pub fn refresh_ingress(node: &mut Node, request: &RefreshRequest, at: &RefreshIngress) -> (out: Result<
    (),
    Answer,
>)
    ensures
        match out {
            Ok(()) => refresh_entry_answer(old(node)@, request, *at) is None,
            Err(a) => refresh_entry_answer(old(node)@, request, *at) == Some(answer_view(a)),
        },
        final(node)@ == with_nonces(old(node)@, final(node)@.sign_state.coord_nonces),
        refresh_takes_nonce(old(node)@, request, *at) ==> old(node)@.sign_state.coord_nonces.claimed(
            refresh_entry(request, at.digest).claim(
                at.raw_now,
                old(node)@.params.max_commitment_age_secs,
                at.mono_now,
            ),
            final(node)@.sign_state.coord_nonces,
        ),
        !refresh_takes_nonce(old(node)@, request, *at) ==> final(node)@.sign_state.coord_nonces
            == old(node)@.sign_state.coord_nonces,
{
    if node.is_locked_down() {
        return Err(Ok(fraud_suspected()));
    }
    let coord = CoordRequest {
        nonce: &request.nonce,
        expiry: request.expiry,
        spend: false,
        digest: at.digest,
        coord_sig: &request.coord_sig,
    };
    let max_age = node.params.max_commitment_age_secs;
    if let Err(r) = verify_coord_auth(
        &node.keys.coordinator_auth,
        max_age,
        &coord,
        at.raw_now,
        &mut node.sign_state.coord_nonces,
        at.mono_now,
    ) {
        return Err(Ok(r));
    }
    if let Err(bad) = ensure_request_propagatable(node, at.fits) {
        return Err(Err(bad));
    }
    Ok(())
}

/// A refresh whose transaction has been read.
#[derive(Debug)]
pub struct RefreshJob {
    pub now: u64,
    pub refresh: Psbt,
    pub bytes: Vec<u8>,
}

/// The contents of a [`RefreshJob`].
pub struct RefreshJobView {
    pub now: u64,
    pub refresh: PsbtView,
    pub bytes: Seq<u8>,
}

impl View for RefreshJob {
    type V = RefreshJobView;

    open spec fn view(&self) -> RefreshJobView {
        RefreshJobView { now: self.now, refresh: self.refresh@, bytes: self.bytes@ }
    }
}

/// The verdict on a refresh whose expiry is past, or too far ahead.
pub open spec fn refresh_window_refusal(node: NodeView, expiry: u64, raw_now: u64, now: u64) ->
    Option<SignResponseView> {
    let max_age = node.params.max_commitment_age_secs;
    if expiry <= now || expiry > saturating(raw_now + max_age) {
        Some(
            refused(
                RefusalCode::CommitmentExpired,
                "commitment_expiry"@,
                "expiry "@ + decimal(expiry as nat)
                    + " is outside the acceptance window after chain preflight (now "@ + decimal(
                    now as nat,
                ) + ", max age "@ + decimal(max_age as nat) + "s)"@,
            ),
        )
    } else {
        None
    }
}

/// A refresh after the look at the chain, or the answer to one that stops there.
pub open spec fn refresh_reopened(node: NodeView, request: RefreshRequestView, raw_now: u64) -> Result<
    RefreshJobView,
    AnswerView,
> {
    let now = node.sign_state.coord_nonces.effective_now(raw_now);
    if node.lockdown {
        Err(Ok(lockdown_verdict()))
    } else if refresh_window_refusal(node, request.expiry, raw_now, now) is Some {
        Err(Ok(refresh_window_refusal(node, request.expiry, raw_now, now)->0))
    } else {
        match decoded(request.refresh_psbt, "refresh"@) {
            Err(e) => Err(Err(e)),
            Ok(refresh) => Ok(
                RefreshJobView { now, refresh, bytes: bytes_of(request.refresh_psbt) },
            ),
        }
    }
}

/// Reads the clock once more and the transaction of the refresh.
pub fn refresh_reopen(node: &Node, request: &RefreshRequest, raw_now: u64) -> (out: Result<
    RefreshJob,
    Answer,
>)
    ensures
        match out {
            Ok(job) => refresh_reopened(node@, request@, raw_now) == Result::<
                RefreshJobView,
                AnswerView,
            >::Ok(job@),
            Err(a) => refresh_reopened(node@, request@, raw_now) == Result::<
                RefreshJobView,
                AnswerView,
            >::Err(answer_view(a)),
        },
{
    if node.is_locked_down() {
        return Err(Ok(fraud_suspected()));
    }
    let now = node.sign_state.coord_nonces.effective_now(raw_now);
    let max_age = node.params.max_commitment_age_secs;
    if request.expiry <= now || request.expiry > raw_now.saturating_add(max_age) {
        let mut detail = owned("expiry ");
        push_decimal(&mut detail, request.expiry);
        detail.append(" is outside the acceptance window after chain preflight (now ");
        push_decimal(&mut detail, now);
        detail.append(", max age ");
        push_decimal(&mut detail, max_age);
        detail.append("s)");
        return Err(Ok(refusal(RefusalCode::CommitmentExpired, "commitment_expiry", detail)));
    }
    match decode_psbt(request.refresh_psbt.as_str(), "refresh") {
        Ok(refresh) => {
            let bytes = psbt_bytes(request.refresh_psbt.as_str());
            Ok(RefreshJob { now, refresh, bytes })
        },
        Err(bad) => Err(Err(bad)),
    }
}

/// What the refresh commits the node to: its name is the refresh's id.
pub fn refresh_commitment(node: &Node, job: &RefreshJob, expiry: u64) -> (made: Commitment)
    ensures
        made@ == commitment(node@.wallet_id, node@.params.policy_version, job@.refresh, expiry),
{
    commitment_of(node.wallet_id, node.params.policy_version, &job.refresh, expiry)
}

/// The key that an acceptance of the refresh is filed under.
pub open spec fn refresh_key(job: RefreshJobView, id: Seq<char>) -> Seq<char> {
    acceptance_key(seq![(id, job.bytes)])
}

/// A refresh held against what the node remembers: one answered before in just this
/// form is answered as before.
pub open spec fn refresh_looked_up(node: NodeView, job: RefreshJobView, id: Seq<char>) -> (
    NodeView,
    Result<Seq<char>, AnswerView>,
) {
    let key = refresh_key(job, id);
    let node = replay_pruned(node, job.now);
    match recorded(node.sign_state.replay, key, job.now) {
        Some(v) => (node, Err(Ok(v))),
        None => match recorded(node.sign_state.replay, id, job.now) {
            Some(v) => (node, Err(Ok(v))),
            None => (stores_pruned(node, job.now), Ok(key)),
        },
    }
}

/// Holds a refresh against what the node remembers. A refresh that passes comes with
/// the key its acceptance is to be filed under.
pub fn refresh_lookup(node: &mut Node, job: &RefreshJob, id: &String) -> (out: Result<String, Answer>)
    ensures
        ({
            let (node_after, passed) = refresh_looked_up(old(node)@, job@, id@);
            &&& final(node)@ == node_after
            &&& match out {
                Ok(key) => passed == Result::<Seq<char>, AnswerView>::Ok(key@),
                Err(a) => passed == Result::<Seq<char>, AnswerView>::Err(answer_view(a)),
            }
        }),
{
    let mut list: Vec<(String, Vec<u8>)> = Vec::new();
    list.push((id.clone(), copy_bytes(&job.bytes)));
    assert(candidate_views(list@) =~= seq![(id@, job@.bytes)]);
    let key = acceptance_replay_key(&list);
    node.sign_state.replay.prune(job.now);
    if let Some(v) = node.sign_state.replay.get(&key, job.now) {
        return Err(Ok(v));
    }
    if let Some(v) = node.sign_state.replay.get(id, job.now) {
        return Err(Ok(v));
    }
    prune_stores(node, job.now);
    Ok(key)
}

/// Why a transaction is no refresh, if it is none: every output must pay the vault.
pub open spec fn refresh_class_refusal(policy: PolicyVerdictView) -> Option<SignResponseView> {
    match policy.classification {
        Err(v) => Some(violation_response(v)),
        Ok(c) => if c.class == TxClass::Refresh {
            None
        } else {
            Some(
                refused(
                    RefusalCode::PsbtInconsistent,
                    "transaction_class"@,
                    "a RefreshRequest must be a pure self-spend, but this is "@ + class_name(
                        c.class,
                    ) + "-class: every output must pay the vault descriptor"@,
                ),
            )
        },
    }
}

/// Why the content of a refresh is refused, if it is: these refusals are filed where
/// they may be.
pub open spec fn refresh_content_refusal(
    node: NodeView,
    job: RefreshJobView,
    fetched: Option<PrevoutFetchView>,
    policy: PolicyVerdictView,
) -> Option<SignResponseView> {
    if spend_refusal(node, job.refresh, fetched, policy) is Some {
        spend_refusal(node, job.refresh, fetched, policy)
    } else {
        refresh_class_refusal(policy)
    }
}

/// Whether a spend stands before every refresh at `now`: one is held, or one is on
/// its way.
pub open spec fn spend_comes_first(node: NodeView, now: u64) -> bool {
    (exists|id: Seq<char>| pending_at(node.sign_state.pending, now).contains_key(id))
        || node.spend_preflight > 0
}

/// The verdict on a refresh while a spend stands before it.
pub open spec fn subordinated() -> SignResponseView {
    refused(
        RefusalCode::RefreshSubordinated,
        "refresh_subordination"@,
        "a spend is pending on this node; refreshes are subordinate to pending spends (retry once it settles)"@,
    )
}

/// The verdict on a refresh of a coin that was refreshed too short a time ago: the
/// first such coin from `index` on.
pub open spec fn interval_refusal(
    log: Map<OutPoint, u64>,
    inputs: Seq<TxIn>,
    now: u64,
    min_interval: u64,
    index: int,
) -> Option<SignResponseView>
    decreases inputs.len() - index,
{
    if index >= inputs.len() {
        None
    } else {
        let coin = inputs[index].previous_output;
        if log.contains_key(coin) && seconds_since(log[coin], now) < min_interval {
            Some(
                refused(
                    RefusalCode::RefreshTooSoon,
                    "refresh_min_interval"@,
                    "coin "@ + outpoint_text(coin) + " was refreshed "@ + decimal(
                        seconds_since(log[coin], now) as nat,
                    ) + "s ago, inside the "@ + decimal(min_interval as nat)
                        + "s minimum refresh interval"@,
                ),
            )
        } else {
            interval_refusal(log, inputs, now, min_interval, index + 1)
        }
    }
}

/// Refuses a refresh of a coin that was refreshed too short a time ago.
pub fn check_refresh_interval(node: &Node, refresh: &Psbt, now: u64) -> (out: Option<SignResponse>)
    ensures
        match out {
            Some(r) => interval_refusal(
                node@.sign_state.refreshes,
                refresh@.unsigned_tx.input,
                now,
                node@.params.refresh_min_interval_secs,
                0,
            ) == Some(r@),
            None => interval_refusal(
                node@.sign_state.refreshes,
                refresh@.unsigned_tx.input,
                now,
                node@.params.refresh_min_interval_secs,
                0,
            ) is None,
        },
{
    let inputs = &refresh.unsigned_tx.input;
    let min_interval = node.params.refresh_min_interval_secs;
    let ghost log = node@.sign_state.refreshes;
    let mut index: usize = 0;
    while index < inputs.len()
        invariant
            index <= inputs.len(),
            log == node@.sign_state.refreshes,
            inputs@ == refresh@.unsigned_tx.input,
            min_interval == node@.params.refresh_min_interval_secs,
            interval_refusal(log, inputs@, now, min_interval, 0) == interval_refusal(
                log,
                inputs@,
                now,
                min_interval,
                index as int,
            ),
        decreases inputs.len() - index,
    {
        let coin = inputs[index].previous_output;
        if let Some(last) = node.sign_state.refreshes.last_refresh(&coin) {
            let elapsed = now.saturating_sub(last);
            if elapsed < min_interval {
                let mut detail = owned("coin ");
                push_outpoint(&mut detail, &coin);
                detail.append(" was refreshed ");
                push_decimal(&mut detail, elapsed);
                detail.append("s ago, inside the ");
                push_decimal(&mut detail, min_interval);
                detail.append("s minimum refresh interval");
                return Some(
                    refusal(RefusalCode::RefreshTooSoon, "refresh_min_interval", detail),
                );
            }
        }
        index += 1;
    }
    None
}

/// The size of an unsigned transaction in virtual bytes.
pub open spec fn virtual_size(weight: u64) -> int {
    (weight + 3) / 4
}

/// The verdict on a refresh that pays more than the capped rate, `None` where it
/// does not.
pub open spec fn feerate_refusal(node: NodeView, refresh: PsbtView) -> Option<SignResponseView> {
    let fee = saturating(
        declared_total(refresh.inputs) - output_total(refresh.unsigned_tx.output),
    );
    let vsize = virtual_size(transaction_weight(refresh.unsigned_tx));
    let rate = node.params.refresh_max_feerate;
    let cap = rate * vsize;
    if vsize > 0 && fee > cap {
        Some(
            refused(
                RefusalCode::RefreshFeeExceedsCap,
                "refresh_fee_cap"@,
                "refresh pays "@ + decimal(fee as nat) + " sat over "@ + decimal(vsize as nat)
                    + " vB, above the "@ + decimal(rate as nat) + " sat/vB refresh cap ("@
                    + decimal(cap as nat) + " sat)"@,
            ),
        )
    } else {
        None
    }
}

/// Refuses a refresh that pays more than the capped rate.
pub fn check_refresh_feerate(node: &Node, refresh: &Psbt) -> (out: Option<SignResponse>)
    ensures
        match out {
            Some(r) => feerate_refusal(node@, refresh@) == Some(r@),
            None => feerate_refusal(node@, refresh@) is None,
        },
{
    let fee = total_declared(&refresh.inputs).saturating_sub(
        total_out(&refresh.unsigned_tx.output),
    );
    let wu = weight(&refresh.unsigned_tx);
    let vsize: u64 = wu / 4 + (if wu % 4 == 0 {
        0u64
    } else {
        1u64
    });
    assert(vsize == virtual_size(wu));
    if vsize == 0 {
        return None;
    }
    let rate = node.params.refresh_max_feerate;
    assert(0 <= rate * vsize <= u128::MAX) by (nonlinear_arith)
        requires
            0 <= rate <= u64::MAX,
            0 <= vsize <= u64::MAX,
    ;
    let cap: u128 = rate as u128 * vsize as u128;
    if fee as u128 > cap {
        let mut detail = owned("refresh pays ");
        push_decimal(&mut detail, fee);
        detail.append(" sat over ");
        push_decimal(&mut detail, vsize);
        detail.append(" vB, above the ");
        push_decimal(&mut detail, rate);
        detail.append(" sat/vB refresh cap (");
        push_decimal_wide(&mut detail, cap);
        detail.append(" sat)");
        return Some(refusal(RefusalCode::RefreshFeeExceedsCap, "refresh_fee_cap", detail));
    }
    None
}

/// Why a refresh that is one has to wait, if it has to: no such refusal is filed.
pub open spec fn refresh_order_refusal(node: NodeView, job: RefreshJobView) -> Option<
    SignResponseView,
> {
    let interval = interval_refusal(
        node.sign_state.refreshes,
        job.refresh.unsigned_tx.input,
        job.now,
        node.params.refresh_min_interval_secs,
        0,
    );
    if spend_comes_first(node, job.now) {
        Some(subordinated())
    } else if interval is Some {
        interval
    } else if feerate_refusal(node, job.refresh) is Some {
        feerate_refusal(node, job.refresh)
    } else if signing_failure(node.keys, job.refresh, 0) is Some {
        Some(unsigned_verdict(signing_failure(node.keys, job.refresh, 0)->0))
    } else {
        None
    }
}

/// The refresh as it is to be kept: it fires at once, and is its own escape.
pub open spec fn refresh_to_register(
    node: NodeView,
    request: RefreshRequestView,
    job: RefreshJobView,
    id: Seq<char>,
    carrier: Seq<char>,
) -> RegisterPairView {
    let latest = saturating(job.now + node.params.combine_slack_secs);
    RegisterPairView {
        spend: node_signed(node.keys, job.refresh),
        spend_commitment_id: id,
        spend_hot: false,
        duress: false,
        confirmation_required: false,
        escape: node_signed(node.keys, job.refresh),
        escape_bumps: Seq::empty(),
        escape_commitment_id: id,
        fire: FireWindow {
            fire_at: job.now,
            deadline: if request.expiry < latest {
                request.expiry
            } else {
                latest
            },
        },
        expiry: request.expiry,
        now: job.now,
        hot_reserve: None,
        carrier,
    }
}

/// A refresh judged and signed.
pub open spec fn refresh_judged(
    node: NodeView,
    request: RefreshRequestView,
    job: RefreshJobView,
    id: Seq<char>,
    carrier: Seq<char>,
    fetched: Option<PrevoutFetchView>,
    policy: PolicyVerdictView,
) -> (NodeView, Result<Option<RegistrationView>, AnswerView>) {
    match refresh_content_refusal(node, job, fetched, policy) {
        Some(r) => (filed(node, id, request.expiry, r), Err(Ok(r))),
        None => match refresh_order_refusal(node, job) {
            Some(r) => (node, Err(Ok(r))),
            None => (
                node,
                Ok(
                    if node.channel is Some {
                        Some(
                            refresh_to_register(node, request, job, id, carrier).registration(
                                node.params.epsilon_secs,
                            ),
                        )
                    } else {
                        None
                    },
                ),
            ),
        },
    }
}

/// Judges a refresh and signs it. A spend that is held or on its way stands before
/// it.
pub fn refresh_judge(
    node: &mut Node,
    request: &RefreshRequest,
    job: &RefreshJob,
    id: &String,
    carrier: &String,
    fetched: &Option<PrevoutFetch>,
    policy: &PolicyVerdict,
) -> (out: Result<Option<Registration>, Answer>)
    ensures
        ({
            let (node_after, passed) = refresh_judged(
                old(node)@,
                request@,
                job@,
                id@,
                carrier@,
                fetch_opt_view(*fetched),
                policy@,
            );
            &&& final(node)@ == node_after
            &&& match out {
                Ok(ask) => passed == Result::<Option<RegistrationView>, AnswerView>::Ok(
                    registration_view(ask),
                ),
                Err(a) => passed == Result::<Option<RegistrationView>, AnswerView>::Err(
                    answer_view(a),
                ),
            }
        }),
{
    if let Err(r) = check_refresh_content(node, job, fetched, policy) {
        record_verdict(node, id, request.expiry, &r);
        return Err(Ok(r));
    }
    if node.sign_state.pending.has_any(job.now) || node.spend_preflight_in_flight() {
        return Err(
            Ok(
                refusal(
                    RefusalCode::RefreshSubordinated,
                    "refresh_subordination",
                    owned(
                        "a spend is pending on this node; refreshes are subordinate to pending spends (retry once it settles)",
                    ),
                ),
            ),
        );
    }
    if let Some(r) = check_refresh_interval(node, &job.refresh, job.now) {
        return Err(Ok(r));
    }
    if let Some(r) = check_refresh_feerate(node, &job.refresh) {
        return Err(Ok(r));
    }
    let mut spend = job.refresh.copy();
    if let Err(detail) = add_node_signatures(&node.keys, &mut spend) {
        return Err(Ok(refusal(RefusalCode::PsbtInconsistent, "signing", detail)));
    }
    let latest = job.now.saturating_add(node.params.combine_slack_secs);
    let escape = spend.copy();
    let to_keep = RegisterPair {
        spend,
        spend_commitment_id: id.clone(),
        spend_hot: false,
        duress: false,
        confirmation_required: false,
        escape,
        escape_bumps: Vec::new(),
        escape_commitment_id: id.clone(),
        fire: FireWindow {
            fire_at: job.now,
            deadline: if request.expiry < latest {
                request.expiry
            } else {
                latest
            },
        },
        expiry: request.expiry,
        now: job.now,
        hot_reserve: None,
        carrier: carrier.clone(),
    };
    assert(to_keep@.escape_bumps =~= Seq::<PsbtView>::empty());
    assert(to_keep@ == refresh_to_register(node@, request@, job@, id@, carrier@));
    Ok(register_pair(node, to_keep))
}

fn check_refresh_content(
    node: &Node,
    job: &RefreshJob,
    fetched: &Option<PrevoutFetch>,
    policy: &PolicyVerdict,
) -> (out: Result<(), SignResponse>)
    ensures
        crate::prevouts::refusal_view(out) == refresh_content_refusal(
            node@,
            job@,
            fetch_opt_view(*fetched),
            policy@,
        ),
{
    if let Err(r) = verify_spend(node, &job.refresh, fetched, policy) {
        return Err(r);
    }
    match &policy.classification {
        Err(v) => Err(violation_refusal(v)),
        Ok(c) => {
            if c.class == TxClass::Refresh {
                return Ok(());
            }
            let mut detail = owned("a RefreshRequest must be a pure self-spend, but this is ");
            detail.append(name_of_class(c.class));
            detail.append("-class: every output must pay the vault descriptor");
            Err(refusal(RefusalCode::PsbtInconsistent, "transaction_class", detail))
        },
    }
}

/// The verdict that accepts a refresh: there is nothing to wait for.
pub open spec fn refresh_accepted(job: RefreshJobView, id: Seq<char>) -> SignResponseView {
    SignResponseView::Accepted(
        AcceptedView { commitment_id: id, first_seen: job.now, remaining_secs: 0 },
    )
}

/// Why the registry stops the refresh, if it does.
pub open spec fn refresh_kept_refusal(node: NodeView, id: Seq<char>, answer: RegisterAnswer) -> Option<
    SignResponseView,
> {
    match node.channel {
        Some(_) => registration_refusal(node, seq![id], None, answer),
        None => None,
    }
}

/// A refresh after the registry's answer. One that is kept is accepted: its coins
/// count as refreshed, its transaction as authorized, it is handed on, and the
/// verdict is filed under the whole request.
pub open spec fn refresh_registered(
    node: NodeView,
    request: RefreshRequestView,
    job: RefreshJobView,
    id: Seq<char>,
    key: Seq<char>,
    answer: RegisterAnswer,
) -> (NodeView, AnswerView) {
    match refresh_kept_refusal(node, id, answer) {
        Some(r) => (node, Ok(r)),
        None => {
            let v = refresh_accepted(job, id);
            let known = NodeView {
                authorized: node.authorized.insert(transaction_id(job.refresh.unsigned_tx)),
                outbox: node.outbox.push(TaggedRequestView::Refresh(request)),
                sign_state: SignStateView {
                    refreshes: refreshed(node.sign_state.refreshes, job.refresh, job.now),
                    ..node.sign_state
                },
                ..node
            };
            (filed(known, key, request.expiry, v), Ok(v))
        },
    }
}

/// Takes note of the registry's answer and answers the refresh. Without peers no
/// registry is asked, and `answer` does not count.
pub fn refresh_register(
    node: &mut Node,
    request: &RefreshRequest,
    job: &RefreshJob,
    id: &String,
    key: &String,
    answer: &RegisterAnswer,
) -> (out: Answer)
    requires
        *answer matches RegisterAnswer::BuildFailed { index, .. } ==> index == 0,
    ensures
        (final(node)@, answer_view(out)) == refresh_registered(
            old(node)@,
            request@,
            job@,
            id@,
            key@,
            *answer,
        ),
{
    if node.channel.is_some() {
        let mut kept: Vec<String> = Vec::new();
        kept.push(id.clone());
        assert(texts(kept@) =~= seq![id@]);
        if let Err(r) = registration_verdict(node, &kept, None, answer) {
            return Ok(r);
        }
    }
    node.sign_state.refreshes.record(&job.refresh, job.now);
    node.authorize(compute_txid(&job.refresh.unsigned_tx));
    node.post(TaggedRequest::Refresh(request.copy()));
    let v = SignResponse::Accepted(
        Accepted { commitment_id: id.clone(), first_seen: job.now, remaining_secs: 0 },
    );
    record_verdict(node, key, request.expiry, &v);
    Ok(v)
}

/// All that the surroundings answer in the course of a refresh that nothing else
/// interrupts.
#[derive(Debug)]
pub struct RefreshFacts {
    pub at: RefreshIngress,
    pub chain: ChainAnswer,
    /// The wall clock after the look at the chain.
    pub reopen_at: u64,
    pub id: String,
    pub carrier: String,
    pub policy: PolicyVerdict,
    pub kept: RegisterAnswer,
}

/// The way of a refresh from its transaction to the verdict.
pub open spec fn refresh_opened_run(
    node: NodeView,
    request: RefreshRequestView,
    job: RefreshJobView,
    fetched: Option<PrevoutFetchView>,
    facts: RefreshFacts,
) -> (NodeView, AnswerView) {
    match refresh_looked_up(node, job, facts.id@) {
        (node, Err(a)) => (node, a),
        (node, Ok(key)) => match refresh_judged(
            node,
            request,
            job,
            facts.id@,
            facts.carrier@,
            fetched,
            facts.policy@,
        ) {
            (node, Err(a)) => (node, a),
            (node, Ok(_)) => refresh_registered(node, request, job, facts.id@, key, facts.kept),
        },
    }
}

/// The way of a refresh from the entrance to the verdict.
#[verifier::opaque]
pub open spec fn refresh_run(node: NodeView, request: RefreshRequestView, facts: RefreshFacts) -> (
    NodeView,
    AnswerView,
) {
    let fetched = prefetched(
        node,
        request.refresh_psbt,
        "refresh"@,
        chain_answer_view(facts.chain),
    );
    match refresh_reopened(node, request, facts.reopen_at) {
        Err(a) => (node, a),
        Ok(job) => refresh_opened_run(node, request, job, fetched, facts),
    }
}

pub(crate) proof fn lemma_refresh_frame(
    node: NodeView,
    request: RefreshRequestView,
    facts: RefreshFacts,
)
    ensures
        same_frame(node, refresh_run(node, request, facts).0),
{
    reveal(refresh_run);
}

fn run_refresh(node: &mut Node, request: &RefreshRequest, facts: RefreshFacts) -> (out: Answer)
    requires
        facts.kept matches RegisterAnswer::BuildFailed { index, .. } ==> index == 0,
    ensures
        (final(node)@, answer_view(out)) == refresh_run(old(node)@, request@, facts),
{
    reveal(refresh_run);
    let fetched = prefetch_prevouts(node, &request.refresh_psbt, "refresh", facts.chain);
    let job = match refresh_reopen(node, request, facts.reopen_at) {
        Ok(job) => job,
        Err(a) => return a,
    };
    let key = match refresh_lookup(node, &job, &facts.id) {
        Ok(key) => key,
        Err(a) => return a,
    };
    if let Err(a) = refresh_judge(
        node,
        request,
        &job,
        &facts.id,
        &facts.carrier,
        &fetched,
        &facts.policy,
    ) {
        return a;
    }
    refresh_register(node, request, &job, &facts.id, &key, &facts.kept)
}

/// Whether `after` is the node's nonce log once the entrance has seen a refresh.
pub open spec fn refresh_nonces_after(
    node: NodeView,
    request: &RefreshRequest,
    at: RefreshIngress,
    after: NonceLogView,
) -> bool {
    let nonces = node.sign_state.coord_nonces;
    if refresh_takes_nonce(node, request, at) {
        nonces.claimed(
            refresh_entry(request, at.digest).claim(
                at.raw_now,
                node.params.max_commitment_age_secs,
                at.mono_now,
            ),
            after,
        )
    } else {
        after == nonces
    }
}

/// The whole way of a refresh, where the entrance leaves the nonce log `nonces`.
pub open spec fn refresh_whole_run(
    node: NodeView,
    request: &RefreshRequest,
    facts: RefreshFacts,
    nonces: NonceLogView,
) -> (NodeView, AnswerView) {
    let passed = with_nonces(node, nonces);
    match refresh_entry_answer(node, request, facts.at) {
        Some(a) => (passed, a),
        None => refresh_run(passed, request@, facts),
    }
}

/// The whole way of a refresh that nothing interrupts.
pub fn handle_refresh(node: &mut Node, request: &RefreshRequest, facts: RefreshFacts) -> (out: Answer)
    requires
        facts.kept matches RegisterAnswer::BuildFailed { index, .. } ==> index == 0,
    ensures
        old(node)@.lockdown ==> final(node)@ == old(node)@ && answer_view(out) == AnswerView::Ok(
            lockdown_verdict(),
        ),
        (final(node)@, answer_view(out)) == refresh_whole_run(
            old(node)@,
            request,
            facts,
            final(node)@.sign_state.coord_nonces,
        ),
        refresh_nonces_after(
            old(node)@,
            request,
            facts.at,
            final(node)@.sign_state.coord_nonces,
        ),
{
    if let Err(a) = refresh_ingress(node, request, &facts.at) {
        return a;
    }
    proof {
        lemma_refresh_frame(node@, request@, facts);
    }
    run_refresh(node, request, facts)
}

/// A spend stands before every refresh: while one is held or on its way, no refresh
/// that reaches that point is accepted, and none changes what the node authorized,
/// hands on or counts as refreshed.
pub proof fn refreshes_are_subordinate(
    node: NodeView,
    request: RefreshRequestView,
    job: RefreshJobView,
    id: Seq<char>,
    carrier: Seq<char>,
    fetched: Option<PrevoutFetchView>,
    policy: PolicyVerdictView,
)
    requires
        spend_comes_first(node, job.now),
    ensures
        ({
            let (after, passed) = refresh_judged(
                node,
                request,
                job,
                id,
                carrier,
                fetched,
                policy,
            );
            &&& passed is Err
            &&& passed->Err_0 == AnswerView::Ok(
                match refresh_content_refusal(node, job, fetched, policy) {
                    Some(r) => r,
                    None => subordinated(),
                },
            )
            &&& after.authorized == node.authorized
            &&& after.outbox == node.outbox
            &&& after.sign_state.refreshes == node.sign_state.refreshes
        }),
{
}

} // verus!
