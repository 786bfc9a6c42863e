//! Laws of the checks that a request passes: what each of them lets through, and what
//! each refusal is called.

use vstd::prelude::*;
use vstd::utf8::encode_utf8;

use crate::acceptance::{lemma_signature_refuses, lemma_truth_refuses};
use crate::codec::{psbt_decoding, psbt_serialization, transaction_weight, trimmed};
use crate::coord::{decision_refusal, entry_refusal, signature_refusal, CoordRequest};
use crate::crypto::{der_signature, ecdsa_verifies, hex_bytes, is_hex, p2wsh_sighash};
use crate::ingress::{
    after_ingress, arm_intent, armed_job, clock_refusal, counted, decoded_bumps, decoded_pair,
    entry_request, ingress_answer, ingress_guard, only_late, ClockStage, Ingress, SignJobView,
};
use crate::ladder::ladder_fault;
use crate::measures::{
    capped, declared_amounts, every_declared_coin_counts, every_output_counts, output_amounts, sum,
};
use crate::node::{NodeKeysView, NodeView};
use crate::pin::{effective_verdict, PinVerdict};
use crate::policy::{
    violation_response, Classification, PolicyVerdictView, TxClass, ViolationCode, ViolationView,
};
use crate::prevouts::{
    disagreement_from, disagrees, fetch_failure, fetch_outcome, ground_truth_check, of_escape,
    outpoint_text, PrevoutFetchView, PrevoutView,
};
use crate::proto::{
    RefreshRequest, RefreshRequestView, RefusalCode, SignRequest, SignRequestView,
    SignResponseView, TaggedRequestView,
};
use crate::refresh::{
    feerate_refusal, interval_refusal, refresh_entry, refresh_entry_answer, refresh_judged,
    refresh_window_refusal, spend_comes_first, subordinated, RefreshIngress, RefreshJobView,
};
use crate::registry::{
    registration_refusal, velocity_refusal, ErrandView, HotReserveRefusal, RegisterAnswer,
    RegisterOutcome,
};
use crate::replay::NonceDecision;
use crate::signatures::{
    input_refusal, lemma_sig_found, sig_position, signatures_refusal, signing_failure,
};
use crate::spend::{bumps_refusal, pairing_refusal, too_short, PairingView};
use crate::text::{
    decimal, decimal_reads_back, hex_reads_back, lemma_tells, tells, txid_text,
};
use crate::tx::{OutPoint, PartialSigView, PsbtView, TxIn};
use crate::verdict::{
    escape_check, lockdown_verdict, pin_verdict_refusal, prefetched, spend_refusal,
};

verus! {

proof fn lemma_no_disagreement(psbt: PsbtView, prevouts: Seq<Option<PrevoutView>>, from: int)
    requires
        0 <= from <= prevouts.len(),
    ensures
        disagreement_from(psbt, prevouts, from) is None <==> forall|i: int|
            from <= i < prevouts.len() ==> {
                ||| #[trigger] prevouts[i] is None
                ||| i >= psbt.inputs.len()
                ||| psbt.inputs[i].witness_utxo is None
                ||| psbt.inputs[i].witness_utxo->0 == prevouts[i]->0.txout
            },
    decreases prevouts.len() - from,
{
    if from < prevouts.len() {
        lemma_no_disagreement(psbt, prevouts, from + 1);
        if disagrees(psbt, prevouts, from) {
            assert(prevouts[from] is Some);
        }
    }
}

/// A transaction passes the look at the chain exactly where the chain was asked and
/// answered for every input, and no input declares a coin that the chain shows with
/// another amount or another script.
pub proof fn no_coin_is_declared_but_as_it_is(psbt: PsbtView, fetched: Option<PrevoutFetchView>)
    requires
        fetched matches Some(Err(r)) ==> r is Refusal,
    ensures
        ground_truth_check(psbt, fetched) is None <==> {
            &&& fetched matches Some(Ok(prevouts))
            &&& prevouts.len() == psbt.unsigned_tx.input.len()
            &&& forall|i: int|
                0 <= i < prevouts.len() ==> {
                    ||| #[trigger] prevouts[i] is None
                    ||| i >= psbt.inputs.len()
                    ||| psbt.inputs[i].witness_utxo is None
                    ||| {
                        let declared = psbt.inputs[i].witness_utxo->0;
                        let found = prevouts[i]->0.txout;
                        declared.value == found.value && declared.script_pubkey
                            == found.script_pubkey
                    }
                }
        },
{
    if let Some(Ok(prevouts)) = fetched {
        lemma_no_disagreement(psbt, prevouts, 0);
    }
}

/// A look at the chain counts only where it answers for each input; else it is refused,
/// never passed over.
pub proof fn a_look_answers_for_each_input(
    inputs: nat,
    answer: Result<Seq<Option<PrevoutView>>, Seq<char>>,
)
    ensures
        match fetch_outcome(inputs, answer) {
            Ok(prevouts) => answer == Ok::<Seq<Option<PrevoutView>>, Seq<char>>(prevouts)
                && prevouts.len() == inputs,
            Err(r) => (answer matches Ok(prevouts) ==> prevouts.len() != inputs) && (
            r matches SignResponseView::Refusal(refusal) && refusal.code
                == RefusalCode::PsbtInconsistent),
        },
{
}

/// Where either look at the chain failed, the spend is told so, the look for the spend
/// before that for the escape.
pub proof fn a_failed_look_is_told(
    spend: Option<PrevoutFetchView>,
    escape: Option<PrevoutFetchView>,
)
    ensures
        fetch_failure(spend, escape) is Some <==> (spend matches Some(Err(_))) || (
        escape matches Some(Err(_))),
        spend matches Some(Err(r)) ==> fetch_failure(spend, escape) == Some(r),
{
}

proof fn lemma_position_by_key(sigs: Seq<PartialSigView>, pubkey: Seq<u8>, k: int)
    requires
        0 <= k < sigs.len(),
        sigs[k].pubkey == pubkey,
        forall|i: int, j: int|
            0 <= i < j < sigs.len() ==> (#[trigger] sigs[i]).pubkey != (#[trigger] sigs[j]).pubkey,
    ensures
        sig_position(sigs, pubkey) == k,
    decreases sigs.len(),
{
    if k > 0 {
        assert(sigs[0].pubkey != sigs[k].pubkey);
        let rest = sigs.skip(1);
        assert forall|i: int, j: int| 0 <= i < j < rest.len() implies (#[trigger] rest[i]).pubkey
            != (#[trigger] rest[j]).pubkey by {
            assert(sigs[i + 1].pubkey != sigs[j + 1].pubkey);
        }
        lemma_position_by_key(rest, pubkey, k - 1);
    }
}

proof fn lemma_inputs_pass(keys: NodeKeysView, psbt: PsbtView, from: int)
    requires
        0 <= from <= psbt.inputs.len(),
        forall|i: int| from <= i < psbt.inputs.len() ==> input_refusal(keys, psbt, i) is None,
    ensures
        signatures_refusal(keys, psbt, from) is None,
    decreases psbt.inputs.len() - from,
{
    if from < psbt.inputs.len() {
        assert(input_refusal(keys, psbt, from) is None);
        lemma_inputs_pass(keys, psbt, from + 1);
    }
}

/// A transaction on which the user has signed every input for all of the transaction
/// passes the check of the user's signatures; each key is on file once.
pub proof fn what_the_user_signed_passes(keys: NodeKeysView, psbt: PsbtView)
    requires
        forall|i: int|
            0 <= i < psbt.inputs.len() ==> {
                let input = #[trigger] psbt.inputs[i];
                &&& input.witness_utxo matches Some(utxo)
                &&& p2wsh_sighash(
                    psbt.unsigned_tx,
                    i as nat,
                    keys.witness_script,
                    utxo.value,
                    1,
                ) matches Ok(digest)
                &&& exists|k: int|
                    0 <= k < input.partial_sigs.len() && (#[trigger] input.partial_sigs[k]).pubkey
                        == keys.user_pubkey && input.partial_sigs[k].sighash_type == 1
                        && ecdsa_verifies(digest, input.partial_sigs[k].signature, keys.user_pubkey)
                &&& forall|a: int, b: int|
                    0 <= a < b < input.partial_sigs.len() ==> (
                    #[trigger] input.partial_sigs[a]).pubkey != (
                    #[trigger] input.partial_sigs[b]).pubkey
            },
    ensures
        signatures_refusal(keys, psbt, 0) is None,
{
    assert forall|i: int| 0 <= i < psbt.inputs.len() implies input_refusal(keys, psbt, i) is None by {
        let input = psbt.inputs[i];
        let digest = p2wsh_sighash(
            psbt.unsigned_tx,
            i as nat,
            keys.witness_script,
            input.witness_utxo->0.value,
            1,
        )->Ok_0;
        let k = choose|k: int|
            0 <= k < input.partial_sigs.len() && (#[trigger] input.partial_sigs[k]).pubkey
                == keys.user_pubkey && input.partial_sigs[k].sighash_type == 1 && ecdsa_verifies(
                digest,
                input.partial_sigs[k].signature,
                keys.user_pubkey,
            );
        lemma_position_by_key(input.partial_sigs, keys.user_pubkey, k);
    }
    lemma_inputs_pass(keys, psbt, 0);
}

/// A request is let in only under a signature of the coordinator: hex of a DER signature
/// that verifies over the digest of the request under the pinned key.
pub proof fn only_the_coordinator_is_heard(
    node: NodeView,
    request: CoordRequest,
    now: u64,
    mono_now: Option<u64>,
)
    ensures
        signature_refusal(request.digest, request.coord_sig@, node.keys.coordinator_auth) is None
            <==> {
            &&& is_hex(request.coord_sig@)
            &&& der_signature(hex_bytes(request.coord_sig@)) is Some
            &&& ecdsa_verifies(
                request.digest,
                hex_bytes(request.coord_sig@),
                node.keys.coordinator_auth,
            )
        },
        entry_refusal(node, request, now, mono_now) is None <==> {
            &&& is_hex(request.coord_sig@)
            &&& der_signature(hex_bytes(request.coord_sig@)) is Some
            &&& ecdsa_verifies(
                request.digest,
                hex_bytes(request.coord_sig@),
                node.keys.coordinator_auth,
            )
            &&& node.sign_state.coord_nonces.decision(
                request.claim(now, node.params.max_commitment_age_secs, mono_now),
            ) == NonceDecision::Accepted
        },
{
}

/// A spend passes the clock exactly where it expires after now, no later than the age that
/// a request may reach after the clock, and, on a node with peers, late enough for all
/// of them to have it.
pub proof fn what_passes_the_clock(
    node: NodeView,
    expiry: u64,
    raw_now: u64,
    now: u64,
    stage: ClockStage,
)
    ensures
        clock_refusal(node, expiry, raw_now, now, stage) is None <==> {
            &&& now < expiry
            &&& expiry <= raw_now + node.params.max_commitment_age_secs
            &&& node.channel is Some ==> capped(now + node.params.delivery_horizon_secs) <= expiry
        },
        refresh_window_refusal(node, expiry, raw_now, now) is None <==> now < expiry && expiry
            <= raw_now + node.params.max_commitment_age_secs,
{
}

/// A hot spend must leave time for its hold and for combining; a spend to the escape wallet
/// need not.
pub proof fn a_hot_spend_needs_time(node: NodeView, expiry: u64, now: u64, c: Classification)
    ensures
        too_short(node, expiry, now, c) is Some <==> c.class == TxClass::Hot
            && expiry < capped(
            now + node.params.hold_secs + node.params.combine_slack_secs,
        ),
{
}

/// A pin counts as what the comparison found, unless it is empty or longer than a pin may
/// be: then it is wrong.
pub proof fn an_odd_pin_is_wrong(compared: PinVerdict, pin: Seq<char>, max_pin_bytes: usize)
    ensures
        ({
            let n = encode_utf8(pin).len();
            &&& pin.len() > 0 && n <= max_pin_bytes ==> effective_verdict(
                compared,
                pin,
                max_pin_bytes,
            ) == compared
            &&& pin.len() == 0 || n > max_pin_bytes ==> effective_verdict(
                compared,
                pin,
                max_pin_bytes,
            ) == PinVerdict::Wrong
        }),
{
}

/// A duress pin is counted once, another pin not at all, and nothing else changes.
pub proof fn duress_is_counted_once(node: NodeView, verdict: PinVerdict)
    requires
        node.duress_arm < u64::MAX,
    ensures
        verdict == PinVerdict::Duress ==> counted(node, verdict).duress_arm == node.duress_arm + 1,
        verdict != PinVerdict::Duress ==> counted(node, verdict) == node,
        counted(node, verdict).sign_state == node.sign_state,
        counted(node, verdict).errands == node.errands,
        counted(node, verdict).outbox == node.outbox,
{
}

/// On a node with peers every spend leaves the same intent whatever its pin was, but for
/// the one mark that says whether the pin was the duress pin.
pub proof fn every_pin_leaves_an_intent(
    node: NodeView,
    job: SignJobView,
    verdict: PinVerdict,
    carrier: Seq<char>,
    raw_now: u64,
)
    requires
        node.channel is Some,
        job.guard is Some,
    ensures
        ({
            let armed = armed_job(node, job, verdict, carrier, raw_now);
            &&& arm_intent(node, armed) matches Some(intent)
            &&& intent.duress == (verdict == PinVerdict::Duress)
            &&& intent.carrier == carrier
            &&& intent.nonce == job.guard->0.nonce
            &&& intent.generation == job.guard->0.generation
            &&& intent.first_seen == job.first_seen
            &&& intent.now >= raw_now && intent.now >= node.sign_state.coord_nonces.high_water
            &&& intent.timing.duress_delay_secs == node.params.duress_delay_secs
            &&& intent.timing.epsilon_secs == node.params.epsilon_secs
            &&& intent.timing.combine_slack_secs == node.params.combine_slack_secs
        }),
{
}

/// A spend passes the entrance exactly on a node that is not locked down, under the
/// coordinator's signature and a fresh nonce, where it fits one message of the channel and
/// leaves the peers time. While it is on its way it counts as one spend more; one that
/// came too late alone is handed on; and any other changes nothing.
pub proof fn what_passes_the_entrance(node: NodeView, request: &SignRequest, at: Ingress)
    requires
        node.spend_preflight < usize::MAX,
    ensures
        ({
            let now = node.sign_state.coord_nonces.effective_now(at.raw_now);
            let known = entry_refusal(
                node,
                entry_request(request, at.digest),
                at.raw_now,
                at.mono_now,
            ) is None;
            let sendable = node.channel is None || at.fits;
            let timely = node.channel is None || capped(now + node.params.delivery_horizon_secs)
                <= request.expiry;
            let after = after_ingress(node, request, at);
            &&& ingress_answer(node, request, at) is None <==> !node.lockdown && known && sendable
                && timely
            &&& ingress_answer(node, request, at) is None ==> after.spend_preflight
                == node.spend_preflight + 1 && after.outbox == node.outbox
            &&& only_late(node, request, at) <==> !node.lockdown && known && sendable && !timely
            &&& only_late(node, request, at) ==> after == NodeView {
                outbox: node.outbox.push(TaggedRequestView::Spend(request@)),
                ..node
            }
            &&& ingress_answer(node, request, at) is Some && !only_late(node, request, at) ==> after
                == node
        }),
{
}

/// On a node with peers a spend that passes the entrance claims its own nonce, under the
/// generation that its signature, its expiry and its deadline make.
pub proof fn a_spend_claims_its_nonce(node: NodeView, request: &SignRequest, at: Ingress)
    requires
        ingress_answer(node, request, at) is None,
        node.channel is Some,
        at.mono_now is Some,
    ensures
        ({
            let now = node.sign_state.coord_nonces.effective_now(at.raw_now);
            &&& ingress_guard(node, request, at) matches Some(guard)
            &&& guard.nonce == request.nonce@
            &&& guard.owns_memo
            &&& guard.ruling_carrier is None
            &&& guard.generation.signature_tag == at.signature_tag
            &&& guard.generation.expiry == request.expiry
            &&& guard.generation.deadline == at.mono_now->0 + (request.expiry - now)
            &&& after_ingress(node, request, at).errands == node.errands.push(
                ErrandView::ClaimNonce {
                    nonce: request.nonce@,
                    generation: guard.generation,
                    mono_now: at.mono_now->0,
                },
            )
        }),
{
}

proof fn lemma_decoded_bumps(texts: Seq<Seq<char>>)
    ensures
        match decoded_bumps(texts) {
            Ok(bumps) => bumps.len() == texts.len() && forall|i: int|
                0 <= i < texts.len() ==> psbt_decoding(trimmed(#[trigger] texts[i])) == Ok::<
                    PsbtView,
                    Seq<char>,
                >(bumps[i]),
            Err(_) => exists|i: int|
                0 <= i < texts.len() && psbt_decoding(trimmed(#[trigger] texts[i])) is Err,
        },
    decreases texts.len(),
{
    if texts.len() > 0 {
        let rest = texts.drop_last();
        lemma_decoded_bumps(rest);
        match decoded_bumps(rest) {
            Ok(before) => {
                if let Ok(bumps) = decoded_bumps(texts) {
                    assert forall|i: int| 0 <= i < texts.len() implies psbt_decoding(
                        trimmed(#[trigger] texts[i]),
                    ) == Ok::<PsbtView, Seq<char>>(bumps[i]) by {
                        if i < rest.len() {
                            assert(rest[i] == texts[i]);
                        }
                    }
                } else {
                    assert(psbt_decoding(trimmed(texts[texts.len() - 1])) is Err);
                }
            },
            Err(_) => {
                let i = choose|i: int|
                    0 <= i < rest.len() && psbt_decoding(trimmed(#[trigger] rest[i])) is Err;
                assert(psbt_decoding(trimmed(texts[i])) is Err);
            },
        }
    }
}

/// A spend is read exactly where each of its texts can be read and there are no more than
/// three bumps; what is judged is what the texts hold, each bump in its
/// place.
pub proof fn a_spend_is_read_whole(request: SignRequestView)
    ensures
        match decoded_pair(request) {
            Ok(pair) => {
                &&& psbt_decoding(trimmed(request.psbt)) == Ok::<PsbtView, Seq<char>>(pair.spend)
                &&& psbt_decoding(trimmed(request.escape_psbt)) == Ok::<PsbtView, Seq<char>>(
                    pair.escape,
                )
                &&& request.escape_bumps.len() <= 3
                &&& pair.bumps.len() == request.escape_bumps.len()
                &&& pair.bump_bytes.len() == request.escape_bumps.len()
                &&& pair.spend_bytes == psbt_serialization(trimmed(request.psbt))
                &&& pair.escape_bytes == psbt_serialization(trimmed(request.escape_psbt))
                &&& forall|i: int|
                    0 <= i < request.escape_bumps.len() ==> {
                        let text = trimmed(#[trigger] request.escape_bumps[i]);
                        &&& psbt_decoding(text) == Ok::<PsbtView, Seq<char>>(pair.bumps[i])
                        &&& pair.bump_bytes[i] == psbt_serialization(text)
                    }
            },
            Err(_) => {
                ||| psbt_decoding(trimmed(request.psbt)) is Err
                ||| psbt_decoding(trimmed(request.escape_psbt)) is Err
                ||| request.escape_bumps.len() > 3
                ||| exists|i: int|
                    0 <= i < request.escape_bumps.len() && psbt_decoding(
                        trimmed(#[trigger] request.escape_bumps[i]),
                    ) is Err
            },
        },
{
    lemma_decoded_bumps(request.escape_bumps);
}

/// Whether a verdict is a refusal of this code.
pub open spec fn refuses_with(verdict: Option<SignResponseView>, code: RefusalCode) -> bool {
    verdict matches Some(SignResponseView::Refusal(r)) && r.code == code
}

proof fn lemma_interval_code(
    log: Map<OutPoint, u64>,
    inputs: Seq<TxIn>,
    now: u64,
    min_interval: u64,
    from: int,
)
    ensures
        ({
            let out = interval_refusal(log, inputs, now, min_interval, from);
            out is Some ==> refuses_with(out, RefusalCode::RefreshTooSoon)
        }),
    decreases inputs.len() - from,
{
    if from < inputs.len() {
        lemma_interval_code(log, inputs, now, min_interval, from + 1);
    }
}

/// Every refusal goes by the code of the rule that made it.
pub proof fn a_refusal_names_its_rule(
    node: NodeView,
    expiry: u64,
    raw_now: u64,
    now: u64,
    stage: ClockStage,
    c: Classification,
    refresh: PsbtView,
    outflow: u64,
    over: HotReserveRefusal,
    locked: bool,
)
    ensures
        refuses_with(Some(lockdown_verdict()), RefusalCode::FraudSuspected),
        refuses_with(Some(pin_verdict_refusal(locked)), RefusalCode::BadPin),
        refuses_with(Some(subordinated()), RefusalCode::RefreshSubordinated),
        refuses_with(
            Some(velocity_refusal(node, outflow, over)),
            RefusalCode::HotVelocityExceeded,
        ),
        ({
            let out = clock_refusal(node, expiry, raw_now, now, stage);
            let late = expiry <= now || expiry > raw_now + node.params.max_commitment_age_secs;
            out is Some ==> refuses_with(
                out,
                if late {
                    RefusalCode::CommitmentExpired
                } else {
                    RefusalCode::ExpiryTooShort
                },
            )
        }),
        ({
            let out = too_short(node, expiry, now, c);
            out is Some ==> refuses_with(out, RefusalCode::ExpiryTooShort)
        }),
        ({
            let out = feerate_refusal(node, refresh);
            out is Some ==> refuses_with(out, RefusalCode::RefreshFeeExceedsCap)
        }),
        ({
            let out = interval_refusal(
                node.sign_state.refreshes,
                refresh.unsigned_tx.input,
                now,
                node.params.refresh_min_interval_secs,
                0,
            );
            out is Some ==> refuses_with(out, RefusalCode::RefreshTooSoon)
        }),
{
    lemma_interval_code(
        node.sign_state.refreshes,
        refresh.unsigned_tx.input,
        now,
        node.params.refresh_min_interval_secs,
        0,
    );
}

/// A refused nonce goes by the code of what is wrong with it.
pub proof fn a_refused_nonce_names_its_fault(decision: NonceDecision, expiry: u64, max_age: u64)
    ensures
        ({
            let out = decision_refusal(decision, expiry, max_age);
            match decision {
                NonceDecision::Accepted => out is None,
                NonceDecision::InvalidLength => refuses_with(out, RefusalCode::CoordAuthInvalid),
                NonceDecision::OutsideWindow { .. } => refuses_with(
                    out,
                    RefusalCode::CommitmentExpired,
                ),
                NonceDecision::Replayed => refuses_with(out, RefusalCode::NonceReplayed),
                NonceDecision::AtCapacity => refuses_with(out, RefusalCode::CoordNonceCapacity),
            }
        }),
{
}

/// A violation of the policy is passed on as it is: its check and its words unchanged, and
/// different codes stay different. One over the escape says so and keeps its code.
pub proof fn a_violation_is_passed_on(a: ViolationView, b: ViolationView)
    ensures
        violation_response(a) matches SignResponseView::Refusal(r) && r.check == a.check && r.detail
            == a.detail,
        (violation_response(a)->Refusal_0.code == violation_response(b)->Refusal_0.code) == (a.code
            == b.code),
        a.code == ViolationCode::HotBudgetExceeded ==> refuses_with(
            Some(violation_response(a)),
            RefusalCode::HotBudgetExceeded,
        ),
        a.code == ViolationCode::DestNotAllowed ==> refuses_with(
            Some(violation_response(a)),
            RefusalCode::DestNotAllowed,
        ),
        a.code == ViolationCode::FeeExceedsCap ==> refuses_with(
            Some(violation_response(a)),
            RefusalCode::FeeExceedsCap,
        ),
        of_escape(violation_response(a)) matches SignResponseView::Refusal(r) && r.code
            == violation_response(a)->Refusal_0.code && r.detail == a.detail && r.check
            == "escape:"@ + a.check,
{
}

/// A transaction passes exactly where the user's signatures do, where it agrees with the
/// chain if the node sees one, and where the policy allows it; the first of these that
/// fails is what it is refused for.
pub proof fn what_passes_as_a_spend(
    node: NodeView,
    psbt: PsbtView,
    fetched: Option<PrevoutFetchView>,
    policy: PolicyVerdictView,
)
    ensures
        ({
            let out = spend_refusal(node, psbt, fetched, policy);
            let signed = signatures_refusal(node.keys, psbt, 0);
            let truth = ground_truth_check(psbt, fetched);
            &&& out is None <==> signed is None && (node.has_backend ==> truth is None)
                && policy.evaluation is Ok
            &&& signed is Some ==> out == signed
            &&& signed is None && node.has_backend && truth is Some ==> out == truth
            &&& signed is None && (node.has_backend ==> truth is None) ==> (
            policy.evaluation matches Err(v) ==> out == Some(violation_response(v)))
        }),
{
}

/// A transaction passes as an escape exactly where it passes as a spend and the policy
/// finds that every destination is the escape wallet.
pub proof fn what_passes_as_an_escape(
    node: NodeView,
    psbt: PsbtView,
    fetched: Option<PrevoutFetchView>,
    policy: PolicyVerdictView,
)
    requires
        fetched matches Some(Err(r)) ==> r is Refusal,
    ensures
        escape_check(node, psbt, fetched, policy) is None <==> spend_refusal(
            node,
            psbt,
            fetched,
            policy,
        ) is None && (policy.classification matches Ok(c) && c.class == TxClass::Escape),
        escape_check(node, psbt, fetched, policy) matches Some(r) ==> r is Refusal,
{
    lemma_truth_refuses(psbt, fetched);
    lemma_signature_refuses(node.keys, psbt, 0);
}

proof fn lemma_bumps_iff(
    node: NodeView,
    bumps: Seq<PsbtView>,
    fetched: Option<PrevoutFetchView>,
    policies: Seq<PolicyVerdictView>,
    from: int,
)
    requires
        0 <= from <= bumps.len(),
    ensures
        bumps_refusal(node, bumps, fetched, policies, from) is None <==> forall|i: int|
            from <= i < bumps.len() ==> escape_check(
                node,
                #[trigger] bumps[i],
                fetched,
                policies[i],
            ) is None,
    decreases bumps.len() - from,
{
    if from < bumps.len() {
        lemma_bumps_iff(node, bumps, fetched, policies, from + 1);
        if escape_check(node, bumps[from], fetched, policies[from]) is Some {
            assert(bumps_refusal(node, bumps, fetched, policies, from) is Some);
        }
    }
}

/// A spend is paired exactly where its escape and each bump pass as escapes, the bumps are
/// a ladder, and the spend is either hot or goes to the escape wallet with an escape of
/// its own.
pub proof fn what_is_a_pair(node: NodeView, p: PairingView)
    ensures
        pairing_refusal(node, p) is None <==> {
            &&& escape_check(node, p.pair.escape, p.fetched, p.escape_policy) is None
            &&& forall|i: int|
                0 <= i < p.pair.bumps.len() ==> escape_check(
                    node,
                    #[trigger] p.pair.bumps[i],
                    p.fetched,
                    p.bump_policies[i],
                ) is None
            &&& ladder_fault(
                node.params.max_vault_satisfaction_weight,
                p.pair.escape,
                p.pair.bumps,
                p.ids.spend == p.ids.escape,
            ) is None
            &&& p.class.class == TxClass::Hot || (p.class.class == TxClass::Escape && p.ids.spend
                != p.ids.escape)
        },
{
    lemma_bumps_iff(node, p.pair.bumps, p.fetched, p.bump_policies, 0);
}

/// A refresh passes exactly where it passes as a spend, pays the vault alone, comes after
/// every spend, takes only coins that have rested, stays under the fee cap and can be
/// signed. A refusal over what it holds is filed under its name if it lasts; one that
/// only says that it has to wait is not.
pub proof fn what_passes_as_a_refresh(
    node: NodeView,
    request: RefreshRequestView,
    job: RefreshJobView,
    id: Seq<char>,
    carrier: Seq<char>,
    fetched: Option<PrevoutFetchView>,
    policy: PolicyVerdictView,
)
    ensures
        ({
            let (after, passed) = refresh_judged(
                node,
                request,
                job,
                id,
                carrier,
                fetched,
                policy,
            );
            let sound = spend_refusal(node, job.refresh, fetched, policy) is None && (
            policy.classification matches Ok(c) && c.class == TxClass::Refresh);
            let interval = interval_refusal(
                node.sign_state.refreshes,
                job.refresh.unsigned_tx.input,
                job.now,
                node.params.refresh_min_interval_secs,
                0,
            );
            let first = spend_comes_first(node, job.now);
            let dear = feerate_refusal(node, job.refresh);
            &&& passed is Ok <==> {
                &&& sound
                &&& !first
                &&& interval is None
                &&& dear is None
                &&& signing_failure(node.keys, job.refresh, 0) is None
            }
            &&& passed matches Ok(kept) ==> after == node && (kept is Some <==> node.channel
                is Some)
            &&& sound ==> after == node
            &&& sound && first ==> (passed matches Err(Ok(r)) && refuses_with(
                Some(r),
                RefusalCode::RefreshSubordinated,
            ))
            &&& sound && !first && interval is Some ==> (passed matches Err(Ok(r)) && Some(r)
                == interval)
            &&& sound && !first && interval is None && dear is Some ==> (passed matches Err(Ok(r))
                && Some(r) == dear)
        }),
{
}

/// A refresh passes the entrance exactly on a node that is not locked down, under the
/// coordinator's signature and a fresh nonce, where it fits one message of the channel;
/// it fixes no deadline.
pub proof fn what_refresh_passes_the_entrance(
    node: NodeView,
    request: &RefreshRequest,
    at: RefreshIngress,
)
    ensures
        ({
            let entry = refresh_entry(request, at.digest);
            let claim = entry.claim(
                at.raw_now,
                node.params.max_commitment_age_secs,
                at.mono_now,
            );
            &&& refresh_entry_answer(node, request, at) is None <==> {
                &&& !node.lockdown
                &&& signature_refusal(at.digest, request.coord_sig@, node.keys.coordinator_auth)
                    is None
                &&& node.sign_state.coord_nonces.decision(claim) == NonceDecision::Accepted
                &&& node.channel is None || at.fits
            }
            &&& claim.nonce == request.nonce@ && claim.expiry == request.expiry && claim.now
                == at.raw_now
            &&& claim.max_age == node.params.max_commitment_age_secs
            &&& !claim.fixes_deadline
        }),
{
}

/// The claim of a spend is to its own nonce up to its own expiry, by the wall clock, and
/// fixes a deadline exactly where the channel has a clock of its own.
pub proof fn what_a_spend_claims(
    request: &SignRequest,
    digest: [u8; 32],
    now: u64,
    max_age: u64,
    mono_now: Option<u64>,
)
    ensures
        ({
            let claim = entry_request(request, digest).claim(now, max_age, mono_now);
            &&& claim.nonce == request.nonce@
            &&& claim.expiry == request.expiry
            &&& claim.now == now && claim.max_age == max_age && claim.mono_now == mono_now
            &&& claim.fixes_deadline == (mono_now is Some)
            &&& entry_request(request, digest).digest == digest
            &&& entry_request(request, digest).coord_sig@ == request.coord_sig@
        }),
{
}

/// The chain is asked exactly where the node sees one and the text can be read; its answer
/// counts where it is one for each input of the transaction.
pub proof fn the_chain_answers_for_each_input(
    node: NodeView,
    text: Seq<char>,
    field: Seq<char>,
    answer: Result<Seq<Option<PrevoutView>>, Seq<char>>,
)
    ensures
        ({
            let out = prefetched(node, text, field, answer);
            let read = psbt_decoding(trimmed(text));
            &&& out is Some <==> node.has_backend && read is Ok
            &&& out matches Some(Ok(prevouts)) ==> answer == Ok::<
                Seq<Option<PrevoutView>>,
                Seq<char>,
            >(prevouts) && prevouts.len() == read->Ok_0.unsigned_tx.input.len()
            &&& out matches Some(Err(_)) ==> (answer matches Ok(prevouts) ==> prevouts.len()
                != read->Ok_0.unsigned_tx.input.len())
        }),
{
}

/// What is wrong with the user's signature on an input is called by its name: a coin or a
/// digest that is missing makes the transaction inconsistent, a signature for less than
/// all of it a bad type, and one that is missing or does not verify is invalid.
pub proof fn a_bad_signature_names_its_fault(keys: NodeKeysView, psbt: PsbtView, i: int)
    requires
        0 <= i < psbt.inputs.len(),
        input_refusal(keys, psbt, i) is Some,
    ensures
        ({
            let out = input_refusal(keys, psbt, i);
            let sigs = psbt.inputs[i].partial_sigs;
            let coin = psbt.inputs[i].witness_utxo;
            let digest = p2wsh_sighash(
                psbt.unsigned_tx,
                i as nat,
                keys.witness_script,
                coin->0.value,
                1,
            );
            if coin is None || digest is Err {
                refuses_with(out, RefusalCode::PsbtInconsistent)
            } else if forall|k: int|
                0 <= k < sigs.len() ==> (#[trigger] sigs[k]).pubkey != keys.user_pubkey {
                refuses_with(out, RefusalCode::UserSigInvalid)
            } else {
                ||| refuses_with(out, RefusalCode::BadSighash) && exists|k: int|
                    0 <= k < sigs.len() && (#[trigger] sigs[k]).pubkey == keys.user_pubkey
                        && sigs[k].sighash_type != 1
                ||| refuses_with(out, RefusalCode::UserSigInvalid) && exists|k: int|
                    0 <= k < sigs.len() && (#[trigger] sigs[k]).pubkey == keys.user_pubkey
                        && !ecdsa_verifies(digest->Ok_0, sigs[k].signature, keys.user_pubkey)
            }
        }),
{
    lemma_sig_found(psbt.inputs[i].partial_sigs, keys.user_pubkey);
}

proof fn lemma_first_input_refused(keys: NodeKeysView, psbt: PsbtView, from: int)
    requires
        0 <= from <= psbt.inputs.len(),
        signatures_refusal(keys, psbt, from) is Some,
    ensures
        exists|i: int|
            from <= i < psbt.inputs.len() && signatures_refusal(keys, psbt, from)
                == #[trigger] input_refusal(keys, psbt, i) && forall|k: int|
                from <= k < i ==> (#[trigger] input_refusal(keys, psbt, k)) is None,
    decreases psbt.inputs.len() - from,
{
    if input_refusal(keys, psbt, from) is None {
        lemma_first_input_refused(keys, psbt, from + 1);
        let i = choose|i: int|
            from + 1 <= i < psbt.inputs.len() && signatures_refusal(keys, psbt, from + 1)
                == #[trigger] input_refusal(keys, psbt, i) && forall|k: int|
                from + 1 <= k < i ==> (#[trigger] input_refusal(keys, psbt, k)) is None;
        assert forall|k: int| from <= k < i implies (#[trigger] input_refusal(keys, psbt, k))
            is None by {}
    }
}

/// A transaction is refused for the first of its inputs that the user has not signed.
pub proof fn the_first_bad_input_is_named(keys: NodeKeysView, psbt: PsbtView)
    requires
        signatures_refusal(keys, psbt, 0) is Some,
    ensures
        exists|i: int|
            0 <= i < psbt.inputs.len() && signatures_refusal(keys, psbt, 0)
                == #[trigger] input_refusal(keys, psbt, i) && forall|k: int|
                0 <= k < i ==> (#[trigger] input_refusal(keys, psbt, k)) is None,
{
    lemma_first_input_refused(keys, psbt, 0);
}

/// What the registry answers is called by its name: no room for candidates, no room for the
/// outflow, or a candidate that cannot be built or is taken.
pub proof fn the_registry_names_its_refusal(
    node: NodeView,
    ids: Seq<Seq<char>>,
    outflow: Option<u64>,
    answer: RegisterAnswer,
)
    ensures
        ({
            let out = registration_refusal(node, ids, outflow, answer);
            match answer {
                RegisterAnswer::BuildFailed { .. } => refuses_with(
                    out,
                    RefusalCode::PsbtInconsistent,
                ),
                RegisterAnswer::Refused(_) => refuses_with(
                    out,
                    if outflow is Some {
                        RefusalCode::HotVelocityExceeded
                    } else {
                        RefusalCode::PsbtInconsistent
                    },
                ),
                RegisterAnswer::Outcomes(outcomes) => {
                    let taken = exists|i: int|
                        0 <= i < outcomes@.len() && #[trigger] outcomes@[i]
                            == RegisterOutcome::Conflict;
                    let full = exists|i: int|
                        0 <= i < outcomes@.len() && #[trigger] outcomes@[i]
                            == RegisterOutcome::AtCapacity;
                    if taken {
                        refuses_with(out, RefusalCode::PsbtInconsistent)
                    } else if full {
                        refuses_with(out, RefusalCode::CandidateCapacity)
                    } else {
                        out is None
                    }
                },
            }
        }),
{
}

/// Two coins are written alike only where they are the same output of the same
/// transaction.
pub proof fn a_coin_is_written_whole(a: OutPoint, b: OutPoint)
    requires
        outpoint_text(a) == outpoint_text(b),
    ensures
        a.txid@ == b.txid@,
        a.vout == b.vout,
{
    reveal_strlit(":");
    let (x, y) = (txid_text(a.txid@), txid_text(b.txid@));
    hex_reads_back(a.txid@.reverse());
    hex_reads_back(b.txid@.reverse());
    assert(outpoint_text(a).take(64) =~= x);
    assert(outpoint_text(b).take(64) =~= y);
    assert(outpoint_text(a).skip(65) =~= decimal(a.vout as nat));
    assert(outpoint_text(b).skip(65) =~= decimal(b.vout as nat));
    decimal_reads_back(a.vout as nat);
    decimal_reads_back(b.vout as nat);
    assert(a.txid@.reverse() == b.txid@.reverse());
    assert forall|i: int| 0 <= i < 32 implies a.txid@[i] == b.txid@[i] by {
        assert(a.txid@.reverse()[31 - i] == b.txid@.reverse()[31 - i]);
    }
    assert(a.txid@ =~= b.txid@);
}

/// The words of a refusal over the velocity of hot spends tell what was asked, what the
/// window would then hold, how long it is and what it may hold.
pub proof fn a_velocity_refusal_tells_its_numbers(node: NodeView, outflow: u64, held: u64)
    ensures
        ({
            let budget = node.params.hot_budget;
            let out = velocity_refusal(node, outflow, HotReserveRefusal::Window(held));
            &&& out matches SignResponseView::Refusal(r)
            &&& tells(r.detail, outflow as nat)
            &&& tells(r.detail, capped(held + outflow) as nat)
            &&& tells(r.detail, budget.window_secs as nat)
            &&& tells(r.detail, budget.max_per_window_sat as nat)
        }),
{
    let budget = node.params.hot_budget;
    let text = velocity_refusal(node, outflow, HotReserveRefusal::Window(held))->Refusal_0.detail;
    let total = capped(held + outflow) as nat;
    let (a, b, c, d, e) = (
        "hot outflow "@,
        " sat would put this node's "@,
        "-second rolling hot outflow at "@,
        " sat, past the Hot budget of "@,
        " sat"@,
    );
    let (x, y, z, w) = (
        decimal(outflow as nat),
        decimal(budget.window_secs as nat),
        decimal(total),
        decimal(budget.max_per_window_sat as nat),
    );
    lemma_tells(text, a, outflow as nat, b + y + c + z + d + w + e);
    lemma_tells(text, a + x + b, budget.window_secs as nat, c + z + d + w + e);
    lemma_tells(text, a + x + b + y + c, total, d + w + e);
    lemma_tells(text, a + x + b + y + c + z + d, budget.max_per_window_sat as nat, e);
}

/// The words of a refusal for want of time tell the expiry, the earliest that would do and
/// the time that it was judged at.
pub proof fn a_short_expiry_is_told(node: NodeView, expiry: u64, now: u64, c: Classification)
    requires
        too_short(node, expiry, now, c) is Some,
    ensures
        ({
            let earliest = capped(now + node.params.hold_secs + node.params.combine_slack_secs);
            &&& too_short(node, expiry, now, c) matches Some(SignResponseView::Refusal(r))
            &&& tells(r.detail, expiry as nat)
            &&& tells(r.detail, earliest as nat)
            &&& tells(r.detail, now as nat)
        }),
{
    let text = too_short(node, expiry, now, c)->0->Refusal_0.detail;
    let earliest = capped(now + node.params.hold_secs + node.params.combine_slack_secs) as nat;
    let (a, b, d, e, f, g) = (
        "expiry "@,
        " is before "@,
        " (now "@,
        " + hold_secs "@,
        " + combine_slack_secs "@,
        "), so the spend could not finish combining before it expired"@,
    );
    let rest = e + decimal(node.params.hold_secs as nat) + f + decimal(
        node.params.combine_slack_secs as nat,
    ) + g;
    let (x, y, z) = (decimal(expiry as nat), decimal(earliest), decimal(now as nat));
    lemma_tells(text, a, expiry as nat, b + y + d + z + rest);
    lemma_tells(text, a + x + b, earliest, d + z + rest);
    lemma_tells(text, a + x + b + y + d, now as nat, rest);
}

/// The words of a refusal over the fee of a refresh tell the fee and the most that it may
/// be.
pub proof fn a_dear_refresh_is_told(node: NodeView, refresh: PsbtView, vsize: int)
    requires
        feerate_refusal(node, refresh) is Some,
        transaction_weight(refresh.unsigned_tx) <= 4 * vsize < transaction_weight(
            refresh.unsigned_tx,
        ) + 4,
    ensures
        ({
            let spent = capped(sum(declared_amounts(refresh.inputs)));
            let paid = capped(sum(output_amounts(refresh.unsigned_tx.output)));
            &&& feerate_refusal(node, refresh) matches Some(SignResponseView::Refusal(r))
            &&& tells(r.detail, (spent - paid) as nat)
            &&& tells(r.detail, vsize as nat)
            &&& tells(r.detail, (node.params.refresh_max_feerate * vsize) as nat)
        }),
{
    every_declared_coin_counts(refresh.inputs);
    every_output_counts(refresh.unsigned_tx.output);
    let spent = capped(sum(declared_amounts(refresh.inputs)));
    let paid = capped(sum(output_amounts(refresh.unsigned_tx.output)));
    let rate = node.params.refresh_max_feerate;
    assert(rate * vsize >= 0) by (nonlinear_arith)
        requires
            rate >= 0,
            vsize >= 0,
    ;
    let text = feerate_refusal(node, refresh)->0->Refusal_0.detail;
    let (fee, cap) = ((spent - paid) as nat, (rate * vsize) as nat);
    let (a, b, c, d, e) = (
        "refresh pays "@,
        " sat over "@,
        " vB, above the "@,
        " sat/vB refresh cap ("@,
        " sat)"@,
    );
    let (x, y, z, w) = (decimal(fee), decimal(vsize as nat), decimal(rate as nat), decimal(cap));
    assert(text =~= a + x + b + y + c + z + d + w + e);
    lemma_tells(text, a, fee, b + y + c + z + d + w + e);
    lemma_tells(text, a + x + b, vsize as nat, c + z + d + w + e);
    lemma_tells(text, a + x + b + y + c + z + d, cap, e);
}

} // verus!
