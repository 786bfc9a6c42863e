//! The dialogues of a node with its channel and its chain, and its ticks.

use bitcoin::secp256k1::{Message, Secp256k1, SecretKey};
use vault_node::broadcast::{
    is_settled_by, BroadcastEvent, BroadcastOutcome, BroadcastStep, BroadcastTerms, CombineEnd,
    CombineEvent, CombineFault, CombineStep, CombineTerms, PackageVerdict, SendAnswer,
};
use vault_node::carrier::{
    begin_confirmation, begin_outer_stale, carries, channel_refusal, confirm_carrier,
    outer_stale_deadline, CarrierEvent, CarrierMemoLookup, CarrierStep, CarrierTerms, ChannelReply,
    OuterStaleCarrier, RejectReason, StaleEvent, StaleStep,
};
use vault_node::coord::{canonical_signature, verify_coord_signature};
use vault_node::fire::{fire_begin, fire_held, propagate_outbox, settle_candidate, ArmedEscapeState};
use vault_node::node::{ChannelLimits, DeadlineTick, HotBudget, Node, NodeKeys, NodeParams};
use vault_node::proto::{BadRequest, RefreshRequest, SignRequest, SignResponse, TaggedRequest};
use vault_node::registry::{hot_velocity_refusal, Errand, HotReserveRefusal, MemoGeneration};
use vault_node::replay::SignState;
use vault_node::verdict::{fraud_suspected, is_recordable_verdict};

fn coordinator() -> SecretKey {
    SecretKey::from_slice(&[0xC0; 32]).expect("key")
}

fn node(channel: bool) -> Node {
    Node {
        listen_port: 0,
        params: NodeParams {
            policy_version: 1,
            max_commitment_age_secs: 172_800,
            hold_secs: 0,
            combine_slack_secs: 60,
            hot_budget: HotBudget {
                max_per_tx_sat: 100,
                max_per_window_sat: 1_000,
                window_secs: 172_800,
            },
            threshold: 2,
            max_vault_satisfaction_weight: 300,
            refresh_min_interval_secs: 1,
            refresh_max_feerate: 100,
            duress_delay_secs: 7,
            epsilon_secs: 60,
            delivery_horizon_secs: 60,
            escape_coverage_pct: 95,
            escape_feerate_floor: 1,
            max_pin_bytes: 64,
        },
        keys: NodeKeys {
            seckey: vec![2; 32],
            pubkey: Vec::new(),
            user_pubkey: Vec::new(),
            coordinator_auth: coordinator()
                .public_key(&Secp256k1::new())
                .serialize()
                .to_vec(),
            witness_script: Vec::new(),
        },
        wallet_id: [0; 32],
        channel: if channel { Some(ChannelLimits { max_msg_bytes: 1_000 }) } else { None },
        has_backend: channel,
        lockdown: false,
        generation_claimed: false,
        last_deadline_tick: 0,
        duress_arm: 0,
        spend_preflight: 0,
        sign_state: SignState::new(),
        authorized: Vec::new(),
        outbox: Vec::new(),
        errands: Vec::new(),
    }
}

const DIGEST: [u8; 32] = [5; 32];

fn spend(nonce: &str) -> SignRequest {
    let sig = Secp256k1::new().sign_ecdsa(&Message::from_digest(DIGEST), &coordinator());
    SignRequest {
        psbt: String::new(),
        escape_psbt: String::new(),
        escape_bumps: Vec::new(),
        pin: "1234".to_string(),
        nonce: nonce.to_string(),
        expiry: 9_000,
        policy_version: 1,
        coord_sig: sig.serialize_der().iter().map(|b| format!("{b:02x}")).collect(),
    }
}

fn refresh() -> TaggedRequest {
    TaggedRequest::Refresh(RefreshRequest {
        refresh_psbt: String::new(),
        nonce: "n".to_string(),
        expiry: 8_000,
        policy_version: 1,
        coord_sig: String::new(),
    })
}

fn answered() -> Result<SignResponse, BadRequest> {
    Ok(fraud_suspected())
}

fn generation() -> MemoGeneration {
    MemoGeneration { signature_tag: [1; 32], expiry: 9_000, deadline: 50 }
}

fn terms() -> CarrierTerms {
    CarrierTerms { readable: true, clock_retry_secs: 30 }
}

#[test]
fn only_the_coordinators_signature_is_taken() {
    let good = spend("n").coord_sig;
    let auth = node(false).keys.coordinator_auth;
    assert!(verify_coord_signature(&auth, &DIGEST, &good).is_ok());
    assert!(verify_coord_signature(&auth, &[6; 32], &good).is_err());
    assert!(verify_coord_signature(&auth, &DIGEST, &"0".to_string()).is_err());
    assert!(verify_coord_signature(&auth, &DIGEST, &"00ff".to_string()).is_err());
    // A signature is compared in its canonical form, whatever case it is written in.
    let shouted = good.to_uppercase();
    assert_eq!(canonical_signature(&shouted), canonical_signature(&good));
    assert!(canonical_signature(&good).expect("canonical").starts_with(&[0x30]));
    assert_eq!(canonical_signature(&"zz".to_string()), None);
}

#[test]
fn only_a_signed_spend_that_fits_can_have_a_carrier() {
    let peer = node(true);
    assert!(carries(&peer, &spend("n"), &DIGEST, true));
    assert!(!carries(&peer, &spend("n"), &DIGEST, false));
    assert!(!carries(&peer, &spend(""), &DIGEST, true));
    assert!(!carries(&peer, &spend(&"n".repeat(10_000)), &DIGEST, true));
    assert!(!carries(&peer, &spend("n"), &[6; 32], true));
    assert_eq!(channel_refusal(&peer), None);
    assert_eq!(
        channel_refusal(&node(false)),
        Some(ChannelReply::Rejected(RejectReason::UnknownMsgType))
    );
}

#[test]
fn a_confirmation_starts_with_a_lookup() {
    let mut peer = node(true);
    let request = TaggedRequest::Spend(spend("n"));
    let first = begin_confirmation(&peer, &request, &DIGEST, true, &answered());
    assert!(matches!(first, CarrierStep::Lookup));
    let plain = begin_confirmation(&peer, &refresh(), &DIGEST, true, &answered());
    assert!(matches!(plain, CarrierStep::Reply(ChannelReply::Accepted)));
    let unread: Result<SignResponse, BadRequest> = Err(BadRequest("garbled".to_string()));
    let malformed = begin_confirmation(&peer, &refresh(), &DIGEST, true, &unread);
    assert!(matches!(
        malformed,
        CarrierStep::Reply(ChannelReply::Rejected(RejectReason::MalformedPayload))
    ));
    peer.enter_lockdown();
    let locked = begin_confirmation(&peer, &request, &DIGEST, true, &answered());
    assert!(matches!(locked, CarrierStep::Reply(ChannelReply::Accepted)));
}

#[test]
fn an_exact_carrier_is_confirmed_at_once() {
    let step = CarrierStep::Lookup.next(
        CarrierEvent::Looked(CarrierMemoLookup::Exact { carrier: "c".to_string() }),
        &terms(),
    );
    assert!(matches!(&step, CarrierStep::Confirm { carrier } if carrier == "c"));
    let done = step.next(CarrierEvent::Confirmed { clock_refused: false }, &terms());
    assert!(matches!(done, CarrierStep::Reply(ChannelReply::Accepted)));
}

#[test]
fn an_unproved_carrier_is_derived_first() {
    let mut step = CarrierStep::Lookup.next(
        CarrierEvent::Looked(CarrierMemoLookup::DeriveForConfirmation {
            memoized: "c".to_string(),
            generation: generation(),
        }),
        &terms(),
    );
    for event in [
        CarrierEvent::Reserved(true),
        CarrierEvent::Claimed(true),
        CarrierEvent::Derived { carrier: "c".to_string() },
        CarrierEvent::Recorded(true),
        CarrierEvent::Looked(CarrierMemoLookup::Exact { carrier: "c".to_string() }),
    ] {
        step = step.next(event, &terms());
    }
    assert!(matches!(&step, CarrierStep::Confirm { .. }));
    let late = step.next(CarrierEvent::Confirmed { clock_refused: true }, &terms());
    assert!(matches!(
        late,
        CarrierStep::Reply(ChannelReply::RateLimited { retry_after_secs: 30 })
    ));
}

#[test]
fn a_mismatch_or_a_wait_ends_without_a_confirmation() {
    let derive = || CarrierStep::Derive { memoized: "c".to_string(), generation: generation() };
    let other = derive().next(CarrierEvent::Derived { carrier: "d".to_string() }, &terms());
    assert!(matches!(other, CarrierStep::Reply(ChannelReply::Accepted)));
    for busy in [CarrierMemoLookup::InFlight, CarrierMemoLookup::AwaitingPropagation] {
        let step = CarrierStep::Lookup.next(CarrierEvent::Looked(busy), &terms());
        assert!(matches!(
            step,
            CarrierStep::Reply(ChannelReply::RateLimited { retry_after_secs: 1 })
        ));
    }
    let unasked = derive().next(CarrierEvent::Claimed(true), &terms());
    assert!(matches!(unasked, CarrierStep::Derive { .. }));
}

#[test]
fn a_confirmation_is_counted_by_the_nodes_own_clock() {
    let mut peer = node(true);
    peer.sign_state.coord_nonces.high_water = 500;
    let told = confirm_carrier(&peer, 400).expect("a node with peers");
    assert_eq!((told.threshold, told.now, told.timing.duress_delay_secs), (2, 500, 7));
    assert!(confirm_carrier(&node(false), 400).is_none());
}

#[test]
fn a_late_message_is_turned_away_or_put_off() {
    let peer = node(true);
    let request = TaggedRequest::Spend(spend("n"));
    assert!(matches!(begin_outer_stale(&peer, &request, &DIGEST, true), StaleStep::Inspect));
    assert!(matches!(
        begin_outer_stale(&peer, &refresh(), &DIGEST, true),
        StaleStep::Reply(ChannelReply::Rejected(RejectReason::StaleTimestamp))
    ));
    let said = |c: OuterStaleCarrier| StaleEvent::Said(c);
    let asked =
        || OuterStaleCarrier::Derive { memoized: "c".to_string(), generation: generation() };
    let retry = StaleStep::Inspect.next(said(OuterStaleCarrier::Retry(9)));
    assert!(matches!(
        retry,
        StaleStep::Reply(ChannelReply::RateLimited { retry_after_secs: 9 })
    ));
    let step = StaleStep::Inspect
        .next(said(asked()))
        .next(StaleEvent::Reserved(true))
        .next(said(asked()))
        .next(StaleEvent::Derived { carrier: "c".to_string() });
    assert!(matches!(&step, StaleStep::Finish { met: true, .. }));
    let end = step.next(said(OuterStaleCarrier::Terminal));
    assert!(matches!(
        end,
        StaleStep::Reply(ChannelReply::Rejected(RejectReason::StaleTimestamp))
    ));
    assert_eq!(outer_stale_deadline(&peer, &spend("n")), None);
    assert!(matches!(
        StaleStep::Inspect.next(StaleEvent::Closed),
        StaleStep::Reply(ChannelReply::Rejected(RejectReason::StaleTimestamp))
    ));
}

fn broadcast_terms() -> BroadcastTerms {
    BroadcastTerms { txid: [4; 32], commitment_id: "id".to_string(), deadline: 77 }
}

#[test]
fn a_broadcast_is_tested_before_it_is_sent() {
    let t = broadcast_terms();
    let to_send = || {
        BroadcastStep::Settled
            .next(BroadcastEvent::Settled(Ok(false)), &t)
            .next(BroadcastEvent::Assembled(Ok(())), &t)
            .next(BroadcastEvent::Tested(Ok(PackageVerdict::Accepted)), &t)
    };
    assert!(matches!(to_send(), BroadcastStep::Send));
    let sent = to_send().next(BroadcastEvent::Sent(SendAnswer::Sent([4; 32])), &t);
    assert!(matches!(sent, BroadcastStep::Done(Ok(BroadcastOutcome::Sent(_)))));
    let closed = to_send()
        .next(BroadcastEvent::Sent(SendAnswer::Closed { reason: "late".to_string() }), &t);
    match closed {
        BroadcastStep::Done(Err(text)) => assert_eq!(
            text,
            "broadcast authorization closed for candidate id (deadline 77): late"
        ),
        other => panic!("{other:?}"),
    }
    let failed = || {
        to_send().next(BroadcastEvent::Sent(SendAnswer::Failed { error: "io".to_string() }), &t)
    };
    assert!(matches!(
        failed().next(BroadcastEvent::Settled(Ok(true)), &t),
        BroadcastStep::Done(Ok(BroadcastOutcome::AlreadySettled(_)))
    ));
    assert!(matches!(
        failed().next(BroadcastEvent::Settled(Err("down".to_string())), &t),
        BroadcastStep::Done(Err(e)) if e == "io"
    ));
    let rejected = BroadcastStep::Test.next(
        BroadcastEvent::Tested(Ok(PackageVerdict::Rejected { reason: "fee".to_string() })),
        &t,
    );
    assert!(matches!(
        rejected,
        BroadcastStep::Done(Err(e)) if e == "package mempool-acceptance failed: fee"
    ));
    assert!(matches!(
        BroadcastStep::Settled.next(BroadcastEvent::Settled(Ok(true)), &t),
        BroadcastStep::Done(Ok(BroadcastOutcome::AlreadySettled(_)))
    ));
}

#[test]
fn an_armed_escape_is_judged_twice_unless_it_was() {
    let armed = CombineTerms { armed_escape: true, judged: false };
    let step = armed
        .begin()
        .next(CombineEvent::Network(Ok(ArmedEscapeState::Absent)), &armed);
    assert!(matches!(step, CombineStep::Preflight));
    let step = step
        .next(CombineEvent::Preflight(Ok(())), &armed)
        .next(CombineEvent::Finalized(true), &armed);
    assert!(matches!(step, CombineStep::Judge));
    let step = step.next(CombineEvent::Judged(Err("thin".to_string())), &armed);
    assert!(matches!(
        step,
        CombineStep::Done(CombineEnd::GivenUp { fault: CombineFault::Inadmissible, .. })
    ));
    let judged = CombineTerms { armed_escape: true, judged: true };
    let step = judged
        .begin()
        .next(CombineEvent::Network(Ok(ArmedEscapeState::Absent)), &judged);
    assert!(matches!(step, CombineStep::Finalize));
    let confirmed = CombineStep::Network
        .next(CombineEvent::Network(Ok(ArmedEscapeState::Confirmed([3; 32]))), &judged);
    assert!(matches!(confirmed, CombineStep::Done(CombineEnd::EscapeConfirmed(_))));
    assert!(!is_settled_by(&CombineEnd::Sent([3; 32]), &judged));
}

#[test]
fn a_spend_is_finished_and_settled() {
    let plain = CombineTerms { armed_escape: false, judged: false };
    let step = plain
        .begin()
        .next(CombineEvent::Settled(Ok(false)), &plain)
        .next(CombineEvent::Finalized(true), &plain);
    assert!(matches!(step, CombineStep::Broadcast));
    let step =
        step.next(CombineEvent::Broadcast(Ok(BroadcastOutcome::AlreadySettled([4; 32]))), &plain);
    match step {
        CombineStep::Done(end) => assert!(is_settled_by(&end, &plain)),
        other => panic!("{other:?}"),
    }
    let waits = CombineStep::Finalize.next(CombineEvent::Finalized(false), &plain);
    assert!(matches!(&waits, CombineStep::Done(end) if !is_settled_by(end, &plain)));
}

#[test]
fn a_pass_prunes_and_locks_down() {
    let mut peer = node(true);
    peer.sign_state.pending.record("held".to_string(), 100);
    peer.sign_state.pending.record("gone".to_string(), 10);
    assert!(fire_begin(&mut peer, 50));
    assert!(matches!(peer.errands[0], Errand::PruneStore { now: 50 }));
    assert!(!peer.is_locked_down());
    assert_eq!(fire_held(&mut peer, 50, false), vec!["held".to_string()]);
    assert!(!peer.is_locked_down());
    assert_eq!(fire_held(&mut peer, 50, true), vec!["held".to_string()]);
    assert!(peer.is_locked_down());
    let mut alone = node(false);
    assert!(!fire_begin(&mut alone, 50));
    assert!(alone.errands.is_empty());
}

#[test]
fn a_settled_candidate_takes_its_pair_along() {
    let mut peer = node(true);
    for id in ["a", "b", "c", "d"] {
        peer.sign_state.pending.record(id.to_string(), 100);
    }
    let pair = Some("b".to_string());
    assert!(settle_candidate(&mut peer, &"a".to_string(), &pair, &vec!["c".to_string()]));
    assert_eq!(peer.pending_projection(50).pending, vec!["d".to_string()]);
    assert!(!settle_candidate(&mut peer, &"a".to_string(), &pair, &Vec::new()));
}

#[test]
fn the_outbox_goes_out_in_order_with_deadlines() {
    let mut peer = node(true);
    peer.outbox = vec![TaggedRequest::Spend(spend("n")), refresh()];
    let list = propagate_outbox(&mut peer);
    assert_eq!(list.iter().map(|o| o.deadline).collect::<Vec<u64>>(), vec![9_000, 8_000]);
    assert!(matches!(list[0].request, TaggedRequest::Spend(_)));
    assert!(peer.outbox.is_empty());
    let mut alone = node(false);
    alone.outbox = vec![refresh()];
    assert!(propagate_outbox(&mut alone).is_empty());
    assert_eq!(alone.outbox.len(), 1);
}

#[test]
fn a_tick_is_reported_to_the_resolution_of_the_heartbeat() {
    let mut peer = node(true);
    assert_eq!(peer.health().last_deadline_tick, None);
    peer.record_deadline_tick(1_237);
    assert_eq!(peer.health().last_deadline_tick, Some(1_230));
    assert!(peer.health().serving && !peer.health().locked_down);
}

#[test]
fn a_poisoned_lock_locks_down_when_the_pass_ends() {
    let mut peer = node(true);
    assert!(matches!(peer.begin_deadline_tick(100, true), DeadlineTick::Look));
    assert!(!peer.is_locked_down());
    assert!(peer.close_guarded_pass(true, true), "a panic that poisoned is logged");
    assert!(peer.is_locked_down());
    // From then on there is nothing left to look at, and no heartbeat.
    assert!(matches!(peer.begin_deadline_tick(200, true), DeadlineTick::Idle));
    assert_eq!(peer.health().last_deadline_tick, Some(100));
    let mut other = node(true);
    assert!(!other.close_guarded_pass(true, false));
    assert!(!other.is_locked_down());
    assert!(!node(true).lockdown_tick(false));
    assert!(node(true).lockdown_tick(true));
}

#[test]
fn a_hot_refusal_names_its_window() {
    match hot_velocity_refusal(&node(true), 60, HotReserveRefusal::Window(950)) {
        SignResponse::Refusal(r) => assert_eq!(
            r.detail,
            "hot outflow 60 sat would put this node's 172800-second rolling hot outflow at \
             1010 sat, past the Hot budget of 1000 sat"
        ),
        other => panic!("{other:?}"),
    }
    match hot_velocity_refusal(&node(true), 60, HotReserveRefusal::Capacity) {
        SignResponse::Refusal(r) => assert!(!r.detail.contains("1010")),
        other => panic!("{other:?}"),
    }
    assert!(!is_recordable_verdict(&fraud_suspected()));
}
