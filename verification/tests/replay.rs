//! The logs of a node: verdicts, pending spends and nonces.

use vault_node::proto::{Accepted, Refusal, RefusalCode, SignResponse};
use vault_node::replay::{
    NonceDecision, NonceLog, PendingLog, RefreshLog, ReplayLog, MAX_COORD_NONCES,
    MAX_COORD_NONCE_BYTES,
};
use vault_node::tx::{OutPoint, Psbt, Transaction, TxIn, TxOut};

fn text(s: &str) -> String {
    s.to_string()
}

fn signed() -> SignResponse {
    SignResponse::Accepted(Accepted {
        commitment_id: "abc".into(),
        first_seen: 1_752_000_000,
        remaining_secs: 0,
    })
}

fn refused() -> SignResponse {
    SignResponse::Refusal(Refusal {
        code: RefusalCode::DestNotAllowed,
        check: "destination_allowlist".into(),
        detail: "nope".into(),
    })
}

#[test]
fn records_and_returns_the_recorded_verdict() {
    let mut log = ReplayLog::new();
    log.record("abc".into(), 1_000, signed());
    assert_eq!(log.get(&text("abc"), 500), Some(signed()));
    // A different id is unknown.
    assert_eq!(log.get(&text("def"), 500), None);
}

#[test]
fn an_expired_entry_reads_as_absent_and_prunes_away() {
    let mut log = ReplayLog::new();
    log.record("a".into(), 1_000, signed());
    log.record("b".into(), 2_000, refused());
    assert_eq!(log.entries.len(), 2);

    // At now = 1_000 the first entry has expired (expiry is exclusive).
    assert_eq!(log.get(&text("a"), 1_000), None);
    assert_eq!(log.get(&text("b"), 1_000), Some(refused()));

    // Pruning removes only the expired entry: state stays bounded.
    log.prune(1_000);
    assert_eq!(log.entries.len(), 1);
    assert!(log.get(&text("a"), 1_000).is_none());
    assert_eq!(log.get(&text("b"), 1_000), Some(refused()));

    // Once every entry has expired, pruning empties the log.
    log.prune(2_000);
    assert_eq!(log.entries.len(), 0);
}

#[test]
fn nonce_log_records_rejects_replays_and_expires() {
    let mut log = NonceLog::new();
    assert_eq!(
        log.check_and_record(&text("n1"), 1_000, 500, 1_000, None, false),
        NonceDecision::Accepted
    );
    assert_eq!(
        log.check_and_record(&text("n1"), 1_000, 600, 1_000, None, false),
        NonceDecision::Replayed
    );
    // At expiry the old entry prunes. Reusing the string under a new signed
    // request with a later expiry is fresh; expiry is exclusive.
    assert_eq!(
        log.check_and_record(&text("n1"), 2_000, 1_000, 1_000, None, false),
        NonceDecision::Accepted
    );
    assert_eq!(log.entries.len(), 1);
}

#[test]
fn nonce_log_time_never_regresses_after_pruning() {
    let mut log = NonceLog::new();
    assert_eq!(
        log.check_and_record(&text("old"), 1_000, 500, 1_000, None, false),
        NonceDecision::Accepted
    );
    // Authenticated time reaches the old request's expiry and prunes it.
    assert_eq!(
        log.check_and_record(&text("new"), 2_000, 1_000, 1_000, None, false),
        NonceDecision::Accepted
    );
    // A backwards wall-clock step cannot reopen the old signed request even
    // though its nonce is no longer retained.
    assert_eq!(
        log.check_and_record(&text("old"), 1_000, 600, 1_000, None, false),
        NonceDecision::OutsideWindow { now: 1_000 }
    );
}

#[test]
fn a_rejected_request_never_ratchets_time_forward() {
    let mut log = NonceLog::new();
    assert_eq!(
        log.check_and_record(&text("n1"), 1_500, 1_000, 1_000, None, false),
        NonceDecision::Accepted
    );

    // The host clock steps far forward (NTP correction, VM restore). Requests
    // timed against the TRUE clock now read as expired and are refused...
    assert_eq!(
        log.check_and_record(&text("n2"), 1_600, 9_000_000, 1_000, None, false),
        NonceDecision::OutsideWindow { now: 9_000_000 }
    );
    // ...but refusing them must not record the bogus time. Once the clock is
    // corrected the node keeps working; a latched mark would expire every
    // honestly-timed request until wall time caught up.
    assert_eq!(
        log.check_and_record(&text("n2"), 1_600, 1_100, 1_000, None, false),
        NonceDecision::Accepted
    );

    // Advancing far enough to expire n1 prunes it and records exactly the
    // forgotten expiry, so a backwards step cannot reopen that request.
    assert_eq!(
        log.check_and_record(&text("advance"), 2_000, 1_500, 1_000, None, false),
        NonceDecision::Accepted
    );
    assert_eq!(
        log.check_and_record(&text("n3"), 1_450, 500, 1_000, None, false),
        NonceDecision::OutsideWindow { now: 1_500 }
    );
}

#[test]
fn an_accepted_request_during_a_forward_clock_step_does_not_latch_raw_time() {
    let mut log = NonceLog::new();
    assert_eq!(
        log.check_and_record(&text("old"), 1_500, 1_000, 1_000, None, false),
        NonceDecision::Accepted
    );

    // The node and coordinator briefly share the same bogus future clock, so
    // the request is valid against both sides of the window and is accepted.
    assert_eq!(
        log.check_and_record(&text("excursion"), 9_000_500, 9_000_000, 1_000, None, false),
        NonceDecision::Accepted
    );
    // Only the old nonce's forgotten expiry is needed for rollback safety;
    // recording raw 9_000_000 here would wedge the corrected node.
    assert_eq!(log.high_water, 1_500);

    // Once the clock corrects, an honestly timed request remains admissible.
    assert_eq!(
        log.check_and_record(&text("fresh"), 1_600, 1_100, 1_000, None, false),
        NonceDecision::Accepted
    );
}

#[test]
fn a_replay_during_a_forward_clock_step_does_not_ratchet_time() {
    let mut log = NonceLog::new();
    assert_eq!(
        log.check_and_record(&text("old"), 1_200, 500, 1_000, None, false),
        NonceDecision::Accepted
    );
    assert_eq!(
        log.check_and_record(&text("seen"), 2_000, 1_000, 1_000, None, false),
        NonceDecision::Accepted
    );
    assert_eq!(log.entries.len(), 2);

    // The clock steps forward but stays below the signed expiry. This is still
    // a replay, and refusing it must neither latch the transient clock reading
    // nor prune an entry that is still live once the clock corrects.
    assert_eq!(
        log.check_and_record(&text("seen"), 2_000, 1_500, 1_000, None, false),
        NonceDecision::Replayed
    );
    assert_eq!(log.high_water, 0);
    assert!(log.entries.get(&text("old")).is_some());

    // Once the clock corrects, the old nonce is still a replay and an
    // honestly-timed fresh request remains admissible.
    assert_eq!(
        log.check_and_record(&text("old"), 1_200, 1_100, 1_000, None, false),
        NonceDecision::Replayed
    );
    assert_eq!(
        log.check_and_record(&text("fresh"), 1_400, 1_100, 1_000, None, false),
        NonceDecision::Accepted
    );
}

#[test]
fn future_expiry_cap_uses_the_raw_node_clock_after_rollback() {
    let mut log = NonceLog::new();
    assert_eq!(
        log.check_and_record(&text("old"), 1_000, 500, 1_000, None, false),
        NonceDecision::Accepted
    );
    assert_eq!(
        log.check_and_record(&text("first"), 1_500, 1_000, 1_000, None, false),
        NonceDecision::Accepted
    );

    // After a backwards clock step the high-water remains the stale lower
    // bound, but it must not widen the upper bound beyond raw now + max_age.
    assert_eq!(
        log.check_and_record(&text("too-far"), 1_700, 600, 1_000, None, false),
        NonceDecision::OutsideWindow { now: 600 }
    );
    assert_eq!(log.high_water, 1_000);
}

#[test]
fn nonce_log_bounds_key_size_and_entry_count() {
    let mut log = NonceLog::new();
    assert_eq!(
        log.check_and_record(&text(""), 2_000, 1_000, 1_000, None, false),
        NonceDecision::InvalidLength
    );
    assert_eq!(
        log.check_and_record(
            &"x".repeat(MAX_COORD_NONCE_BYTES),
            2_000,
            1_000,
            1_000,
            None,
            false
        ),
        NonceDecision::Accepted
    );
    assert_eq!(
        log.check_and_record(
            &"x".repeat(MAX_COORD_NONCE_BYTES + 1),
            2_000,
            1_000,
            1_000,
            None,
            false
        ),
        NonceDecision::InvalidLength
    );
    for i in 1..MAX_COORD_NONCES {
        assert_eq!(
            log.check_and_record(&format!("n{i}"), 2_000, 1_000, 1_000, None, false),
            NonceDecision::Accepted
        );
    }
    // Even an in-window request observed during a forward clock step must not
    // ratchet the mark when capacity makes the request a refusal.
    assert_eq!(
        log.check_and_record(&text("one-too-many"), 2_000, 1_500, 1_000, None, false),
        NonceDecision::AtCapacity
    );
    assert_eq!(log.high_water, 0);
    assert_eq!(log.entries.len(), MAX_COORD_NONCES);
}

/// `D = M + (E − W)`, and `W` is the decision's own `effective_now`. Deriving it
/// from the RAW clock instead would hand a backwards clock step a longer deadline
/// than the request was admitted under — the request is measured against the
/// rollback-guarded bound, so its carrier must be too.
#[test]
fn a_carrier_deadline_is_fixed_from_effective_not_raw_wall_time() {
    const MONO: u64 = 42;
    let mut log = NonceLog::new();
    assert_eq!(
        log.check_and_record(&text("old"), 1_000, 500, 1_000, None, false),
        NonceDecision::Accepted
    );
    assert_eq!(
        log.check_and_record(&text("advance"), 2_000, 1_000, 1_000, None, false),
        NonceDecision::Accepted
    );
    assert_eq!(log.high_water, 1_000);

    // Raw wall time has rolled back to 600; the effective bound is still 1_000.
    assert_eq!(
        log.check_and_record(&text("spend"), 1_500, 600, 1_000, Some(MONO), true),
        NonceDecision::Accepted
    );
    assert_eq!(
        log.carrier_deadline(&text("spend")),
        Some(MONO + 500),
        "the remainder is measured from the rollback-guarded bound (1_500 − 1_000), \
         not from the rolled-back raw clock (1_500 − 600)"
    );
    assert_eq!(
        log.check_and_record(&text("later"), 2_000, 1_600, 1_000, Some(MONO + 499), true),
        NonceDecision::Accepted
    );
    assert_eq!(log.high_water, 1_000);
    assert!(log.entries.get(&text("spend")).is_some());
    assert_eq!(
        log.outer_stale_carrier_deadline(&text("spend"), 1_500),
        Some(MONO + 500)
    );
    log.high_water = 1_500;
    assert_eq!(log.outer_stale_carrier_deadline(&text("spend"), 1_500), None);
}

/// The full liveness matrix for one channel-mode entry: wall-live/monotonic-dead,
/// wall-dead/monotonic-live, and the `< D` / `== D` / `> D` boundary. The key is
/// occupied while EITHER clock holds it and is released — replaced in place, never
/// duplicated — the moment both have ended.
#[test]
fn a_channel_mode_nonce_is_occupied_until_both_clocks_end_it() {
    const MONO: u64 = 7;
    const DEADLINE: u64 = MONO + 500;
    let mut log = NonceLog::new();
    assert_eq!(
        log.check_and_record(&text("n"), 1_000, 500, 1_000, Some(MONO), true),
        NonceDecision::Accepted
    );

    // Wall-live, monotonic long dead: the wall half alone still holds the key.
    assert_eq!(
        log.check_and_record(&text("n"), 1_200, 900, 1_000, Some(DEADLINE + 1), true),
        NonceDecision::Replayed
    );
    // Wall-dead, monotonic live (`< D`): the monotonic half alone still holds it.
    assert_eq!(
        log.check_and_record(&text("n"), 1_600, 1_000, 1_000, Some(DEADLINE - 1), true),
        NonceDecision::Replayed
    );
    // The same entry with NO sample at all: `is_live`'s defensive arm, unreachable while
    // `Node::channel` is fixed at construction, must still refuse to free the key.
    assert!(log.entries.get(&text("n")).expect("on file").is_live(1_000, None));
    assert_eq!(
        log.high_water, 0,
        "neither refusal forgot or ratcheted anything"
    );

    // Exactly `D`: the first second both clocks call it dead. The entry is REPLACED
    // by the new body, and the mark ratchets through the expiry actually removed.
    assert_eq!(
        log.check_and_record(&text("n"), 1_600, 1_000, 1_000, Some(DEADLINE), true),
        NonceDecision::Accepted
    );
    assert_eq!(log.entries.len(), 1);
    assert_eq!(log.entries.get(&text("n")).expect("on file").expiry, 1_600);
    assert_eq!(log.high_water, 1_000);

    // `> D` is the same verdict as `== D`; the boundary is closed on one side only.
    assert_eq!(
        log.check_and_record(&text("n"), 2_400, 1_800, 2_000, Some(DEADLINE + 600 + 50), true),
        NonceDecision::Accepted
    );
    assert_eq!(log.entries.get(&text("n")).expect("on file").expiry, 2_400);
}

/// Capacity counts monotonic liveness too, and the refusal stays non-mutating: a
/// log full of wall-expired entries whose deadlines are still live refuses the next
/// request without consuming its nonce, pruning anything, or ratcheting the mark.
#[test]
fn capacity_counts_monotonically_live_entries_and_refuses_without_mutating() {
    const MONO: u64 = 10;
    const DEADLINE: u64 = MONO + 500;
    let mut log = NonceLog::new();
    for i in 0..MAX_COORD_NONCES {
        assert_eq!(
            log.check_and_record(&format!("n{i}"), 1_000, 500, 1_000, Some(MONO), true),
            NonceDecision::Accepted
        );
    }
    assert_eq!(
        log.check_and_record(
            &text("one-too-many"),
            2_000,
            1_100,
            1_000,
            Some(DEADLINE - 1),
            true
        ),
        NonceDecision::AtCapacity
    );
    assert_eq!(log.entries.len(), MAX_COORD_NONCES);
    assert_eq!(log.high_water, 0);
    assert_eq!(log.carrier_deadline(&text("one-too-many")), None);

    // Once the deadlines pass, the same request is admitted and every forgotten
    // expiry lands on the mark.
    assert_eq!(
        log.check_and_record(&text("one-too-many"), 2_000, 1_100, 1_000, Some(DEADLINE), true),
        NonceDecision::Accepted
    );
    assert_eq!(log.entries.len(), 1);
    assert_eq!(log.high_water, 1_000);
}

/// An unrepresentable deadline is a refusal, not a saturated deadline that would
/// pin the key forever, and it happens BEFORE anything mutates: the entry that this
/// request would have pruned is still there afterwards.
#[test]
fn an_unrepresentable_carrier_deadline_refuses_without_mutating() {
    let mut log = NonceLog::new();
    assert_eq!(
        log.check_and_record(&text("old"), 600, 500, 1_000, None, false),
        NonceDecision::Accepted
    );
    assert_eq!(
        log.check_and_record(&text("overflow"), 1_600, 700, 1_000, Some(u64::MAX), true),
        NonceDecision::OutsideWindow { now: 700 }
    );
    assert!(log.entries.get(&text("old")).is_some());
    assert_eq!(log.entries.len(), 1);
    assert_eq!(log.high_water, 0);

    // The same request under a representable monotonic reading is admitted.
    assert_eq!(
        log.check_and_record(&text("overflow"), 1_600, 700, 1_000, Some(u64::MAX - 900), true),
        NonceDecision::Accepted
    );
    assert_eq!(log.carrier_deadline(&text("overflow")), Some(u64::MAX));
}

#[test]
fn a_pending_spend_blocks_refreshes_until_its_commitment_expires() {
    let mut log = PendingLog::new();
    assert!(!log.has_any(600), "nothing pending on a fresh node");
    log.record("abc".into(), 1_000);
    assert!(log.has_any(600), "a live pending spend blocks refreshes");
    // The block is bounded by the commitment's own expiry: a spend held
    // perpetually pending to starve refreshes dies with it (denial, not theft).
    assert!(
        log.has_any(1_000),
        "the spend remains pending in its final fire second"
    );
    // The following second closes the fire window and drops the entry.
    log.prune(1_001);
    assert!(!log.has_any(1_001));
    assert_eq!(log.entries.len(), 0);
}

#[test]
fn a_refresh_counts_its_coins_and_its_vault_output() {
    let refresh = Psbt {
        unsigned_tx: Transaction {
            version: 2,
            lock_time: 0,
            input: vec![TxIn::new(OutPoint::new([7; 32], 0), 0xffff_ffff)],
            output: vec![TxOut::new(vec![0x51], 1_000)],
        },
        inputs: Vec::new(),
    };
    let mut log = RefreshLog::new();
    assert_eq!(log.last_refresh(&OutPoint::new([7; 32], 0)), None);
    log.record(&refresh, 500);
    assert_eq!(log.last_refresh(&OutPoint::new([7; 32], 0)), Some(500));
    assert_eq!(log.last_refresh(&OutPoint::new([7; 32], 1)), None);
    log.prune(600, 101);
    assert_eq!(log.last_refresh(&OutPoint::new([7; 32], 0)), Some(500));
    log.prune(601, 101);
    assert_eq!(log.last_refresh(&OutPoint::new([7; 32], 0)), None);
}

#[test]
fn a_pending_spend_is_removed_once() {
    let mut log = PendingLog::new();
    log.record(text("abc"), 1_000);
    log.record(text("def"), 500);
    assert_eq!(log.len(), 2);
    assert_eq!(log.ids(501), vec![text("abc")]);
    assert!(log.remove(&text("abc")));
    assert!(!log.remove(&text("abc")));
    assert_eq!(log.len(), 1);
}
