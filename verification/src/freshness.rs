//! What the nonce log promises over any number of claims.

use vstd::prelude::*;
use vstd::utf8::encode_utf8;

use crate::replay::{
    nonce_live, NonceClaim, NonceDecision, NonceEntry, NonceLogView, MAX_COORD_NONCES, MAX_COORD_NONCE_BYTES,
};

verus! {

/// A claim that is not accepted changes nothing: no nonce, no time.
pub proof fn a_refused_claim_changes_nothing(
    log: NonceLogView,
    claim: NonceClaim,
    after: NonceLogView,
)
    requires
        log.claimed(claim, after),
        log.decision(claim) != NonceDecision::Accepted,
    ensures
        after == log,
{
}

/// The high-water mark never falls, and never passes the time of the claim that
/// raised it: an accepted claim does not latch the wall clock.
pub proof fn time_never_regresses(log: NonceLogView, claim: NonceClaim, after: NonceLogView)
    requires
        log.claimed(claim, after),
    ensures
        log.high_water <= after.high_water <= log.effective_now(claim.now),
        forall|now: u64| log.effective_now(now) <= #[trigger] after.effective_now(now),
{
    if log.decision(claim) == NonceDecision::Accepted && after.high_water != log.high_water {
        let live = log.live(claim.now, claim.mono_now);
        let k = choose|k: Seq<char>|
            log.entries.contains_key(k) && !live.contains_key(k) && (
            #[trigger] log.entries[k]).expiry == after.high_water;
        assert(!nonce_live(log.entries[k], log.effective_now(claim.now), claim.mono_now));
    }
}

/// The log holds no more nonces than it has room for, and none that is empty or longer
/// than a nonce may be: what it keeps is bounded.
pub proof fn capacity_is_kept(log: NonceLogView, claim: NonceClaim, after: NonceLogView)
    requires
        log.claimed(claim, after),
        log.entries.dom().finite(),
        log.entries.dom().len() <= MAX_COORD_NONCES,
        forall|k: Seq<char>|
            log.entries.contains_key(k) ==> 1 <= (#[trigger] encode_utf8(k)).len()
                <= MAX_COORD_NONCE_BYTES,
    ensures
        after.entries.dom().finite(),
        after.entries.dom().len() <= MAX_COORD_NONCES,
        forall|k: Seq<char>|
            after.entries.contains_key(k) ==> 1 <= (#[trigger] encode_utf8(k)).len()
                <= MAX_COORD_NONCE_BYTES,
{
    let live = log.live(claim.now, claim.mono_now);
    assert(live.dom().subset_of(log.entries.dom()));
    vstd::set_lib::lemma_len_subset(live.dom(), log.entries.dom());
    if log.decision(claim) == NonceDecision::Accepted {
        assert(after.entries.dom() =~= live.dom().insert(claim.nonce));
    }
}

/// While a nonce is taken, every claim on it inside the window is a replay.
pub proof fn a_taken_nonce_is_replayed(log: NonceLogView, claim: NonceClaim)
    requires
        log.live(claim.now, claim.mono_now).contains_key(claim.nonce),
        log.effective_now(claim.now) < claim.expiry <= claim.now + claim.max_age,
        0 < vstd::utf8::encode_utf8(claim.nonce).len()
            <= crate::replay::MAX_COORD_NONCE_BYTES,
    ensures
        log.decision(claim) == NonceDecision::Replayed,
{
}

/// Whether the log can still tell that `nonce` was claimed with `expiry`: it has it
/// on file, or has forgotten it and everything that expired as early.
pub open spec fn remembers(log: NonceLogView, nonce: Seq<char>, expiry: u64) -> bool {
    log.high_water >= expiry || (log.entries.contains_key(nonce) && log.entries[nonce].expiry
        == expiry)
}

/// An accepted claim is remembered.
pub proof fn an_accepted_claim_is_remembered(
    log: NonceLogView,
    claim: NonceClaim,
    after: NonceLogView,
)
    requires
        log.claimed(claim, after),
        log.decision(claim) == NonceDecision::Accepted,
    ensures
        remembers(after, claim.nonce, claim.expiry),
{
}

/// What is remembered stays so, whatever is claimed next and whatever the clocks
/// show.
pub proof fn memory_outlasts_pruning(
    log: NonceLogView,
    nonce: Seq<char>,
    expiry: u64,
    claim: NonceClaim,
    after: NonceLogView,
)
    requires
        remembers(log, nonce, expiry),
        log.claimed(claim, after),
    ensures
        remembers(after, nonce, expiry),
{
    if log.decision(claim) == NonceDecision::Accepted && log.high_water < expiry {
        let live = log.live(claim.now, claim.mono_now);
        if live.contains_key(nonce) {
            assert(claim.nonce != nonce);
        } else {
            assert(log.entries[nonce].expiry <= after.high_water);
        }
    }
}

/// A captured request is never accepted a second time: as long as its claim is
/// remembered, the same nonce with the same expiry is refused, whatever the clocks
/// show.
pub proof fn no_claim_is_accepted_twice(log: NonceLogView, claim: NonceClaim)
    requires
        remembers(log, claim.nonce, claim.expiry),
    ensures
        log.decision(claim) != NonceDecision::Accepted,
{
    if log.high_water < claim.expiry {
        let live = log.live(claim.now, claim.mono_now);
        if !live.contains_key(claim.nonce) {
            assert(!nonce_live(
                log.entries[claim.nonce],
                log.effective_now(claim.now),
                claim.mono_now,
            ));
        }
    }
}

/// The log after each of `claims` in turn, `logs` being what it was in between.
pub open spec fn history(logs: Seq<NonceLogView>, claims: Seq<NonceClaim>) -> bool {
    &&& logs.len() == claims.len() + 1
    &&& forall|i: int|
        0 <= i < claims.len() ==> (#[trigger] logs[i]).claimed(claims[i], logs[i + 1])
}

/// Over any history, no two accepted claims agree in nonce and expiry.
pub proof fn a_history_accepts_no_claim_twice(
    logs: Seq<NonceLogView>,
    claims: Seq<NonceClaim>,
    i: int,
    j: int,
)
    requires
        history(logs, claims),
        0 <= i < j < claims.len(),
        logs[i].decision(claims[i]) == NonceDecision::Accepted,
        claims[i].nonce == claims[j].nonce,
        claims[i].expiry == claims[j].expiry,
    ensures
        logs[j].decision(claims[j]) != NonceDecision::Accepted,
{
    an_accepted_claim_is_remembered(logs[i], claims[i], logs[i + 1]);
    lemma_remembered_to(logs, claims, claims[i].nonce, claims[i].expiry, i + 1, j);
    no_claim_is_accepted_twice(logs[j], claims[j]);
}

proof fn lemma_remembered_to(
    logs: Seq<NonceLogView>,
    claims: Seq<NonceClaim>,
    nonce: Seq<char>,
    expiry: u64,
    i: int,
    j: int,
)
    requires
        history(logs, claims),
        0 <= i <= j <= claims.len(),
        remembers(logs[i], nonce, expiry),
    ensures
        remembers(logs[j], nonce, expiry),
    decreases j - i,
{
    if i < j {
        assert(logs[i].claimed(claims[i], logs[i + 1]));
        memory_outlasts_pruning(logs[i], nonce, expiry, claims[i], logs[i + 1]);
        lemma_remembered_to(logs, claims, nonce, expiry, i + 1, j);
    }
}

/// Time never runs backward for the node: what counts as now is the later of the clock and
/// of the latest expiry that it has forgotten.
pub proof fn now_is_the_later_of_clock_and_mark(log: NonceLogView, now: u64)
    ensures
        log.effective_now(now) >= now,
        log.effective_now(now) >= log.high_water,
        log.effective_now(now) == now || log.effective_now(now) == log.high_water,
{
}

/// A claim is accepted exactly where the nonce has a length that a nonce may have, the
/// expiry lies ahead but no further than the age that a request may reach, the same
/// nonce is not on file with time left, the file has room, and a deadline that the claim
/// fixes can be told.
pub proof fn what_a_claim_takes(log: NonceLogView, claim: NonceClaim)
    ensures
        ({
            let now = if log.high_water > claim.now {
                log.high_water
            } else {
                claim.now
            };
            let standing = |e: NonceEntry|
                {
                    ||| e.expiry > now
                    ||| e.carrier_deadline is Some && (claim.mono_now is None || claim.mono_now->0
                        < e.carrier_deadline->0)
                };
            let taken = log.entries.dom().filter(|k: Seq<char>| standing(log.entries[k]));
            log.decision(claim) == NonceDecision::Accepted <==> {
                &&& 1 <= encode_utf8(claim.nonce).len() <= 64
                &&& now < claim.expiry <= claim.now + claim.max_age
                &&& !taken.contains(claim.nonce)
                &&& taken.len() < 4096
                &&& claim.fixes_deadline && claim.mono_now is Some ==> claim.mono_now->0 + (
                claim.expiry - now) <= u64::MAX
            }
        }),
{
    let now = log.effective_now(claim.now);
    let standing = |e: NonceEntry|
        {
            ||| e.expiry > now
            ||| e.carrier_deadline is Some && (claim.mono_now is None || claim.mono_now->0
                < e.carrier_deadline->0)
        };
    let taken = log.entries.dom().filter(|k: Seq<char>| standing(log.entries[k]));
    assert(taken =~= log.live(claim.now, claim.mono_now).dom());
}

/// An accepted claim is on file with its expiry; a claim that fixes a deadline has it as
/// long after the steady clock as its expiry lies after now. Every nonce that still
/// counts stays as it is, and nothing else is on file.
pub proof fn what_an_accepted_claim_files(
    log: NonceLogView,
    claim: NonceClaim,
    after: NonceLogView,
    nonce: Seq<char>,
)
    requires
        log.claimed(claim, after),
        log.decision(claim) == NonceDecision::Accepted,
    ensures
        ({
            let now = if log.high_water > claim.now {
                log.high_water
            } else {
                claim.now
            };
            &&& after.entries.contains_key(claim.nonce)
            &&& after.entries[claim.nonce].expiry == claim.expiry
            &&& match after.entries[claim.nonce].carrier_deadline {
                Some(deadline) => {
                    &&& claim.fixes_deadline
                    &&& claim.mono_now matches Some(mono) && deadline - mono == claim.expiry - now
                },
                None => !claim.fixes_deadline || claim.mono_now is None,
            }
            &&& log.entries.contains_key(nonce) && log.entries[nonce].expiry > now
                ==> after.entries.contains_key(nonce) && after.entries[nonce]
                == log.entries[nonce]
            &&& after.entries.contains_key(nonce) && nonce != claim.nonce
                ==> log.entries.contains_key(nonce) && after.entries[nonce] == log.entries[nonce]
        }),
{
}

/// The deadline of a late carrier is the one that its own claim fixed: it is told only for
/// the very expiry of that claim, and only while that expiry is not forgotten.
pub proof fn a_late_carrier_keeps_its_deadline(
    log: NonceLogView,
    claim: NonceClaim,
    after: NonceLogView,
    expiry: u64,
)
    requires
        log.claimed(claim, after),
        log.decision(claim) == NonceDecision::Accepted,
    ensures
        expiry != claim.expiry ==> after.outer_stale_deadline(claim.nonce, expiry) is None,
        after.high_water < claim.expiry ==> after.outer_stale_deadline(claim.nonce, claim.expiry)
            == after.entries[claim.nonce].carrier_deadline,
        after.high_water >= claim.expiry ==> after.outer_stale_deadline(
            claim.nonce,
            claim.expiry,
        ) is None,
{
}

} // verus!
