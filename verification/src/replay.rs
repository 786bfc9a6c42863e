//! What a node remembers between requests: verdicts it gave, spends it holds,
//! coins it refreshed and coordinator nonces it has seen. All of it is bounded by
//! expiry and lives in memory only.

use vstd::prelude::*;

use crate::codec::{compute_txid, transaction_id};
use crate::proto::{SignResponse, SignResponseView};
use crate::table::{rows_where, texts, Table};
use crate::tx::{OutPoint, Psbt, PsbtView};

verus! {

/// A recorded verdict and the time up to which it counts.
#[derive(Debug)]
pub struct Entry {
    pub expiry: u64,
    pub verdict: SignResponse,
}

/// The contents of an [`Entry`].
pub struct EntryView {
    pub expiry: u64,
    pub verdict: SignResponseView,
}

impl View for Entry {
    type V = EntryView;

    open spec fn view(&self) -> EntryView {
        EntryView { expiry: self.expiry, verdict: self.verdict@ }
    }
}

/// Verdicts by the key that determines them, for answering an identical request
/// again.
pub struct ReplayLog {
    pub entries: Table<String, Entry>,
}

impl View for ReplayLog {
    type V = Map<Seq<char>, EntryView>;

    open spec fn view(&self) -> Map<Seq<char>, EntryView> {
        self.entries@.map_values(|e: Entry| e@)
    }
}

/// The verdict on file under `key` that still counts at `now`.
pub open spec fn recorded(
    log: Map<Seq<char>, EntryView>,
    key: Seq<char>,
    now: u64,
) -> Option<SignResponseView> {
    if log.contains_key(key) && log[key].expiry > now {
        Some(log[key].verdict)
    } else {
        None
    }
}

/// The verdicts that still count at `now`.
pub open spec fn unexpired(log: Map<Seq<char>, EntryView>, now: u64) -> Map<Seq<char>, EntryView> {
    rows_where(log, |e: EntryView| e.expiry > now)
}

impl ReplayLog {
    /// An empty log.
    pub fn new() -> (log: ReplayLog)
        ensures
            log@ == Map::<Seq<char>, EntryView>::empty(),
    {
        let log = ReplayLog { entries: Table::new() };
        assert(log@ =~= Map::empty());
        log
    }

    /// The verdict recorded under `key`, unless it has expired by `now`.
    pub fn get(&self, key: &String, now: u64) -> (verdict: Option<SignResponse>)
        ensures
            match verdict {
                Some(v) => recorded(self@, key@, now) == Some(v@),
                None => recorded(self@, key@, now) is None,
            },
    {
        match self.entries.get(key) {
            Some(entry) => {
                if entry.expiry > now {
                    Some(entry.verdict.copy())
                } else {
                    None
                }
            },
            None => None,
        }
    }

    /// Records `verdict` under `key`; what was there before is replaced.
    pub fn record(&mut self, key: String, expiry: u64, verdict: SignResponse)
        ensures
            final(self)@ == old(self)@.insert(key@, EntryView { expiry, verdict: verdict@ }),
    {
        let ghost before = self.entries@;
        self.entries.set(key, Entry { expiry, verdict });
        assert(self@ =~= before.map_values(|e: Entry| e@).insert(
            key@,
            EntryView { expiry, verdict: verdict@ },
        ));
    }

    /// Forgets what has expired by `now`.
    pub fn prune(&mut self, now: u64)
        ensures
            final(self)@ == unexpired(old(self)@, now),
    {
        let ghost before = self.entries@;
        let chosen = |entry: &Entry| -> (keep: bool)
            ensures
                keep == (entry.expiry > now),
            { entry.expiry > now };
        self.entries.retain(chosen, Ghost(|e: Entry| e.expiry > now));
        assert(self@ =~= unexpired(before.map_values(|e: Entry| e@), now));
    }

    /// How many verdicts are on file.
    pub fn len(&self) -> (n: usize)
        ensures
            n == self@.dom().len(),
    {
        assert(self@.dom() =~= self.entries@.dom());
        self.entries.len()
    }
}

/// Spends the node has accepted and still holds back, by commitment, with the
/// expiry of each.
pub struct PendingLog {
    pub entries: Table<String, u64>,
}

impl View for PendingLog {
    type V = Map<Seq<char>, u64>;

    open spec fn view(&self) -> Map<Seq<char>, u64> {
        self.entries@
    }
}

/// The spends still pending at `now`: one stays pending through the second of
/// its expiry.
pub open spec fn pending_at(log: Map<Seq<char>, u64>, now: u64) -> Map<Seq<char>, u64> {
    rows_where(log, |expiry: u64| expiry >= now)
}

impl PendingLog {
    /// An empty log.
    pub fn new() -> (log: PendingLog)
        ensures
            log@ == Map::<Seq<char>, u64>::empty(),
    {
        PendingLog { entries: Table::new() }
    }

    /// Notes a spend as pending until `expiry`.
    pub fn record(&mut self, commitment_id: String, expiry: u64)
        ensures
            final(self)@ == old(self)@.insert(commitment_id@, expiry),
    {
        self.entries.set(commitment_id, expiry);
    }

    /// Takes a spend off; says whether it was there.
    pub fn remove(&mut self, commitment_id: &String) -> (removed: bool)
        ensures
            removed == old(self)@.contains_key(commitment_id@),
            final(self)@ == old(self)@.remove(commitment_id@),
    {
        self.entries.remove(commitment_id)
    }

    /// Forgets the spends no longer pending at `now`.
    pub fn prune(&mut self, now: u64)
        ensures
            final(self)@ == pending_at(old(self)@, now),
    {
        let chosen = |expiry: &u64| -> (keep: bool)
            ensures
                keep == (*expiry >= now),
            { *expiry >= now };
        self.entries.retain(chosen, Ghost(|expiry: u64| expiry >= now));
    }

    /// Whether any spend is pending at `now`.
    pub fn has_any(&self, now: u64) -> (any: bool)
        ensures
            any == (exists|id: Seq<char>| pending_at(self@, now).contains_key(id)),
    {
        let chosen = |expiry: &u64| -> (wanted: bool)
            ensures
                wanted == (*expiry >= now),
            { *expiry >= now };
        let n = self.entries.count(chosen, Ghost(|expiry: u64| expiry >= now));
        proof {
            let dom = pending_at(self@, now).dom();
            if n > 0 {
                assert(dom.contains(dom.choose()));
                assert(pending_at(self@, now).contains_key(dom.choose()));
            } else {
                assert forall|id: Seq<char>| !pending_at(self@, now).contains_key(id) by {
                    if dom.contains(id) {
                        assert(dom.remove(id).len() < dom.len());
                    }
                }
            }
        }
        n > 0
    }

    /// The spends pending at `now`, each once, in no set order.
    pub fn ids(&self, now: u64) -> (ids: Vec<String>)
        ensures
            texts(ids@).no_duplicates(),
            texts(ids@).to_set() == pending_at(self@, now).dom(),
    {
        let chosen = |expiry: &u64| -> (wanted: bool)
            ensures
                wanted == (*expiry >= now),
            { *expiry >= now };
        self.entries.keys_where(chosen, Ghost(|expiry: u64| expiry >= now))
    }

    /// How many spends are on file, expired ones included.
    pub fn len(&self) -> (n: usize)
        ensures
            n == self@.dom().len(),
    {
        self.entries.len()
    }
}

/// When each coin was last refreshed.
pub struct RefreshLog {
    pub entries: Table<OutPoint, u64>,
}

impl View for RefreshLog {
    type V = Map<OutPoint, u64>;

    open spec fn view(&self) -> Map<OutPoint, u64> {
        self.entries@
    }
}

/// Whether a refresh touches `coin`: it is one that the refresh spends, or one
/// that it creates.
pub open spec fn touches(refresh: PsbtView, coin: OutPoint) -> bool {
    ||| exists|i: int|
        0 <= i < refresh.unsigned_tx.input.len() && (
        #[trigger] refresh.unsigned_tx.input[i]).previous_output == coin
    ||| coin.txid == transaction_id(refresh.unsigned_tx) && coin.vout < (
    refresh.unsigned_tx.output.len() as u32)
}

/// The log after a refresh at `now`: every coin it touches was refreshed then.
pub open spec fn refreshed(
    log: Map<OutPoint, u64>,
    refresh: PsbtView,
    now: u64,
) -> Map<OutPoint, u64> {
    Map::new(
        |coin: OutPoint| log.contains_key(coin) || touches(refresh, coin),
        |coin: OutPoint|
            if touches(refresh, coin) {
                now
            } else {
                log[coin]
            },
    )
}

/// How long before `now` the time `at` lies; nothing where it lies ahead.
pub open spec fn seconds_since(at: u64, now: u64) -> int {
    if now >= at {
        now - at
    } else {
        0
    }
}

/// The refreshes younger than `min_interval_secs` at `now`.
pub open spec fn refreshed_within(
    log: Map<OutPoint, u64>,
    now: u64,
    min_interval_secs: u64,
) -> Map<OutPoint, u64> {
    rows_where(log, |at: u64| seconds_since(at, now) < min_interval_secs)
}

impl RefreshLog {
    /// An empty log.
    pub fn new() -> (log: RefreshLog)
        ensures
            log@ == Map::<OutPoint, u64>::empty(),
    {
        RefreshLog { entries: Table::new() }
    }

    /// When `outpoint` was last refreshed.
    pub fn last_refresh(&self, outpoint: &OutPoint) -> (at: Option<u64>)
        ensures
            at == self@.get(*outpoint),
    {
        match self.entries.get(outpoint) {
            Some(at) => Some(*at),
            None => None,
        }
    }

    /// Starts the clock of every coin that `refresh` spends and of every coin that
    /// it creates.
    pub fn record(&mut self, refresh: &Psbt, now: u64)
        ensures
            final(self)@ == refreshed(old(self)@, refresh@, now),
    {
        let ghost before = self@;
        let ghost view = refresh@;
        let tx = &refresh.unsigned_tx;
        assert(view.unsigned_tx.input == tx.input@);
        assert(view.unsigned_tx.output.len() == tx.output.len());
        let mut i: usize = 0;
        while i < tx.input.len()
            invariant
                i <= tx.input.len(),
                view.unsigned_tx.input == tx.input@,
                forall|coin: OutPoint|
                    #![trigger self@.contains_key(coin)]
                    #![trigger self@[coin]]
                    ({
                        let spent = exists|k: int|
                            0 <= k < i && (#[trigger] tx.input@[k]).previous_output == coin;
                        &&& self@.contains_key(coin) == (before.contains_key(coin) || spent)
                        &&& self@.contains_key(coin) ==> self@[coin] == if spent {
                            now
                        } else {
                            before[coin]
                        }
                    }),
            decreases tx.input.len() - i,
        {
            let ghost mid = self@;
            let spent = tx.input[i].previous_output;
            self.entries.set(spent, now);
            proof {
                assert forall|coin: OutPoint|
                    #![trigger self@.contains_key(coin)]
                    #![trigger self@[coin]]
                    ({
                        let spent_now = exists|k: int|
                            0 <= k < i + 1 && (#[trigger] tx.input@[k]).previous_output == coin;
                        &&& self@.contains_key(coin) == (before.contains_key(coin) || spent_now)
                        &&& self@.contains_key(coin) ==> self@[coin] == if spent_now {
                            now
                        } else {
                            before[coin]
                        }
                    }) by {
                    let spent_before = exists|k: int|
                        0 <= k < i && (#[trigger] tx.input@[k]).previous_output == coin;
                    assert(mid.contains_key(coin) == (before.contains_key(coin) || spent_before));
                    assert(mid.contains_key(coin) ==> mid[coin] == if spent_before {
                        now
                    } else {
                        before[coin]
                    });
                    if coin == spent {
                        assert(tx.input@[i as int].previous_output == coin);
                    }
                    if spent_before {
                        let k = choose|k: int|
                            0 <= k < i && (#[trigger] tx.input@[k]).previous_output == coin;
                        assert(tx.input@[k].previous_output == coin);
                    }
                }
            }
            i += 1;
        }
        let ghost after_inputs = self@;
        let txid = compute_txid(tx);
        let outputs: u32 = #[verifier::truncate] (tx.output.len() as u32);
        let mut vout: u32 = 0;
        while vout < outputs
            invariant
                vout <= outputs,
                forall|coin: OutPoint|
                    #![trigger self@.contains_key(coin)]
                    #![trigger self@[coin]]
                    ({
                        let created = coin.txid == txid && coin.vout < vout;
                        &&& self@.contains_key(coin) == (after_inputs.contains_key(coin) || created)
                        &&& self@.contains_key(coin) ==> self@[coin] == if created {
                            now
                        } else {
                            after_inputs[coin]
                        }
                    }),
            decreases outputs - vout,
        {
            let ghost mid = self@;
            let made = OutPoint::new(txid, vout);
            self.entries.set(made, now);
            proof {
                assert forall|coin: OutPoint|
                    #![trigger self@.contains_key(coin)]
                    #![trigger self@[coin]]
                    ({
                        let created = coin.txid == txid && coin.vout < vout + 1;
                        &&& self@.contains_key(coin) == (after_inputs.contains_key(coin) || created)
                        &&& self@.contains_key(coin) ==> self@[coin] == if created {
                            now
                        } else {
                            after_inputs[coin]
                        }
                    }) by {
                    assert(mid.contains_key(coin) == (after_inputs.contains_key(coin) || (coin.txid
                        == txid && coin.vout < vout)));
                    assert((coin == made) == (coin.txid == txid && coin.vout == vout));
                }
            }
            vout += 1;
        }
        proof {
            assert forall|coin: OutPoint|
                #![trigger self@.contains_key(coin)]
                self@.contains_key(coin) == refreshed(before, view, now).contains_key(coin) && (
                self@.contains_key(coin) ==> self@[coin] == refreshed(before, view, now)[coin]) by {
                let spent = exists|k: int|
                    0 <= k < tx.input@.len() && (#[trigger] tx.input@[k]).previous_output == coin;
                let created = coin.txid == txid && coin.vout < outputs;
                assert(after_inputs.contains_key(coin) == (before.contains_key(coin) || spent));
                assert(touches(view, coin) == (spent || created));
            }
            assert(self@ =~= refreshed(before, view, now));
        }
    }

    /// Forgets the refreshes that no longer bar another.
    pub fn prune(&mut self, now: u64, min_interval_secs: u64)
        ensures
            final(self)@ == refreshed_within(old(self)@, now, min_interval_secs),
    {
        let chosen = |at: &u64| -> (keep: bool)
            ensures
                keep == (seconds_since(*at, now) < min_interval_secs),
            { now.saturating_sub(*at) < min_interval_secs };
        self.entries.retain(chosen, Ghost(|at: u64| seconds_since(at, now) < min_interval_secs),
        );
    }
}

/// The longest nonce a request may carry, in bytes.
pub const MAX_COORD_NONCE_BYTES: usize = 64;

/// How many live nonces a node keeps.
pub const MAX_COORD_NONCES: usize = 4_096;

/// What became of a request's nonce.
#[derive(Clone, Copy, Debug, PartialEq, Eq, Structural)]
pub enum NonceDecision {
    Accepted,
    InvalidLength,
    OutsideWindow { now: u64 },
    Replayed,
    AtCapacity,
}

/// What is remembered of a nonce: the expiry of its request, and on the monotonic
/// clock the deadline of its carrier, if it has one.
#[derive(Clone, Copy, Debug)]
pub struct NonceEntry {
    pub expiry: u64,
    pub carrier_deadline: Option<u64>,
}

/// Whether a nonce is still taken: its request has not expired, or its carrier's
/// deadline has not passed. A deadline that no clock is read against has not
/// passed.
pub open spec fn nonce_live(entry: NonceEntry, effective_now: u64, mono_now: Option<u64>) -> bool {
    entry.expiry > effective_now || match (entry.carrier_deadline, mono_now) {
        (None, _) => false,
        (Some(_), None) => true,
        (Some(deadline), Some(mono)) => mono < deadline,
    }
}

impl NonceEntry {
    /// Whether the nonce is still taken.
    pub fn is_live(&self, effective_now: u64, mono_now: Option<u64>) -> (live: bool)
        ensures
            live == nonce_live(*self, effective_now, mono_now),
    {
        self.expiry > effective_now || match (self.carrier_deadline, mono_now) {
            (None, _) => false,
            (Some(_), None) => true,
            (Some(deadline), Some(mono)) => mono < deadline,
        }
    }
}

/// The coordinator nonces a node has accepted, and the latest expiry among those
/// it has forgotten.
pub struct NonceLog {
    pub entries: Table<String, NonceEntry>,
    pub high_water: u64,
}

/// The contents of a [`NonceLog`].
pub struct NonceLogView {
    pub entries: Map<Seq<char>, NonceEntry>,
    pub high_water: u64,
}

impl View for NonceLog {
    type V = NonceLogView;

    open spec fn view(&self) -> NonceLogView {
        NonceLogView { entries: self.entries@, high_water: self.high_water }
    }
}

/// What a request brings to the nonce log: its nonce and expiry, the node's two
/// clock readings, how far ahead an expiry may lie, and whether a carrier deadline
/// is to be fixed.
pub struct NonceClaim {
    pub nonce: Seq<char>,
    pub expiry: u64,
    pub now: u64,
    pub max_age: u64,
    pub mono_now: Option<u64>,
    pub fixes_deadline: bool,
}

impl NonceLogView {
    /// The time that expiries are held against: the clock, but never earlier than
    /// an expiry already forgotten.
    pub open spec fn effective_now(self, now: u64) -> u64 {
        if self.high_water > now {
            self.high_water
        } else {
            now
        }
    }

    /// The nonces still taken.
    pub open spec fn live(self, now: u64, mono_now: Option<u64>) -> Map<Seq<char>, NonceEntry> {
        rows_where(
            self.entries,
            |e: NonceEntry| nonce_live(e, self.effective_now(now), mono_now),
        )
    }

    /// The carrier deadline a claim would fix; `None` inside where it fixes none,
    /// `None` outside where the deadline cannot be written.
    pub open spec fn deadline_for(self, claim: NonceClaim) -> Option<Option<u64>> {
        match claim.mono_now {
            Some(mono) if claim.fixes_deadline => {
                let deadline = mono + (claim.expiry - self.effective_now(claim.now));
                if deadline > u64::MAX {
                    None
                } else {
                    Some(Some(deadline as u64))
                }
            },
            _ => Some(None),
        }
    }

    /// The decision on a claim.
    pub open spec fn decision(self, claim: NonceClaim) -> NonceDecision {
        let effective_now = self.effective_now(claim.now);
        let live = self.live(claim.now, claim.mono_now);
        let bytes = vstd::utf8::encode_utf8(claim.nonce).len();
        if bytes == 0 || bytes > MAX_COORD_NONCE_BYTES {
            NonceDecision::InvalidLength
        } else if claim.expiry <= effective_now {
            NonceDecision::OutsideWindow { now: effective_now }
        } else if claim.expiry > claim.now + claim.max_age {
            NonceDecision::OutsideWindow { now: claim.now }
        } else if live.contains_key(claim.nonce) {
            NonceDecision::Replayed
        } else if live.dom().len() >= MAX_COORD_NONCES {
            NonceDecision::AtCapacity
        } else if self.deadline_for(claim) is None {
            NonceDecision::OutsideWindow { now: effective_now }
        } else {
            NonceDecision::Accepted
        }
    }

    /// Whether `mark` is the high-water mark once the nonces that are no longer
    /// taken have been forgotten: it covers their expiries and the old mark, and is
    /// one of these.
    pub open spec fn mark_after(self, claim: NonceClaim, mark: u64) -> bool {
        let live = self.live(claim.now, claim.mono_now);
        &&& mark >= self.high_water
        &&& forall|k: Seq<char>|
            self.entries.contains_key(k) && !live.contains_key(k) ==> (
            #[trigger] self.entries[k]).expiry <= mark
        &&& mark == self.high_water || exists|k: Seq<char>|
            self.entries.contains_key(k) && !live.contains_key(k) && (
            #[trigger] self.entries[k]).expiry == mark
    }

    /// The log after it accepted a claim, but for its high-water mark.
    pub open spec fn entries_after(self, claim: NonceClaim) -> Map<Seq<char>, NonceEntry> {
        self.live(claim.now, claim.mono_now).insert(
            claim.nonce,
            NonceEntry { expiry: claim.expiry, carrier_deadline: self.deadline_for(claim)->0 },
        )
    }

    /// How a claim turns this log into `after`.
    pub open spec fn claimed(self, claim: NonceClaim, after: NonceLogView) -> bool {
        if self.decision(claim) == NonceDecision::Accepted {
            after.entries == self.entries_after(claim) && self.mark_after(claim, after.high_water)
        } else {
            after == self
        }
    }

    /// The deadline of the carrier that an already expired message brings once
    /// more: its nonce is on file with just that expiry, which is still ahead of
    /// everything forgotten.
    pub open spec fn outer_stale_deadline(self, nonce: Seq<char>, expiry: u64) -> Option<u64> {
        if self.entries.contains_key(nonce) && self.high_water < expiry
            && self.entries[nonce].expiry == expiry {
            self.entries[nonce].carrier_deadline
        } else {
            None
        }
    }
}

impl NonceLog {
    /// An empty log.
    pub fn new() -> (log: NonceLog)
        ensures
            log@.entries == Map::<Seq<char>, NonceEntry>::empty(),
            log@.high_water == 0,
    {
        NonceLog { entries: Table::new(), high_water: 0 }
    }

    /// The time that expiries are held against.
    pub fn effective_now(&self, now_input: u64) -> (now: u64)
        ensures
            now == self@.effective_now(now_input),
    {
        if self.high_water > now_input {
            self.high_water
        } else {
            now_input
        }
    }

    /// The carrier deadline on file for `nonce`.
    pub fn carrier_deadline(&self, nonce: &String) -> (deadline: Option<u64>)
        ensures
            deadline == if self@.entries.contains_key(nonce@) {
                self@.entries[nonce@].carrier_deadline
            } else {
                None
            },
    {
        match self.entries.get(nonce) {
            Some(entry) => entry.carrier_deadline,
            None => None,
        }
    }

    /// The carrier deadline on file for `nonce` under exactly this expiry, unless
    /// the expiry has been forgotten already.
    pub fn outer_stale_carrier_deadline(&self, nonce: &String, expiry: u64) -> (deadline: Option<
        u64,
    >)
        ensures
            deadline == self@.outer_stale_deadline(nonce@, expiry),
    {
        match self.entries.get(nonce) {
            Some(entry) => {
                if self.high_water < expiry && entry.expiry == expiry {
                    entry.carrier_deadline
                } else {
                    None
                }
            },
            None => None,
        }
    }

    fn forget(&mut self, effective_now: u64, mono_now: Option<u64>)
        ensures
            final(self)@.entries == rows_where(
                old(self)@.entries,
                |e: NonceEntry| nonce_live(e, effective_now, mono_now),
            ),
            final(self).high_water >= old(self).high_water,
            forall|k: Seq<char>|
                old(self)@.entries.contains_key(k) && !nonce_live(
                    #[trigger] old(self)@.entries[k],
                    effective_now,
                    mono_now,
                ) ==> old(self)@.entries[k].expiry <= final(self).high_water,
            final(self).high_water == old(self).high_water || exists|k: Seq<char>|
                old(self)@.entries.contains_key(k) && !nonce_live(
                    #[trigger] old(self)@.entries[k],
                    effective_now,
                    mono_now,
                ) && old(self)@.entries[k].expiry == final(self).high_water,
    {
        let ghost before = self@;
        let chosen = |entry: &NonceEntry| -> (dead: bool)
            ensures
                dead == !nonce_live(*entry, effective_now, mono_now),
            { !entry.is_live(effective_now, mono_now) };
        let dead = self.entries.keys_where(
            chosen,
            Ghost(|e: NonceEntry| !nonce_live(e, effective_now, mono_now)),
        );
        let ghost gone = rows_where(
            before.entries,
            |e: NonceEntry| !nonce_live(e, effective_now, mono_now),
        );
        let mut mark: u64 = self.high_water;
        let mut i: usize = 0;
        while i < dead.len()
            invariant
                i <= dead.len(),
                *self == *old(self),
                before == self@,
                gone == rows_where(
                    before.entries,
                    |e: NonceEntry| !nonce_live(e, effective_now, mono_now),
                ),
                texts(dead@).to_set() == gone.dom(),
                mark >= before.high_water,
                forall|k: int|
                    0 <= k < i ==> before.entries[(#[trigger] dead@[k])@].expiry <= mark,
                mark == before.high_water || exists|k: Seq<char>|
                    gone.contains_key(k) && (#[trigger] before.entries[k]).expiry == mark,
            decreases dead.len() - i,
        {
            proof {
                assert(texts(dead@)[i as int] == dead@[i as int]@);
                assert(texts(dead@).contains(dead@[i as int]@));
                assert(texts(dead@).to_set().contains(dead@[i as int]@));
                assert(gone.contains_key(dead@[i as int]@));
            }
            if let Some(entry) = self.entries.get(&dead[i]) {
                assert(before.entries[dead@[i as int]@] == *entry);
                if entry.expiry > mark {
                    mark = entry.expiry;
                }
            }
            i += 1;
        }
        proof {
            assert forall|k: Seq<char>|
                before.entries.contains_key(k) && !nonce_live(
                    #[trigger] before.entries[k],
                    effective_now,
                    mono_now,
                ) implies before.entries[k].expiry <= mark by {
                assert(gone.dom().contains(k));
                assert(texts(dead@).to_set().contains(k));
                let j = choose|j: int| 0 <= j < texts(dead@).len() && texts(dead@)[j] == k;
                assert(dead@[j]@ == k);
            }
        }
        let chosen = |entry: &NonceEntry| -> (keep: bool)
            ensures
                keep == nonce_live(*entry, effective_now, mono_now),
            { entry.is_live(effective_now, mono_now) };
        self.entries.retain(chosen, Ghost(|e: NonceEntry| nonce_live(e, effective_now, mono_now)));
        self.high_water = mark;
    }

    /// Checks a request's nonce and expiry and, if all is well, consumes the nonce.
    /// A refusal changes nothing. An acceptance also forgets the nonces that are no
    /// longer taken, and raises the high-water mark over their expiries.
    pub fn check_and_record(
        &mut self,
        nonce: &String,
        expiry: u64,
        now_input: u64,
        max_age: u64,
        mono_now: Option<u64>,
        record_carrier_deadline: bool,
    ) -> (decision: NonceDecision)
        ensures
            ({
                let claim = NonceClaim {
                    nonce: nonce@,
                    expiry,
                    now: now_input,
                    max_age,
                    mono_now,
                    fixes_deadline: record_carrier_deadline,
                };
                &&& decision == old(self)@.decision(claim)
                &&& old(self)@.claimed(claim, final(self)@)
            }),
    {
        let ghost before = self@;
        let ghost claim = NonceClaim {
            nonce: nonce@,
            expiry,
            now: now_input,
            max_age,
            mono_now,
            fixes_deadline: record_carrier_deadline,
        };
        let effective_now = self.effective_now(now_input);
        let ghost live = before.live(now_input, mono_now);
        let bytes = nonce.as_str().as_bytes().len();
        if bytes == 0 || bytes > MAX_COORD_NONCE_BYTES {
            return NonceDecision::InvalidLength;
        }
        if expiry <= effective_now {
            return NonceDecision::OutsideWindow { now: effective_now };
        }
        if expiry > now_input.saturating_add(max_age) {
            return NonceDecision::OutsideWindow { now: now_input };
        }
        let taken = match self.entries.get(nonce) {
            Some(entry) => entry.is_live(effective_now, mono_now),
            None => false,
        };
        assert(taken == live.contains_key(nonce@));
        if taken {
            return NonceDecision::Replayed;
        }
        let chosen = |entry: &NonceEntry| -> (wanted: bool)
            ensures
                wanted == nonce_live(*entry, effective_now, mono_now),
            { entry.is_live(effective_now, mono_now) };
        let live_entries: usize = self.entries.count(
            chosen,
            Ghost(|e: NonceEntry| nonce_live(e, effective_now, mono_now)),
        );
        if live_entries >= MAX_COORD_NONCES {
            return NonceDecision::AtCapacity;
        }
        let carrier_deadline = match mono_now {
            Some(mono) if record_carrier_deadline => match mono.checked_add(
                expiry - effective_now,
            ) {
                Some(deadline) => Some(deadline),
                None => return NonceDecision::OutsideWindow { now: effective_now },
            },
            _ => None,
        };
        self.forget(effective_now, mono_now);
        proof {
            assert forall|k: Seq<char>|
                before.entries.contains_key(k) && !live.contains_key(k) implies (
            #[trigger] before.entries[k]).expiry <= self.high_water by {
                assert(!nonce_live(before.entries[k], effective_now, mono_now));
            }
            if self.high_water != before.high_water {
                let k = choose|k: Seq<char>|
                    before.entries.contains_key(k) && !nonce_live(
                        #[trigger] before.entries[k],
                        effective_now,
                        mono_now,
                    ) && before.entries[k].expiry == self.high_water;
                assert(!live.contains_key(k));
            }
            assert(before.mark_after(claim, self.high_water));
        }
        self.entries.set(nonce.clone(), NonceEntry { expiry, carrier_deadline });
        NonceDecision::Accepted
    }
}

/// All that the node remembers, under its one signing lock.
pub struct SignState {
    pub replay: ReplayLog,
    pub pending: PendingLog,
    pub coord_nonces: NonceLog,
    pub refreshes: RefreshLog,
}

/// The contents of a [`SignState`].
pub struct SignStateView {
    pub replay: Map<Seq<char>, EntryView>,
    pub pending: Map<Seq<char>, u64>,
    pub coord_nonces: NonceLogView,
    pub refreshes: Map<OutPoint, u64>,
}

impl View for SignState {
    type V = SignStateView;

    open spec fn view(&self) -> SignStateView {
        SignStateView {
            replay: self.replay@,
            pending: self.pending@,
            coord_nonces: self.coord_nonces@,
            refreshes: self.refreshes@,
        }
    }
}

impl SignState {
    /// A node that remembers nothing yet.
    pub fn new() -> (state: SignState)
        ensures
            state@.replay == Map::<Seq<char>, EntryView>::empty(),
            state@.pending == Map::<Seq<char>, u64>::empty(),
            state@.coord_nonces.entries == Map::<Seq<char>, NonceEntry>::empty(),
            state@.coord_nonces.high_water == 0,
            state@.refreshes == Map::<OutPoint, u64>::empty(),
    {
        SignState {
            replay: ReplayLog::new(),
            pending: PendingLog::new(),
            coord_nonces: NonceLog::new(),
            refreshes: RefreshLog::new(),
        }
    }
}

} // verus!
