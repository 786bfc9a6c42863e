//! The node: its sealed parameters and what it holds in memory.

use vstd::prelude::*;

use crate::crypto::{sha256, sha256_digest};
use crate::order::{ascending, in_order};
use crate::proto::{TaggedRequest, TaggedRequestView};
use crate::registry::{DuressTiming, Errand, ErrandView};
use crate::replay::{pending_at, SignState, SignStateView};
use crate::table::texts;
use crate::tx::same_txid;

verus! {

/// The hot-wallet spending limits.
#[derive(Clone, Copy, Debug, PartialEq, Eq, Structural)]
pub struct HotBudget {
    pub max_per_tx_sat: u64,
    pub max_per_window_sat: u64,
    pub window_secs: u64,
}

/// The limits the node was sealed with.
#[derive(Clone, Copy, Debug)]
pub struct NodeParams {
    pub policy_version: u32,
    pub max_commitment_age_secs: u64,
    pub hold_secs: u64,
    pub combine_slack_secs: u64,
    pub hot_budget: HotBudget,
    pub threshold: usize,
    pub max_vault_satisfaction_weight: u64,
    pub refresh_min_interval_secs: u64,
    pub refresh_max_feerate: u64,
    pub duress_delay_secs: u64,
    pub epsilon_secs: u64,
    pub delivery_horizon_secs: u64,
    pub escape_coverage_pct: u8,
    pub escape_feerate_floor: u64,
    /// The longest pin that can be right, in bytes.
    pub max_pin_bytes: usize,
}

/// The keys the node was sealed with, in serialized form, and the script that
/// guards the vault.
#[derive(Debug)]
pub struct NodeKeys {
    pub seckey: Vec<u8>,
    pub pubkey: Vec<u8>,
    pub user_pubkey: Vec<u8>,
    pub coordinator_auth: Vec<u8>,
    pub witness_script: Vec<u8>,
}

/// The part of the federation channel's configuration that the node itself reads.
#[derive(Clone, Copy, Debug, PartialEq, Eq, Structural)]
pub struct ChannelLimits {
    pub max_msg_bytes: u64,
}

/// One signer of the vault.
pub struct Node {
    pub listen_port: u16,
    pub params: NodeParams,
    pub keys: NodeKeys,
    pub wallet_id: [u8; 32],
    /// Present where the node has peers.
    pub channel: Option<ChannelLimits>,
    /// Whether the node has a view of the chain.
    pub has_backend: bool,
    pub lockdown: bool,
    pub generation_claimed: bool,
    pub last_deadline_tick: u64,
    /// How many duress pins have recorded their intent.
    pub duress_arm: u64,
    /// How many spends are between their nonce check and their registration.
    pub spend_preflight: usize,
    pub sign_state: SignState,
    /// The transactions the node has validated and accepted.
    pub authorized: Vec<[u8; 32]>,
    /// Requests waiting to be handed on to peers.
    pub outbox: Vec<TaggedRequest>,
    /// What the node owes its surroundings, in order.
    pub errands: Vec<Errand>,
}

/// The contents of [`NodeKeys`].
pub struct NodeKeysView {
    pub seckey: Seq<u8>,
    pub pubkey: Seq<u8>,
    pub user_pubkey: Seq<u8>,
    pub coordinator_auth: Seq<u8>,
    pub witness_script: Seq<u8>,
}

/// The contents of a [`Node`].
pub struct NodeView {
    pub listen_port: u16,
    pub params: NodeParams,
    pub keys: NodeKeysView,
    pub wallet_id: [u8; 32],
    pub channel: Option<ChannelLimits>,
    pub has_backend: bool,
    pub lockdown: bool,
    pub generation_claimed: bool,
    pub last_deadline_tick: u64,
    pub duress_arm: u64,
    pub spend_preflight: usize,
    pub sign_state: SignStateView,
    pub authorized: Set<[u8; 32]>,
    pub outbox: Seq<TaggedRequestView>,
    pub errands: Seq<ErrandView>,
}

impl NodeView {
    /// The sealed timing of the duress path.
    pub open spec fn duress_timing(self) -> DuressTiming {
        DuressTiming {
            duress_delay_secs: self.params.duress_delay_secs,
            epsilon_secs: self.params.epsilon_secs,
            combine_slack_secs: self.params.combine_slack_secs,
        }
    }
}

impl View for NodeKeys {
    type V = NodeKeysView;

    open spec fn view(&self) -> NodeKeysView {
        NodeKeysView {
            seckey: self.seckey@,
            pubkey: self.pubkey@,
            user_pubkey: self.user_pubkey@,
            coordinator_auth: self.coordinator_auth@,
            witness_script: self.witness_script@,
        }
    }
}

/// The requests in `outbox`.
pub open spec fn requests(outbox: Seq<TaggedRequest>) -> Seq<TaggedRequestView> {
    outbox.map_values(|r: TaggedRequest| r@)
}

/// The errands in `errands`.
pub open spec fn errand_views(errands: Seq<Errand>) -> Seq<ErrandView> {
    errands.map_values(|e: Errand| e@)
}

impl View for Node {
    type V = NodeView;

    open spec fn view(&self) -> NodeView {
        NodeView {
            listen_port: self.listen_port,
            params: self.params,
            keys: self.keys@,
            wallet_id: self.wallet_id,
            channel: self.channel,
            has_backend: self.has_backend,
            lockdown: self.lockdown,
            generation_claimed: self.generation_claimed,
            last_deadline_tick: self.last_deadline_tick,
            duress_arm: self.duress_arm,
            spend_preflight: self.spend_preflight,
            sign_state: self.sign_state@,
            authorized: self.authorized@.to_set(),
            outbox: requests(self.outbox@),
            errands: errand_views(self.errands@),
        }
    }
}

/// What the node says of its own state.
#[derive(Clone, Copy, Debug, PartialEq, Eq)]
pub struct Health {
    pub serving: bool,
    pub locked_down: bool,
    pub last_deadline_tick: Option<u64>,
    pub generation_claimed: bool,
}

/// The commitments of the spends the node holds back, in order.
#[derive(Debug, PartialEq, Eq)]
pub struct PendingProjection {
    pub pending: Vec<String>,
}

/// The resolution of the heartbeat, in seconds.
pub const DEADLINE_HEARTBEAT_RESOLUTION_SECS: u64 = 10;

/// The start of the heartbeat interval that `now` falls into.
pub open spec fn heartbeat_bucket(now: u64) -> u64 {
    (now - now % DEADLINE_HEARTBEAT_RESOLUTION_SECS) as u64
}

/// The output script of a vault guarded by `witness_script`: version zero and the
/// script's digest.
pub open spec fn p2wsh_script(witness_script: Seq<u8>) -> Seq<u8> {
    seq![0u8, 0x20u8] + sha256_digest(witness_script)@
}

/// Where the clock of the SAFETY driver stands once it has looked at the deadline.
#[derive(Clone, Copy, Debug, PartialEq, Eq, Structural)]
pub enum DeadlineTick {
    /// The node is beyond repair and already locked down: nothing is done.
    Idle,
    /// The heartbeat was published; the deadline is to be looked at.
    Look,
}

impl Node {
    /// Whether terminal Lockdown has been entered.
    pub fn is_locked_down(&self) -> (locked: bool)
        ensures
            locked == self@.lockdown,
    {
        self.lockdown
    }

    /// Enters terminal Lockdown, once the latch on disk is written. Says whether this
    /// call is the one that did.
    pub fn enter_lockdown(&mut self) -> (first: bool)
        ensures
            first == !old(self)@.lockdown,
            final(self)@ == (NodeView { lockdown: true, ..old(self)@ }),
    {
        let first = !self.lockdown;
        self.lockdown = true;
        first
    }

    /// Publishes the heartbeat of the deadline driver, which only ever moves on.
    pub fn record_deadline_tick(&mut self, now: u64)
        ensures
            final(self)@ == (NodeView {
                last_deadline_tick: if heartbeat_bucket(now) > old(self)@.last_deadline_tick {
                    heartbeat_bucket(now)
                } else {
                    old(self)@.last_deadline_tick
                },
                ..old(self)@
            }),
    {
        let bucket: u64 = now - now % DEADLINE_HEARTBEAT_RESOLUTION_SECS;
        if bucket > self.last_deadline_tick {
            self.last_deadline_tick = bucket;
        }
    }

    /// The node's state as it shows it. A heartbeat of zero has not been published.
    pub fn health(&self) -> (health: Health)
        ensures
            health == (Health {
                serving: true,
                locked_down: self@.lockdown,
                last_deadline_tick: if self@.last_deadline_tick == 0 {
                    None
                } else {
                    Some(self@.last_deadline_tick)
                },
                generation_claimed: self@.generation_claimed,
            }),
    {
        Health {
            serving: true,
            locked_down: self.is_locked_down(),
            last_deadline_tick: if self.last_deadline_tick == 0 {
                None
            } else {
                Some(self.last_deadline_tick)
            },
            generation_claimed: self.generation_claimed,
        }
    }

    /// The spends held back at `now`, by commitment, in order. Time never runs
    /// backwards here: an expiry once forgotten stays past.
    pub fn pending_projection(&self, now: u64) -> (projection: PendingProjection)
        ensures
            ascending(texts(projection.pending@)),
            texts(projection.pending@).to_set() == pending_at(
                self@.sign_state.pending,
                self@.sign_state.coord_nonces.effective_now(now),
            ).dom(),
    {
        let effective_now = self.sign_state.coord_nonces.effective_now(now);
        let ids = self.sign_state.pending.ids(effective_now);
        PendingProjection { pending: in_order(&ids) }
    }

    /// The output scripts that hold the vault's coins.
    pub fn vault_scripts(&self) -> (scripts: Vec<Vec<u8>>)
        ensures
            scripts.len() == 1,
            scripts[0]@ == p2wsh_script(self@.keys.witness_script),
    {
        let digest = sha256(self.keys.witness_script.as_slice());
        let mut script: Vec<u8> = Vec::new();
        script.push(0);
        script.push(0x20);
        let mut i: usize = 0;
        while i < 32
            invariant
                i <= 32,
                script@ == seq![0u8, 0x20u8] + digest@.take(i as int),
            decreases 32 - i,
        {
            script.push(digest[i]);
            assert(digest@.take(i + 1) =~= digest@.take(i as int).push(digest@[i as int]));
            i += 1;
        }
        assert(digest@.take(32) =~= digest@);
        let mut scripts: Vec<Vec<u8>> = Vec::new();
        scripts.push(script);
        scripts
    }

    /// Whether the node has validated and accepted the transaction `txid`.
    pub fn is_authorized(&self, txid: &[u8; 32]) -> (known: bool)
        ensures
            known == self@.authorized.contains(*txid),
    {
        let mut i: usize = 0;
        while i < self.authorized.len()
            invariant
                i <= self.authorized.len(),
                forall|k: int| 0 <= k < i ==> self.authorized@[k] != *txid,
            decreases self.authorized.len() - i,
        {
            if same_txid(&self.authorized[i], txid) {
                assert(self.authorized@.contains(*txid));
                return true;
            }
            i += 1;
        }
        false
    }

    /// Counts the transaction `txid` among those accepted.
    pub(crate) fn authorize(&mut self, txid: [u8; 32])
        ensures
            final(self)@ == (NodeView {
                authorized: old(self)@.authorized.insert(txid),
                ..old(self)@
            }),
    {
        let ghost before = self.authorized@;
        if !self.is_authorized(&txid) {
            self.authorized.push(txid);
            proof {
                let after = before.push(txid);
                assert forall|t: [u8; 32]| after.to_set().contains(t)
                    == before.to_set().insert(txid).contains(t) by {
                    if before.contains(t) {
                        let i = choose|i: int| 0 <= i < before.len() && before[i] == t;
                        assert(after[i] == t);
                    }
                    if t == txid {
                        assert(after[before.len() as int] == t);
                    }
                }
                assert(after.to_set() =~= before.to_set().insert(txid));
            }
        } else {
            assert(before.to_set() =~= before.to_set().insert(txid));
        }
    }

    /// Puts a request into the outbox.
    pub(crate) fn post(&mut self, request: TaggedRequest)
        ensures
            final(self)@ == (NodeView { outbox: old(self)@.outbox.push(request@), ..old(self)@ }),
    {
        let ghost before = self.outbox@;
        self.outbox.push(request);
        assert(requests(self.outbox@) =~= requests(before).push(request@));
    }

    /// Empties the outbox.
    pub fn take_outbox(&mut self) -> (drained: Vec<TaggedRequest>)
        ensures
            requests(drained@) == old(self)@.outbox,
            final(self)@ == (NodeView {
                outbox: Seq::<TaggedRequestView>::empty(),
                ..old(self)@
            }),
    {
        let mut drained: Vec<TaggedRequest> = Vec::new();
        std::mem::swap(&mut drained, &mut self.outbox);
        assert(requests(self.outbox@) =~= Seq::<TaggedRequestView>::empty());
        drained
    }

    /// Adds an errand to those the node owes.
    pub(crate) fn tell(&mut self, errand: Errand)
        ensures
            final(self)@ == (NodeView { errands: old(self)@.errands.push(errand@), ..old(self)@ }),
    {
        let ghost before = self.errands@;
        self.errands.push(errand);
        assert(errand_views(self.errands@) =~= errand_views(before).push(errand@));
    }

    /// Hands out the errands the node owes.
    pub fn take_errands(&mut self) -> (owed: Vec<Errand>)
        ensures
            errand_views(owed@) == old(self)@.errands,
            final(self)@ == (NodeView { errands: Seq::<ErrandView>::empty(), ..old(self)@ }),
    {
        let mut owed: Vec<Errand> = Vec::new();
        std::mem::swap(&mut owed, &mut self.errands);
        assert(errand_views(self.errands@) =~= Seq::<ErrandView>::empty());
        owed
    }

    /// The sealed timing of the duress path.
    pub fn duress_timing(&self) -> (timing: DuressTiming)
        ensures
            timing == self@.duress_timing(),
    {
        DuressTiming {
            duress_delay_secs: self.params.duress_delay_secs,
            epsilon_secs: self.params.epsilon_secs,
            combine_slack_secs: self.params.combine_slack_secs,
        }
    }

    /// Whether a spend is between its nonce check and its registration.
    pub fn spend_preflight_in_flight(&self) -> (any: bool)
        ensures
            any == (self@.spend_preflight > 0),
    {
        self.spend_preflight > 0
    }

    /// One look of the SAFETY driver at the clock: a node whose critical state is
    /// torn and that is locked down does nothing more; any other publishes its
    /// heartbeat first, before anything it looks at could delay it.
    pub fn begin_deadline_tick(&mut self, now: u64, critical_lock_poisoned: bool) -> (tick:
        DeadlineTick)
        ensures
            tick == if old(self)@.lockdown && critical_lock_poisoned {
                DeadlineTick::Idle
            } else {
                DeadlineTick::Look
            },
            tick == DeadlineTick::Idle ==> final(self)@ == old(self)@,
            tick == DeadlineTick::Look ==> final(self)@ == (NodeView {
                last_deadline_tick: if heartbeat_bucket(now) > old(self)@.last_deadline_tick {
                    heartbeat_bucket(now)
                } else {
                    old(self)@.last_deadline_tick
                },
                ..old(self)@
            }),
    {
        if self.lockdown && critical_lock_poisoned {
            return DeadlineTick::Idle;
        }
        self.record_deadline_tick(now);
        DeadlineTick::Look
    }

    /// The SAFETY transition: once the armed deadline is due, the node locks down,
    /// whatever else is going on. Says whether this call locked it.
    pub fn lockdown_tick(&mut self, due: bool) -> (entered: bool)
        ensures
            entered == (old(self)@.channel is Some && due && !old(self)@.lockdown),
            final(self)@ == (NodeView {
                lockdown: old(self)@.lockdown || (old(self)@.channel is Some && due),
                ..old(self)@
            }),
    {
        if self.channel.is_none() {
            return false;
        }
        if due && !self.is_locked_down() {
            self.enter_lockdown();
            return true;
        }
        false
    }

    /// The end of a guarded pass: torn critical state locks the node down, and a
    /// pass that panicked over it is worth one line in the log.
    pub fn close_guarded_pass(&mut self, panicked: bool, critical_lock_poisoned: bool) -> (log: bool)
        ensures
            log == (panicked && critical_lock_poisoned),
            final(self)@ == (NodeView {
                lockdown: old(self)@.lockdown || critical_lock_poisoned,
                ..old(self)@
            }),
    {
        if critical_lock_poisoned {
            self.enter_lockdown();
        }
        panicked && critical_lock_poisoned
    }
}

} // verus!
