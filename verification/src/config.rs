//! The sealed configuration: its fields, its defaults, and the rules that a node
//! checks before it starts.

use vstd::prelude::*;

use crate::descriptor::{quoted, quoted_text};
use crate::node::ChannelLimits;
use crate::sweep::texted;
use crate::text::{decimal, lower_hex, owned, push_decimal, same_bytes, same_text, to_lower_hex};

verus! {

/// The networks that a vault can be sealed for.
pub const SUPPORTED_VAULT_NETWORKS: &'static str = "bitcoin, signet, regtest";

/// The share of the protected value that an escape must deliver, in percent.
pub const DEFAULT_ESCAPE_COVERAGE_PCT: u8 = 95;

/// The lowest feerate that an escape may fire at.
pub const DEFAULT_ESCAPE_FEERATE_FLOOR: u64 = 1;

/// The share of an escape that its fee bumps may take, in percent.
pub const DEFAULT_ESCAPE_BUMP_MAX_FEE_PCT: u8 = 0;

/// How often the view of the vault's coins is refreshed, in seconds.
pub const SCAN_INTERVAL_SECS: u64 = 10;

/// A network.
#[derive(Clone, Copy, Debug, PartialEq, Eq, Structural)]
pub enum Network {
    Bitcoin,
    Signet,
    Regtest,
    /// Any other: no vault is sealed for it.
    Other,
}

/// The name that a vault network is written with.
pub open spec fn network_name(network: Network) -> Seq<char> {
    match network {
        Network::Bitcoin => "bitcoin"@,
        Network::Signet => "signet"@,
        Network::Regtest => "regtest"@,
        Network::Other => "unsupported"@,
    }
}

/// The vault network that `raw` names, or the complaint about it.
pub open spec fn named_network(raw: Seq<char>) -> Result<Network, Seq<char>> {
    if raw == "bitcoin"@ {
        Ok(Network::Bitcoin)
    } else if raw == "signet"@ {
        Ok(Network::Signet)
    } else if raw == "regtest"@ {
        Ok(Network::Regtest)
    } else {
        Err(
            "unsupported vault network "@ + quoted_text(raw)
                + ": this vault seals exactly one of "@ + SUPPORTED_VAULT_NETWORKS@
                + " (signet means the DEFAULT PUBLIC signet; testnet, testnet4 and custom signets are not supported)"@,
        )
    }
}

/// Reads the name of a vault network.
pub fn parse_vault_network(raw: &str) -> (out: Result<Network, String>)
    ensures
        texted(out) == named_network(raw@),
{
    let text = owned(raw);
    if same_text(&text, &owned("bitcoin")) {
        return Ok(Network::Bitcoin);
    }
    if same_text(&text, &owned("signet")) {
        return Ok(Network::Signet);
    }
    if same_text(&text, &owned("regtest")) {
        return Ok(Network::Regtest);
    }
    let mut complaint = owned("unsupported vault network ");
    let shown = quoted(raw);
    complaint.append(shown.as_str());
    complaint.append(": this vault seals exactly one of ");
    complaint.append(SUPPORTED_VAULT_NETWORKS);
    complaint.append(
        " (signet means the DEFAULT PUBLIC signet; testnet, testnet4 and custom signets are not supported)",
    );
    Err(complaint)
}

/// The name that a vault network is written with.
pub fn vault_network_name(network: Network) -> (name: &'static str)
    ensures
        name@ == network_name(network),
{
    match network {
        Network::Bitcoin => "bitcoin",
        Network::Signet => "signet",
        Network::Regtest => "regtest",
        Network::Other => "unsupported",
    }
}

/// Names and networks fit together: a vault network is read back from its name, and
/// what is read as one is its name.
pub proof fn network_names_round_trip(network: Network, raw: Seq<char>)
    ensures
        network != Network::Other ==> named_network(network_name(network)) == Result::<
            Network,
            Seq<char>,
        >::Ok(network),
        named_network(network_name(Network::Other)) is Err,
        named_network(raw) matches Ok(n) ==> n != Network::Other && network_name(n) == raw,
{
    reveal_strlit("bitcoin");
    reveal_strlit("signet");
    reveal_strlit("regtest");
    reveal_strlit("unsupported");
    assert("bitcoin"@[0] != "regtest"@[0]);
    assert("bitcoin"@.len() == 7 && "signet"@.len() == 6 && "regtest"@.len() == 7);
    assert("unsupported"@.len() == 11);
}

/// The time between the fire event and the end of the combine window.
pub fn default_combine_slack_secs() -> (secs: u64)
    ensures
        secs == 60,
{
    60
}

/// The time between two refreshes of a coin.
pub fn default_refresh_min_interval_secs() -> (secs: u64)
    ensures
        secs == 2_592_000,
{
    2_592_000
}

/// The highest feerate of a refresh.
pub fn default_refresh_max_feerate() -> (rate: u64)
    ensures
        rate == 100,
{
    100
}

/// The slack of the duress deadline.
pub fn default_epsilon_secs() -> (secs: u64)
    ensures
        secs == 60,
{
    60
}

/// The time that the peers need to get a request.
pub fn default_delivery_horizon_secs() -> (secs: u64)
    ensures
        secs == 60,
{
    60
}

/// The share of the protected value that an escape must deliver.
pub fn default_escape_coverage_pct() -> (pct: u8)
    ensures
        pct == DEFAULT_ESCAPE_COVERAGE_PCT,
{
    DEFAULT_ESCAPE_COVERAGE_PCT
}

/// The lowest feerate that an escape may fire at.
pub fn default_escape_feerate_floor() -> (rate: u64)
    ensures
        rate == DEFAULT_ESCAPE_FEERATE_FLOOR,
{
    DEFAULT_ESCAPE_FEERATE_FLOOR
}

/// The budget of pin attempts.
#[derive(Debug)]
pub struct PinAttemptBudgetConfig {
    pub max_attempts: u64,
    pub window_secs: u64,
    pub backoff_schedule: Vec<u64>,
    pub lockout_secs: u64,
}

/// How many wrong attempts a window holds.
pub fn default_max_attempts() -> (attempts: u64)
    ensures
        attempts == 5,
{
    5
}

/// The length of that window.
pub fn default_window_secs() -> (secs: u64)
    ensures
        secs == 3_600,
{
    3_600
}

/// How long the refusals of wrong pins wait, one after the other.
pub fn default_backoff_schedule() -> (schedule: Vec<u64>)
    ensures
        schedule@ == seq![0u64],
{
    let mut schedule: Vec<u64> = Vec::new();
    schedule.push(0);
    assert(schedule@ =~= seq![0u64]);
    schedule
}

/// How long a lockout lasts.
pub fn default_lockout_secs() -> (secs: u64)
    ensures
        secs == 900,
{
    900
}

impl Default for PinAttemptBudgetConfig {
    fn default() -> (budget: PinAttemptBudgetConfig)
        ensures
            budget.max_attempts == 5,
            budget.window_secs == 3_600,
            budget.backoff_schedule@ == seq![0u64],
            budget.lockout_secs == 900,
    {
        PinAttemptBudgetConfig {
            max_attempts: default_max_attempts(),
            window_secs: default_window_secs(),
            backoff_schedule: default_backoff_schedule(),
            lockout_secs: default_lockout_secs(),
        }
    }
}

/// Where the node finds its view of the chain.
#[derive(Debug)]
pub struct ChainBackendConfig {
    pub rpc_addr: String,
    pub auth: String,
}

/// The sealed configuration, as it is written.
#[derive(Debug)]
pub struct ConfigFile {
    pub listen_port: u16,
    pub node_key_salt: String,
    pub node_key_ops: u32,
    pub node_key_mem_kib: u32,
    pub descriptor: String,
    pub allowlist: Vec<String>,
    pub escape_descriptor: String,
    pub max_derivation_index: u32,
    pub hold_secs: u64,
    pub hot_max_per_tx: u64,
    pub hot_max_per_window: u64,
    pub hot_window_secs: u64,
    pub combine_slack_secs: u64,
    pub max_commitment_age_secs: u64,
    pub refresh_min_interval_secs: u64,
    pub refresh_max_feerate: u64,
    pub duress_delay_secs: u64,
    pub epsilon_secs: u64,
    pub delivery_horizon_secs: u64,
    pub escape_coverage_pct: u8,
    pub escape_feerate_floor: u64,
    pub protocol_version: u32,
    pub escape_bump_max_fee_pct: u8,
    pub network: String,
    pub policy_version: u32,
    pub pin_normal_hash: String,
    pub pin_duress_hash: String,
    pub pin_attempt_budget: PinAttemptBudgetConfig,
    pub coordinator_auth_pubkey: String,
    pub chain_backend: Option<ChainBackendConfig>,
    pub channel: Option<ChannelLimits>,
}

/// The complaint about a revision other than the one that is spoken, `None` where it
/// is that one.
pub open spec fn version_fault(declared: Option<u32>, spoken: u32) -> Option<Seq<char>> {
    if declared == Some(spoken) {
        None
    } else {
        Some(
            "unsupported manifest protocol_version "@ + match declared {
                Some(version) => decimal(version as nat),
                None => "(absent)"@,
            } + ": this binary speaks manifest schema revision "@ + decimal(spoken as nat)
                + " only, so any other declared revision — absent, older or newer — names a DIFFERENT preimage layout (ADR-0016 §3a) whose sealed anchor cannot be reproduced here. Sealed hosts take no upgrade-in-place (ADR-0005): the remedy is a ceremony at this revision, never an edit of this file."@,
        )
    }
}

/// Checks the revision that a configuration declares, before anything else in it is
/// read.
pub fn check_protocol_version(declared: Option<u32>, spoken: u32) -> (out: Result<(), String>)
    ensures
        match out {
            Ok(()) => version_fault(declared, spoken) is None,
            Err(e) => version_fault(declared, spoken) == Some(e@),
        },
{
    if let Some(version) = declared {
        if version == spoken {
            return Ok(());
        }
    }
    let mut text = owned("unsupported manifest protocol_version ");
    match declared {
        Some(version) => push_decimal(&mut text, version as u64),
        None => text.append("(absent)"),
    }
    text.append(": this binary speaks manifest schema revision ");
    push_decimal(&mut text, spoken as u64);
    text.append(
        " only, so any other declared revision — absent, older or newer — names a DIFFERENT preimage layout (ADR-0016 §3a) whose sealed anchor cannot be reproduced here. Sealed hosts take no upgrade-in-place (ADR-0005): the remedy is a ceremony at this revision, never an edit of this file.",
    );
    Err(text)
}

/// The key of this node, in serialized form.
#[derive(Debug)]
pub struct NodeKey {
    pub seckey: Vec<u8>,
    /// The public key that the node's channel uses.
    pub channel_pubkey: Vec<u8>,
}

/// What the vault descriptor says of the federation, the keys as compressed points.
#[derive(Debug)]
pub struct VaultTemplate {
    pub user_key: Vec<u8>,
    pub threshold: usize,
    pub node_keys: Vec<Vec<u8>>,
}

/// The keys in `keys`.
pub open spec fn key_views(keys: Seq<Vec<u8>>) -> Seq<Seq<u8>> {
    keys.map_values(|k: Vec<u8>| k@)
}

/// What is wrong with the roles of the keys, if anything: the node's public key
/// `pubkey` must be one of the federation's, a federation with a channel must have the
/// right size, and the coordinator's key must be nobody else's.
pub open spec fn roles_fault(
    pubkey: Seq<u8>,
    channel_pubkey: Seq<u8>,
    template: VaultTemplate,
    coordinator: Seq<u8>,
    has_channel: bool,
) -> Option<Seq<char>> {
    let nodes = key_views(template.node_keys@);
    if !nodes.contains(pubkey) {
        Some(
            "the wskdf-derived node key "@ + lower_hex(pubkey)
                + " is not one of the vault descriptor's federation node keys: the operator preimage does not match this node's node_key_salt/node_key_ops/node_key_mem_kib, or the config belongs to a different node"@,
        )
    } else if has_channel && template.threshold < 2 {
        Some(
            "[channel] confirmation-gated arming requires a federation threshold of at least 2 (ADR-0013 §1); a t=1 carrier can never receive the peer confirmation that is the only authorized arm trigger"@,
        )
    } else if has_channel && nodes.len() != template.threshold * 2 - 1 {
        Some(
            "[channel] confirmation-gated arming requires n = 2t - 1, but descriptor threshold is "@
                + decimal(template.threshold as nat) + "-of-"@ + decimal(nodes.len())
                + ": the federation must both tolerate t-1 withholding nodes and leave no unfrozen signing quorum"@,
        )
    } else if coordinator == template.user_key@ {
        Some(
            "coordinator_auth_pubkey must not be the descriptor's user key: the coordinator authorizes requests and the user authorizes spends, so one key for both lets the user key mint its own coordinator requests"@,
        )
    } else if nodes.contains(coordinator) {
        Some(
            "coordinator_auth_pubkey must not be one of the descriptor's federation node keys: one key for both roles lets a single compromised node mint coordinator requests to its peers"@,
        )
    } else if channel_pubkey == coordinator {
        Some(
            "coordinator_auth_pubkey must not be this node's derived channel key: the channel key is derived from the node's federation seckey, so one key for both roles lets this node mint coordinator requests for the whole vault"@,
        )
    } else {
        None
    }
}

fn lists_key(keys: &Vec<Vec<u8>>, key: &Vec<u8>) -> (found: bool)
    ensures
        found == key_views(keys@).contains(key@),
{
    let ghost views = key_views(keys@);
    let mut i: usize = 0;
    while i < keys.len()
        invariant
            i <= keys.len(),
            views == key_views(keys@),
            forall|k: int| 0 <= k < i ==> views[k] != key@,
        decreases keys.len() - i,
    {
        assert(views[i as int] == keys@[i as int]@);
        if same_bytes(&keys[i], key) {
            return true;
        }
        i += 1;
    }
    false
}

/// Checks the roles of the keys.
pub fn check_roles(
    pubkey: &Vec<u8>,
    channel_pubkey: &Vec<u8>,
    template: &VaultTemplate,
    coordinator: &Vec<u8>,
    has_channel: bool,
) -> (out: Result<(), String>)
    ensures
        match out {
            Ok(()) => roles_fault(
                pubkey@,
                channel_pubkey@,
                *template,
                coordinator@,
                has_channel,
            ) is None,
            Err(e) => roles_fault(
                pubkey@,
                channel_pubkey@,
                *template,
                coordinator@,
                has_channel,
            ) == Some(e@),
        },
{
    if !lists_key(&template.node_keys, pubkey) {
        let mut text = owned("the wskdf-derived node key ");
        let hex = to_lower_hex(pubkey.as_slice());
        text.append(hex.as_str());
        text.append(
            " is not one of the vault descriptor's federation node keys: the operator preimage does not match this node's node_key_salt/node_key_ops/node_key_mem_kib, or the config belongs to a different node",
        );
        return Err(text);
    }
    if has_channel && template.threshold < 2 {
        return Err(
            owned(
                "[channel] confirmation-gated arming requires a federation threshold of at least 2 (ADR-0013 §1); a t=1 carrier can never receive the peer confirmation that is the only authorized arm trigger",
            ),
        );
    }
    let nodes = template.node_keys.len();
    assert(key_views(template.node_keys@).len() == nodes);
    if has_channel && nodes as u128 != template.threshold as u128 * 2 - 1 {
        let mut text = owned(
            "[channel] confirmation-gated arming requires n = 2t - 1, but descriptor threshold is ",
        );
        push_decimal(&mut text, template.threshold as u64);
        text.append("-of-");
        push_decimal(&mut text, nodes as u64);
        text.append(
            ": the federation must both tolerate t-1 withholding nodes and leave no unfrozen signing quorum",
        );
        return Err(text);
    }
    if same_bytes(coordinator, &template.user_key) {
        return Err(
            owned(
                "coordinator_auth_pubkey must not be the descriptor's user key: the coordinator authorizes requests and the user authorizes spends, so one key for both lets the user key mint its own coordinator requests",
            ),
        );
    }
    if lists_key(&template.node_keys, coordinator) {
        return Err(
            owned(
                "coordinator_auth_pubkey must not be one of the descriptor's federation node keys: one key for both roles lets a single compromised node mint coordinator requests to its peers",
            ),
        );
    }
    if same_bytes(channel_pubkey, coordinator) {
        return Err(
            owned(
                "coordinator_auth_pubkey must not be this node's derived channel key: the channel key is derived from the node's federation seckey, so one key for both roles lets this node mint coordinator requests for the whole vault",
            ),
        );
    }
    Ok(())
}

/// A federation with a channel can lose all but a quorum, and no two quorums fit
/// beside each other.
pub proof fn quorums_overlap(
    pubkey: Seq<u8>,
    channel_pubkey: Seq<u8>,
    template: VaultTemplate,
    coordinator: Seq<u8>,
)
    requires
        roles_fault(pubkey, channel_pubkey, template, coordinator, true) is None,
    ensures
        template.threshold >= 2,
        template.node_keys@.len() - (template.threshold - 1) == template.threshold,
        template.node_keys@.len() < 2 * template.threshold,
{
    assert(key_views(template.node_keys@).len() == template.node_keys@.len());
}

/// A manifest passes exactly where it declares the revision that is spoken.
pub proof fn only_the_spoken_revision_passes(declared: Option<u32>, spoken: u32)
    ensures
        version_fault(declared, spoken) is None <==> (declared matches Some(version) && version
            == spoken),
{
}

/// A node's keys pass exactly where its own key is one of the federation's and the
/// coordinator's key is none of the other keys; a node with peers also needs a threshold
/// of two or more, and one less than twice as many nodes.
pub proof fn no_key_has_two_roles(
    pubkey: Seq<u8>,
    channel_pubkey: Seq<u8>,
    template: VaultTemplate,
    coordinator: Seq<u8>,
    has_channel: bool,
)
    ensures
        roles_fault(pubkey, channel_pubkey, template, coordinator, has_channel) is None <==> {
            let n = template.node_keys@.len();
            &&& exists|i: int| 0 <= i < n && (#[trigger] template.node_keys@[i])@ == pubkey
            &&& forall|i: int| 0 <= i < n ==> (#[trigger] template.node_keys@[i])@ != coordinator
            &&& coordinator != template.user_key@
            &&& coordinator != channel_pubkey
            &&& has_channel ==> template.threshold >= 2 && n + 1 == 2 * template.threshold
        },
{
    let nodes = key_views(template.node_keys@);
    assert(nodes.len() == template.node_keys@.len());
    if nodes.contains(pubkey) {
        let i = choose|i: int| 0 <= i < nodes.len() && nodes[i] == pubkey;
        assert(template.node_keys@[i]@ == pubkey);
    }
    if nodes.contains(coordinator) {
        let i = choose|i: int| 0 <= i < nodes.len() && nodes[i] == coordinator;
        assert(template.node_keys@[i]@ == coordinator);
    }
    assert forall|i: int| 0 <= i < nodes.len() implies nodes.contains(
        (#[trigger] template.node_keys@[i])@,
    ) by {
        assert(nodes[i] == template.node_keys@[i]@);
    }
}

} // verus!
