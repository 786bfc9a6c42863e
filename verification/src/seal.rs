//! From a configuration to a node that may start.

use vstd::prelude::*;
use vstd::utf8::encode_utf8;

use crate::config::{
    check_roles, key_views, named_network, parse_vault_network, roles_fault, ConfigFile, Network,
    NodeKey, VaultTemplate, SCAN_INTERVAL_SECS,
};
use crate::crypto::{own_public_key, public_key_of, sha256, sha256_digest};
use crate::descriptor::{
    descriptor_canonical, explicit_script, max_weight_to_satisfy, parse_descriptor,
    parse_public_key, parse_vault, public_key, quoted, quoted_text, vault_canonical, vault_script,
    vault_weight,
};
use crate::node::{HotBudget, Node, NodeKeys, NodeKeysView, NodeParams, NodeView};
use crate::proto::TaggedRequestView;
use crate::registry::ErrandView;
use crate::replay::{NonceLogView, SignState, SignStateView};
use crate::table::texts;
use crate::text::{copy_bytes, decimal, owned, push_decimal, same_text};
use crate::tx::saturating;

verus! {

/// A sentence with two numbers in it.
pub open spec fn two_numbers(
    start: Seq<char>,
    x: u64,
    middle: Seq<char>,
    y: u64,
    end: Seq<char>,
) -> Seq<char> {
    start + decimal(x as nat) + middle + decimal(y as nat) + end
}

fn with_two_numbers(start: &str, x: u64, middle: &str, y: u64, end: &str) -> (text: String)
    ensures
        text@ == two_numbers(start@, x, middle@, y, end@),
{
    let mut text = owned(start);
    push_decimal(&mut text, x);
    text.append(middle);
    push_decimal(&mut text, y);
    text.append(end);
    text
}

/// What is wrong with the limits on hot spends, if anything.
pub open spec fn hot_limits_fault(c: ConfigFile) -> Option<Seq<char>> {
    if c.hold_secs >= c.max_commitment_age_secs {
        Some(
            two_numbers(
                "max_commitment_age_secs ("@,
                c.max_commitment_age_secs,
                ") must exceed hold_secs ("@,
                c.hold_secs,
                ")"@,
            ),
        )
    } else if c.hot_window_secs < c.max_commitment_age_secs {
        Some(
            two_numbers(
                "hot_window_secs ("@,
                c.hot_window_secs,
                ") must be at least max_commitment_age_secs ("@,
                c.max_commitment_age_secs,
                "): a velocity window shorter than the commitment lifetime lets a reservation age out while its spend can still broadcast, so the aggregate Hot budget would not bind"@,
            ),
        )
    } else if c.hot_max_per_tx == 0 || c.hot_max_per_window == 0 {
        Some(
            two_numbers(
                "hot_max_per_tx ("@,
                c.hot_max_per_tx,
                ") and hot_max_per_window ("@,
                c.hot_max_per_window,
                ") must both be greater than 0: a zero cap refuses every hot spend, silently reducing the vault to escape-and-refresh-only (ADR-0014)"@,
            ),
        )
    } else if c.hot_max_per_tx > c.hot_max_per_window {
        Some(
            two_numbers(
                "hot_max_per_tx ("@,
                c.hot_max_per_tx,
                ") must not exceed hot_max_per_window ("@,
                c.hot_max_per_window,
                "): the ledger reserves the whole outflow at ingress, so a larger per-tx cap can never be reached and the effective bound would silently be the window cap (ADR-0014)"@,
            ),
        )
    } else {
        None
    }
}

/// What is wrong with the limits in time, if anything.
pub open spec fn time_limits_fault(c: ConfigFile) -> Option<Seq<char>> {
    let max_age = c.max_commitment_age_secs;
    if c.combine_slack_secs < 2 * SCAN_INTERVAL_SECS {
        Some(
            two_numbers(
                "combine_slack_secs ("@,
                c.combine_slack_secs,
                ") must be at least twice the vault cache refresh interval ("@,
                (2 * SCAN_INTERVAL_SECS) as u64,
                "s): a shorter combine window can go stale for its whole duration when a block arrives near the fire event (the refresher ticks from pass completion, so the worst-case gap exceeds one interval), so the escape sweep's coverage check fails every tick and the armed escape is pruned before the next refresh — silently reducing duress to recovery-only (a zero-width window additionally lets no node transmit a partial after the fire event)"@,
            ),
        )
    } else if c.refresh_min_interval_secs == 0 {
        Some(
            "refresh_min_interval_secs must be greater than 0: zero disables the per-coin refresh burn-rate bound"@,
        )
    } else if c.epsilon_secs > max_age {
        Some(
            two_numbers(
                "epsilon_secs ("@,
                c.epsilon_secs,
                ") must not exceed max_commitment_age_secs ("@,
                max_age,
                "): an ε larger than the commitment lifetime is absurd (ADR-0012 bounded ε)"@,
            ),
        )
    } else if c.duress_delay_secs > max_age {
        Some(
            two_numbers(
                "duress_delay_secs ("@,
                c.duress_delay_secs,
                ") must not exceed max_commitment_age_secs ("@,
                max_age,
                "): a delay past the commitment lifetime keeps the constant-observable escape slot's expiry exemption open beyond the candidates' own expiry, so ordinary traffic could exhaust the bounded candidate store (ADR-0012 duress-T; requirement 7)"@,
            ),
        )
    } else if c.channel is Some && (c.delivery_horizon_secs == 0 || c.delivery_horizon_secs
        >= max_age) {
        Some(
            two_numbers(
                "delivery_horizon_secs ("@,
                c.delivery_horizon_secs,
                ") must be in 1.."@,
                max_age,
                ": it is the margin that lets an authenticated carrier reach every peer before it expires (V0-4b §0 confirmation-gated arming), and a horizon at or above max_commitment_age_secs leaves no usable authenticated-expiry window"@,
            ),
        )
    } else {
        None
    }
}

/// What is wrong with the rules for an escape, or with the expiry that they leave to a
/// hot spend, if anything.
pub open spec fn escape_limits_fault(c: ConfigFile) -> Option<Seq<char>> {
    if c.escape_coverage_pct == 0 || c.escape_coverage_pct > 100 {
        Some(
            "escape_coverage_pct ("@ + decimal(c.escape_coverage_pct as nat)
                + ") must be in 1..=100 (ADR-0013 §6)"@,
        )
    } else if c.escape_coverage_pct == 100 && c.escape_feerate_floor > 0 {
        Some(
            "escape_coverage_pct = 100 is incompatible with a positive escape_feerate_floor: the escape cannot both deliver every protected satoshi and pay a positive fee"@,
        )
    } else if saturating(c.hold_secs + c.combine_slack_secs) > c.max_commitment_age_secs {
        Some(
            two_numbers(
                "hold_secs ("@,
                c.hold_secs,
                ") + combine_slack_secs ("@,
                c.combine_slack_secs,
                ") must not exceed max_commitment_age_secs ("@,
            ) + decimal(c.max_commitment_age_secs as nat)
                + "): the EXPIRY_TOO_SHORT floor would sit past the node's own expiry cap, so every hot-class spend would be refused"@,
        )
    } else {
        None
    }
}

/// What is wrong with the limits, if anything.
pub open spec fn limits_fault(c: ConfigFile) -> Option<Seq<char>> {
    if hot_limits_fault(c) is Some {
        hot_limits_fault(c)
    } else if time_limits_fault(c) is Some {
        time_limits_fault(c)
    } else {
        escape_limits_fault(c)
    }
}

fn check_hot_limits(c: &ConfigFile) -> (out: Result<(), String>)
    ensures
        match out {
            Ok(()) => hot_limits_fault(*c) is None,
            Err(e) => hot_limits_fault(*c) == Some(e@),
        },
{
    if c.hold_secs >= c.max_commitment_age_secs {
        return Err(
            with_two_numbers(
                "max_commitment_age_secs (",
                c.max_commitment_age_secs,
                ") must exceed hold_secs (",
                c.hold_secs,
                ")",
            ),
        );
    }
    if c.hot_window_secs < c.max_commitment_age_secs {
        return Err(
            with_two_numbers(
                "hot_window_secs (",
                c.hot_window_secs,
                ") must be at least max_commitment_age_secs (",
                c.max_commitment_age_secs,
                "): a velocity window shorter than the commitment lifetime lets a reservation age out while its spend can still broadcast, so the aggregate Hot budget would not bind",
            ),
        );
    }
    if c.hot_max_per_tx == 0 || c.hot_max_per_window == 0 {
        return Err(
            with_two_numbers(
                "hot_max_per_tx (",
                c.hot_max_per_tx,
                ") and hot_max_per_window (",
                c.hot_max_per_window,
                ") must both be greater than 0: a zero cap refuses every hot spend, silently reducing the vault to escape-and-refresh-only (ADR-0014)",
            ),
        );
    }
    if c.hot_max_per_tx > c.hot_max_per_window {
        return Err(
            with_two_numbers(
                "hot_max_per_tx (",
                c.hot_max_per_tx,
                ") must not exceed hot_max_per_window (",
                c.hot_max_per_window,
                "): the ledger reserves the whole outflow at ingress, so a larger per-tx cap can never be reached and the effective bound would silently be the window cap (ADR-0014)",
            ),
        );
    }
    Ok(())
}

fn check_time_limits(c: &ConfigFile) -> (out: Result<(), String>)
    ensures
        match out {
            Ok(()) => time_limits_fault(*c) is None,
            Err(e) => time_limits_fault(*c) == Some(e@),
        },
{
    let max_age = c.max_commitment_age_secs;
    if c.combine_slack_secs < 2 * SCAN_INTERVAL_SECS {
        return Err(
            with_two_numbers(
                "combine_slack_secs (",
                c.combine_slack_secs,
                ") must be at least twice the vault cache refresh interval (",
                2 * SCAN_INTERVAL_SECS,
                "s): a shorter combine window can go stale for its whole duration when a block arrives near the fire event (the refresher ticks from pass completion, so the worst-case gap exceeds one interval), so the escape sweep's coverage check fails every tick and the armed escape is pruned before the next refresh — silently reducing duress to recovery-only (a zero-width window additionally lets no node transmit a partial after the fire event)",
            ),
        );
    }
    if c.refresh_min_interval_secs == 0 {
        return Err(
            owned(
                "refresh_min_interval_secs must be greater than 0: zero disables the per-coin refresh burn-rate bound",
            ),
        );
    }
    if c.epsilon_secs > max_age {
        return Err(
            with_two_numbers(
                "epsilon_secs (",
                c.epsilon_secs,
                ") must not exceed max_commitment_age_secs (",
                max_age,
                "): an ε larger than the commitment lifetime is absurd (ADR-0012 bounded ε)",
            ),
        );
    }
    if c.duress_delay_secs > max_age {
        return Err(
            with_two_numbers(
                "duress_delay_secs (",
                c.duress_delay_secs,
                ") must not exceed max_commitment_age_secs (",
                max_age,
                "): a delay past the commitment lifetime keeps the constant-observable escape slot's expiry exemption open beyond the candidates' own expiry, so ordinary traffic could exhaust the bounded candidate store (ADR-0012 duress-T; requirement 7)",
            ),
        );
    }
    if c.channel.is_some() && (c.delivery_horizon_secs == 0 || c.delivery_horizon_secs >= max_age) {
        return Err(
            with_two_numbers(
                "delivery_horizon_secs (",
                c.delivery_horizon_secs,
                ") must be in 1..",
                max_age,
                ": it is the margin that lets an authenticated carrier reach every peer before it expires (V0-4b §0 confirmation-gated arming), and a horizon at or above max_commitment_age_secs leaves no usable authenticated-expiry window",
            ),
        );
    }
    Ok(())
}

fn check_escape_limits(c: &ConfigFile) -> (out: Result<(), String>)
    ensures
        match out {
            Ok(()) => escape_limits_fault(*c) is None,
            Err(e) => escape_limits_fault(*c) == Some(e@),
        },
{
    if c.escape_coverage_pct == 0 || c.escape_coverage_pct > 100 {
        let mut text = owned("escape_coverage_pct (");
        push_decimal(&mut text, c.escape_coverage_pct as u64);
        text.append(") must be in 1..=100 (ADR-0013 §6)");
        return Err(text);
    }
    if c.escape_coverage_pct == 100 && c.escape_feerate_floor > 0 {
        return Err(
            owned(
                "escape_coverage_pct = 100 is incompatible with a positive escape_feerate_floor: the escape cannot both deliver every protected satoshi and pay a positive fee",
            ),
        );
    }
    if c.hold_secs.saturating_add(c.combine_slack_secs) > c.max_commitment_age_secs {
        let mut text = with_two_numbers(
            "hold_secs (",
            c.hold_secs,
            ") + combine_slack_secs (",
            c.combine_slack_secs,
            ") must not exceed max_commitment_age_secs (",
        );
        push_decimal(&mut text, c.max_commitment_age_secs);
        text.append(
            "): the EXPIRY_TOO_SHORT floor would sit past the node's own expiry cap, so every hot-class spend would be refused",
        );
        return Err(text);
    }
    Ok(())
}

/// Checks the limits of a configuration.
pub fn check_limits(c: &ConfigFile) -> (out: Result<(), String>)
    ensures
        match out {
            Ok(()) => limits_fault(*c) is None,
            Err(e) => limits_fault(*c) == Some(e@),
        },
{
    if let Err(e) = check_hot_limits(c) {
        return Err(e);
    }
    if let Err(e) = check_time_limits(c) {
        return Err(e);
    }
    check_escape_limits(c)
}

/// What the surroundings know that a configuration is held against.
#[derive(Debug)]
pub struct SealFacts {
    /// The node's key, derived from the operator's secret.
    pub node_key: Result<NodeKey, String>,
    /// What the vault descriptor says of the federation.
    pub template: Result<VaultTemplate, String>,
    /// Whether the destinations belong to the sealed network.
    pub destinations_network: Result<(), String>,
    /// Whether the pin digests and the budget of attempts are usable.
    pub pins: Result<(), String>,
    /// Whether the address of the chain backend can be read.
    pub backend_address: Result<(), String>,
}

/// Who a node is: its keys, its vault and its federation.
#[derive(Debug)]
pub struct Identity {
    pub network: Network,
    pub seckey: Vec<u8>,
    pub pubkey: Vec<u8>,
    pub user_pubkey: Vec<u8>,
    pub coordinator_auth: Vec<u8>,
    pub threshold: usize,
    pub witness_script: Vec<u8>,
    pub max_vault_satisfaction_weight: u64,
    pub wallet_id: [u8; 32],
}

/// The contents of an [`Identity`].
pub struct IdentityView {
    pub network: Network,
    pub seckey: Seq<u8>,
    pub pubkey: Seq<u8>,
    pub user_pubkey: Seq<u8>,
    pub coordinator_auth: Seq<u8>,
    pub threshold: usize,
    pub witness_script: Seq<u8>,
    pub max_vault_satisfaction_weight: u64,
    pub wallet_id: [u8; 32],
}

impl View for Identity {
    type V = IdentityView;

    open spec fn view(&self) -> IdentityView {
        IdentityView {
            network: self.network,
            seckey: self.seckey@,
            pubkey: self.pubkey@,
            user_pubkey: self.user_pubkey@,
            coordinator_auth: self.coordinator_auth@,
            threshold: self.threshold,
            witness_script: self.witness_script@,
            max_vault_satisfaction_weight: self.max_vault_satisfaction_weight,
            wallet_id: self.wallet_id,
        }
    }
}

/// The vault of a node, once its keys are known to fit: the wallet's id is the digest
/// of the canonical descriptor.
pub open spec fn vault_identity(
    c: ConfigFile,
    network: Network,
    key: NodeKey,
    pubkey: Seq<u8>,
    coordinator: Seq<u8>,
    canonical: Seq<char>,
    template: VaultTemplate,
) -> Result<IdentityView, Seq<char>> {
    match roles_fault(pubkey, key.channel_pubkey@, template, coordinator, c.channel is Some) {
        Some(e) => Err(e),
        None => match vault_script(c.descriptor@) {
            Err(e) => Err("descriptor has no witness script: "@ + e),
            Ok(script) => match vault_weight(c.descriptor@) {
                Err(e) => Err("cannot bound vault satisfaction weight: "@ + e),
                Ok(weight) => Ok(
                    IdentityView {
                        network,
                        seckey: key.seckey@,
                        pubkey,
                        user_pubkey: template.user_key@,
                        coordinator_auth: coordinator,
                        threshold: template.threshold,
                        witness_script: script,
                        max_vault_satisfaction_weight: weight,
                        wallet_id: sha256_digest(encode_utf8(canonical)),
                    },
                ),
            },
        },
    }
}

/// Who the node with the key `key` is by its configuration, or the first complaint about
/// the coordinator's key, the vault or the federation.
pub open spec fn keyed_identity(
    c: ConfigFile,
    facts: SealFacts,
    network: Network,
    key: NodeKey,
    pubkey: Seq<u8>,
) -> Result<IdentityView, Seq<char>> {
    if encode_utf8(c.coordinator_auth_pubkey@).len() != 66 {
        Err("bad coordinator_auth_pubkey: expected a 33-byte compressed secp256k1 public key"@)
    } else {
        match public_key(c.coordinator_auth_pubkey@) {
            Err(e) => Err("bad coordinator_auth_pubkey: "@ + e),
            Ok(coordinator) => match vault_canonical(c.descriptor@) {
                Err(e) => Err("bad descriptor: "@ + e),
                Ok(canonical) => match descriptor_canonical(c.descriptor@) {
                    Err(e) => Err("bad descriptor: "@ + e),
                    Ok(_) => match facts.template {
                        Err(e) => Err("bad descriptor: "@ + e@),
                        Ok(template) => vault_identity(
                            c,
                            network,
                            key,
                            pubkey,
                            coordinator,
                            canonical,
                            template,
                        ),
                    },
                },
            },
        }
    }
}

/// Who the node is by its configuration, or the first complaint about it.
pub open spec fn identity_of(c: ConfigFile, facts: SealFacts) -> Result<IdentityView, Seq<char>> {
    match named_network(c.network@) {
        Err(e) => Err(e),
        Ok(network) => match facts.node_key {
            Err(e) => Err(e@),
            Ok(key) => match own_public_key(key.seckey@) {
                Err(e) => Err(e),
                Ok(pubkey) => keyed_identity(c, facts, network, key, pubkey),
            },
        },
    }
}

/// A node signs with a key of the federation: the public key that a sealed node goes by is that of the
/// secret key it signs with, and the vault descriptor names it.
pub proof fn a_node_signs_with_a_key_of_the_federation(c: ConfigFile, facts: SealFacts)
    requires
        identity_of(c, facts) is Ok,
    ensures
        ({
            let identity = identity_of(c, facts)->Ok_0;
            &&& own_public_key(identity.seckey) == Result::<Seq<u8>, Seq<char>>::Ok(
                identity.pubkey,
            )
            &&& facts.template matches Ok(template)
            &&& key_views(template.node_keys@).contains(identity.pubkey)
        }),
{
}

fn complaint(start: &str, e: &String) -> (text: String)
    ensures
        text@ == start@ + e@,
{
    let mut text = owned(start);
    text.append(e.as_str());
    text
}

fn identify_vault(
    c: &ConfigFile,
    network: Network,
    key: &NodeKey,
    pubkey: Vec<u8>,
    coordinator: Vec<u8>,
    canonical: &String,
    template: &VaultTemplate,
) -> (out: Result<Identity, String>)
    ensures
        match out {
            Ok(identity) => vault_identity(
                *c,
                network,
                *key,
                pubkey@,
                coordinator@,
                canonical@,
                *template,
            ) == Result::<IdentityView, Seq<char>>::Ok(identity@),
            Err(e) => vault_identity(
                *c,
                network,
                *key,
                pubkey@,
                coordinator@,
                canonical@,
                *template,
            ) == Result::<IdentityView, Seq<char>>::Err(e@),
        },
{
    if let Err(e) = check_roles(
        &pubkey,
        &key.channel_pubkey,
        template,
        &coordinator,
        c.channel.is_some(),
    ) {
        return Err(e);
    }
    let witness_script = match explicit_script(c.descriptor.as_str()) {
        Ok(script) => script,
        Err(e) => return Err(complaint("descriptor has no witness script: ", &e)),
    };
    let weight = match max_weight_to_satisfy(c.descriptor.as_str()) {
        Ok(weight) => weight,
        Err(e) => return Err(complaint("cannot bound vault satisfaction weight: ", &e)),
    };
    Ok(
        Identity {
            network,
            seckey: copy_bytes(&key.seckey),
            pubkey,
            user_pubkey: copy_bytes(&template.user_key),
            coordinator_auth: coordinator,
            threshold: template.threshold,
            witness_script,
            max_vault_satisfaction_weight: weight,
            wallet_id: sha256(canonical.as_str().as_bytes()),
        },
    )
}

/// Finds out who the node is.
pub fn identify(c: &ConfigFile, facts: &SealFacts) -> (out: Result<Identity, String>)
    ensures
        match out {
            Ok(identity) => identity_of(*c, *facts) == Result::<IdentityView, Seq<char>>::Ok(
                identity@,
            ),
            Err(e) => identity_of(*c, *facts) == Result::<IdentityView, Seq<char>>::Err(e@),
        },
{
    let network = match parse_vault_network(c.network.as_str()) {
        Ok(network) => network,
        Err(e) => return Err(e),
    };
    let key = match &facts.node_key {
        Ok(key) => key,
        Err(e) => return Err(e.clone()),
    };
    let pubkey = match public_key_of(key.seckey.as_slice()) {
        Ok(pubkey) => pubkey,
        Err(e) => return Err(e),
    };
    if c.coordinator_auth_pubkey.as_str().as_bytes().len() != 66 {
        return Err(
            owned(
                "bad coordinator_auth_pubkey: expected a 33-byte compressed secp256k1 public key",
            ),
        );
    }
    let coordinator = match parse_public_key(c.coordinator_auth_pubkey.as_str()) {
        Ok(coordinator) => coordinator,
        Err(e) => return Err(complaint("bad coordinator_auth_pubkey: ", &e)),
    };
    let canonical = match parse_vault(c.descriptor.as_str()) {
        Ok(canonical) => canonical,
        Err(e) => return Err(complaint("bad descriptor: ", &e)),
    };
    if let Err(e) = parse_descriptor(c.descriptor.as_str()) {
        return Err(complaint("bad descriptor: ", &e));
    }
    match &facts.template {
        Ok(template) => identify_vault(
            c,
            network,
            key,
            pubkey,
            coordinator,
            &canonical,
            template,
        ),
        Err(e) => Err(complaint("bad descriptor: ", e)),
    }
}

/// The canonical forms of the descriptors in `list`, or the complaint about the first
/// that cannot be read.
pub open spec fn canonical_list(list: Seq<Seq<char>>) -> Result<Seq<Seq<char>>, Seq<char>>
    decreases list.len(),
{
    if list.len() == 0 {
        Ok(Seq::empty())
    } else {
        match canonical_list(list.drop_last()) {
            Err(e) => Err(e),
            Ok(before) => match descriptor_canonical(list.last()) {
                Err(e) => Err("bad allowlist descriptor "@ + list.last() + ": "@ + e),
                Ok(canonical) => Ok(before.push(canonical)),
            },
        }
    }
}

proof fn lemma_list_error_stays(list: Seq<Seq<char>>, i: int)
    requires
        0 <= i <= list.len(),
        canonical_list(list.take(i)) is Err,
    ensures
        canonical_list(list) == canonical_list(list.take(i)),
    decreases list.len(),
{
    if i < list.len() {
        assert(list.drop_last().take(i) =~= list.take(i));
        lemma_list_error_stays(list.drop_last(), i);
    } else {
        assert(list.take(i) =~= list);
    }
}

fn read_list(list: &Vec<String>) -> (out: Result<Vec<String>, String>)
    ensures
        match out {
            Ok(canonical) => canonical_list(texts(list@)) == Result::<
                Seq<Seq<char>>,
                Seq<char>,
            >::Ok(texts(canonical@)),
            Err(e) => canonical_list(texts(list@)) == Result::<Seq<Seq<char>>, Seq<char>>::Err(e@),
        },
{
    let ghost all = texts(list@);
    let mut canonical: Vec<String> = Vec::new();
    let mut i: usize = 0;
    assert(all.take(0) =~= Seq::<Seq<char>>::empty());
    assert(texts(canonical@) =~= Seq::<Seq<char>>::empty());
    while i < list.len()
        invariant
            i <= list.len(),
            all == texts(list@),
            canonical_list(all.take(i as int)) == Result::<Seq<Seq<char>>, Seq<char>>::Ok(
                texts(canonical@),
            ),
        decreases list.len() - i,
    {
        let ghost before = canonical@;
        proof {
            let here = all.take(i + 1);
            assert(here.drop_last() =~= all.take(i as int));
            assert(here.last() == list@[i as int]@);
        }
        match parse_descriptor(list[i].as_str()) {
            Ok(text) => {
                canonical.push(text);
                assert(texts(canonical@) =~= texts(before).push(text@));
            },
            Err(e) => {
                proof {
                    lemma_list_error_stays(all, i + 1);
                }
                let mut text = owned("bad allowlist descriptor ");
                text.append(list[i].as_str());
                text.append(": ");
                text.append(e.as_str());
                return Err(text);
            },
        }
        i += 1;
    }
    assert(all.take(i as int) =~= all);
    Ok(canonical)
}

/// The members of `list` other than `one`.
pub open spec fn without(list: Seq<Seq<char>>, one: Seq<char>) -> Seq<Seq<char>> {
    list.filter(|t: Seq<char>| t != one)
}

/// Where a vault may pay to.
#[derive(Debug)]
pub struct Destinations {
    /// The escape wallet, in canonical form.
    pub escape: String,
    /// The hot wallets, in canonical form.
    pub hot: Vec<String>,
}

/// The contents of [`Destinations`].
pub struct DestinationsView {
    pub escape: Seq<char>,
    pub hot: Seq<Seq<char>>,
}

impl View for Destinations {
    type V = DestinationsView;

    open spec fn view(&self) -> DestinationsView {
        DestinationsView { escape: self.escape@, hot: texts(self.hot@) }
    }
}

/// Where the vault may pay to, or the first complaint about the destinations and the
/// limits: the escape wallet must be on the list, and what else is on it is hot.
pub open spec fn destinations_of(c: ConfigFile, facts: SealFacts) -> Result<
    DestinationsView,
    Seq<char>,
> {
    match canonical_list(texts(c.allowlist@)) {
        Err(e) => Err(e),
        Ok(allowed) => match descriptor_canonical(c.escape_descriptor@) {
            Err(e) => Err("bad escape_descriptor: "@ + e),
            Ok(escape) => match facts.destinations_network {
                Err(e) => Err(e@),
                Ok(_) => if limits_fault(c) is Some {
                    Err(limits_fault(c)->0)
                } else if !allowed.contains(escape) {
                    Err("escape_descriptor must also be present in allowlist"@)
                } else {
                    Ok(DestinationsView { escape, hot: without(allowed, escape) })
                },
            },
        },
    }
}

fn lists_text(list: &Vec<String>, text: &String) -> (found: bool)
    ensures
        found == texts(list@).contains(text@),
{
    let mut i: usize = 0;
    while i < list.len()
        invariant
            i <= list.len(),
            forall|k: int| 0 <= k < i ==> texts(list@)[k] != text@,
        decreases list.len() - i,
    {
        if same_text(&list[i], text) {
            assert(texts(list@)[i as int] == text@);
            return true;
        }
        i += 1;
    }
    false
}

fn drop_text(list: Vec<String>, one: &String) -> (kept: Vec<String>)
    ensures
        texts(kept@) == without(texts(list@), one@),
{
    let ghost all = texts(list@);
    let ghost other = |t: Seq<char>| t != one@;
    let mut kept: Vec<String> = Vec::new();
    let mut i: usize = 0;
    assert(texts(kept@) =~= all.take(0).filter(other)) by {
        reveal(Seq::filter);
    }
    while i < list.len()
        invariant
            i <= list.len(),
            all == texts(list@),
            other == (|t: Seq<char>| t != one@),
            texts(kept@) == all.take(i as int).filter(other),
        decreases list.len() - i,
    {
        let ghost before = kept@;
        if !same_text(&list[i], one) {
            kept.push(list[i].clone());
            assert(texts(kept@) =~= texts(before).push(list@[i as int]@));
        }
        proof {
            let here = all.take(i + 1);
            assert(here =~= all.take(i as int).push(list@[i as int]@));
            all.take(i as int).lemma_filter_push(list@[i as int]@, other);
        }
        i += 1;
    }
    assert(all.take(i as int) =~= all);
    kept
}

/// Finds out where the vault may pay to, and checks its limits.
pub fn check_destinations(c: &ConfigFile, facts: &SealFacts) -> (out: Result<Destinations, String>)
    ensures
        match out {
            Ok(d) => destinations_of(*c, *facts) == Result::<DestinationsView, Seq<char>>::Ok(d@),
            Err(e) => destinations_of(*c, *facts) == Result::<DestinationsView, Seq<char>>::Err(
                e@,
            ),
        },
{
    let allowed = match read_list(&c.allowlist) {
        Ok(allowed) => allowed,
        Err(e) => return Err(e),
    };
    let escape = match parse_descriptor(c.escape_descriptor.as_str()) {
        Ok(escape) => escape,
        Err(e) => return Err(complaint("bad escape_descriptor: ", &e)),
    };
    if let Err(e) = &facts.destinations_network {
        return Err(e.clone());
    }
    if let Err(e) = check_limits(c) {
        return Err(e);
    }
    if !lists_text(&allowed, &escape) {
        return Err(owned("escape_descriptor must also be present in allowlist"));
    }
    let hot = drop_text(allowed, &escape);
    Ok(Destinations { escape, hot })
}

/// What is wrong with the pins or the chain backend, if anything.
pub open spec fn services_fault(c: ConfigFile, facts: SealFacts) -> Option<Seq<char>> {
    match facts.pins {
        Err(e) => Some(e@),
        Ok(_) => match (c.chain_backend, facts.backend_address) {
            (Some(backend), Err(e)) => Some(
                "bad chain_backend.rpc_addr "@ + quoted_text(backend.rpc_addr@) + ": "@ + e@,
            ),
            (None, _) if c.channel is Some => Some(
                "[channel] mode requires a [chain_backend]: the nodes combine and broadcast (ADR-0012 Model B), so a node with no chain view of its own could accept and sign a spend it can never broadcast"@,
            ),
            _ => None,
        },
    }
}

/// Checks the pins and the chain backend.
pub fn check_services(c: &ConfigFile, facts: &SealFacts) -> (out: Result<(), String>)
    ensures
        match out {
            Ok(()) => services_fault(*c, *facts) is None,
            Err(e) => services_fault(*c, *facts) == Some(e@),
        },
{
    if let Err(e) = &facts.pins {
        return Err(e.clone());
    }
    match &c.chain_backend {
        Some(backend) => {
            if let Err(e) = &facts.backend_address {
                let mut text = owned("bad chain_backend.rpc_addr ");
                let shown = quoted(backend.rpc_addr.as_str());
                text.append(shown.as_str());
                text.append(": ");
                text.append(e.as_str());
                return Err(text);
            }
            Ok(())
        },
        None => {
            if c.channel.is_some() {
                return Err(
                    owned(
                        "[channel] mode requires a [chain_backend]: the nodes combine and broadcast (ADR-0012 Model B), so a node with no chain view of its own could accept and sign a spend it can never broadcast",
                    ),
                );
            }
            Ok(())
        },
    }
}

/// A configuration that has passed every check of the node's own.
#[derive(Debug)]
pub struct Sealed {
    pub identity: Identity,
    pub destinations: Destinations,
}

/// What a configuration comes to, or the first complaint about it.
pub open spec fn sealed_as(c: ConfigFile, facts: SealFacts) -> Result<
    (IdentityView, DestinationsView),
    Seq<char>,
> {
    match identity_of(c, facts) {
        Err(e) => Err(e),
        Ok(identity) => match destinations_of(c, facts) {
            Err(e) => Err(e),
            Ok(destinations) => match services_fault(c, facts) {
                Some(e) => Err(e),
                None => Ok((identity, destinations)),
            },
        },
    }
}

/// Checks a configuration. The first complaint ends the start.
pub fn seal(c: &ConfigFile, facts: &SealFacts) -> (out: Result<Sealed, String>)
    ensures
        match out {
            Ok(s) => sealed_as(*c, *facts) == Result::<
                (IdentityView, DestinationsView),
                Seq<char>,
            >::Ok((s.identity@, s.destinations@)),
            Err(e) => sealed_as(*c, *facts) == Result::<
                (IdentityView, DestinationsView),
                Seq<char>,
            >::Err(e@),
        },
{
    let identity = match identify(c, facts) {
        Ok(identity) => identity,
        Err(e) => return Err(e),
    };
    let destinations = match check_destinations(c, facts) {
        Ok(destinations) => destinations,
        Err(e) => return Err(e),
    };
    if let Err(e) = check_services(c, facts) {
        return Err(e);
    }
    Ok(Sealed { identity, destinations })
}

/// The limits that a node of this configuration keeps.
pub open spec fn params_of(c: ConfigFile, identity: IdentityView, max_pin_bytes: usize) -> NodeParams {
    NodeParams {
        policy_version: c.policy_version,
        max_commitment_age_secs: c.max_commitment_age_secs,
        hold_secs: c.hold_secs,
        combine_slack_secs: c.combine_slack_secs,
        hot_budget: HotBudget {
            max_per_tx_sat: c.hot_max_per_tx,
            max_per_window_sat: c.hot_max_per_window,
            window_secs: c.hot_window_secs,
        },
        threshold: identity.threshold,
        max_vault_satisfaction_weight: identity.max_vault_satisfaction_weight,
        refresh_min_interval_secs: c.refresh_min_interval_secs,
        refresh_max_feerate: c.refresh_max_feerate,
        duress_delay_secs: c.duress_delay_secs,
        epsilon_secs: c.epsilon_secs,
        delivery_horizon_secs: c.delivery_horizon_secs,
        escape_coverage_pct: c.escape_coverage_pct,
        escape_feerate_floor: c.escape_feerate_floor,
        max_pin_bytes,
    }
}

/// The node that a configuration starts as: it remembers nothing, owes nothing and is
/// not locked down.
pub open spec fn fresh_node(c: ConfigFile, identity: IdentityView, max_pin_bytes: usize) -> NodeView {
    NodeView {
        listen_port: c.listen_port,
        params: params_of(c, identity, max_pin_bytes),
        keys: NodeKeysView {
            seckey: identity.seckey,
            pubkey: identity.pubkey,
            user_pubkey: identity.user_pubkey,
            coordinator_auth: identity.coordinator_auth,
            witness_script: identity.witness_script,
        },
        wallet_id: identity.wallet_id,
        channel: c.channel,
        has_backend: c.chain_backend is Some,
        lockdown: false,
        generation_claimed: false,
        last_deadline_tick: 0,
        duress_arm: 0,
        spend_preflight: 0,
        sign_state: SignStateView {
            replay: Map::empty(),
            pending: Map::empty(),
            coord_nonces: NonceLogView { entries: Map::empty(), high_water: 0 },
            refreshes: Map::empty(),
        },
        authorized: Set::empty(),
        outbox: Seq::empty(),
        errands: Seq::empty(),
    }
}

impl Node {
    /// The node that a checked configuration starts as. `max_pin_bytes` is the longest
    /// pin that can be right.
    pub fn from_sealed(c: &ConfigFile, identity: Identity, max_pin_bytes: usize) -> (node: Node)
        ensures
            node@ == fresh_node(*c, identity@, max_pin_bytes),
    {
        let node = Node {
            listen_port: c.listen_port,
            params: NodeParams {
                policy_version: c.policy_version,
                max_commitment_age_secs: c.max_commitment_age_secs,
                hold_secs: c.hold_secs,
                combine_slack_secs: c.combine_slack_secs,
                hot_budget: HotBudget {
                    max_per_tx_sat: c.hot_max_per_tx,
                    max_per_window_sat: c.hot_max_per_window,
                    window_secs: c.hot_window_secs,
                },
                threshold: identity.threshold,
                max_vault_satisfaction_weight: identity.max_vault_satisfaction_weight,
                refresh_min_interval_secs: c.refresh_min_interval_secs,
                refresh_max_feerate: c.refresh_max_feerate,
                duress_delay_secs: c.duress_delay_secs,
                epsilon_secs: c.epsilon_secs,
                delivery_horizon_secs: c.delivery_horizon_secs,
                escape_coverage_pct: c.escape_coverage_pct,
                escape_feerate_floor: c.escape_feerate_floor,
                max_pin_bytes,
            },
            keys: NodeKeys {
                seckey: identity.seckey,
                pubkey: identity.pubkey,
                user_pubkey: identity.user_pubkey,
                coordinator_auth: identity.coordinator_auth,
                witness_script: identity.witness_script,
            },
            wallet_id: identity.wallet_id,
            channel: c.channel,
            has_backend: c.chain_backend.is_some(),
            lockdown: false,
            generation_claimed: false,
            last_deadline_tick: 0,
            duress_arm: 0,
            spend_preflight: 0,
            sign_state: SignState::new(),
            authorized: Vec::new(),
            outbox: Vec::new(),
            errands: Vec::new(),
        };
        assert(node@.authorized =~= Set::<[u8; 32]>::empty());
        assert(node@.outbox =~= Seq::<TaggedRequestView>::empty());
        assert(node@.errands =~= Seq::<ErrandView>::empty());
        node
    }

    /// Whether the node may run as a daemon: without peers it could sign, but never
    /// collect a quorum.
    pub fn require_channel_mode(&self) -> (out: Result<(), String>)
        ensures
            match out {
                Ok(()) => self@.channel is Some,
                Err(e) => self@.channel is None && e@
                    == "[channel] is required for the Model-B node daemon: /sign withholds partials, so a channel-less node cannot collect a quorum or broadcast"@,
            },
    {
        if self.channel.is_none() {
            return Err(
                owned(
                    "[channel] is required for the Model-B node daemon: /sign withholds partials, so a channel-less node cannot collect a quorum or broadcast",
                ),
            );
        }
        Ok(())
    }
}

/// The limits of a configuration that passed: what they bound can be met, and the
/// bounds fit each other.
pub proof fn accepted_limits_fit(c: ConfigFile)
    requires
        limits_fault(c) is None,
    ensures
        saturating(c.hold_secs + c.combine_slack_secs) <= c.max_commitment_age_secs,
        c.max_commitment_age_secs <= c.hot_window_secs,
        0 < c.hot_max_per_tx <= c.hot_max_per_window,
        c.combine_slack_secs >= 2 * SCAN_INTERVAL_SECS,
        c.refresh_min_interval_secs > 0,
        c.epsilon_secs <= c.max_commitment_age_secs,
        c.duress_delay_secs <= c.max_commitment_age_secs,
        c.channel is Some ==> 0 < c.delivery_horizon_secs < c.max_commitment_age_secs,
        0 < c.escape_coverage_pct <= 100,
        c.escape_coverage_pct == 100 ==> c.escape_feerate_floor == 0,
{
}

/// Under accepted limits a hot spend can pass every look at the clock: one that asks
/// for the longest life is neither too short nor too long, nor too late for the peers.
pub proof fn a_hot_spend_can_pass_the_clock(
    c: ConfigFile,
    node: NodeView,
    now: u64,
    hot_outflow: u64,
    stage: crate::ingress::ClockStage,
)
    requires
        limits_fault(c) is None,
        node.params.max_commitment_age_secs == c.max_commitment_age_secs,
        node.params.hold_secs == c.hold_secs,
        node.params.combine_slack_secs == c.combine_slack_secs,
        node.params.delivery_horizon_secs == c.delivery_horizon_secs,
        node.channel == c.channel,
        now + c.max_commitment_age_secs <= u64::MAX,
    ensures
        ({
            let expiry = (now + c.max_commitment_age_secs) as u64;
            let class = crate::policy::Classification {
                class: crate::policy::TxClass::Hot,
                hot_outflow,
            };
            &&& crate::ingress::clock_refusal(node, expiry, now, now, stage) is None
            &&& crate::spend::too_short(node, expiry, now, class) is None
        }),
{
    accepted_limits_fit(c);
}

/// A configuration's limits pass exactly where each of them is one that can be met and
/// where they fit each other.
pub proof fn which_limits_pass(c: ConfigFile)
    ensures
        limits_fault(c) is None <==> {
            &&& c.hold_secs < c.max_commitment_age_secs
            &&& c.hold_secs + c.combine_slack_secs <= c.max_commitment_age_secs
                || c.max_commitment_age_secs == u64::MAX
            &&& c.max_commitment_age_secs <= c.hot_window_secs
            &&& 0 < c.hot_max_per_tx <= c.hot_max_per_window
            &&& c.combine_slack_secs >= 20
            &&& c.refresh_min_interval_secs > 0
            &&& c.epsilon_secs <= c.max_commitment_age_secs
            &&& c.duress_delay_secs <= c.max_commitment_age_secs
            &&& c.channel is Some ==> 0 < c.delivery_horizon_secs < c.max_commitment_age_secs
            &&& 0 < c.escape_coverage_pct <= 100
            &&& c.escape_coverage_pct == 100 ==> c.escape_feerate_floor == 0
        },
{
}

/// A node goes by the limits of its configuration and the keys of its identity, and starts
/// with nothing remembered, nothing accepted and nothing to do.
pub proof fn a_node_goes_by_its_configuration(
    c: ConfigFile,
    identity: IdentityView,
    max_pin_bytes: usize,
)
    ensures
        ({
            let node = fresh_node(c, identity, max_pin_bytes);
            let params = node.params;
            &&& params.policy_version == c.policy_version
            &&& params.max_commitment_age_secs == c.max_commitment_age_secs
            &&& params.hold_secs == c.hold_secs
            &&& params.combine_slack_secs == c.combine_slack_secs
            &&& params.hot_budget.max_per_tx_sat == c.hot_max_per_tx
            &&& params.hot_budget.max_per_window_sat == c.hot_max_per_window
            &&& params.hot_budget.window_secs == c.hot_window_secs
            &&& params.refresh_min_interval_secs == c.refresh_min_interval_secs
            &&& params.refresh_max_feerate == c.refresh_max_feerate
            &&& params.duress_delay_secs == c.duress_delay_secs
            &&& params.epsilon_secs == c.epsilon_secs
            &&& params.delivery_horizon_secs == c.delivery_horizon_secs
            &&& params.escape_coverage_pct == c.escape_coverage_pct
            &&& params.escape_feerate_floor == c.escape_feerate_floor
            &&& params.max_pin_bytes == max_pin_bytes
            &&& params.threshold == identity.threshold
            &&& params.max_vault_satisfaction_weight == identity.max_vault_satisfaction_weight
            &&& node.keys.seckey == identity.seckey && node.keys.pubkey == identity.pubkey
            &&& node.keys.user_pubkey == identity.user_pubkey
            &&& node.keys.coordinator_auth == identity.coordinator_auth
            &&& node.keys.witness_script == identity.witness_script
            &&& node.wallet_id == identity.wallet_id
            &&& node.listen_port == c.listen_port
            &&& node.channel == c.channel
            &&& node.has_backend == (c.chain_backend is Some)
            &&& !node.lockdown && !node.generation_claimed
            &&& node.duress_arm == 0 && node.spend_preflight == 0 && node.last_deadline_tick == 0
            &&& node.sign_state.coord_nonces.high_water == 0
            &&& node.outbox.len() == 0 && node.errands.len() == 0
            &&& forall|k: Seq<char>|
                !(#[trigger] node.sign_state.replay.contains_key(k))
                    && !node.sign_state.pending.contains_key(k)
                    && !node.sign_state.coord_nonces.entries.contains_key(k)
            &&& forall|id: [u8; 32]| !(#[trigger] node.authorized.contains(id))
        }),
{
}

/// The identity of a node is that of its configuration: its own key is the one that its
/// secret key makes, the user's key, the threshold and the script are those of the
/// descriptor, and the wallet's id is the digest of the canonical descriptor.
pub proof fn an_identity_is_of_its_configuration(c: ConfigFile, facts: SealFacts)
    requires
        identity_of(c, facts) is Ok,
    ensures
        ({
            let identity = identity_of(c, facts)->Ok_0;
            &&& named_network(c.network@) == Ok::<Network, Seq<char>>(identity.network)
            &&& facts.node_key matches Ok(key) && identity.seckey == key.seckey@
            &&& own_public_key(identity.seckey) == Ok::<Seq<u8>, Seq<char>>(identity.pubkey)
            &&& encode_utf8(c.coordinator_auth_pubkey@).len() == 66
            &&& public_key(c.coordinator_auth_pubkey@) == Ok::<Seq<u8>, Seq<char>>(
                identity.coordinator_auth,
            )
            &&& facts.template matches Ok(template) && identity.user_pubkey == template.user_key@
                && identity.threshold == template.threshold
            &&& vault_script(c.descriptor@) == Ok::<Seq<u8>, Seq<char>>(identity.witness_script)
            &&& vault_weight(c.descriptor@) == Ok::<u64, Seq<char>>(
                identity.max_vault_satisfaction_weight,
            )
            &&& vault_canonical(c.descriptor@) matches Ok(canonical) && identity.wallet_id
                == sha256_digest(encode_utf8(canonical))
        }),
{
}

proof fn lemma_canonical_list(list: Seq<Seq<char>>)
    ensures
        match canonical_list(list) {
            Ok(all) => all.len() == list.len() && forall|i: int|
                0 <= i < list.len() ==> descriptor_canonical(#[trigger] list[i]) == Ok::<
                    Seq<char>,
                    Seq<char>,
                >(all[i]),
            Err(_) => exists|i: int|
                0 <= i < list.len() && descriptor_canonical(#[trigger] list[i]) is Err,
        },
    decreases list.len(),
{
    if list.len() > 0 {
        let rest = list.drop_last();
        lemma_canonical_list(rest);
        match canonical_list(rest) {
            Ok(before) => {
                if let Ok(all) = canonical_list(list) {
                    assert forall|i: int| 0 <= i < list.len() implies descriptor_canonical(
                        #[trigger] list[i],
                    ) == Ok::<Seq<char>, Seq<char>>(all[i]) by {
                        if i < rest.len() {
                            assert(rest[i] == list[i]);
                        }
                    }
                } else {
                    assert(descriptor_canonical(list[list.len() - 1]) is Err);
                }
            },
            Err(_) => {
                let i = choose|i: int|
                    0 <= i < rest.len() && descriptor_canonical(#[trigger] rest[i]) is Err;
                assert(descriptor_canonical(list[i]) is Err);
            },
        }
    }
}

proof fn lemma_without(list: Seq<Seq<char>>, one: Seq<char>, to: Seq<char>)
    ensures
        without(list, one).contains(to) <==> list.contains(to) && to != one,
    decreases list.len(),
{
    reveal(Seq::filter);
    if list.len() > 0 {
        let rest = list.drop_last();
        lemma_without(rest, one, to);
        let kept = without(rest, one);
        assert(list =~= rest.push(list.last()));
        if rest.contains(to) {
            let i = choose|i: int| 0 <= i < rest.len() && rest[i] == to;
            assert(list[i] == to);
        }
        assert(list[list.len() - 1] == list.last());
        if list.contains(to) && !rest.contains(to) {
            let i = choose|i: int| 0 <= i < list.len() && list[i] == to;
            if i < rest.len() {
                assert(rest[i] == to);
            }
        }
        if list.last() != one {
            assert(without(list, one) == kept.push(list.last()));
            if kept.contains(to) {
                let k = choose|k: int| 0 <= k < kept.len() && kept[k] == to;
                assert(without(list, one)[k] == to);
            }
            assert(without(list, one)[kept.len() as int] == list.last());
            if without(list, one).contains(to) && !kept.contains(to) {
                let k = choose|k: int|
                    0 <= k < without(list, one).len() && without(list, one)[k] == to;
                if k < kept.len() {
                    assert(kept[k] == to);
                }
            }
        } else {
            assert(without(list, one) == kept);
        }
    }
}

/// A vault pays what its configuration allows and nothing else: the escape wallet, which
/// must be on the list, and as hot wallets all others on it. A list with one unreadable
/// entry allows nothing.
pub proof fn a_vault_pays_what_is_allowed(c: ConfigFile, facts: SealFacts, to: Seq<char>)
    requires
        destinations_of(c, facts) is Ok,
    ensures
        ({
            let d = destinations_of(c, facts)->Ok_0;
            let list = texts(c.allowlist@);
            let allowed = exists|i: int|
                0 <= i < list.len() && descriptor_canonical(#[trigger] list[i]) == Ok::<
                    Seq<char>,
                    Seq<char>,
                >(to);
            &&& descriptor_canonical(c.escape_descriptor@) == Ok::<Seq<char>, Seq<char>>(d.escape)
            &&& d.hot.contains(to) <==> allowed && to != d.escape
            &&& to == d.escape ==> allowed
            &&& forall|i: int|
                0 <= i < list.len() ==> descriptor_canonical(#[trigger] list[i]) is Ok
            &&& limits_fault(c) is None
            &&& facts.destinations_network is Ok
        }),
{
    let d = destinations_of(c, facts)->Ok_0;
    let list = texts(c.allowlist@);
    lemma_canonical_list(list);
    let all = canonical_list(list)->Ok_0;
    lemma_without(all, d.escape, to);
    if all.contains(to) {
        let i = choose|i: int| 0 <= i < all.len() && all[i] == to;
        assert(descriptor_canonical(list[i]) == Ok::<Seq<char>, Seq<char>>(to));
    }
    if exists|i: int|
        0 <= i < list.len() && descriptor_canonical(#[trigger] list[i]) == Ok::<
            Seq<char>,
            Seq<char>,
        >(to) {
        let i = choose|i: int|
            0 <= i < list.len() && descriptor_canonical(#[trigger] list[i]) == Ok::<
                Seq<char>,
                Seq<char>,
            >(to);
        assert(all[i] == to);
        assert(all.contains(to));
    }
}

/// The services that a configuration names pass exactly where its pins are enrolled, its
/// view of the chain has an address, and there is one at all where the node has peers.
pub proof fn which_services_pass(c: ConfigFile, facts: SealFacts)
    ensures
        services_fault(c, facts) is None <==> {
            &&& facts.pins is Ok
            &&& c.chain_backend is Some ==> facts.backend_address is Ok
            &&& c.channel is Some ==> c.chain_backend is Some
        },
        sealed_as(c, facts) is Ok <==> identity_of(c, facts) is Ok && destinations_of(c, facts)
            is Ok && services_fault(c, facts) is None,
{
}

} // verus!
