//! The sealed configuration and the rules that it is held to.

use bitcoin::secp256k1::{Secp256k1, SecretKey};
use vault_node::config::{
    check_protocol_version, parse_vault_network, vault_network_name, ChainBackendConfig,
    ConfigFile, Network, NodeKey, PinAttemptBudgetConfig, VaultTemplate, SCAN_INTERVAL_SECS,
    SUPPORTED_VAULT_NETWORKS,
};
use vault_node::config::{
    default_combine_slack_secs, default_delivery_horizon_secs, default_epsilon_secs,
    default_escape_coverage_pct, default_escape_feerate_floor, default_refresh_max_feerate,
    default_refresh_min_interval_secs,
};
use vault_node::node::{ChannelLimits, Node};
use vault_node::seal::{seal, SealFacts};

fn key(i: u8) -> (Vec<u8>, Vec<u8>) {
    let secret = SecretKey::from_slice(&[i; 32]).expect("32 nonzero bytes");
    let public = secret.public_key(&Secp256k1::new());
    (secret.secret_bytes().to_vec(), public.serialize().to_vec())
}

fn hex(bytes: &[u8]) -> String {
    bytes.iter().map(|b| format!("{b:02x}")).collect()
}

fn vault_descriptor() -> String {
    format!(
        "wsh(or_i(and_v(v:pk({}),multi(1,{})),and_v(v:older(4032),multi(2,{},{},{}))))",
        hex(&key(1).1),
        hex(&key(2).1),
        hex(&key(0x30).1),
        hex(&key(0x31).1),
        hex(&key(0x32).1),
    )
}

fn config_with_bounds(hold_secs: u64, max_commitment_age_secs: u64) -> ConfigFile {
    let hot = format!("wpkh({})", hex(&key(10).1));
    let escape = format!("wpkh({})", hex(&key(11).1));
    ConfigFile {
        listen_port: 0,
        node_key_salt: "02".repeat(16),
        node_key_ops: 1,
        node_key_mem_kib: 8,
        descriptor: vault_descriptor(),
        allowlist: vec![hot, escape.clone()],
        escape_descriptor: escape,
        max_derivation_index: 5,
        hold_secs,
        hot_max_per_tx: 200_000_000,
        hot_max_per_window: 1_000_000_000,
        hot_window_secs: max_commitment_age_secs.max(172_800),
        combine_slack_secs: default_combine_slack_secs(),
        max_commitment_age_secs,
        refresh_min_interval_secs: default_refresh_min_interval_secs(),
        refresh_max_feerate: default_refresh_max_feerate(),
        duress_delay_secs: 0,
        epsilon_secs: default_epsilon_secs(),
        delivery_horizon_secs: default_delivery_horizon_secs(),
        escape_coverage_pct: default_escape_coverage_pct(),
        escape_feerate_floor: default_escape_feerate_floor(),
        protocol_version: 4,
        escape_bump_max_fee_pct: 0,
        network: "regtest".to_string(),
        policy_version: 1,
        pin_normal_hash: "normal".to_string(),
        pin_duress_hash: "duress".to_string(),
        pin_attempt_budget: PinAttemptBudgetConfig::default(),
        coordinator_auth_pubkey: hex(&key(0xC0).1),
        chain_backend: None,
        channel: None,
    }
}

fn node_key(i: u8) -> NodeKey {
    NodeKey { seckey: key(i).0, channel_pubkey: key(0x77).1 }
}

fn facts() -> SealFacts {
    SealFacts {
        node_key: Ok(node_key(2)),
        template: Ok(VaultTemplate {
            user_key: key(1).1,
            threshold: 1,
            node_keys: vec![key(2).1],
        }),
        destinations_network: Ok(()),
        pins: Ok(()),
        backend_address: Ok(()),
    }
}

fn load_node(config: &ConfigFile) -> Result<Node, String> {
    let sealed = seal(config, &facts())?;
    Ok(Node::from_sealed(config, sealed.identity, 64))
}

fn complaint(config: &ConfigFile) -> String {
    load_node(config).err().expect("the configuration must be refused")
}

#[test]
fn the_wskdf_derived_key_is_the_node_key_the_descriptor_names() {
    let config = config_with_bounds(0, 172_800);
    let node = load_node(&config).expect("the right preimage loads");
    assert_eq!(node.keys.pubkey, key(2).1);
    assert!(config.descriptor.contains(&hex(&node.keys.pubkey)));
}

#[test]
fn bytes_that_are_no_secret_key_do_not_boot() {
    let config = config_with_bounds(0, 172_800);
    for seckey in [vec![0; 32], vec![0xff; 32], vec![2; 31], Vec::new()] {
        let key = NodeKey { seckey, channel_pubkey: key(0x77).1 };
        let broken = SealFacts { node_key: Ok(key), ..facts() };
        assert!(seal(&config, &broken).is_err());
    }
}

#[test]
fn a_wrong_preimage_refuses_to_start_rather_than_signing_with_a_stranger_key() {
    let config = config_with_bounds(0, 172_800);
    let wrong = SealFacts { node_key: Ok(node_key(3)), ..facts() };
    let err = seal(&config, &wrong)
        .err()
        .expect("a key the descriptor does not name must not boot");
    assert!(
        err.contains("not one of the vault descriptor's"),
        "the refusal must name the cause: {err}"
    );
    assert!(err.contains(&hex(&key(3).1)));
}

#[test]
fn a_zero_combine_slack_is_a_fatal_config() {
    let mut config = config_with_bounds(0, 172_800);
    config.combine_slack_secs = 0;
    let err = complaint(&config);
    assert!(err.contains("combine_slack_secs"), "unexpected config error: {err}");
}

#[test]
fn a_combine_slack_shorter_than_twice_the_cache_refresh_interval_is_a_fatal_config() {
    let mut config = config_with_bounds(0, 172_800);
    config.combine_slack_secs = 2 * SCAN_INTERVAL_SECS - 1;
    let err = complaint(&config);
    assert!(err.contains("combine_slack_secs"), "unexpected config error: {err}");
}

#[test]
fn a_zero_refresh_interval_is_a_fatal_config() {
    let mut config = config_with_bounds(0, 172_800);
    config.refresh_min_interval_secs = 0;
    let err = complaint(&config);
    assert!(err.contains("refresh_min_interval_secs"), "unexpected config error: {err}");
}

#[test]
fn hold_plus_slack_past_max_commitment_age_is_a_fatal_config() {
    let mut config = config_with_bounds(0, 172_800);
    config.combine_slack_secs = 200_000;
    let err = complaint(&config);
    assert!(
        err.contains("combine_slack_secs") && err.contains("max_commitment_age_secs"),
        "unexpected config error: {err}"
    );
}

#[test]
fn the_default_combine_slack_still_loads() {
    load_node(&config_with_bounds(0, 172_800))
        .expect("a config on the default combine slack is valid");
}

#[test]
fn duress_delay_past_max_commitment_age_is_a_fatal_config() {
    let mut config = config_with_bounds(0, 172_800);
    config.duress_delay_secs = 172_801;
    let err = complaint(&config);
    assert!(
        err.contains("duress_delay_secs") && err.contains("max_commitment_age_secs"),
        "unexpected config error: {err}"
    );
}

#[test]
fn duress_delay_at_max_commitment_age_still_loads() {
    let mut config = config_with_bounds(0, 172_800);
    config.duress_delay_secs = 172_800;
    load_node(&config).expect("a duress delay equal to the commitment-age cap is valid");
}

#[test]
fn full_coverage_with_a_positive_feerate_floor_is_a_fatal_config() {
    let mut config = config_with_bounds(0, 172_800);
    config.escape_coverage_pct = 100;
    config.escape_feerate_floor = 1;
    let err = complaint(&config);
    assert!(
        err.contains("escape_coverage_pct") && err.contains("escape_feerate_floor"),
        "unexpected config error: {err}"
    );
}

#[test]
fn every_limit_has_its_complaint() {
    let base = || config_with_bounds(0, 172_800);
    let mut config = base();
    config.hold_secs = 172_800;
    assert_eq!(
        complaint(&config),
        "max_commitment_age_secs (172800) must exceed hold_secs (172800)"
    );
    let mut config = base();
    config.hot_window_secs = 172_799;
    assert!(complaint(&config).contains("hot_window_secs (172799) must be at least"));
    let mut config = base();
    config.hot_max_per_tx = 0;
    assert!(complaint(&config).contains("must both be greater than 0"));
    let mut config = base();
    config.hot_max_per_tx = 1_000_000_001;
    assert!(complaint(&config).contains("must not exceed hot_max_per_window (1000000000)"));
    let mut config = base();
    config.epsilon_secs = 172_801;
    assert!(complaint(&config).contains("epsilon_secs (172801)"));
    let mut config = base();
    config.escape_coverage_pct = 0;
    assert_eq!(complaint(&config), "escape_coverage_pct (0) must be in 1..=100 (ADR-0013 §6)");
}

#[test]
fn destinations_must_be_readable_and_hold_the_escape() {
    let mut config = config_with_bounds(0, 172_800);
    config.allowlist.push("nonsense".to_string());
    assert!(complaint(&config).starts_with("bad allowlist descriptor nonsense: "));
    let mut config = config_with_bounds(0, 172_800);
    config.escape_descriptor = "nonsense".to_string();
    assert!(complaint(&config).starts_with("bad escape_descriptor: "));
    let mut config = config_with_bounds(0, 172_800);
    config.allowlist.pop();
    assert_eq!(complaint(&config), "escape_descriptor must also be present in allowlist");
    let config = config_with_bounds(0, 172_800);
    let sealed = seal(&config, &facts()).expect("sealed");
    assert_eq!(sealed.destinations.hot.len(), 1);
    assert!(sealed.destinations.hot[0].starts_with("wpkh("));
    assert!(sealed.destinations.hot[0].contains('#'), "the canonical form carries a checksum");
    assert!(sealed.destinations.escape.contains(&hex(&key(11).1)));
}

#[test]
fn the_keys_must_keep_to_their_roles() {
    let mut config = config_with_bounds(0, 172_800);
    config.coordinator_auth_pubkey = "02".to_string();
    assert!(complaint(&config).contains("expected a 33-byte compressed"));
    let mut config = config_with_bounds(0, 172_800);
    config.coordinator_auth_pubkey = "zz".repeat(33);
    assert!(complaint(&config).starts_with("bad coordinator_auth_pubkey: "));
    let mut config = config_with_bounds(0, 172_800);
    config.coordinator_auth_pubkey = hex(&key(1).1);
    assert!(complaint(&config).contains("must not be the descriptor's user key"));
    let mut config = config_with_bounds(0, 172_800);
    config.coordinator_auth_pubkey = hex(&key(2).1);
    assert!(complaint(&config).contains("federation node keys"));
    let mut config = config_with_bounds(0, 172_800);
    config.coordinator_auth_pubkey = hex(&key(0x77).1);
    assert!(complaint(&config).contains("derived channel key"));
    let mut config = config_with_bounds(0, 172_800);
    config.descriptor = "nonsense".to_string();
    assert!(complaint(&config).starts_with("bad descriptor: "));
    let config = config_with_bounds(0, 172_800);
    let broken = SealFacts { node_key: Err("bad salt".to_string()), ..facts() };
    assert_eq!(seal(&config, &broken).err(), Some("bad salt".to_string()));
}

#[test]
fn a_channel_needs_a_federation_and_a_chain() {
    let mut config = config_with_bounds(0, 172_800);
    config.channel = Some(ChannelLimits { max_msg_bytes: 1_000 });
    assert!(complaint(&config).contains("federation threshold of at least 2"));
    let template = |threshold: usize, n: u8| VaultTemplate {
        user_key: key(1).1,
        threshold,
        node_keys: (0..n).map(|i| key(2 + i).1).collect(),
    };
    let wide = SealFacts { template: Ok(template(2, 4)), ..facts() };
    let err = seal(&config, &wide).err().expect("n must be 2t - 1");
    assert!(err.contains("threshold is 2-of-4"), "{err}");
    let fit = SealFacts { template: Ok(template(2, 3)), ..facts() };
    let err = seal(&config, &fit).err().expect("no chain backend");
    assert!(err.contains("[channel] mode requires a [chain_backend]"), "{err}");
    config.chain_backend =
        Some(ChainBackendConfig { rpc_addr: "nowhere".to_string(), auth: String::new() });
    let bad = SealFacts { backend_address: Err("invalid".to_string()), ..fit };
    assert_eq!(
        seal(&config, &bad).err(),
        Some("bad chain_backend.rpc_addr \"nowhere\": invalid".to_string())
    );
    let fit = SealFacts { template: Ok(template(2, 3)), ..facts() };
    let sealed = seal(&config, &fit).expect("a federation of three");
    let node = Node::from_sealed(&config, sealed.identity, 64);
    assert!(node.require_channel_mode().is_ok());
    assert!(node.has_backend);
    config.delivery_horizon_secs = 0;
    assert!(seal(&config, &fit).err().expect("no horizon").contains("must be in 1..172800"));
}

#[test]
fn a_node_without_peers_is_no_daemon() {
    let node = load_node(&config_with_bounds(0, 172_800)).expect("valid");
    assert!(node.require_channel_mode().err().expect("no peers").contains("[channel] is required"));
}

#[test]
fn the_vault_is_read_from_its_descriptor() {
    let config = config_with_bounds(0, 172_800);
    let sealed = seal(&config, &facts()).expect("sealed");
    assert_eq!(sealed.identity.network, Network::Regtest);
    // OP_IF, the user's key, and OP_CHECKSIGVERIFY open the script.
    assert_eq!(sealed.identity.witness_script[..2], [0x63, 0x21]);
    assert_eq!(sealed.identity.witness_script[2..35], key(1).1[..]);
    assert_eq!(sealed.identity.witness_script[35], 0xad);
    assert!(sealed.identity.max_vault_satisfaction_weight > 0);
    let again = seal(&config, &facts()).expect("sealed");
    assert_eq!(sealed.identity.wallet_id, again.identity.wallet_id);
}

#[test]
fn networks_are_read_and_named_alike() {
    for (name, network) in [
        ("bitcoin", Network::Bitcoin),
        ("signet", Network::Signet),
        ("regtest", Network::Regtest),
    ] {
        assert_eq!(parse_vault_network(name), Ok(network));
        assert_eq!(vault_network_name(network), name);
        assert!(SUPPORTED_VAULT_NETWORKS.contains(name));
    }
    assert_eq!(vault_network_name(Network::Other), "unsupported");
    let err = parse_vault_network("test\"net").expect_err("not a vault network");
    assert!(err.starts_with("unsupported vault network \"test\\\"net\": "), "{err}");
}

#[test]
fn only_the_spoken_revision_is_read() {
    assert_eq!(check_protocol_version(Some(4), 4), Ok(()));
    let err = check_protocol_version(None, 4).expect_err("absent");
    assert!(err.contains("protocol_version (absent): this binary speaks manifest schema revision 4"));
    let err = check_protocol_version(Some(3), 4).expect_err("older");
    assert!(err.contains("protocol_version 3: "));
}

#[test]
fn the_defaults_are_the_documented_ones() {
    let budget = PinAttemptBudgetConfig::default();
    assert_eq!(budget.max_attempts, 5);
    assert_eq!(budget.window_secs, 3_600);
    assert_eq!(budget.backoff_schedule, vec![0]);
    assert_eq!(budget.lockout_secs, 900);
    assert_eq!(default_combine_slack_secs(), 60);
    assert_eq!(default_refresh_min_interval_secs(), 2_592_000);
    assert_eq!(default_refresh_max_feerate(), 100);
    assert_eq!(default_epsilon_secs(), 60);
    assert_eq!(default_delivery_horizon_secs(), 60);
    assert_eq!(default_escape_coverage_pct(), 95);
    assert_eq!(default_escape_feerate_floor(), 1);
}
