//! Spends and refreshes, from the request to the answer.

use std::str::FromStr;

use bitcoin::absolute::LockTime;
use bitcoin::hashes::{sha256, Hash as HashBytes};
use bitcoin::secp256k1::{Message, Secp256k1, SecretKey};
use bitcoin::sighash::{EcdsaSighashType, SighashCache};
use bitcoin::transaction::Version;
use bitcoin::{Amount, ScriptBuf, Sequence, Txid, WScriptHash, Witness};
use vault_node::codec::decode_psbt;
use vault_node::commitment::{commitment_of, Commitment};
use vault_node::config::{
    default_combine_slack_secs, default_delivery_horizon_secs, default_epsilon_secs,
    default_escape_coverage_pct, default_escape_feerate_floor, default_refresh_max_feerate,
    default_refresh_min_interval_secs, ConfigFile, NodeKey, PinAttemptBudgetConfig, VaultTemplate,
};
use vault_node::ingress::{
    fire_arm_hook, sign_charge, sign_commit, sign_ingress, sign_reopen, Ingress, SignJob,
};
use vault_node::node::Node;
use vault_node::pin::{pin_verdict, PinCharge, PinVerdict};
use vault_node::policy::{Classification, PolicyVerdict, TxClass, Violation, ViolationCode};
use vault_node::prevouts::Prevout;
use vault_node::proto::{Refusal, RefreshRequest, RefusalCode, SignRequest, SignResponse};
use vault_node::refresh::{
    handle_refresh, refresh_commitment, refresh_ingress, refresh_judge, refresh_lookup,
    refresh_register, refresh_reopen, RefreshFacts, RefreshIngress,
};
use vault_node::registry::{Errand, HotReserveRefusal, MemoUpgrade, RegisterAnswer, RegisterOutcome};
use vault_node::seal::{seal, SealFacts};
use vault_node::spend::{
    handle_sign, pair_commitments, reserve_ask, sign_judge, sign_lookup, sign_pair, sign_register,
    sign_reserve, PairIds, SignFacts,
};
use vault_node::steps::{RefreshEvent, RefreshStep, SpendEvent, SpendStep};
use vault_node::tx::{OutPoint, Psbt, TxOut};
use vault_node::verdict::{prefetch_outpoints, prefetch_prevouts, ChainAnswer};

const NORMAL: &str = "1234";
const DURESS: &str = "9999";
const WRONG: &str = "0000";
const MAX_PIN_BYTES: usize = 64;
const ESCAPE_RBF_SEQUENCE: u32 = 0xffff_fffd;

fn key(i: u8) -> (SecretKey, Vec<u8>) {
    let secret = SecretKey::from_slice(&[i; 32]).expect("32 nonzero bytes");
    let public = secret.public_key(&Secp256k1::new());
    (secret, public.serialize().to_vec())
}

fn hex(bytes: &[u8]) -> String {
    bytes.iter().map(|b| format!("{b:02x}")).collect()
}

/// The script that a plain witness key pays to.
fn wpkh(i: u8) -> Vec<u8> {
    let public = bitcoin::PublicKey::from_slice(&key(i).1).expect("key");
    ScriptBuf::new_p2wpkh(&public.wpubkey_hash().expect("compressed")).to_bytes()
}

fn vault_descriptor() -> String {
    format!(
        "wsh(or_i(and_v(v:pk({}),multi(1,{})),and_v(v:older(4032),multi(2,{},{},{}))))",
        hex(&key(1).1),
        hex(&key(2).1),
        hex(&key(0x30).1),
        hex(&key(0x31).1),
        hex(&key(0x32).1),
    )
}

fn fixture_node() -> Node {
    let config = ConfigFile {
        listen_port: 0,
        node_key_salt: "02".repeat(16),
        node_key_ops: 1,
        node_key_mem_kib: 8,
        descriptor: vault_descriptor(),
        allowlist: vec![
            format!("wpkh({})", hex(&key(10).1)),
            format!("wpkh({})", hex(&key(11).1)),
        ],
        escape_descriptor: format!("wpkh({})", hex(&key(11).1)),
        max_derivation_index: 5,
        hold_secs: 0,
        hot_max_per_tx: 200_000_000,
        hot_max_per_window: 1_000_000_000,
        hot_window_secs: 172_800,
        combine_slack_secs: default_combine_slack_secs(),
        max_commitment_age_secs: 172_800,
        refresh_min_interval_secs: default_refresh_min_interval_secs(),
        refresh_max_feerate: default_refresh_max_feerate(),
        duress_delay_secs: 0,
        epsilon_secs: default_epsilon_secs(),
        delivery_horizon_secs: default_delivery_horizon_secs(),
        escape_coverage_pct: default_escape_coverage_pct(),
        escape_feerate_floor: default_escape_feerate_floor(),
        protocol_version: 4,
        escape_bump_max_fee_pct: 0,
        network: "regtest".to_string(),
        policy_version: 1,
        pin_normal_hash: "normal".to_string(),
        pin_duress_hash: "duress".to_string(),
        pin_attempt_budget: PinAttemptBudgetConfig::default(),
        coordinator_auth_pubkey: hex(&key(0xC0).1),
        chain_backend: None,
        channel: None,
    };
    let facts = SealFacts {
        node_key: Ok(NodeKey {
            seckey: key(2).0.secret_bytes().to_vec(),
            channel_pubkey: key(0x77).1,
        }),
        template: Ok(VaultTemplate {
            user_key: key(1).1,
            threshold: 1,
            node_keys: vec![key(2).1],
        }),
        destinations_network: Ok(()),
        pins: Ok(()),
        backend_address: Ok(()),
    };
    let sealed = seal(&config, &facts).expect("valid config");
    Node::from_sealed(&config, sealed.identity, MAX_PIN_BYTES)
}

fn digest_of(wallet_id: &[u8; 32], parts: &[&str]) -> [u8; 32] {
    let mut bytes = wallet_id.to_vec();
    for part in parts {
        bytes.extend_from_slice(&(part.len() as u64).to_be_bytes());
        bytes.extend_from_slice(part.as_bytes());
    }
    sha256::Hash::hash(&bytes).to_byte_array()
}

fn spend_digest(r: &SignRequest, wallet_id: &[u8; 32]) -> [u8; 32] {
    let mut parts = vec![r.psbt.clone(), r.escape_psbt.clone()];
    parts.extend(r.escape_bumps.iter().cloned());
    parts.push(r.pin.clone());
    parts.push(r.nonce.clone());
    parts.push(format!("{}/{}", r.expiry, r.policy_version));
    let refs: Vec<&str> = parts.iter().map(|p| p.as_str()).collect();
    digest_of(wallet_id, &refs)
}

fn refresh_digest(r: &RefreshRequest, wallet_id: &[u8; 32]) -> [u8; 32] {
    let numbers = format!("{}/{}", r.expiry, r.policy_version);
    digest_of(wallet_id, &[&r.refresh_psbt, &r.nonce, &numbers])
}

fn coordinator_signature(digest: [u8; 32]) -> String {
    let sig = Secp256k1::new().sign_ecdsa(&Message::from_digest(digest), &key(0xC0).0);
    hex(&sig.serialize_der())
}

fn coord_sign(request: &mut SignRequest, wallet_id: &[u8; 32], nonce: &str) {
    request.nonce = nonce.to_string();
    request.coord_sig = coordinator_signature(spend_digest(request, wallet_id));
}

fn user_sign_all(node: &Node, psbt: &mut bitcoin::Psbt) {
    let unsigned = psbt.unsigned_tx.clone();
    let script = ScriptBuf::from_bytes(node.keys.witness_script.clone());
    let user = bitcoin::PublicKey::from_slice(&node.keys.user_pubkey).expect("user key");
    let mut cache = SighashCache::new(&unsigned);
    for (index, input) in psbt.inputs.iter_mut().enumerate() {
        let value = input.witness_utxo.as_ref().expect("witness utxo").value;
        let sighash = cache
            .p2wsh_signature_hash(index, &script, value, EcdsaSighashType::All)
            .expect("sighash");
        let signature = Secp256k1::new()
            .sign_ecdsa(&Message::from_digest(sighash.to_byte_array()), &key(1).0);
        input.partial_sigs.clear();
        input.partial_sigs.insert(
            user,
            bitcoin::ecdsa::Signature { signature, sighash_type: EcdsaSighashType::All },
        );
    }
}

fn spend_to(node: &Node, destination: Vec<u8>) -> bitcoin::Psbt {
    let tx = bitcoin::Transaction {
        version: Version::TWO,
        lock_time: LockTime::ZERO,
        input: vec![bitcoin::TxIn {
            previous_output: bitcoin::OutPoint::new(Txid::from_byte_array([7; 32]), 0),
            script_sig: ScriptBuf::new(),
            sequence: Sequence::MAX,
            witness: Witness::new(),
        }],
        output: vec![bitcoin::TxOut {
            script_pubkey: ScriptBuf::from_bytes(destination),
            value: Amount::from_sat(99_990_000),
        }],
    };
    let mut psbt = bitcoin::Psbt::from_unsigned_tx(tx).expect("unsigned tx");
    psbt.inputs[0].witness_utxo = Some(bitcoin::TxOut {
        script_pubkey: ScriptBuf::from_bytes(node.vault_scripts()[0].clone()),
        value: Amount::from_sat(100_000_000),
    });
    psbt.inputs[0].witness_script = Some(ScriptBuf::from_bytes(node.keys.witness_script.clone()));
    user_sign_all(node, &mut psbt);
    psbt
}

fn node_and_valid_request() -> (Node, SignRequest) {
    let node = fixture_node();
    let mut request = SignRequest {
        psbt: spend_to(&node, wpkh(10)).to_string(),
        escape_psbt: spend_to(&node, wpkh(11)).to_string(),
        escape_bumps: Vec::new(),
        pin: NORMAL.into(),
        nonce: String::new(),
        expiry: 1_800_003_600,
        policy_version: 1,
        coord_sig: String::new(),
    };
    coord_sign(&mut request, &node.wallet_id, "test-support-first-send");
    (node, request)
}

fn node_and_valid_multi_request() -> (Node, SignRequest) {
    let expand = |node: &Node, text: &str| -> String {
        let mut psbt = bitcoin::Psbt::from_str(text).expect("fixture psbt");
        let mut txin = psbt.unsigned_tx.input[0].clone();
        txin.previous_output = bitcoin::OutPoint::new(Txid::from_byte_array([8; 32]), 0);
        psbt.unsigned_tx.input.push(txin);
        psbt.inputs.push(psbt.inputs[0].clone());
        let mut txout = psbt.unsigned_tx.output[0].clone();
        txout.value = Amount::from_sat(100_000_000);
        psbt.unsigned_tx.output.push(txout);
        psbt.outputs.push(bitcoin::psbt::Output::default());
        user_sign_all(node, &mut psbt);
        psbt.to_string()
    };
    let (node, mut request) = node_and_valid_request();
    request.psbt = expand(&node, &request.psbt);
    request.escape_psbt = expand(&node, &request.escape_psbt);
    coord_sign(&mut request, &node.wallet_id, "test-support-multi-first-send");
    (node, request)
}

fn valid_refresh_request(node: &Node, spend: &SignRequest, nonce: &str) -> RefreshRequest {
    let mut psbt = bitcoin::Psbt::from_str(&spend.psbt).expect("fixture psbt");
    psbt.unsigned_tx.output[0].script_pubkey =
        ScriptBuf::from_bytes(node.vault_scripts()[0].clone());
    psbt.unsigned_tx.output[0].value = Amount::from_sat(99_999_000);
    user_sign_all(node, &mut psbt);
    let mut request = RefreshRequest {
        refresh_psbt: psbt.to_string(),
        nonce: nonce.to_string(),
        expiry: spend.expiry,
        policy_version: spend.policy_version,
        coord_sig: String::new(),
    };
    request.coord_sig = coordinator_signature(refresh_digest(&request, &node.wallet_id));
    request
}

fn theft_request(node: &Node, spend: &SignRequest) -> SignRequest {
    let mut psbt = bitcoin::Psbt::from_str(&spend.psbt).expect("fixture psbt");
    psbt.unsigned_tx.output[0].script_pubkey =
        ScriptBuf::new_p2wsh(&WScriptHash::from_byte_array([0xEE; 32]));
    user_sign_all(node, &mut psbt);
    let mut request = spend.copy();
    request.psbt = psbt.to_string();
    coord_sign(&mut request, &node.wallet_id, "test-support-theft");
    request
}

fn with_pin(node: &Node, base: &SignRequest, pin: &str, nonce: &str) -> SignRequest {
    let mut request = base.copy();
    request.pin = pin.into();
    coord_sign(&mut request, &node.wallet_id, nonce);
    request
}

/// Everything around a node: its chain, its pins and their budget, its policy.
struct Surroundings {
    coins: Vec<([u8; 32], u32, TxOut)>,
    chain_error: Option<String>,
    /// How many coins each question to the chain was about.
    batches: Vec<usize>,
    charges: u32,
    fails: u32,
    max_attempts: u32,
    locked_until: u64,
    backoff_secs: u64,
}

impl Surroundings {
    fn calm() -> Surroundings {
        Surroundings {
            coins: Vec::new(),
            chain_error: None,
            batches: Vec::new(),
            charges: 0,
            fails: 0,
            max_attempts: 5,
            locked_until: 0,
            backoff_secs: 0,
        }
    }

    /// A chain that shows the coin of the spend as the spend declares it.
    fn truthful(request: &SignRequest) -> Surroundings {
        let psbt = decode_psbt(&request.psbt, "spend").expect("fixture spend");
        let op = psbt.unsigned_tx.input[0].previous_output;
        let declared = psbt.inputs[0].witness_utxo.as_ref().expect("declared").copy();
        Surroundings { coins: vec![(op.txid, op.vout, declared)], ..Surroundings::calm() }
    }

    fn dark() -> Surroundings {
        Surroundings {
            chain_error: Some("backend unavailable".into()),
            ..Surroundings::calm()
        }
    }

    fn look(&mut self, node: &Node, text: &String, field: &str) -> ChainAnswer {
        let asked = match prefetch_outpoints(node, text, field) {
            Some(asked) => asked,
            None => return Ok(Vec::new()),
        };
        self.answer(&asked)
    }

    fn answer(&mut self, asked: &[OutPoint]) -> ChainAnswer {
        self.batches.push(asked.len());
        if let Some(e) = &self.chain_error {
            return Err(e.clone());
        }
        Ok(asked
            .iter()
            .map(|op| {
                self.coins
                    .iter()
                    .find(|(txid, vout, _)| *txid == op.txid && *vout == op.vout)
                    .map(|(_, _, txout)| Prevout { txout: txout.copy(), confirmed: true })
            })
            .collect())
    }

    fn charge(&mut self, verdict: PinVerdict, now: u64) -> PinCharge {
        self.charges += 1;
        if now < self.locked_until {
            return PinCharge { refuse: true, locked: true, backoff_secs: 0 };
        }
        if verdict != PinVerdict::Wrong {
            return PinCharge { refuse: false, locked: false, backoff_secs: 0 };
        }
        self.fails += 1;
        if self.fails >= self.max_attempts {
            self.locked_until = now + 100;
        }
        PinCharge { refuse: true, locked: false, backoff_secs: self.backoff_secs }
    }
}

fn compare(pin: &str) -> PinVerdict {
    match pin {
        NORMAL => PinVerdict::Normal,
        DURESS => PinVerdict::Duress,
        _ => PinVerdict::Wrong,
    }
}

/// Pays the hot wallet, the escape wallet or the vault; nothing else is allowed.
fn policy(node: &Node, psbt: &Psbt) -> PolicyVerdict {
    let mut class = TxClass::Refresh;
    let mut hot_outflow = 0u64;
    for output in &psbt.unsigned_tx.output {
        if output.script_pubkey == wpkh(10) {
            class = TxClass::Hot;
            hot_outflow += output.value;
        } else if output.script_pubkey == wpkh(11) {
            class = TxClass::Escape;
        } else if output.script_pubkey != node.vault_scripts()[0] {
            let broken = || Violation {
                code: ViolationCode::DestNotAllowed,
                check: "destination_allowlist".to_string(),
                detail: "output 0 pays a stranger".to_string(),
            };
            return PolicyVerdict { evaluation: Err(broken()), classification: Err(broken()) };
        }
    }
    PolicyVerdict { evaluation: Ok(()), classification: Ok(Classification { class, hot_outflow }) }
}

fn commitment_id(c: &Commitment) -> String {
    let mut bytes = c.wallet_id.to_vec();
    bytes.extend_from_slice(&c.version.to_be_bytes());
    bytes.extend_from_slice(&c.lock_time.to_be_bytes());
    for input in &c.inputs {
        bytes.extend_from_slice(&input.previous_output.txid);
        bytes.extend_from_slice(&input.previous_output.vout.to_be_bytes());
        bytes.extend_from_slice(&input.sequence.to_be_bytes());
    }
    for output in &c.outputs {
        bytes.extend_from_slice(&(output.script_pubkey.len() as u64).to_be_bytes());
        bytes.extend_from_slice(&output.script_pubkey);
        bytes.extend_from_slice(&output.value.to_be_bytes());
    }
    bytes.extend_from_slice(&c.fee.to_be_bytes());
    bytes.extend_from_slice(&c.expiry.to_be_bytes());
    bytes.extend_from_slice(&c.policy_version.to_be_bytes());
    hex(&sha256::Hash::hash(&bytes).to_byte_array())
}

fn ingress(node: &Node, request: &SignRequest, now: u64) -> Ingress {
    Ingress {
        digest: spend_digest(request, &node.wallet_id),
        signature_tag: [0; 32],
        fits: true,
        raw_now: now,
        mono_now: None,
    }
}

/// Runs a spend up to the point where it looks at the chain.
fn begin_spend(
    node: &mut Node,
    around: &mut Surroundings,
    request: &SignRequest,
    now: u64,
) -> Result<SignJob, SignResponse> {
    let at = ingress(node, request, now);
    let decodable = |answer: Result<SignResponse, vault_node::proto::BadRequest>| {
        answer.expect("a decodable request")
    };
    let job = sign_ingress(node, request, &at).map_err(decodable)?;
    let verdict = pin_verdict(compare(&request.pin), &request.pin, MAX_PIN_BYTES);
    let (job, intent) =
        fire_arm_hook(node, job, verdict, "carrier".to_string(), now).map_err(decodable)?;
    assert!(intent.is_none(), "a node without peers has no intent to publish");
    let job = sign_commit(node, request, job, None).map_err(decodable)?;
    let charge = around.charge(verdict, now);
    sign_charge(node, request, job, charge).map_err(decodable)
}

/// Runs the rest of a spend.
fn finish_spend(
    node: &mut Node,
    around: &mut Surroundings,
    request: &SignRequest,
    job: SignJob,
    now: u64,
) -> SignResponse {
    let seen = around.look(node, &request.psbt, "spend");
    let spend_fetch = prefetch_prevouts(node, &request.psbt, "spend", seen);
    let seen = around.look(node, &request.escape_psbt, "escape");
    let escape_fetch = prefetch_prevouts(node, &request.escape_psbt, "escape", seen);
    let (job, pair) = match sign_reopen(node, request, job, now) {
        Ok(read) => read,
        Err(answer) => return answer.expect("a decodable request"),
    };
    let (spend, escape) = pair_commitments(node, &pair, request.expiry);
    let ids = PairIds { spend: commitment_id(&spend), escape: commitment_id(&escape) };
    let (job, key) =
        match sign_lookup(node, request, job, &pair, &ids, &spend_fetch, &escape_fetch) {
            Ok(found) => found,
            Err(answer) => return answer.expect("a decodable request"),
        };
    let verdict = policy(node, &pair.spend);
    let (job, class) = match sign_judge(node, request, job, &pair, &ids, &spend_fetch, &verdict) {
        Ok(classed) => classed,
        Err(answer) => return answer.expect("a decodable request"),
    };
    let asked = reserve_ask(node, request, &job, &ids, class);
    let (job, reserved) = match sign_reserve(node, request, job, class, Ok(asked.is_some())) {
        Ok(metered) => metered,
        Err(answer) => return answer.expect("a decodable request"),
    };
    let escape_policy = policy(node, &pair.escape);
    let bumps: Vec<PolicyVerdict> = pair.bumps.iter().map(|bump| policy(node, bump)).collect();
    let (job, signed) = match sign_pair(
        node, request, job, pair, &ids, class, reserved, &escape_fetch, &escape_policy, &bumps,
    ) {
        Ok(signed) => signed,
        Err(answer) => return answer.expect("a decodable request"),
    };
    assert!(signed.ask.is_none(), "a node without peers keeps no candidates");
    let kept = RegisterAnswer::Outcomes(Vec::new());
    sign_register(node, request, job, &ids, &key, class, reserved, &signed.txids, &kept)
        .expect("a decodable request")
}

fn serve_spend(
    node: &mut Node,
    around: &mut Surroundings,
    request: &SignRequest,
    now: u64,
) -> SignResponse {
    match begin_spend(node, around, request, now) {
        Ok(job) => finish_spend(node, around, request, job, now),
        Err(response) => response,
    }
}

fn serve_refresh(
    node: &mut Node,
    around: &mut Surroundings,
    request: &RefreshRequest,
    now: u64,
) -> SignResponse {
    let at = RefreshIngress {
        digest: refresh_digest(request, &node.wallet_id),
        fits: true,
        raw_now: now,
        mono_now: None,
    };
    if let Err(answer) = refresh_ingress(node, request, &at) {
        return answer.expect("a decodable request");
    }
    let seen = around.look(node, &request.refresh_psbt, "refresh");
    let fetched = prefetch_prevouts(node, &request.refresh_psbt, "refresh", seen);
    let job = match refresh_reopen(node, request, now) {
        Ok(job) => job,
        Err(answer) => return answer.expect("a decodable request"),
    };
    let id = commitment_id(&refresh_commitment(node, &job, request.expiry));
    let replay_key = match refresh_lookup(node, &job, &id) {
        Ok(replay_key) => replay_key,
        Err(answer) => return answer.expect("a decodable request"),
    };
    let verdict = policy(node, &job.refresh);
    let carrier = "carrier".to_string();
    match refresh_judge(node, request, &job, &id, &carrier, &fetched, &verdict) {
        Ok(ask) => assert!(ask.is_none(), "a node without peers keeps no candidates"),
        Err(answer) => return answer.expect("a decodable request"),
    }
    let kept = RegisterAnswer::Outcomes(Vec::new());
    refresh_register(node, request, &job, &id, &replay_key, &kept).expect("a decodable request")
}

fn seen_by(around: &mut Surroundings, asked: &Option<Vec<OutPoint>>) -> ChainAnswer {
    match asked {
        Some(asked) => around.answer(asked),
        None => Ok(Vec::new()),
    }
}

/// The same spend, one question at a time. Says how many questions it took.
fn step_spend(
    node: &mut Node,
    around: &mut Surroundings,
    request: &SignRequest,
    now: u64,
) -> (SignResponse, usize) {
    let at = ingress(node, request, now);
    let mut step = vault_node::steps::begin_spend(node, request, &at);
    let mut asked = 0;
    loop {
        let event = match &step {
            SpendStep::Compare { .. } => SpendEvent::Compared {
                compared: compare(&request.pin),
                carrier: "carrier".to_string(),
                raw_now: now,
            },
            SpendStep::Arm { intent, .. } => {
                assert!(intent.is_none(), "a node without peers has no channel to tell");
                SpendEvent::Armed(None)
            }
            SpendStep::Charge { job } => SpendEvent::Charged(around.charge(job.verdict, job.now)),
            SpendStep::Look { spend_coins, escape_coins, .. } => SpendEvent::Looked {
                spend_chain: seen_by(around, spend_coins),
                escape_chain: seen_by(around, escape_coins),
                raw_now: now,
            },
            SpendStep::Name { spend, escape, .. } => SpendEvent::Named(PairIds {
                spend: commitment_id(spend),
                escape: commitment_id(escape),
            }),
            SpendStep::Judge { pair, .. } => SpendEvent::Judged(policy(node, &pair.spend)),
            SpendStep::Reserve { reserve, .. } => SpendEvent::Reserved(Ok(reserve.is_some())),
            SpendStep::JudgePair { pair, .. } => SpendEvent::PairJudged {
                escape_policy: policy(node, &pair.escape),
                bump_policies: pair.bumps.iter().map(|bump| policy(node, bump)).collect(),
            },
            SpendStep::Register { ask, .. } => {
                assert!(ask.is_none(), "a node without peers keeps no candidates");
                SpendEvent::Registered(RegisterAnswer::Outcomes(Vec::new()))
            }
            SpendStep::Done(_) => SpendEvent::Armed(None),
        };
        step = match step {
            SpendStep::Done(answer) => return (answer.expect("a decodable request"), asked),
            going => going.next(node, request, event),
        };
        asked += 1;
    }
}

/// The same refresh, one question at a time. Says how many questions it took.
fn step_refresh(
    node: &mut Node,
    around: &mut Surroundings,
    request: &RefreshRequest,
    now: u64,
) -> (SignResponse, usize) {
    let at = RefreshIngress {
        digest: refresh_digest(request, &node.wallet_id),
        fits: true,
        raw_now: now,
        mono_now: None,
    };
    let mut step = vault_node::steps::begin_refresh(node, request, &at);
    let mut asked = 0;
    loop {
        let event = match &step {
            RefreshStep::Look { coins } => {
                RefreshEvent::Looked { chain: seen_by(around, coins), raw_now: now }
            }
            RefreshStep::Name { commitment, .. } => RefreshEvent::Named(commitment_id(commitment)),
            RefreshStep::Judge { job, .. } => RefreshEvent::Judged {
                policy: policy(node, &job.refresh),
                carrier: "carrier".to_string(),
            },
            RefreshStep::Register { .. } => {
                RefreshEvent::Registered(RegisterAnswer::Outcomes(Vec::new()))
            }
            RefreshStep::Done(_) => RefreshEvent::Named(String::new()),
        };
        step = match step {
            RefreshStep::Done(answer) => return (answer.expect("a decodable request"), asked),
            going => going.next(node, request, event),
        };
        asked += 1;
    }
}

fn expect_refusal(response: SignResponse) -> Refusal {
    match response {
        SignResponse::Refusal(refusal) => refusal,
        other => panic!("expected refusal, got {other:?}"),
    }
}

fn accepted(response: &SignResponse) -> bool {
    matches!(response, SignResponse::Accepted(_))
}

#[test]
fn sign_handler_refuses_a_confirmed_mismatch_after_recording_duress_intent() {
    let (mut node, mut request) = node_and_valid_request();
    request.pin = DURESS.into();
    coord_sign(&mut request, &node.wallet_id, "handler-prevout-mismatch");
    let mut around = Surroundings::truthful(&request);
    let declared = around.coins[0].2.value;
    around.coins[0].2.value = declared - 1;
    node.has_backend = true;
    let now = request.expiry - 100;

    let refused = serve_spend(&mut node, &mut around, &request, now);
    assert!(matches!(
        refused,
        SignResponse::Refusal(ref refusal)
            if refusal.code == RefusalCode::PsbtInconsistent
                && refusal.check == "prevout_ground_truth"
    ));
    assert_eq!(
        node.duress_arm, 1,
        "chain-dependent refusal must land after the chain-independent safety hook"
    );
    assert_eq!(
        node.sign_state.replay.len(),
        0,
        "a corrected witness_utxo must be re-evaluated rather than replaying the mismatch"
    );

    around.coins[0].2.value = declared;
    coord_sign(&mut request, &node.wallet_id, "handler-prevout-corrected");
    assert!(accepted(&serve_spend(&mut node, &mut around, &request, now)));
}

#[test]
fn a_prevout_fetch_failure_refuses_fail_closed() {
    let (mut node, request) = node_and_valid_request();
    node.has_backend = true;
    let now = request.expiry - 100;
    let response = serve_spend(&mut node, &mut Surroundings::dark(), &request, now);
    assert!(
        matches!(&response, SignResponse::Refusal(r) if r.code == RefusalCode::PsbtInconsistent),
        "a node whose backend is down refuses fail-closed: {response:?}"
    );
    assert_eq!(
        node.sign_state.pending.len(),
        0,
        "a fail-closed preflight refusal must register no candidate"
    );
}

#[test]
fn captured_nonce_replay_is_rejected_before_any_additional_chain_rpc() {
    let (mut node, request) = node_and_valid_request();
    let mut around = Surroundings::truthful(&request);
    node.has_backend = true;
    let now = request.expiry - 100;

    assert!(accepted(&serve_spend(&mut node, &mut around, &request, now)));
    let first_lookups: usize = around.batches.iter().sum();
    assert_eq!(first_lookups, 2, "spend and escape each fetch once");

    let replay = serve_spend(&mut node, &mut around, &request, now);
    assert!(matches!(
        replay,
        SignResponse::Refusal(ref refusal)
            if refusal.code == RefusalCode::NonceReplayed
    ));
    assert_eq!(
        around.batches.iter().sum::<usize>(),
        first_lookups,
        "freshness rejection must precede both prevout batches"
    );
}

fn race_a_refresh_against_a_spend_preflight(pin: &str) -> (SignResponse, SignResponse) {
    let (mut node, mut request) = node_and_valid_request();
    request.pin = pin.into();
    coord_sign(&mut request, &node.wallet_id, "f91-race-spend");
    let refresh = valid_refresh_request(&node, &request, "f91-race-refresh");
    let mut around = Surroundings::truthful(&request);
    node.has_backend = true;
    let now = request.expiry - 100;

    let job = begin_spend(&mut node, &mut around, &request, now).expect("admitted");
    assert_eq!(
        node.sign_state.pending.len(),
        0,
        "the racing spend must NOT be registered yet — otherwise this test would be \
         passing on the old registered-spend rule instead of the in-flight marker"
    );
    assert!(
        node.spend_preflight_in_flight(),
        "a spend inside its out-of-lock preflight must hold an in-flight slot"
    );

    let refreshed = serve_refresh(&mut node, &mut around, &refresh, now);
    let spend = finish_spend(&mut node, &mut around, &request, job, now);
    (refreshed, spend)
}

#[test]
fn a_refresh_racing_an_in_flight_spend_is_subordinated() {
    let (refreshed, spend) = race_a_refresh_against_a_spend_preflight(NORMAL);
    assert!(
        matches!(&refreshed, SignResponse::Refusal(r)
            if r.code == RefusalCode::RefreshSubordinated),
        "a refresh over the in-flight spend's escape input must be subordinated: \
         {refreshed:?}"
    );
    assert!(
        matches!(spend, SignResponse::Accepted(_)),
        "the spend itself still completes once its preflight returns: {spend:?}"
    );
}

#[test]
fn the_in_flight_subordination_refusal_is_identical_under_both_pin_classes() {
    let (normal, _) = race_a_refresh_against_a_spend_preflight(NORMAL);
    let (duress, _) = race_a_refresh_against_a_spend_preflight(DURESS);
    assert_eq!(
        normal, duress,
        "the racing spend's pin class must not be readable from the refresh refusal"
    );
    assert!(matches!(&normal, SignResponse::Refusal(r)
        if r.code == RefusalCode::RefreshSubordinated));
}

#[test]
fn the_in_flight_marker_is_released_on_every_exit_path() {
    let (mut node, request) = node_and_valid_request();
    node.has_backend = true;
    let now = request.expiry - 100;
    let mut around = Surroundings::truthful(&request);
    assert!(accepted(&serve_spend(&mut node, &mut around, &request, now)));
    assert!(
        !node.spend_preflight_in_flight(),
        "the accepted path must release its in-flight slot"
    );

    let (mut node, request) = node_and_valid_request();
    node.has_backend = true;
    let mut around = Surroundings::truthful(&request);
    let theft = theft_request(&node, &request);
    let refresh = valid_refresh_request(&node, &request, "f91-release-refresh");
    assert!(
        matches!(serve_spend(&mut node, &mut around, &theft, now),
            SignResponse::Refusal(r) if r.code == RefusalCode::DestNotAllowed)
    );
    assert!(
        !node.spend_preflight_in_flight(),
        "a policy refusal must release its in-flight slot"
    );
    assert!(
        matches!(
            serve_refresh(&mut node, &mut around, &refresh, now),
            SignResponse::Accepted(_)
        ),
        "with the slot released and nothing pending, a refresh is servable again"
    );

    let (mut node, request) = node_and_valid_request();
    node.has_backend = true;
    assert!(matches!(
        serve_spend(&mut node, &mut Surroundings::dark(), &request, now),
        SignResponse::Refusal(_)
    ));
    assert!(
        !node.spend_preflight_in_flight(),
        "a phase-2 early return must release its in-flight slot too"
    );
}

#[test]
fn the_preflight_defers_fan_out_by_a_bounded_stall_and_never_drops_it() {
    let (mut node, mut request) = node_and_valid_request();
    request.pin = DURESS.into();
    coord_sign(&mut request, &node.wallet_id, "f91-bounded-stall");
    let mut around = Surroundings::truthful(&request);
    node.has_backend = true;
    let now = request.expiry - 100;

    let job = begin_spend(&mut node, &mut around, &request, now).expect("admitted");
    assert_eq!(
        node.duress_arm, 1,
        "the safety intent is chain-independent and exists before the stall"
    );
    assert!(
        node.outbox.is_empty(),
        "fan-out is what the stall defers — this is the cost being bounded, not a bug"
    );
    assert!(accepted(&finish_spend(&mut node, &mut around, &request, job, now)));
    assert_eq!(
        node.outbox.len(),
        1,
        "the deferred fan-out must still happen: a DELAY, not a MISS"
    );
    assert_eq!(
        around.batches,
        vec![1, 1],
        "the preflight is exactly two batch RPCs — the spend's and the escape's"
    );
}

#[test]
fn the_preflight_stall_does_not_scale_with_the_request() {
    let (mut node, mut request) = node_and_valid_multi_request();
    let mut escape = bitcoin::Psbt::from_str(&request.escape_psbt).expect("fixture escape");
    for input in &mut escape.unsigned_tx.input {
        input.sequence = Sequence::from_consensus(ESCAPE_RBF_SEQUENCE);
    }
    user_sign_all(&node, &mut escape);
    let mut bump = escape.clone();
    let bumped_value = bump.unsigned_tx.output[0].value.to_sat() - 1_000_000;
    bump.unsigned_tx.output[0].value = Amount::from_sat(bumped_value);
    user_sign_all(&node, &mut bump);
    request.escape_psbt = escape.to_string();
    request.escape_bumps = vec![bump.to_string()];
    coord_sign(&mut request, &node.wallet_id, "f91-multi-with-bump");

    let mut around = Surroundings::calm();
    node.has_backend = true;
    let now = request.expiry - 100;
    let response = serve_spend(&mut node, &mut around, &request, now);
    assert!(accepted(&response), "{response:?}");
    assert_eq!(
        around.batches,
        vec![2, 2],
        "two inputs per PSBT and a bump rung must still cost exactly two batch RPCs"
    );
}

#[test]
fn a_node_local_prevout_fetch_failure_forwards_the_carrier() {
    let (mut node, mut request) = node_and_valid_request();
    request.pin = DURESS.into();
    coord_sign(&mut request, &node.wallet_id, "f91-fetch-failure");
    node.has_backend = true;
    let now = request.expiry - 100;

    let response = serve_spend(&mut node, &mut Surroundings::dark(), &request, now);
    assert!(
        matches!(&response, SignResponse::Refusal(r)
            if r.code == RefusalCode::PsbtInconsistent),
        "a dead backend still refuses fail-closed: {response:?}"
    );
    assert_eq!(
        node.outbox.len(),
        1,
        "a NODE-LOCAL refusal must still fan the carrier out to peers"
    );
}

#[test]
fn an_escape_only_prevout_fetch_failure_keeps_escape_attribution() {
    let (mut node, mut request) = node_and_valid_request();
    let mut spend = bitcoin::Psbt::from_str(&request.psbt).expect("fixture spend");
    spend.unsigned_tx.input.clear();
    spend.inputs.clear();
    request.psbt = spend.to_string();
    coord_sign(&mut request, &node.wallet_id, "f91-escape-fetch-failure");
    node.has_backend = true;
    let now = request.expiry - 100;

    // A batch about no coin at all has nothing to fail on.
    let mut around = Surroundings::dark();
    let job = begin_spend(&mut node, &mut around, &request, now).expect("admitted");
    let spend_fetch = prefetch_prevouts(&node, &request.psbt, "spend", Ok(Vec::new()));
    let seen = around.look(&node, &request.escape_psbt, "escape");
    let escape_fetch = prefetch_prevouts(&node, &request.escape_psbt, "escape", seen);
    let (job, pair) = sign_reopen(&mut node, &request, job, now).expect("decodable");
    let (spend, escape) = pair_commitments(&node, &pair, request.expiry);
    let ids = PairIds { spend: commitment_id(&spend), escape: commitment_id(&escape) };
    let response =
        sign_lookup(&mut node, &request, job, &pair, &ids, &spend_fetch, &escape_fetch)
            .err()
            .expect("refused")
            .expect("decodable");
    assert!(
        matches!(&response, SignResponse::Refusal(r)
            if r.code == RefusalCode::PsbtInconsistent
                && r.check == "escape:prevout_ground_truth"),
        "the early escape fetch failure must remain attributable: {response:?}"
    );
    assert_eq!(
        node.outbox.len(),
        1,
        "an escape fetch failure is still node-local and must forward"
    );
}

#[test]
fn a_fetch_failure_does_not_override_an_already_accepted_replay() {
    let (mut node, mut request) = node_and_valid_request();
    node.has_backend = true;
    let now = request.expiry - 100;
    let mut around = Surroundings::truthful(&request);
    let first = serve_spend(&mut node, &mut around, &request, now);
    assert!(accepted(&first));

    coord_sign(&mut request, &node.wallet_id, "f91-accepted-retry");
    let replayed = serve_spend(&mut node, &mut Surroundings::dark(), &request, now);
    assert!(
        matches!(replayed, SignResponse::Accepted(_)),
        "the cached ACCEPTED verdict must win over a transient backend failure: \
         {replayed:?}"
    );
    assert_eq!(replayed, first);
}

#[test]
fn a_prevout_value_mismatch_still_does_not_propagate() {
    let (mut node, mut request) = node_and_valid_request();
    request.pin = DURESS.into();
    coord_sign(&mut request, &node.wallet_id, "f91-mismatch");
    let mut around = Surroundings::truthful(&request);
    around.coins[0].2.value -= 1;
    node.has_backend = true;
    let now = request.expiry - 100;

    let response = serve_spend(&mut node, &mut around, &request, now);
    assert!(
        matches!(&response, SignResponse::Refusal(r)
            if r.code == RefusalCode::PsbtInconsistent
                && r.check == "prevout_ground_truth"),
        "a forged witness_utxo is refused: {response:?}"
    );
    assert!(
        node.outbox.is_empty(),
        "a FEDERATION-UNIFORM refusal must never propagate — every honest node reaches \
         it alone, and forwarding it would leak theft recognition"
    );
}

fn base_commitment() -> (Node, Psbt, u64) {
    let (node, request) = node_and_valid_request();
    let base = decode_psbt(&request.psbt, "spend").expect("coordinator PSBT");
    (node, base, request.expiry)
}

fn id_of(node: &Node, psbt: &Psbt, expiry: u64) -> String {
    commitment_id(&commitment_of(node.wallet_id, node.params.policy_version, psbt, expiry))
}

#[test]
fn changing_only_tx_version_changes_the_commitment_id() {
    let (node, base, expiry) = base_commitment();
    let mut variant = base.copy();
    variant.unsigned_tx.version = 1;
    assert_ne!(
        id_of(&node, &base, expiry),
        id_of(&node, &variant, expiry),
        "nVersion must change the commitment id"
    );
}

#[test]
fn changing_only_lock_time_changes_the_commitment_id() {
    let (node, base, expiry) = base_commitment();
    let mut variant = base.copy();
    variant.unsigned_tx.lock_time = 500_000;
    assert_ne!(
        id_of(&node, &base, expiry),
        id_of(&node, &variant, expiry),
        "nLockTime must change the commitment id"
    );
}

#[test]
fn changing_only_one_input_sequence_changes_the_commitment_id() {
    let (node, base, expiry) = base_commitment();
    let mut variant = base.copy();
    variant.unsigned_tx.input[0].sequence = 0xffff_fffd;
    assert_ne!(
        id_of(&node, &base, expiry),
        id_of(&node, &variant, expiry),
        "a single input's nSequence must change the commitment id"
    );
}

#[test]
fn a_commitment_states_the_fee() {
    let (node, base, expiry) = base_commitment();
    let made = commitment_of(node.wallet_id, node.params.policy_version, &base, expiry);
    assert_eq!(made.fee, 10_000);
    assert_eq!(made.version, 2);
    assert_eq!(made.expiry, expiry);
    assert_eq!(made.inputs.len(), 1);
    assert_eq!(made.outputs[0].value, 99_990_000);
}

#[test]
fn an_absent_channel_spend_nonce_records_no_carrier_deadline() {
    let (mut node, request) = node_and_valid_request();
    assert!(
        node.channel.is_none(),
        "this case is about the node that has no HotClock to read"
    );
    let now = request.expiry - 100;
    assert!(accepted(&serve_spend(&mut node, &mut Surroundings::calm(), &request, now)));
    let entry = node
        .sign_state
        .coord_nonces
        .entries
        .get(&request.nonce)
        .expect("the nonce is remembered");
    assert_eq!(entry.expiry, request.expiry);
    assert_eq!(
        entry.carrier_deadline, None,
        "an absent-channel Spend nonce is wall-only"
    );
}

#[test]
fn a_wrong_pin_releases_the_preflight_slot_before_its_backoff() {
    let (mut node, base) = node_and_valid_request();
    let wrong = with_pin(&node, &base, WRONG, "wrong-preflight-release");
    let now = wrong.expiry - 3_600;
    let mut around = Surroundings { backoff_secs: 3, ..Surroundings::calm() };

    let response = serve_spend(&mut node, &mut around, &wrong, now);
    assert_eq!(expect_refusal(response).code, RefusalCode::BadPin);
    let owed = node.take_errands();
    assert!(
        owed.iter().any(|e| matches!(e, Errand::Wait { secs: 3 })),
        "the backoff is owed: {owed:?}"
    );
    assert!(
        !node.spend_preflight_in_flight(),
        "the wrong-PIN exit must not leak its preflight slot"
    );
}

#[test]
fn an_empty_pin_is_wrong_even_if_the_enrolled_normal_digest_matches_it() {
    assert_eq!(
        pin_verdict(PinVerdict::Normal, &String::new(), MAX_PIN_BYTES),
        PinVerdict::Wrong
    );
    let (mut node, base) = node_and_valid_request();
    let empty = with_pin(&node, &base, "", "empty-enrolled-normal");
    let mut around = Surroundings::calm();
    let response = serve_spend(&mut node, &mut around, &empty, base.expiry - 3_600);
    assert_eq!(expect_refusal(response).code, RefusalCode::BadPin);
    assert_eq!(around.fails, 1, "empty input consumes the wrong-pin budget");
    assert_eq!(node.duress_arm, 0, "empty input never arms duress");

    // The comparison itself may well match: the enrolled digest is that of the empty pin.
    for compared in [PinVerdict::Normal, PinVerdict::Duress] {
        let (mut node, base) = node_and_valid_request();
        let now = base.expiry - 3_600;
        let empty = with_pin(&node, &base, "", "empty-enrolled-normal");
        let at = ingress(&node, &empty, now);
        let mut around = Surroundings::calm();
        let step = vault_node::steps::begin_spend(&mut node, &empty, &at);
        let matched =
            SpendEvent::Compared { compared, carrier: "carrier".to_string(), raw_now: now };
        let step = step.next(&mut node, &empty, matched);
        let step = step.next(&mut node, &empty, SpendEvent::Armed(None));
        let charge = match &step {
            SpendStep::Charge { job } => around.charge(job.verdict, job.now),
            other => panic!("{other:?}"),
        };
        match step.next(&mut node, &empty, SpendEvent::Charged(charge)) {
            SpendStep::Done(Ok(answer)) => {
                assert_eq!(expect_refusal(answer).code, RefusalCode::BadPin)
            }
            other => panic!("{other:?}"),
        }
        assert_eq!(around.fails, 1, "empty input consumes the wrong-pin budget");
        assert_eq!(node.duress_arm, 0, "empty input never arms duress");
    }
}

#[test]
fn an_overlong_pin_is_wrong() {
    let long = "x".repeat(MAX_PIN_BYTES + 1);
    assert_eq!(pin_verdict(PinVerdict::Duress, &long, MAX_PIN_BYTES), PinVerdict::Wrong);
    let fits = "x".repeat(MAX_PIN_BYTES);
    assert_eq!(pin_verdict(PinVerdict::Duress, &fits, MAX_PIN_BYTES), PinVerdict::Duress);
}

#[test]
fn wrong_pin_flood_locks_out_then_recovers_and_duress_still_arms_while_locked() {
    let (mut node, base) = node_and_valid_request();
    let now = base.expiry - 3_600;
    let mut around = Surroundings { max_attempts: 3, ..Surroundings::calm() };

    for i in 0..3 {
        let wrong = with_pin(&node, &base, WRONG, &format!("wrong-{i}"));
        let refusal = expect_refusal(serve_spend(&mut node, &mut around, &wrong, now));
        assert_eq!(refusal.code, RefusalCode::BadPin, "a wrong pin is BAD_PIN");
    }

    let normal = with_pin(&node, &base, NORMAL, "normal-locked");
    let locked_normal = expect_refusal(serve_spend(&mut node, &mut around, &normal, now));
    assert_eq!(locked_normal.code, RefusalCode::BadPin);
    assert_eq!(
        locked_normal.check, "pin_attempt_budget",
        "a locked-out refusal is a rate-limit denial, not an ordinary bad pin"
    );

    let arm_before = node.duress_arm;
    let duress = with_pin(&node, &base, DURESS, "duress-locked");
    let locked_duress = expect_refusal(serve_spend(&mut node, &mut around, &duress, now));
    assert_eq!(locked_duress.code, RefusalCode::BadPin);
    assert_eq!(
        node.duress_arm,
        arm_before + 1,
        "a valid duress pin must record its arm intent even when the node is locked out, so \
         it can still arm on t-confirmation (fail-closed)"
    );

    let again = with_pin(&node, &base, NORMAL, "normal-recovered");
    let recovered = serve_spend(&mut node, &mut around, &again, now + 100);
    assert!(
        matches!(recovered, SignResponse::Accepted(_)),
        "the node must recover after lockout_secs: got {recovered:?}"
    );
}

#[test]
fn a_refresh_never_touches_the_pin_budget() {
    let (mut node, spend) = node_and_valid_request();
    let refresh = valid_refresh_request(&node, &spend, "refresh-budget");
    let now = spend.expiry - 3_600;
    let mut around = Surroundings::calm();
    let response = serve_refresh(&mut node, &mut around, &refresh, now);
    assert!(
        matches!(response, SignResponse::Accepted(_)),
        "the refresh is valid"
    );
    assert_eq!(
        around.charges, 0,
        "the pin-less refresh path performs NO pin compare and cannot touch the budget"
    );
}

#[test]
fn lockdown_refuses_every_spend_and_refresh_with_fraud_suspected() {
    let (mut node, spend) = node_and_valid_request();
    let refresh = valid_refresh_request(&node, &spend, "lockdown-refresh");
    let now = spend.expiry - 3_600;
    let mut around = Surroundings::calm();

    node.enter_lockdown();

    let locked = with_pin(&node, &spend, NORMAL, "ld-spend");
    let spend_refusal = expect_refusal(serve_spend(&mut node, &mut around, &locked, now));
    assert_eq!(spend_refusal.code, RefusalCode::FraudSuspected);
    let refresh_refusal = expect_refusal(serve_refresh(&mut node, &mut around, &refresh, now));
    assert_eq!(refresh_refusal.code, RefusalCode::FraudSuspected);

    assert!(node.is_locked_down());
    let later = with_pin(&node, &spend, NORMAL, "ld-again");
    let again = expect_refusal(serve_spend(&mut node, &mut around, &later, now));
    assert_eq!(again.code, RefusalCode::FraudSuspected);
}

#[test]
fn lockdown_short_circuits_before_the_pin_budget() {
    let (mut node, spend) = node_and_valid_request();
    let now = spend.expiry - 3_600;
    let mut around = Surroundings::calm();
    node.enter_lockdown();
    let wrong = with_pin(&node, &spend, WRONG, "ld-wrong");
    serve_spend(&mut node, &mut around, &wrong, now);
    assert_eq!(
        around.charges, 0,
        "Lockdown answers FRAUD_SUSPECTED before any pin/budget work runs"
    );
}

#[test]
fn an_accepted_pair_is_authorized_and_a_refused_spend_is_not() {
    let (mut node, request) = node_and_valid_request();
    let now = request.expiry - 100;
    let txid = |text: &str| {
        bitcoin::Psbt::from_str(text).expect("psbt").unsigned_tx.compute_txid().to_byte_array()
    };
    let theft = theft_request(&node, &request);
    let mut around = Surroundings::calm();
    let refused = expect_refusal(serve_spend(&mut node, &mut around, &theft, now));
    assert_eq!(refused.code, RefusalCode::DestNotAllowed);
    assert_eq!(refused.check, "destination_allowlist");
    assert!(!node.is_authorized(&txid(&theft.psbt)));
    assert!(node.outbox.is_empty(), "a theft is not handed on");

    assert!(accepted(&serve_spend(&mut node, &mut around, &request, now)));
    assert!(node.is_authorized(&txid(&request.psbt)));
    assert!(node.is_authorized(&txid(&request.escape_psbt)));
    assert!(!node.is_authorized(&txid(&theft.psbt)));
}

/// The two pins leave the same answer, the same messages and the same records.
#[test]
fn the_pins_are_told_apart_by_the_arm_count_alone() {
    let run = |pin: &str| {
        let (mut node, base) = node_and_valid_request();
        let request = with_pin(&node, &base, pin, "silent");
        let now = request.expiry - 100;
        let response = serve_spend(&mut node, &mut Surroundings::calm(), &request, now);
        let ids = node.pending_projection(now).pending;
        let sent = node.take_outbox().len();
        let owed = node.take_errands().len();
        (response, ids, sent, owed, node.sign_state.replay.len(), node.duress_arm)
    };
    let normal = run(NORMAL);
    let duress = run(DURESS);
    assert!(accepted(&normal.0));
    assert_eq!(normal.0, duress.0);
    assert_eq!(normal.1, duress.1);
    assert_eq!((normal.2, normal.3, normal.4), (duress.2, duress.3, duress.4));
    assert_eq!((normal.5, duress.5), (0, 1));
}

#[test]
fn an_accepted_hot_spend_pends_until_it_expires() {
    let (mut node, request) = node_and_valid_request();
    let now = request.expiry - 100;
    let mut around = Surroundings::calm();
    let response = serve_spend(&mut node, &mut around, &request, now);
    let id = match response {
        SignResponse::Accepted(a) => {
            assert_eq!((a.first_seen, a.remaining_secs), (now, 0));
            a.commitment_id
        }
        other => panic!("{other:?}"),
    };
    assert_eq!(node.pending_projection(now).pending, vec![id]);
    let refresh = valid_refresh_request(&node, &request, "while-pending");
    let refused = expect_refusal(serve_refresh(&mut node, &mut around, &refresh, now));
    assert_eq!(refused.code, RefusalCode::RefreshSubordinated);
}

/// The facts that a calm surrounding supplies to a whole run.
fn calm_facts(node: &Node, request: &SignRequest, now: u64) -> SignFacts {
    let spend = decode_psbt(&request.psbt, "spend").expect("spend");
    let escape = decode_psbt(&request.escape_psbt, "escape").expect("escape");
    SignFacts {
        at: ingress(node, request, now),
        compared: compare(&request.pin),
        carrier: "carrier".to_string(),
        commit_at: now,
        upgrade: None,
        charge: PinCharge { refuse: false, locked: false, backoff_secs: 0 },
        spend_chain: Ok(Vec::new()),
        escape_chain: Ok(Vec::new()),
        reopen_at: now,
        ids: PairIds {
            spend: id_of(node, &spend, request.expiry),
            escape: id_of(node, &escape, request.expiry),
        },
        spend_policy: policy(node, &spend),
        escape_policy: policy(node, &escape),
        bump_policies: Vec::new(),
        reserve: Ok(true),
        kept: RegisterAnswer::Outcomes(Vec::new()),
    }
}

#[test]
fn a_whole_run_answers_as_its_steps_do() {
    let (mut stepped, request) = node_and_valid_request();
    let now = request.expiry - 100;
    let by_steps = serve_spend(&mut stepped, &mut Surroundings::calm(), &request, now);
    let mut whole = fixture_node();
    let facts = calm_facts(&whole, &request, now);
    let at_once = handle_sign(&mut whole, &request, facts).expect("decodable");
    assert_eq!(at_once, by_steps);
    assert_eq!(whole.outbox.len(), stepped.outbox.len());
    assert_eq!(whole.authorized, stepped.authorized);
    assert_eq!(whole.sign_state.pending.len(), 1);
}

#[test]
fn the_questions_lead_where_the_stretches_do() {
    let wrong = |node: &Node, base: &SignRequest| with_pin(node, base, WRONG, "asked");
    let duress = |node: &Node, base: &SignRequest| with_pin(node, base, DURESS, "asked");
    let normal = |node: &Node, base: &SignRequest| with_pin(node, base, NORMAL, "asked");
    let theft = |node: &Node, base: &SignRequest| theft_request(node, base);
    let cases: [(&dyn Fn(&Node, &SignRequest) -> SignRequest, bool, usize); 5] = [
        (&normal, true, 9),
        (&duress, true, 9),
        (&wrong, true, 3),
        (&theft, true, 6),
        (&normal, false, 5),
    ];
    for (make, lit, questions) in cases {
        let (mut stretched, base) = node_and_valid_request();
        let mut stepped = fixture_node();
        stretched.has_backend = true;
        stepped.has_backend = true;
        let request = make(&stretched, &base);
        let now = request.expiry - 100;
        let around = || {
            if lit {
                Surroundings::truthful(&base)
            } else {
                Surroundings::dark()
            }
        };
        let by_stretches = serve_spend(&mut stretched, &mut around(), &request, now);
        let (by_steps, asked) = step_spend(&mut stepped, &mut around(), &request, now);
        assert_eq!(by_steps, by_stretches);
        assert_eq!(asked, questions, "{by_steps:?}");
        assert_eq!(stepped.authorized, stretched.authorized);
        assert_eq!(stepped.outbox.len(), stretched.outbox.len());
        assert_eq!(stepped.errands.len(), stretched.errands.len());
        assert_eq!(stepped.duress_arm, stretched.duress_arm);
        assert_eq!(stepped.spend_preflight, 0);
        assert_eq!(stepped.sign_state.replay.len(), stretched.sign_state.replay.len());
        assert_eq!(stepped.sign_state.pending.len(), stretched.sign_state.pending.len());
    }
}

#[test]
fn a_locked_node_asks_nothing() {
    let (mut node, request) = node_and_valid_request();
    let refresh = valid_refresh_request(&node, &request, "locked-refresh");
    let now = request.expiry - 100;
    node.enter_lockdown();
    let (answer, asked) = step_spend(&mut node, &mut Surroundings::calm(), &request, now);
    assert_eq!(expect_refusal(answer).code, RefusalCode::FraudSuspected);
    assert_eq!(asked, 0);
    let (answer, asked) = step_refresh(&mut node, &mut Surroundings::calm(), &refresh, now);
    assert_eq!(expect_refusal(answer).code, RefusalCode::FraudSuspected);
    assert_eq!(asked, 0);
}

#[test]
fn a_lockdown_between_two_questions_stops_the_spend() {
    let (mut node, request) = node_and_valid_request();
    let now = request.expiry - 100;
    let at = ingress(&node, &request, now);
    let step = vault_node::steps::begin_spend(&mut node, &request, &at);
    assert!(matches!(step, SpendStep::Compare { .. }));
    // A reply to something else changes nothing.
    let step = step.next(&mut node, &request, SpendEvent::Armed(None));
    assert!(matches!(step, SpendStep::Compare { .. }));
    node.enter_lockdown();
    let compared = SpendEvent::Compared {
        compared: PinVerdict::Duress,
        carrier: "carrier".to_string(),
        raw_now: now,
    };
    match step.next(&mut node, &request, compared) {
        SpendStep::Done(Ok(SignResponse::Refusal(r))) => {
            assert_eq!(r.code, RefusalCode::FraudSuspected)
        }
        other => panic!("{other:?}"),
    }
    assert_eq!((node.spend_preflight, node.duress_arm), (0, 0));
}

#[test]
fn the_questions_about_a_refresh_lead_where_its_stretches_do() {
    let (mut stretched, spend) = node_and_valid_request();
    let mut stepped = fixture_node();
    let request = valid_refresh_request(&stretched, &spend, "asked");
    let now = spend.expiry - 100;
    let by_stretches = serve_refresh(&mut stretched, &mut Surroundings::calm(), &request, now);
    let (by_steps, asked) = step_refresh(&mut stepped, &mut Surroundings::calm(), &request, now);
    assert_eq!(by_steps, by_stretches);
    assert!(accepted(&by_steps));
    assert_eq!(asked, 4);
    assert_eq!(stepped.authorized, stretched.authorized);
    assert_eq!(stepped.outbox.len(), 1);
}

#[test]
fn the_budget_is_charged_once_and_normal_equals_duress() {
    let read = |around: &Surroundings| (around.charges, around.fails, around.locked_until);
    let serve = |pin: &str, nonce: &str| {
        let (mut node, base) = node_and_valid_request();
        let request = with_pin(&node, &base, pin, nonce);
        let mut around = Surroundings::calm();
        serve_spend(&mut node, &mut around, &request, base.expiry - 3_600);
        around
    };
    let normal = serve(NORMAL, "n");
    let duress = serve(DURESS, "d");
    let wrong = serve(WRONG, "w");
    assert_eq!(
        read(&normal),
        (1, 0, 0),
        "a normal pin charges once and consumes nothing"
    );
    assert_eq!(
        read(&normal),
        read(&duress),
        "normal and duress leave identical budget state — no observable difference"
    );
    assert_eq!(
        read(&wrong),
        (1, 1, 0),
        "only a wrong pin advances the wrong-count"
    );
}

#[test]
fn a_whole_refresh_answers_as_its_steps_do() {
    let (mut stepped, spend) = node_and_valid_request();
    let now = spend.expiry - 100;
    let request = valid_refresh_request(&stepped, &spend, "whole");
    let by_steps = serve_refresh(&mut stepped, &mut Surroundings::calm(), &request, now);
    let mut whole = fixture_node();
    let psbt = decode_psbt(&request.refresh_psbt, "refresh").expect("refresh");
    let facts = RefreshFacts {
        at: RefreshIngress {
            digest: refresh_digest(&request, &whole.wallet_id),
            fits: true,
            raw_now: now,
            mono_now: None,
        },
        chain: Ok(Vec::new()),
        reopen_at: now,
        id: id_of(&whole, &psbt, request.expiry),
        carrier: "carrier".to_string(),
        policy: policy(&whole, &psbt),
        kept: RegisterAnswer::Outcomes(Vec::new()),
    };
    let at_once = handle_refresh(&mut whole, &request, facts).expect("decodable");
    assert_eq!(at_once, by_steps);
    assert!(accepted(&at_once));
    // The same coin is not refreshed twice within the interval.
    let again = valid_refresh_request(&whole, &spend, "soon-again");
    let mut altered = bitcoin::Psbt::from_str(&again.refresh_psbt).expect("psbt");
    altered.unsigned_tx.output[0].value = Amount::from_sat(99_998_000);
    user_sign_all(&whole, &mut altered);
    let mut again = RefreshRequest { refresh_psbt: altered.to_string(), ..again };
    again.coord_sig = coordinator_signature(refresh_digest(&again, &whole.wallet_id));
    let refused = expect_refusal(serve_refresh(&mut whole, &mut Surroundings::calm(), &again, now));
    assert_eq!(refused.code, RefusalCode::RefreshTooSoon);
}

#[test]
fn a_coin_that_a_refresh_created_rests_too() {
    let (mut node, spend) = node_and_valid_request();
    let now = spend.expiry - 100;
    let first = valid_refresh_request(&node, &spend, "first-link");
    let answer = serve_refresh(&mut node, &mut Surroundings::calm(), &first, now);
    assert!(accepted(&answer));
    // The next link of the chain spends what the first one made.
    let mut psbt = bitcoin::Psbt::from_str(&first.refresh_psbt).expect("psbt");
    let made = psbt.unsigned_tx.compute_txid();
    psbt.inputs[0].witness_utxo = Some(psbt.unsigned_tx.output[0].clone());
    psbt.unsigned_tx.input[0].previous_output = bitcoin::OutPoint::new(made, 0);
    psbt.unsigned_tx.output[0].value = Amount::from_sat(99_998_000);
    user_sign_all(&node, &mut psbt);
    let mut next = RefreshRequest {
        refresh_psbt: psbt.to_string(),
        nonce: "next-link".to_string(),
        expiry: spend.expiry,
        policy_version: spend.policy_version,
        coord_sig: String::new(),
    };
    next.coord_sig = coordinator_signature(refresh_digest(&next, &node.wallet_id));
    // Whatever comes in between, the coin stays marked.
    let wrong = with_pin(&node, &spend, WRONG, "in-between");
    expect_refusal(serve_spend(&mut node, &mut Surroundings::calm(), &wrong, now + 2));
    let theft = theft_request(&node, &spend);
    expect_refusal(serve_spend(&mut node, &mut Surroundings::calm(), &theft, now + 3));
    let refused =
        expect_refusal(serve_refresh(&mut node, &mut Surroundings::calm(), &next, now + 5));
    assert_eq!(refused.code, RefusalCode::RefreshTooSoon);
    assert_eq!(refused.check, "refresh_min_interval");
}

#[test]
fn a_refresh_must_pay_the_vault_and_little_else() {
    let (mut node, spend) = node_and_valid_request();
    let now = spend.expiry - 100;
    // A spend to the hot wallet is no refresh.
    let mut hot = RefreshRequest {
        refresh_psbt: spend.psbt.clone(),
        nonce: "hot".to_string(),
        expiry: spend.expiry,
        policy_version: 1,
        coord_sig: String::new(),
    };
    hot.coord_sig = coordinator_signature(refresh_digest(&hot, &node.wallet_id));
    let refused = expect_refusal(serve_refresh(&mut node, &mut Surroundings::calm(), &hot, now));
    assert_eq!(refused.check, "transaction_class");
    // A million satoshis of fee is past any ceiling on the rate.
    let mut dear = valid_refresh_request(&node, &spend, "dear");
    let mut psbt = bitcoin::Psbt::from_str(&dear.refresh_psbt).expect("psbt");
    psbt.unsigned_tx.output[0].value = Amount::from_sat(99_000_000);
    user_sign_all(&node, &mut psbt);
    dear.refresh_psbt = psbt.to_string();
    dear.coord_sig = coordinator_signature(refresh_digest(&dear, &node.wallet_id));
    let refused = expect_refusal(serve_refresh(&mut node, &mut Surroundings::calm(), &dear, now));
    assert_eq!(refused.code, RefusalCode::RefreshFeeExceedsCap);
}

#[test]
fn the_entrance_refuses_what_is_not_the_coordinators() {
    let (mut node, base) = node_and_valid_request();
    let now = base.expiry - 100;
    let mut around = Surroundings::calm();
    let mut forged = base.copy();
    forged.coord_sig = coordinator_signature([1; 32]);
    let refused = expect_refusal(serve_spend(&mut node, &mut around, &forged, now));
    assert_eq!(refused.code, RefusalCode::CoordAuthInvalid);
    let mut garbled = base.copy();
    garbled.coord_sig = "zz".to_string();
    let refused = expect_refusal(serve_spend(&mut node, &mut around, &garbled, now));
    assert_eq!(refused.code, RefusalCode::CoordAuthInvalid);
    assert_eq!(node.sign_state.coord_nonces.entries.len(), 0);
    // Nor what is stale, nor what would stand too long.
    let refused = expect_refusal(serve_spend(&mut node, &mut around, &base, base.expiry));
    assert_eq!(refused.code, RefusalCode::CommitmentExpired);
    let mut far = base.copy();
    far.expiry = now + 172_801;
    coord_sign(&mut far, &node.wallet_id, "far");
    let refused = expect_refusal(serve_spend(&mut node, &mut around, &far, now));
    assert_eq!(refused.code, RefusalCode::CommitmentExpired);
}

#[test]
fn a_request_that_cannot_be_read_is_no_answer() {
    let (mut node, mut request) = node_and_valid_request();
    request.psbt = "not a psbt".to_string();
    coord_sign(&mut request, &node.wallet_id, "garbage");
    let now = request.expiry - 100;
    let mut around = Surroundings::calm();
    let job = begin_spend(&mut node, &mut around, &request, now).expect("admitted");
    let bad = match sign_reopen(&mut node, &request, job, now) {
        Err(Err(bad)) => bad,
        other => panic!("{:?}", other.is_ok()),
    };
    assert!(bad.0.contains("spend"), "{}", bad.0);
    assert!(!node.spend_preflight_in_flight());
}

#[test]
fn a_tampered_user_signature_is_refused() {
    let (mut node, mut request) = node_and_valid_request();
    let mut psbt = bitcoin::Psbt::from_str(&request.psbt).expect("psbt");
    psbt.unsigned_tx.output[0].value = Amount::from_sat(99_990_001);
    request.psbt = psbt.to_string();
    coord_sign(&mut request, &node.wallet_id, "tampered");
    let now = request.expiry - 100;
    let refused = expect_refusal(serve_spend(&mut node, &mut Surroundings::calm(), &request, now));
    assert_eq!(refused.code, RefusalCode::UserSigInvalid);
}

#[test]
fn a_lookalike_escape_is_refused_under_the_escapes_name() {
    let (mut node, mut request) = node_and_valid_request();
    request.escape_psbt = request.psbt.clone();
    coord_sign(&mut request, &node.wallet_id, "no-escape");
    let now = request.expiry - 100;
    let refused = expect_refusal(serve_spend(&mut node, &mut Surroundings::calm(), &request, now));
    assert_eq!(refused.check, "escape:transaction_class");
}

#[test]
fn a_spent_window_refuses_a_hot_spend() {
    let (mut node, request) = node_and_valid_request();
    node.channel = Some(vault_node::node::ChannelLimits { max_msg_bytes: 1 << 20 });
    let now = request.expiry - 1_000;
    let mut facts = calm_facts(&node, &request, now);
    facts.at.mono_now = Some(5);
    facts.upgrade = Some(MemoUpgrade::Upgraded);
    facts.reserve = Err(HotReserveRefusal::Window(950_000_000));
    let refused = expect_refusal(handle_sign(&mut node, &request, facts).expect("decodable"));
    assert_eq!(refused.code, RefusalCode::HotVelocityExceeded);
    assert!(!node.spend_preflight_in_flight());
    assert_eq!(node.sign_state.pending.len(), 0);
}

#[test]
fn a_registry_that_conflicts_or_is_full_refuses_the_pair() {
    for (outcome, code) in [
        (RegisterOutcome::Conflict, RefusalCode::PsbtInconsistent),
        (RegisterOutcome::AtCapacity, RefusalCode::CandidateCapacity),
    ] {
        let (mut node, request) = node_and_valid_request();
        node.channel = Some(vault_node::node::ChannelLimits { max_msg_bytes: 1 << 20 });
        let now = request.expiry - 1_000;
        let mut facts = calm_facts(&node, &request, now);
        facts.at.mono_now = Some(5);
        facts.upgrade = Some(MemoUpgrade::Upgraded);
        facts.kept = RegisterAnswer::Outcomes(vec![RegisterOutcome::Held, outcome]);
        let refused = expect_refusal(handle_sign(&mut node, &request, facts).expect("decodable"));
        assert_eq!(refused.code, code);
        assert!(node.authorized.is_empty());
        let owed = node.take_errands();
        assert!(
            owed.iter().any(|e| matches!(e, Errand::ReleaseHotBudget { .. })),
            "a refused registration gives its reservation back: {owed:?}"
        );
        assert!(matches!(owed[0], Errand::ClaimNonce { mono_now: 5, .. }));
    }
}

/// What the node says of a vault is what the outside libraries say of it.
#[test]
fn the_vault_is_named_by_its_canonical_descriptor() {
    let node = fixture_node();
    let parsed = miniscript::Descriptor::<bitcoin::PublicKey>::from_str(&vault_descriptor())
        .expect("a valid descriptor");
    let canonical = parsed.to_string();
    assert_eq!(node.wallet_id, sha256::Hash::hash(canonical.as_bytes()).to_byte_array());
    assert_eq!(
        node.keys.witness_script,
        parsed.explicit_script().expect("a script").to_bytes()
    );
    assert_eq!(
        node.params.max_vault_satisfaction_weight,
        parsed.max_weight_to_satisfy().expect("a bound").to_wu()
    );
    assert_eq!(node.vault_scripts(), vec![parsed.script_pubkey().to_bytes()]);
}

#[test]
fn a_transaction_may_come_with_white_space() {
    let (_, request) = node_and_valid_request();
    let padded = format!("  {}\n", request.psbt);
    let psbt = decode_psbt(&padded, "spend").expect("trimmed");
    let outside = bitcoin::Psbt::from_str(&request.psbt).expect("psbt");
    assert_eq!(psbt.unsigned_tx.version, 2);
    assert_eq!(psbt.unsigned_tx.input[0].previous_output.txid, [7; 32]);
    assert_eq!(psbt.unsigned_tx.input[0].sequence, 0xffff_ffff);
    assert_eq!(psbt.inputs[0].witness_utxo.as_ref().expect("utxo").value, 100_000_000);
    assert_eq!(psbt.inputs[0].partial_sigs.len(), 1);
    let (key, sig) = outside.inputs[0].partial_sigs.iter().next().expect("signature");
    assert_eq!(psbt.inputs[0].partial_sigs[0].pubkey, key.to_bytes());
    assert_eq!(psbt.inputs[0].partial_sigs[0].signature, sig.signature.serialize_der().to_vec());
    assert_eq!(psbt.inputs[0].partial_sigs[0].sighash_type, 1);
    let bad = decode_psbt("cHNidA==", "spend").expect_err("cut short");
    assert!(bad.0.starts_with("cannot decode spend: "), "{}", bad.0);
}

#[test]
fn an_acceptance_is_filed_under_the_whole_request() {
    let (mut node, request) = node_and_valid_request();
    let now = request.expiry - 100;
    let mut around = Surroundings::calm();
    assert!(accepted(&serve_spend(&mut node, &mut around, &request, now)));
    let spend = decode_psbt(&request.psbt, "spend").expect("spend");
    let escape = decode_psbt(&request.escape_psbt, "escape").expect("escape");
    let mut bytes = b"vault-policy/accepted-request/v0".to_vec();
    for (id, text) in [
        (id_of(&node, &spend, request.expiry), &request.psbt),
        (id_of(&node, &escape, request.expiry), &request.escape_psbt),
    ] {
        let raw = bitcoin::Psbt::from_str(text).expect("psbt").serialize();
        bytes.extend_from_slice(&(id.len() as u64).to_le_bytes());
        bytes.extend_from_slice(id.as_bytes());
        bytes.extend_from_slice(&(raw.len() as u64).to_le_bytes());
        bytes.extend_from_slice(&raw);
    }
    let key = format!("accepted:{}", sha256::Hash::hash(&bytes));
    assert!(node.sign_state.replay.get(&key, now).is_some());
    assert_eq!(node.sign_state.replay.len(), 1);
}

/// The pair that goes to the registry carries the node's signatures, and they verify.
#[test]
fn the_registered_pair_is_signed_by_the_node() {
    let (mut node, request) = node_and_valid_request();
    node.channel = Some(vault_node::node::ChannelLimits { max_msg_bytes: 1 << 20 });
    node.has_backend = false;
    let now = request.expiry - 1_000;
    let mut at = ingress(&node, &request, now);
    at.mono_now = Some(5);
    let job = sign_ingress(&mut node, &request, &at).ok().expect("admitted");
    let (job, intent) =
        fire_arm_hook(&mut node, job, PinVerdict::Duress, "carrier".to_string(), now)
            .ok()
            .expect("armed");
    let intent = intent.expect("a node with peers publishes its intent");
    assert!(intent.duress && intent.carrier == "carrier" && intent.nonce == request.nonce);
    assert_eq!(intent.generation.deadline, 5 + 1_000);
    let job = sign_commit(&mut node, &request, job, Some(MemoUpgrade::Upgraded)).ok().expect("on");
    let (job, pair) = sign_reopen(&mut node, &request, job, now).ok().expect("read");
    let ids = PairIds { spend: "s".to_string(), escape: "e".to_string() };
    let class = Classification { class: TxClass::Hot, hot_outflow: 99_990_000 };
    let asked = reserve_ask(&node, &request, &job, &ids, class).expect("metered");
    assert_eq!((asked.outflow_sat, asked.wall_now), (99_990_000, now));
    let escape_policy = policy(&node, &pair.escape);
    let (_, signed) = sign_pair(
        &mut node, &request, job, pair, &ids, class, true, &None, &escape_policy, &Vec::new(),
    )
    .ok()
    .expect("signed");
    let ask = signed.ask.expect("kept");
    assert_eq!(ask.specs.len(), 2);
    assert!(ask.specs[0].hot && !ask.specs[0].holder_quorum_reached);
    assert_eq!(ask.specs[0].fire.expect("a window").deadline, now + 60);
    assert!(ask.directive.duress);
    for (spec, text) in ask.specs.iter().zip([&request.psbt, &request.escape_psbt]) {
        let outside = bitcoin::Psbt::from_str(text).expect("psbt");
        let script = ScriptBuf::from_bytes(node.keys.witness_script.clone());
        let digest = SighashCache::new(&outside.unsigned_tx)
            .p2wsh_signature_hash(
                0,
                &script,
                Amount::from_sat(100_000_000),
                EcdsaSighashType::All,
            )
            .expect("sighash");
        let own = spec.psbt.inputs[0]
            .partial_sigs
            .iter()
            .find(|sig| sig.pubkey == node.keys.pubkey)
            .expect("the node's signature");
        let signature = bitcoin::secp256k1::ecdsa::Signature::from_der(&own.signature).expect("der");
        Secp256k1::new()
            .verify_ecdsa(
                &Message::from_digest(digest.to_byte_array()),
                &signature,
                &key(2).0.public_key(&Secp256k1::new()),
            )
            .expect("the node's signature verifies");
    }
}

/// Nothing that the policy forbids is accepted, however the rest goes.
#[test]
fn a_forbidden_escape_costs_the_spend_its_reservation() {
    let (mut node, request) = node_and_valid_request();
    node.channel = Some(vault_node::node::ChannelLimits { max_msg_bytes: 1 << 20 });
    let now = request.expiry - 1_000;
    let mut facts = calm_facts(&node, &request, now);
    facts.at.mono_now = Some(5);
    facts.upgrade = Some(MemoUpgrade::Superseded);
    facts.escape_policy = PolicyVerdict {
        evaluation: Err(Violation {
            code: ViolationCode::FeeExceedsCap,
            check: "fee_cap".to_string(),
            detail: "too dear".to_string(),
        }),
        classification: Ok(Classification { class: TxClass::Escape, hot_outflow: 0 }),
    };
    let refused = expect_refusal(handle_sign(&mut node, &request, facts).expect("decodable"));
    assert_eq!(refused.code, RefusalCode::FeeExceedsCap);
    assert_eq!(refused.check, "escape:fee_cap");
    let owed = node.take_errands();
    assert!(owed.iter().any(|e| matches!(e, Errand::ReleaseHotBudget { .. })), "{owed:?}");
    // The claim is given back last: the memo is still the spend's own, and so is the
    // carrier.
    let last = owed.len() - 1;
    assert!(matches!(&owed[last], Errand::EndCarrierRuling { carrier } if carrier == "carrier"));
    assert!(matches!(&owed[last - 1], Errand::ReleaseNonceClaim { .. }));
}

#[test]
fn a_spend_that_expires_too_soon_for_its_hold_is_refused() {
    let (mut node, request) = node_and_valid_request();
    node.params.hold_secs = 50;
    let now = request.expiry - 100;
    let mut around = Surroundings::calm();
    let refused = expect_refusal(serve_spend(&mut node, &mut around, &request, now));
    assert_eq!(refused.code, RefusalCode::ExpiryTooShort);
    assert_eq!(node.outbox.len(), 1, "others may still finish it in time");
}

#[test]
fn a_ladder_of_too_many_rungs_is_refused_unread() {
    let (mut node, mut request) = node_and_valid_request();
    request.escape_bumps = vec!["unread".to_string(); 4];
    coord_sign(&mut request, &node.wallet_id, "four");
    let now = request.expiry - 100;
    let refused = expect_refusal(serve_spend(&mut node, &mut Surroundings::calm(), &request, now));
    assert_eq!(
        refused.detail,
        "the escape fee-bump ladder has 4 rungs, more than the 3 a request may authorize"
    );
}

#[test]
fn a_clock_that_moved_on_hands_the_spend_on_unsigned() {
    let (mut node, request) = node_and_valid_request();
    let now = request.expiry - 100;
    let mut around = Surroundings::calm();
    let job = begin_spend(&mut node, &mut around, &request, now).expect("admitted");
    let answer = sign_reopen(&mut node, &request, job, request.expiry).err().expect("stopped");
    let refused = expect_refusal(answer.expect("decodable"));
    assert_eq!(refused.code, RefusalCode::CommitmentExpired);
    assert!(refused.detail.contains("post-preflight clock"));
    assert_eq!(node.outbox.len(), 1);
    assert!(!node.spend_preflight_in_flight());
}
