//! The fee ladder of an escape, and the pass that fires it.

use bitcoin::consensus::encode::serialize;
use bitcoin::hashes::Hash as HashBytes;
use vault_node::fire::{
    armed_escape_network_state, escape_sweep_pre_release_admissible, fire_due, latch_sweep,
    may_release, mempool_escape_rung, plan_sweep, transaction_is_settled, ArmedEscapeState,
    PreflightFacts, SweepPlan,
};
use vault_node::ladder::{
    ensure_escape_ladder, escape_replacement_min_fee_delta, expected_escape_sequence,
    maximum_finalized_vsize_for, psbt_fee, ESCAPE_FINAL_SEQUENCE, ESCAPE_RBF_SEQUENCE,
    MAX_ESCAPE_BUMPS,
};
use vault_node::node::{ChannelLimits, HotBudget, Node, NodeKeys, NodeParams};
use vault_node::order::{in_order, standing, Standing};
use vault_node::prevouts::Prevout;
use vault_node::proto::SignResponse;
use vault_node::replay::SignState;
use vault_node::sweep::{
    escape_bump_anchor, escape_bump_target_feerate, select_escape_rung, sweep_env,
    sweep_rung_admissible, CoverageContext, ScoredLadder, SweepEnv, SweepFacts,
};
use vault_node::tx::{OutPoint, Psbt, PsbtInput, Transaction, TxIn, TxOut};

const WITNESS: u64 = 300;

fn params() -> NodeParams {
    NodeParams {
        policy_version: 1,
        max_commitment_age_secs: 172_800,
        hold_secs: 0,
        combine_slack_secs: 60,
        hot_budget: HotBudget {
            max_per_tx_sat: 1,
            max_per_window_sat: 1,
            window_secs: 172_800,
        },
        threshold: 2,
        max_vault_satisfaction_weight: WITNESS,
        refresh_min_interval_secs: 1,
        refresh_max_feerate: 100,
        duress_delay_secs: 0,
        epsilon_secs: 60,
        delivery_horizon_secs: 60,
        escape_coverage_pct: 95,
        escape_feerate_floor: 1,
        max_pin_bytes: 64,
    }
}

fn coin() -> OutPoint {
    OutPoint::new([7; 32], 0)
}

fn escape_paying(value: u64, sequence: u32) -> Transaction {
    Transaction {
        version: 2,
        lock_time: 0,
        input: vec![TxIn::new(coin(), sequence)],
        output: vec![TxOut::new(vec![0x51; 22], value)],
    }
}

fn psbt_paying(value: u64, sequence: u32) -> Psbt {
    Psbt {
        unsigned_tx: escape_paying(value, sequence),
        inputs: vec![PsbtInput {
            witness_utxo: Some(TxOut::new(vec![0x52; 34], 100_000_000)),
            partial_sigs: Vec::new(),
        }],
    }
}

fn ladder_fault(escape: &Psbt, bumps: &Vec<Psbt>, self_paired: bool) -> Option<String> {
    match ensure_escape_ladder(WITNESS, escape, bumps, self_paired) {
        Ok(()) => None,
        Err(SignResponse::Refusal(r)) => {
            assert_eq!(r.check, "escape:bump_ladder");
            Some(r.detail)
        }
        Err(other) => panic!("{other:?}"),
    }
}

/// One input and one output of 22 script bytes: 82 bytes without a witness.
#[test]
fn a_finished_size_is_bounded() {
    let tx = escape_paying(1, ESCAPE_FINAL_SEQUENCE);
    // 4 * 82 + 2 for the marker and flag + (300 + 1) for the witness, over 4.
    assert_eq!(maximum_finalized_vsize_for(WITNESS, &tx), Ok(158));
    assert_eq!(escape_replacement_min_fee_delta(WITNESS, &tx), Ok(158));
    assert!(maximum_finalized_vsize_for(u64::MAX, &tx).is_err());
    assert_eq!(psbt_fee(&psbt_paying(99_990_000, 0)), Some(10_000));
    let mut bare = psbt_paying(1, 0);
    bare.inputs[0].witness_utxo = None;
    assert_eq!(psbt_fee(&bare), None);
}

#[test]
fn a_ladder_ascends_by_what_its_relay_costs() {
    let escape = psbt_paying(99_990_000, ESCAPE_RBF_SEQUENCE);
    assert_eq!(ladder_fault(&escape, &Vec::new(), true), None);
    let enough = vec![
        psbt_paying(99_990_000 - 158, ESCAPE_RBF_SEQUENCE),
        psbt_paying(99_990_000 - 316, ESCAPE_RBF_SEQUENCE),
    ];
    assert!(enough.len() <= MAX_ESCAPE_BUMPS);
    assert_eq!(ladder_fault(&escape, &enough, false), None);
    let short = vec![psbt_paying(99_990_000 - 157, ESCAPE_RBF_SEQUENCE)];
    assert_eq!(
        ladder_fault(&escape, &short, false),
        Some(
            "escape ladder rung 1 raises the fee by only 157 sat, below the 158 sat needed to \
             relay its at-most-158-vB replacement at 1 sat/vB"
                .to_string()
        )
    );
}

#[test]
fn a_bump_changes_nothing_but_amounts() {
    let escape = psbt_paying(99_990_000, ESCAPE_RBF_SEQUENCE);
    let good = || psbt_paying(99_980_000, ESCAPE_RBF_SEQUENCE);
    let fault = |bump: Psbt| ladder_fault(&escape, &vec![bump], false).expect("a fault");

    let mut bump = good();
    bump.unsigned_tx.version = 1;
    assert!(fault(bump).contains("has transaction version 1, but every rung must keep"));
    let mut bump = good();
    bump.unsigned_tx.lock_time = 9;
    assert!(fault(bump).contains("has nLockTime 9"));
    let mut bump = good();
    bump.unsigned_tx.input[0].sequence = ESCAPE_FINAL_SEQUENCE;
    assert!(fault(bump).contains("0xffffffff"));
    let mut bump = good();
    bump.unsigned_tx.input[0].previous_output = OutPoint::new([8; 32], 0);
    assert!(fault(bump).contains("spends a different input set"));
    let mut bump = good();
    bump.unsigned_tx.output[0].script_pubkey = vec![0x53];
    assert!(fault(bump).contains("pays a different set of output scripts"));
    let mut bump = good();
    bump.unsigned_tx.output[0].value = 99_990_001;
    assert!(fault(bump).contains("raises an output value above the rung below it"));
    let mut bump = good();
    bump.inputs[0].witness_utxo = None;
    assert!(fault(bump).contains("has an input without a witness_utxo"));
    let same = ladder_fault(&escape, &vec![good()], true).expect("self-paired");
    assert!(same.starts_with("a self-paired request"));
}

#[test]
fn an_escape_signals_replaceability_exactly_with_bumps() {
    assert_eq!(expected_escape_sequence(true), 0xffff_fffd);
    assert_eq!(expected_escape_sequence(false), 0xffff_ffff);
}

#[test]
fn one_quantum_of_blocks_has_one_anchor() {
    assert_eq!(escape_bump_anchor(600), 600);
    assert_eq!(escape_bump_anchor(605), 600);
    assert_eq!(escape_bump_anchor(606), 606);
    assert_eq!(escape_bump_anchor(3), 0);
    assert_eq!(escape_bump_target_feerate(Ok(605), Ok(Some(29))), Ok(Some(25)));
    assert_eq!(escape_bump_target_feerate(Ok(605), Ok(Some(4))), Ok(Some(0)));
    assert_eq!(escape_bump_target_feerate(Ok(605), Ok(None)), Ok(None));
    assert!(escape_bump_target_feerate(Err("x".to_string()), Ok(None)).is_err());
    assert!(escape_bump_target_feerate(Ok(1), Err("x".to_string())).is_err());
}

fn three_rungs() -> Vec<Transaction> {
    // Fees of 158, 1_580 and 15_800 satoshi over 158 virtual bytes.
    [158u64, 1_580, 15_800]
        .iter()
        .map(|fee| escape_paying(100_000_000 - fee, ESCAPE_RBF_SEQUENCE))
        .collect()
}

fn select(
    admissible: &Vec<Result<(), String>>,
    target: Option<u64>,
    latch: usize,
) -> Result<(usize, u64, u64), String> {
    let rungs = three_rungs();
    let sizes = vec![158u64; 3];
    let ladder = ScoredLadder {
        rungs: &rungs,
        maximum_vsizes: &sizes,
        admissible,
        total_in: 100_000_000,
    };
    select_escape_rung(1, &ladder, Ok(target), latch)
}

#[test]
fn the_cheapest_rung_that_pays_is_selected() {
    let all: Vec<Result<(), String>> = vec![Ok(()), Ok(()), Ok(())];
    assert_eq!(select(&all, None, 0), Ok((0, 0, 1)));
    assert_eq!(select(&all, Some(5), 0), Ok((1, 5, 5)));
    assert_eq!(select(&all, Some(100), 0), Ok((2, 100, 100)));
    // Nothing pays that much: the top is the best there is.
    assert_eq!(select(&all, Some(1_000), 0), Ok((2, 1_000, 1_000)));
    // Never below the latch.
    assert_eq!(select(&all, None, 1), Ok((1, 0, 1)));
    // A rung that may not fire is passed over, and below the top one stays.
    let thin: Vec<Result<(), String>> = vec![Ok(()), Err("thin".into()), Ok(())];
    assert_eq!(select(&thin, Some(5), 0), Ok((2, 5, 5)));
    let capped: Vec<Result<(), String>> = vec![Ok(()), Ok(()), Err("thin".into())];
    assert_eq!(select(&capped, Some(100), 0), Ok((1, 100, 100)));
    let none: Vec<Result<(), String>> =
        vec![Err("low".into()), Err("thin".into()), Err("thin".into())];
    assert_eq!(select(&none, None, 0), Err("low".to_string()));
    let stuck = select(&capped, None, 2).expect_err("latched and no longer admissible");
    assert!(stuck.starts_with("escape ladder rung 2 is already latched"), "{stuck}");
}

#[test]
fn a_rung_is_judged_by_fee_and_coverage() {
    let env = SweepEnv {
        total_in: 100_000_000,
        protected_value: 100_000_000,
        paired_delivered: 0,
        laddered: false,
    };
    let to_escape = Some(vec![true]);
    let judge = |value: u64, marks: &Option<Vec<bool>>| {
        let tx = escape_paying(value, ESCAPE_FINAL_SEQUENCE);
        sweep_rung_admissible(&params(), &env, &tx, 158, marks)
    };
    assert_eq!(judge(99_000_000, &to_escape), Ok(()));
    assert_eq!(judge(95_000_000, &to_escape), Ok(()));
    let thin = judge(94_999_999, &to_escape).expect_err("under the coverage");
    assert_eq!(
        thin,
        "escape coverage below 95%: 94999999 sat to the escape wallet over 100000000 sat of \
         protected confirmed + authorized-unconfirmed vault value"
    );
    let cheap = judge(99_999_843, &to_escape).expect_err("under the floor");
    assert_eq!(
        cheap,
        "escape feerate below the panic floor: 157 sat over 158 vB is under 1 sat/vB (158 sat)"
    );
    assert_eq!(judge(99_000_000, &None), Err("no escape descriptor configured".to_string()));
    assert!(judge(99_000_000, &Some(vec![false])).is_err());
    let replaceable = escape_paying(99_000_000, ESCAPE_RBF_SEQUENCE);
    let wrong = sweep_rung_admissible(&params(), &env, &replaceable, 158, &to_escape)
        .expect_err("a replaceable escape without a ladder");
    assert!(wrong.starts_with("escape input 0 nSequence 0xfffffffd is not 0xffffffff"), "{wrong}");
    let tx = escape_paying(99_000_000, ESCAPE_FINAL_SEQUENCE);
    assert_eq!(
        sweep_rung_admissible(&params(), &env, &tx, 0, &to_escape),
        Err("escape has zero vsize".to_string())
    );
}

#[test]
fn a_rung_of_a_ladder_with_a_lock_time_does_not_fire() {
    let env = SweepEnv {
        total_in: 100_000_000,
        protected_value: 100_000_000,
        paired_delivered: 0,
        laddered: true,
    };
    let to_escape = Some(vec![true]);
    let mut tx = escape_paying(99_000_000, ESCAPE_RBF_SEQUENCE);
    assert_eq!(sweep_rung_admissible(&params(), &env, &tx, 158, &to_escape), Ok(()));
    tx.lock_time = 900_000;
    let early = sweep_rung_admissible(&params(), &env, &tx, 158, &to_escape)
        .expect_err("not final");
    assert!(early.starts_with("escape nLockTime 900000 is not 0"), "{early}");
    // Without a ladder the sequence numbers alone make it final.
    let single = SweepEnv { laddered: false, ..env };
    let mut tx = escape_paying(99_000_000, ESCAPE_FINAL_SEQUENCE);
    tx.lock_time = 900_000;
    assert_eq!(sweep_rung_admissible(&params(), &single, &tx, 158, &to_escape), Ok(()));
}

fn node() -> Node {
    Node {
        listen_port: 0,
        params: params(),
        keys: NodeKeys {
            seckey: vec![2; 32],
            pubkey: Vec::new(),
            user_pubkey: Vec::new(),
            coordinator_auth: Vec::new(),
            witness_script: vec![0x51],
        },
        wallet_id: [0; 32],
        channel: Some(ChannelLimits { max_msg_bytes: 1_000 }),
        has_backend: true,
        lockdown: false,
        generation_claimed: false,
        last_deadline_tick: 0,
        duress_arm: 0,
        spend_preflight: 0,
        sign_state: SignState::new(),
        authorized: Vec::new(),
        outbox: Vec::new(),
        errands: Vec::new(),
    }
}

/// The script that holds the vault's coins.
fn vault_script() -> Vec<u8> {
    let script = node().vault_scripts().remove(0);
    assert_eq!(script, bitcoin::ScriptBuf::from_bytes(vec![0x51]).to_p2wsh().to_bytes());
    script
}

fn shown(value: u64) -> Prevout {
    Prevout { txout: TxOut::new(vault_script(), value), confirmed: true }
}

fn facts() -> SweepFacts {
    SweepFacts {
        candidate: Some(CoverageContext {
            tx: escape_paying(99_000_000, ESCAPE_FINAL_SEQUENCE),
            inputs: vec![(coin(), 100_000_000)],
            hot: false,
        }),
        prevouts: Ok(vec![Some(shown(100_000_000))]),
        resident: None,
        escape_configured: true,
        vault_unspent: Ok(vec![(coin(), shown(100_000_000))]),
        pairing: Some(Some(CoverageContext {
            tx: escape_paying(1, ESCAPE_FINAL_SEQUENCE),
            inputs: Vec::new(),
            hot: true,
        })),
        paired_confirmed: Ok(false),
        paired_pays_escape: Vec::new(),
        laddered: false,
    }
}

fn complaint(facts: SweepFacts) -> String {
    sweep_env(&node(), &facts).expect_err("the sweep cannot be judged")
}

#[test]
fn a_sweep_is_measured_against_the_vault() {
    let env = sweep_env(&node(), &facts()).expect("judged");
    assert_eq!(
        (env.total_in, env.protected_value, env.paired_delivered, env.laddered),
        (100_000_000, 100_000_000, 0, false)
    );
    // An escape-class pair that is confirmed counts on both sides.
    let other = OutPoint::new([8; 32], 1);
    let pair = CoverageContext {
        tx: Transaction {
            version: 2,
            lock_time: 0,
            input: vec![TxIn::new(other, ESCAPE_FINAL_SEQUENCE)],
            output: vec![TxOut::new(vec![0x51; 22], 30), TxOut::new(vault_script(), 50)],
        },
        inputs: vec![(other, 100)],
        hot: false,
    };
    let both = SweepFacts {
        pairing: Some(Some(pair)),
        paired_confirmed: Ok(true),
        paired_pays_escape: vec![true, false],
        ..facts()
    };
    let env = sweep_env(&node(), &both).expect("judged");
    assert_eq!((env.protected_value, env.paired_delivered), (100_000_050, 30));
    assert!(complaint(SweepFacts { paired_confirmed: Ok(false), ..both })
        .contains("is not confirmed"));
}

#[test]
fn a_resident_rung_hides_coins_and_leaves_change() {
    let rung = [9; 32];
    let hidden = SweepFacts {
        prevouts: Ok(vec![None]),
        resident: Some(rung),
        vault_unspent: Ok(vec![(OutPoint::new(rung, 0), shown(1_000))]),
        ..facts()
    };
    let env = sweep_env(&node(), &hidden).expect("judged");
    assert_eq!((env.total_in, env.protected_value), (100_000_000, 100_000_000));
    assert!(complaint(SweepFacts { resident: None, ..hidden }).contains("is unknown to this node"));
}

#[test]
fn a_sweep_that_cannot_be_judged_does_not_fire() {
    assert_eq!(
        complaint(SweepFacts { candidate: None, ..facts() }),
        "armed escape candidate context is unavailable"
    );
    assert!(complaint(SweepFacts { prevouts: Err("down".into()), ..facts() }).contains("down"));
    assert_eq!(
        complaint(SweepFacts { prevouts: Ok(Vec::new()), ..facts() }),
        "chain backend returned 0 escape prevouts for 1 inputs"
    );
    assert_eq!(
        complaint(SweepFacts { escape_configured: false, ..facts() }),
        "no escape descriptor configured"
    );
    assert!(complaint(SweepFacts { vault_unspent: Err("down".into()), ..facts() })
        .starts_with("cannot enumerate"));
    assert!(complaint(SweepFacts { vault_unspent: Ok(Vec::new()), ..facts() }).ends_with("is empty"));
    assert!(complaint(SweepFacts { pairing: None, ..facts() }).contains("no registered paired spend"));
    assert!(complaint(SweepFacts { pairing: Some(None), ..facts() }).contains("unavailable"));
    let sharing = CoverageContext {
        tx: escape_paying(1, ESCAPE_FINAL_SEQUENCE),
        inputs: vec![(coin(), 1)],
        hot: false,
    };
    assert!(complaint(SweepFacts { pairing: Some(Some(sharing)), ..facts() })
        .contains("not disjoint"));
}

#[test]
fn a_plan_releases_a_prefix_of_the_ladder() {
    let env = SweepEnv {
        total_in: 100_000_000,
        protected_value: 100_000_000,
        paired_delivered: 0,
        laddered: true,
    };
    let rungs = three_rungs();
    let marks = vec![Some(vec![true]); 3];
    assert_eq!(
        plan_sweep(&params(), &env, &rungs, &marks, Ok(Some(10)), 0),
        Ok(SweepPlan { selected: 1, target: 10, required: 10, lowest_admissible: 0 })
    );
    assert_eq!(
        plan_sweep(&params(), &env, &Vec::new(), &Vec::new(), Ok(None), 0),
        Err("armed escape candidate context is unavailable".to_string())
    );
}

fn txid(tx: &Transaction) -> [u8; 32] {
    outside(tx).compute_txid().to_byte_array()
}

fn outside(tx: &Transaction) -> bitcoin::Transaction {
    bitcoin::Transaction {
        version: bitcoin::transaction::Version(tx.version),
        lock_time: bitcoin::absolute::LockTime::from_consensus(tx.lock_time),
        input: tx
            .input
            .iter()
            .map(|i| bitcoin::TxIn {
                previous_output: bitcoin::OutPoint::new(
                    bitcoin::Txid::from_byte_array(i.previous_output.txid),
                    i.previous_output.vout,
                ),
                sequence: bitcoin::Sequence(i.sequence),
                ..bitcoin::TxIn::default()
            })
            .collect(),
        output: tx
            .output
            .iter()
            .map(|o| bitcoin::TxOut {
                value: bitcoin::Amount::from_sat(o.value),
                script_pubkey: o.script_pubkey.clone().into(),
            })
            .collect(),
    }
}

#[test]
fn the_mempool_is_believed_only_about_the_ladder() {
    let rungs = three_rungs();
    let second = txid(&rungs[1]);
    let raw = serialize(&outside(&rungs[1]));
    let other = serialize(&outside(&rungs[0]));
    let some = Some(rungs);
    assert_eq!(
        mempool_escape_rung(&some, &Ok(Some((second, raw.clone())))),
        Ok(Some(second))
    );
    assert_eq!(mempool_escape_rung(&some, &Ok(None)), Ok(None));
    assert_eq!(mempool_escape_rung(&None, &Err("down".into())), Ok(None));
    assert_eq!(mempool_escape_rung(&some, &Err("down".into())), Err("down".to_string()));
    let stranger = mempool_escape_rung(&some, &Ok(Some(([1; 32], raw.clone()))));
    assert!(stranger.expect_err("a stranger").contains("which is not a rung"));
    let swapped = mempool_escape_rung(&some, &Ok(Some((second, other))));
    assert!(swapped.expect_err("another rung").contains(" returned transaction "));
    let cut = mempool_escape_rung(&some, &Ok(Some((second, raw[..5].to_vec()))));
    assert!(cut.expect_err("cut short").contains(" is malformed: "));
    // A witness is no part of the id, the script of an input is.
    let rungs = three_rungs();
    let mut witnessed = outside(&rungs[1]);
    witnessed.input[0].witness.push([1u8; 8]);
    assert_eq!(
        mempool_escape_rung(&some, &Ok(Some((second, serialize(&witnessed))))),
        Ok(Some(second))
    );
    let mut scripted = outside(&rungs[1]);
    scripted.input[0].script_sig = vec![0x51].into();
    let foreign = mempool_escape_rung(&some, &Ok(Some((second, serialize(&scripted)))));
    let said = foreign.expect_err("another transaction");
    assert!(said.ends_with(&scripted.compute_txid().to_string()), "{said}");
}

#[test]
fn the_network_state_goes_by_confirmation_first() {
    let ids = vec![[1; 32], [2; 32], [3; 32]];
    let state = |confirmed: [bool; 3], latched: usize, resident: Option<[u8; 32]>| {
        let answers: Vec<Result<bool, String>> = confirmed.iter().map(|c| Ok(*c)).collect();
        armed_escape_network_state(&ids, &answers, latched, &resident)
    };
    assert_eq!(
        state([false, true, true], 2, Some([3; 32])),
        Ok(ArmedEscapeState::Confirmed([2; 32]))
    );
    assert_eq!(
        state([false; 3], 1, Some([2; 32])),
        Ok(ArmedEscapeState::InMempoolAtOrAboveLatch)
    );
    assert_eq!(state([false; 3], 2, Some([2; 32])), Ok(ArmedEscapeState::Absent));
    assert_eq!(state([false; 3], 0, Some([9; 32])), Ok(ArmedEscapeState::Absent));
    assert_eq!(state([false; 3], 0, None), Ok(ArmedEscapeState::Absent));
    let unread = vec![Ok(false), Err("down".to_string()), Ok(true)];
    assert_eq!(armed_escape_network_state(&ids, &unread, 0, &None), Err("down".to_string()));
}

#[test]
fn a_transaction_is_settled_in_the_mempool_or_the_chain() {
    assert_eq!(transaction_is_settled(Ok(true), Err("unread".into())), Ok(true));
    assert_eq!(transaction_is_settled(Ok(false), Ok(true)), Ok(true));
    assert_eq!(transaction_is_settled(Ok(false), Ok(false)), Ok(false));
    assert_eq!(transaction_is_settled(Err("down".into()), Ok(true)), Err("down".to_string()));
}

#[test]
fn a_pass_goes_through_each_candidate_once_and_in_order() {
    let text = |s: &str| s.to_string();
    assert_eq!(
        fire_due(
            vec![text("b"), text("d")],
            &vec![text("d"), text("a"), text("c")],
            &vec![true, true, false],
        ),
        vec![text("a"), text("b"), text("d")]
    );
    assert_eq!(in_order(&vec![text("z"), text("aa"), text("a"), text("z")]), ["a", "aa", "z"]);
    assert_eq!(standing(&text("a"), &text("aa")), Standing::Before);
    assert_eq!(standing(&text("b"), &text("aa")), Standing::After);
    assert_eq!(standing(&text("b"), &text("b")), Standing::Same);
    assert!(may_release(false, false) && may_release(true, true) && !may_release(true, false));
}

fn preflight() -> PreflightFacts {
    PreflightFacts {
        rungs: Some(three_rungs()),
        mempool: Ok(None),
        sweep: facts(),
        pays_escape: vec![Some(vec![true]); 3],
        reading: Ok(Some(100)),
        latch: 0,
    }
}

#[test]
fn an_armed_escape_is_judged_as_a_whole() {
    let tick = escape_sweep_pre_release_admissible(&node(), preflight()).expect("admissible");
    assert_eq!(tick.resident, None);
    assert!(tick.env.laddered);
    assert_eq!((tick.plan.selected, tick.plan.lowest_admissible), (2, 0));
    let gone = PreflightFacts { rungs: None, pays_escape: Vec::new(), ..preflight() };
    assert_eq!(
        escape_sweep_pre_release_admissible(&node(), gone).err(),
        Some("armed escape candidate context is unavailable".to_string())
    );
    let blind = PreflightFacts { mempool: Err("down".to_string()), ..preflight() };
    assert_eq!(
        escape_sweep_pre_release_admissible(&node(), blind).err(),
        Some("cannot inspect the escape ladder in the mempool: down".to_string())
    );
    let second = txid(&three_rungs()[1]);
    let resident = PreflightFacts {
        mempool: Ok(Some((second, serialize(&outside(&three_rungs()[1]))))),
        sweep: SweepFacts { prevouts: Ok(vec![None]), ..facts() },
        ..preflight()
    };
    let tick = escape_sweep_pre_release_admissible(&node(), resident).expect("admissible");
    assert_eq!(tick.resident, Some(second));
}

#[test]
fn a_latch_rises_or_the_escape_waits() {
    assert_eq!(latch_sweep(Ok(()), Some(2), 1), Ok(true));
    assert_eq!(latch_sweep(Ok(()), Some(1), 1), Ok(false));
    assert_eq!(
        latch_sweep(Err("orphan".to_string()), Some(2), 1),
        Err("escape package ancestry is inadmissible before release: orphan".to_string())
    );
    assert_eq!(
        latch_sweep(Ok(()), None, 1),
        Err("armed escape disappeared while latching its fee rung".to_string())
    );
}
