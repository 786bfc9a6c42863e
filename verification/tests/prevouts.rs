//! Holding declared coins against the chain.

use vault_node::prevouts::{
    compare_prevouts_against_chain, escape_refusal, fetch_prevouts,
    node_local_prevout_fetch_failure, run_prevout_check, Prevout, PrevoutFetch,
};
use vault_node::proto::{refusal, RefusalCode, SignResponse};
use vault_node::tx::{OutPoint, Psbt, PsbtInput, Transaction, TxIn, TxOut};

/// A chain that shows some coins, or fails, and notes what it was asked.
struct Backend {
    coins: Vec<(OutPoint, TxOut, bool)>,
    error: Option<String>,
    lookups: Vec<([u8; 32], u32)>,
}

impl Backend {
    fn empty() -> Backend {
        Backend { coins: Vec::new(), error: None, lookups: Vec::new() }
    }

    fn with(op: OutPoint, txout: TxOut, confirmed: bool) -> Backend {
        Backend { coins: vec![(op, txout, confirmed)], error: None, lookups: Vec::new() }
    }

    fn failing() -> Backend {
        Backend { error: Some("backend unavailable".into()), ..Backend::empty() }
    }

    fn answer(&mut self, psbt: &Psbt) -> Result<Vec<Option<Prevout>>, String> {
        let mut found = Vec::new();
        for input in &psbt.unsigned_tx.input {
            let op = input.previous_output;
            self.lookups.push((op.txid, op.vout));
            if let Some(e) = &self.error {
                return Err(e.clone());
            }
            found.push(
                self.coins
                    .iter()
                    .find(|(c, _, _)| c.txid == op.txid && c.vout == op.vout)
                    .map(|(_, txout, confirmed)| Prevout {
                        txout: txout.copy(),
                        confirmed: *confirmed,
                    }),
            );
        }
        Ok(found)
    }
}

fn outpoint(byte: u8) -> OutPoint {
    OutPoint::new([byte; 32], 0)
}

fn psbt_spending(op: OutPoint, witness_utxo: TxOut) -> Psbt {
    psbt_spending_many(vec![(op, witness_utxo)])
}

fn psbt_spending_many(coins: Vec<(OutPoint, TxOut)>) -> Psbt {
    Psbt {
        unsigned_tx: Transaction {
            version: 2,
            lock_time: 0,
            input: coins.iter().map(|(op, _)| TxIn::new(*op, 0xffff_ffff)).collect(),
            output: vec![TxOut::new(vec![0x51], 500)],
        },
        inputs: coins
            .into_iter()
            .map(|(_, utxo)| PsbtInput { witness_utxo: Some(utxo), partial_sigs: Vec::new() })
            .collect(),
    }
}

fn verify_prevouts_against_chain(psbt: &Psbt, backend: &mut Backend) -> Result<(), SignResponse> {
    let prevouts = fetch_prevouts(psbt, backend.answer(psbt))?;
    compare_prevouts_against_chain(psbt, &prevouts)
}

fn refusal_code(result: Result<(), SignResponse>) -> RefusalCode {
    match result {
        Err(SignResponse::Refusal(r)) => {
            assert_eq!(r.check, "prevout_ground_truth", "unexpected check: {r:?}");
            r.code
        }
        other => panic!("expected a fail-closed refusal, got {other:?}"),
    }
}

#[test]
fn a_confirmed_value_mismatch_is_refused_fail_closed() {
    let op = outpoint(1);
    let psbt = psbt_spending(op, TxOut::new(vec![0x51, 0x52], 50_000_000));
    let mut backend = Backend::with(op, TxOut::new(vec![0x51, 0x52], 100_000), true);
    assert_eq!(
        refusal_code(verify_prevouts_against_chain(&psbt, &mut backend)),
        RefusalCode::PsbtInconsistent
    );
}

#[test]
fn a_confirmed_script_mismatch_is_refused_fail_closed() {
    let op = outpoint(2);
    let psbt = psbt_spending(op, TxOut::new(vec![0x99], 100_000));
    let mut backend = Backend::with(op, TxOut::new(vec![0x51], 100_000), true);
    assert_eq!(
        refusal_code(verify_prevouts_against_chain(&psbt, &mut backend)),
        RefusalCode::PsbtInconsistent
    );
}

#[test]
fn a_confirmed_truthful_prevout_passes() {
    let op = outpoint(3);
    let psbt = psbt_spending(op, TxOut::new(vec![0x51], 100_000));
    let mut backend = Backend::with(op, TxOut::new(vec![0x51], 100_000), true);
    verify_prevouts_against_chain(&psbt, &mut backend).expect("a truthful witness_utxo passes");
}

#[test]
fn an_unconfirmed_present_authorized_parent_with_matching_values_is_allowed() {
    let op = outpoint(4);
    let psbt = psbt_spending(op, TxOut::new(vec![0x51], 100_000));
    let mut backend = Backend::with(op, TxOut::new(vec![0x51], 100_000), false);
    verify_prevouts_against_chain(&psbt, &mut backend)
        .expect("an unconfirmed authorized parent whose witness_utxo matches is allowed");
}

#[test]
fn an_unconfirmed_present_prevout_with_a_forged_witness_utxo_is_refused() {
    let op = outpoint(4);
    let psbt = psbt_spending(op, TxOut::new(vec![0x51], 90_000));
    let mut backend = Backend::with(op, TxOut::new(vec![0x51], 100_000), false);
    assert_eq!(
        refusal_code(verify_prevouts_against_chain(&psbt, &mut backend)),
        RefusalCode::PsbtInconsistent,
        "a forged witness_utxo on an unconfirmed-present prevout must be refused",
    );
}

#[test]
fn a_null_prevout_is_allowed_the_authorized_parent_not_yet_in_mempool() {
    let op = outpoint(5);
    let psbt = psbt_spending(op, TxOut::new(vec![0x51], 100_000));
    let mut backend = Backend::empty();
    verify_prevouts_against_chain(&psbt, &mut backend).expect("a null prevout is allowed");
}

#[test]
fn a_backend_failure_refuses_and_aborts_after_the_first_lookup() {
    let first = outpoint(6);
    let second = outpoint(7);
    let psbt = psbt_spending_many(vec![
        (first, TxOut::new(vec![0x51], 100_000)),
        (second, TxOut::new(vec![0x51], 100_000)),
    ]);
    let mut backend = Backend::failing();

    assert_eq!(
        refusal_code(verify_prevouts_against_chain(&psbt, &mut backend)),
        RefusalCode::PsbtInconsistent
    );
    assert_eq!(
        backend.lookups,
        vec![(first.txid, first.vout)],
        "the default backend batch aborts on its first error instead of multiplying timeouts"
    );
}

#[test]
fn a_large_valid_consolidation_is_not_rejected_by_an_arbitrary_input_cap() {
    let inputs = (0..=128)
        .map(|index| {
            (
                OutPoint::new([index as u8; 32], index as u32),
                TxOut::new(vec![0x51], 100_000),
            )
        })
        .collect();
    let psbt = psbt_spending_many(inputs);
    let mut backend = Backend::empty();

    let fetched = fetch_prevouts(&psbt, backend.answer(&psbt))
        .expect("the request-body bound, not an arbitrary input cap, governs the batch");
    compare_prevouts_against_chain(&psbt, &fetched)
        .expect("null prevouts are allowed, so the large consolidation passes");
    assert_eq!(backend.lookups.len(), 129, "every input reaches the backend preflight");
}

#[test]
fn a_prefetched_backend_error_is_re_raised_by_the_comparison_path() {
    let psbt = psbt_spending(outpoint(9), TxOut::new(vec![0x51], 100_000));
    let mut backend = Backend::failing();
    let prefetched = fetch_prevouts(&psbt, backend.answer(&psbt));
    assert!(prefetched.is_err(), "the hoisted fetch must fail closed");
    assert_eq!(
        refusal_code(run_prevout_check(&psbt, &Some(prefetched))),
        RefusalCode::PsbtInconsistent
    );
}

#[test]
fn a_look_that_was_not_taken_is_refused() {
    let psbt = psbt_spending(outpoint(9), TxOut::new(vec![0x51], 100_000));
    assert_eq!(refusal_code(run_prevout_check(&psbt, &None)), RefusalCode::PsbtInconsistent);
}

#[test]
fn a_miscounting_backend_is_refused() {
    let psbt = psbt_spending(outpoint(9), TxOut::new(vec![0x51], 100_000));
    match fetch_prevouts(&psbt, Ok(Vec::new())) {
        Err(SignResponse::Refusal(r)) => assert_eq!(
            r.detail,
            "chain backend returned 0 prevout results for 1 PSBT inputs"
        ),
        other => panic!("{other:?}"),
    }
}

#[test]
fn a_disagreement_names_the_coin_the_way_the_chain_does() {
    let mut txid = [0u8; 32];
    txid[31] = 0xab;
    let op = OutPoint::new(txid, 3);
    let psbt = psbt_spending(op, TxOut::new(vec![0x51], 2));
    let found = vec![Some(Prevout { txout: TxOut::new(vec![0x51], 1), confirmed: true })];
    match compare_prevouts_against_chain(&psbt, &found) {
        Err(SignResponse::Refusal(r)) => assert!(r.detail.contains(
            "prevout ab00000000000000000000000000000000000000000000000000000000000000:3 that"
        )),
        other => panic!("{other:?}"),
    }
}

#[test]
fn an_escape_failure_is_attributed_to_the_escape() {
    let failed = || -> PrevoutFetch {
        Err(refusal(RefusalCode::PsbtInconsistent, "prevout_ground_truth", "down".to_string()))
    };
    match node_local_prevout_fetch_failure(&None, &Some(failed())) {
        Some(SignResponse::Refusal(r)) => assert_eq!(r.check, "escape:prevout_ground_truth"),
        other => panic!("{other:?}"),
    }
    match node_local_prevout_fetch_failure(&Some(failed()), &Some(failed())) {
        Some(SignResponse::Refusal(r)) => assert_eq!(r.check, "prevout_ground_truth"),
        other => panic!("{other:?}"),
    }
    assert!(node_local_prevout_fetch_failure(&Some(Ok(Vec::new())), &None).is_none());
    let plain = refusal(RefusalCode::BadPin, "pin", "no".to_string());
    match escape_refusal(&plain) {
        SignResponse::Refusal(r) => assert_eq!(r.check, "escape:pin"),
        other => panic!("{other:?}"),
    }
}
