//! Holding the coins a transaction declares against the chain.

use vstd::prelude::*;

use crate::proto::{refusal, refused, Refusal, RefusalCode, SignResponse, SignResponseView};
use crate::text::{decimal, owned, push_decimal, push_txid, same_bytes, txid_text};
use crate::tx::{OutPoint, Psbt, PsbtView, TxOut, TxOutView};

verus! {

/// A coin as the chain has it.
#[derive(Debug)]
pub struct Prevout {
    pub txout: TxOut,
    pub confirmed: bool,
}

/// The contents of a [`Prevout`].
pub struct PrevoutView {
    pub txout: TxOutView,
    pub confirmed: bool,
}

impl View for Prevout {
    type V = PrevoutView;

    open spec fn view(&self) -> PrevoutView {
        PrevoutView { txout: self.txout@, confirmed: self.confirmed }
    }
}

/// The chain's answer for one input: its coin, or nothing where the chain shows
/// none.
pub open spec fn prevout_view(prevout: Option<Prevout>) -> Option<PrevoutView> {
    match prevout {
        Some(p) => Some(p@),
        None => None,
    }
}

/// The chain's answers, one per input.
pub open spec fn prevout_views(prevouts: Seq<Option<Prevout>>) -> Seq<Option<PrevoutView>> {
    prevouts.map_values(|p: Option<Prevout>| prevout_view(p))
}

/// A look at the chain for the coins of one transaction: an answer per input, or
/// the refusal that a failed look turns into.
pub type PrevoutFetch = Result<Vec<Option<Prevout>>, SignResponse>;

/// The contents of a [`PrevoutFetch`].
pub type PrevoutFetchView = Result<Seq<Option<PrevoutView>>, SignResponseView>;

/// The contents of `fetch`.
pub open spec fn fetch_view(fetch: PrevoutFetch) -> PrevoutFetchView {
    match fetch {
        Ok(prevouts) => Ok(prevout_views(prevouts@)),
        Err(r) => Err(r@),
    }
}

/// The contents of a look that may not have been taken.
pub open spec fn fetch_opt_view(fetch: Option<PrevoutFetch>) -> Option<PrevoutFetchView> {
    match fetch {
        Some(f) => Some(fetch_view(f)),
        None => None,
    }
}

/// An outpoint as it is shown.
pub open spec fn outpoint_text(outpoint: OutPoint) -> Seq<char> {
    txid_text(outpoint.txid@) + ":"@ + decimal(outpoint.vout as nat)
}

/// A refusal by the ground-truth check.
pub open spec fn ground_truth(detail: Seq<char>) -> SignResponseView {
    refused(RefusalCode::PsbtInconsistent, "prevout_ground_truth"@, detail)
}

/// What a look at the chain is worth: an answer of the backend, one entry per
/// input, or a refusal where the backend failed or miscounted.
pub open spec fn fetch_outcome(
    inputs: nat,
    answer: Result<Seq<Option<PrevoutView>>, Seq<char>>,
) -> PrevoutFetchView {
    match answer {
        Err(e) => Err(
            ground_truth(
                "cannot verify PSBT prevouts against this node's chain view; refusing fail-closed before policy evaluation: "@
                    + e,
            ),
        ),
        Ok(prevouts) => if prevouts.len() == inputs {
            Ok(prevouts)
        } else {
            Err(
                ground_truth(
                    "chain backend returned "@ + decimal(prevouts.len()) + " prevout results for "@
                        + decimal(inputs) + " PSBT inputs"@,
                ),
            )
        },
    }
}

/// Whether input `index` declares a coin other than the one the chain shows. What
/// the chain does not show, or the input does not declare, is not held against it.
pub open spec fn disagrees(
    psbt: PsbtView,
    prevouts: Seq<Option<PrevoutView>>,
    index: int,
) -> bool {
    &&& prevouts[index] is Some
    &&& index < psbt.inputs.len()
    &&& psbt.inputs[index].witness_utxo is Some
    &&& psbt.inputs[index].witness_utxo->0 != prevouts[index]->0.txout
}

/// The refusal of the input `index`, whose declared coin is not the chain's.
pub open spec fn disagreement(psbt: PsbtView, index: int) -> SignResponseView {
    ground_truth(
        "input "@ + decimal(index as nat)
            + " witness_utxo disagrees with the on-chain/mempool prevout "@ + outpoint_text(
            psbt.unsigned_tx.input[index].previous_output,
        )
            + " that gettxout returned: declared scriptPubKey/value do not match the chain's ground truth (an attacker-supplied prevout the fee/ownership checks would trust)"@,
    )
}

/// The refusal of the first input from `index` on whose declared coin is not the
/// chain's.
pub open spec fn disagreement_from(
    psbt: PsbtView,
    prevouts: Seq<Option<PrevoutView>>,
    index: int,
) -> Option<SignResponseView>
    decreases prevouts.len() - index,
{
    if index >= prevouts.len() {
        None
    } else if disagrees(psbt, prevouts, index) {
        Some(disagreement(psbt, index))
    } else {
        disagreement_from(psbt, prevouts, index + 1)
    }
}

/// The verdict of the comparison: nothing where every input agrees.
pub open spec fn comparison(
    psbt: PsbtView,
    prevouts: Seq<Option<PrevoutView>>,
) -> Option<SignResponseView> {
    if prevouts.len() != psbt.unsigned_tx.input.len() {
        Some(
            ground_truth(
                "pre-fetched "@ + decimal(prevouts.len()) + " prevouts for "@ + decimal(
                    psbt.unsigned_tx.input.len(),
                ) + " PSBT inputs"@,
            ),
        )
    } else {
        disagreement_from(psbt, prevouts, 0)
    }
}

/// The refusal of a check that no look was taken for.
pub open spec fn not_prefetched() -> SignResponseView {
    ground_truth(
        "internal: prevout preflight was not pre-fetched out of the sign lock; refusing rather than running chain I/O under the lock"@,
    )
}

/// The verdict of the ground-truth check on a node that has a view of the chain: a
/// failed look is refused as it was, and one never taken is refused rather than passed
/// over.
pub open spec fn ground_truth_check(
    psbt: PsbtView,
    fetched: Option<PrevoutFetchView>,
) -> Option<SignResponseView> {
    match fetched {
        Some(Ok(prevouts)) => comparison(psbt, prevouts),
        Some(Err(r)) => Some(r),
        None => Some(not_prefetched()),
    }
}

/// The contents of a verdict that is a refusal or nothing.
pub open spec fn refusal_view(out: Result<(), SignResponse>) -> Option<SignResponseView> {
    match out {
        Ok(()) => None,
        Err(r) => Some(r@),
    }
}

/// A refusal, put to the account of the request's escape.
pub open spec fn of_escape(r: SignResponseView) -> SignResponseView {
    match r {
        SignResponseView::Refusal(r) => refused(r.code, "escape:"@ + r.check, r.detail),
        SignResponseView::Accepted(_) => r,
    }
}

/// The refusal that a failed look makes: the spend's as it is, the escape's under
/// the escape's name. A look not taken has not failed.
pub open spec fn fetch_failure(
    spend: Option<PrevoutFetchView>,
    escape: Option<PrevoutFetchView>,
) -> Option<SignResponseView> {
    match (spend, escape) {
        (Some(Err(r)), _) => Some(r),
        (_, Some(Err(r))) => Some(of_escape(r)),
        _ => None,
    }
}

/// Appends an outpoint as it is shown.
pub fn push_outpoint(s: &mut String, outpoint: &OutPoint)
    ensures
        final(s)@ == old(s)@ + outpoint_text(*outpoint),
{
    let ghost before = s@;
    push_txid(s, outpoint.txid.as_slice());
    s.append(":");
    push_decimal(s, outpoint.vout as u64);
    assert(s@ =~= before + outpoint_text(*outpoint));
}

fn ground_truth_refusal(detail: String) -> (response: SignResponse)
    ensures
        response@ == ground_truth(detail@),
{
    refusal(RefusalCode::PsbtInconsistent, "prevout_ground_truth", detail)
}

/// Turns the backend's answer for the coins of `psbt` into a look at the chain.
pub fn fetch_prevouts(psbt: &Psbt, answer: Result<Vec<Option<Prevout>>, String>) -> (fetch:
    PrevoutFetch)
    ensures
        fetch_view(fetch) == fetch_outcome(
            psbt@.unsigned_tx.input.len(),
            match answer {
                Ok(prevouts) => Ok(prevout_views(prevouts@)),
                Err(e) => Err(e@),
            },
        ),
{
    match answer {
        Err(e) => {
            let mut detail = owned(
                "cannot verify PSBT prevouts against this node's chain view; refusing fail-closed before policy evaluation: ",
            );
            detail.append(e.as_str());
            Err(ground_truth_refusal(detail))
        },
        Ok(prevouts) => {
            if prevouts.len() != psbt.unsigned_tx.input.len() {
                let mut detail = owned("chain backend returned ");
                push_decimal(&mut detail, prevouts.len() as u64);
                detail.append(" prevout results for ");
                push_decimal(&mut detail, psbt.unsigned_tx.input.len() as u64);
                detail.append(" PSBT inputs");
                return Err(ground_truth_refusal(detail));
            }
            Ok(prevouts)
        },
    }
}

/// Holds the coins that `psbt` declares against what the chain showed.
pub fn compare_prevouts_against_chain(psbt: &Psbt, prevouts: &Vec<Option<Prevout>>) -> (out: Result<
    (),
    SignResponse,
>)
    ensures
        refusal_view(out) == comparison(psbt@, prevout_views(prevouts@)),
{
    let ghost view = psbt@;
    let ghost seen = prevout_views(prevouts@);
    let inputs = &psbt.unsigned_tx.input;
    if prevouts.len() != inputs.len() {
        let mut detail = owned("pre-fetched ");
        push_decimal(&mut detail, prevouts.len() as u64);
        detail.append(" prevouts for ");
        push_decimal(&mut detail, inputs.len() as u64);
        detail.append(" PSBT inputs");
        return Err(ground_truth_refusal(detail));
    }
    let mut i: usize = 0;
    while i < prevouts.len()
        invariant
            i <= prevouts.len(),
            prevouts.len() == inputs.len(),
            inputs@ == psbt@.unsigned_tx.input,
            view == psbt@,
            seen == prevout_views(prevouts@),
            disagreement_from(view, seen, 0) == disagreement_from(view, seen, i as int),
        decreases prevouts.len() - i,
    {
        assert(seen[i as int] == prevout_view(prevouts@[i as int]));
        if let Some(prevout) = &prevouts[i] {
            if i < psbt.inputs.len() {
                assert(view.inputs[i as int] == psbt.inputs@[i as int]@);
                if let Some(utxo) = &psbt.inputs[i].witness_utxo {
                    let same_script = same_bytes(
                        &utxo.script_pubkey,
                        &prevout.txout.script_pubkey,
                    );
                    if !same_script || utxo.value != prevout.txout.value {
                        assert(disagrees(view, seen, i as int));
                        let mut detail = owned("input ");
                        push_decimal(&mut detail, i as u64);
                        detail.append(" witness_utxo disagrees with the on-chain/mempool prevout ");
                        push_outpoint(&mut detail, &inputs[i].previous_output);
                        detail.append(
                            " that gettxout returned: declared scriptPubKey/value do not match the chain's ground truth (an attacker-supplied prevout the fee/ownership checks would trust)",
                        );
                        return Err(ground_truth_refusal(detail));
                    }
                }
            }
        }
        i += 1;
    }
    Ok(())
}

/// The ground-truth check on a node that has a view of the chain.
pub fn run_prevout_check(psbt: &Psbt, prefetched: &Option<PrevoutFetch>) -> (out: Result<
    (),
    SignResponse,
>)
    ensures
        refusal_view(out) == ground_truth_check(psbt@, fetch_opt_view(*prefetched)),
{
    match prefetched {
        Some(Ok(prevouts)) => compare_prevouts_against_chain(psbt, prevouts),
        Some(Err(r)) => Err(r.copy()),
        None => Err(
            ground_truth_refusal(
                owned(
                    "internal: prevout preflight was not pre-fetched out of the sign lock; refusing rather than running chain I/O under the lock",
                ),
            ),
        ),
    }
}

/// Puts a refusal to the account of the request's escape.
pub fn escape_refusal(response: &SignResponse) -> (attributed: SignResponse)
    ensures
        attributed@ == of_escape(response@),
{
    match response {
        SignResponse::Refusal(r) => {
            let mut check = owned("escape:");
            check.append(r.check.as_str());
            SignResponse::Refusal(Refusal { code: r.code, check, detail: r.detail.clone() })
        },
        SignResponse::Accepted(_) => response.copy(),
    }
}

/// The refusal that a failed look at the chain makes, for the spend or for its
/// escape.
pub fn node_local_prevout_fetch_failure(
    spend_prevouts: &Option<PrevoutFetch>,
    escape_prevouts: &Option<PrevoutFetch>,
) -> (out: Option<SignResponse>)
    ensures
        match out {
            Some(r) => fetch_failure(
                fetch_opt_view(*spend_prevouts),
                fetch_opt_view(*escape_prevouts),
            ) == Some(r@),
            None => fetch_failure(
                fetch_opt_view(*spend_prevouts),
                fetch_opt_view(*escape_prevouts),
            ) is None,
        },
{
    if let Some(Err(r)) = spend_prevouts {
        return Some(r.copy());
    }
    if let Some(Err(r)) = escape_prevouts {
        return Some(escape_refusal(r));
    }
    None
}

} // verus!
