//! What an acceptance stands for, and what no request changes.

use vstd::prelude::*;

use crate::commitment::acceptance_key;
use crate::crypto::{ecdsa_verifies, p2wsh_sighash};
use crate::ingress::{
    armed_job, charged, committed, counted, decoded_pair, reopened, SignJobView, SpendPairView,
};
use crate::ladder::ladder_fault;
use crate::node::{NodeKeysView, NodeView};
use crate::pin::effective_verdict;
use crate::policy::{Classification, PolicyVerdictView, TxClass};
use crate::prevouts::{
    comparison, disagreement_from, disagrees, ground_truth_check, PrevoutFetchView, PrevoutView,
};
use crate::proto::{RefreshRequestView, SignRequestView};
use crate::refresh::{
    feerate_refusal, interval_refusal, lemma_refresh_frame, refresh_judged, refresh_key,
    refresh_looked_up, refresh_reopened, refresh_run, spend_comes_first, RefreshFacts,
};
use crate::registry::{registration_refusal, released, ErrandView, HotReserveRefusal};
use crate::replay::{pending_at, recorded, seconds_since, EntryView};
use crate::signatures::{input_refusal, sig_position, signatures_refusal, SIGHASH_ALL};
use crate::silence::accepts;
use crate::spend::{
    admitted_run, bumps_refusal, charged_run, classed_run, fetched_coins, fires_at, judged,
    kept_refusal, lemma_admitted_frame, looked_up, metered, opened_run, pair_candidates,
    pair_signing_failure, paired, pairing_refusal, policy_views, same_frame, too_short, unwound,
    PairingView, SignFacts,
};
use crate::tx::{saturating, OutPoint, PartialSigView, PsbtView, TxIn};
use crate::verdict::{chain_answer_view, escape_check, prefetched};

verus! {

/// Whether the user's key has signed input `index`, and all of the transaction with
/// it.
pub open spec fn input_signed(keys: NodeKeysView, psbt: PsbtView, index: int) -> bool {
    let input = psbt.inputs[index];
    input.witness_utxo matches Some(utxo) && (p2wsh_sighash(
        psbt.unsigned_tx,
        index as nat,
        keys.witness_script,
        utxo.value,
        SIGHASH_ALL,
    ) matches Ok(digest) && exists|k: int|
        0 <= k < input.partial_sigs.len() && (#[trigger] input.partial_sigs[k]).pubkey
            == keys.user_pubkey && input.partial_sigs[k].sighash_type == SIGHASH_ALL
            && ecdsa_verifies(digest, input.partial_sigs[k].signature, keys.user_pubkey))
}

/// Whether a transaction has passed the checks that none is signed without: the user
/// has signed every input, no coin is declared other than the chain shows it, and the
/// policy allows it.
pub open spec fn checked(
    node: NodeView,
    psbt: PsbtView,
    fetched: Option<PrevoutFetchView>,
    policy: PolicyVerdictView,
) -> bool {
    &&& forall|i: int| 0 <= i < psbt.inputs.len() ==> #[trigger] input_signed(node.keys, psbt, i)
    &&& node.has_backend ==> {
        &&& fetched matches Some(Ok(prevouts))
        &&& prevouts.len() == psbt.unsigned_tx.input.len()
        &&& forall|i: int| 0 <= i < prevouts.len() ==> !#[trigger] disagrees(psbt, prevouts, i)
    }
    &&& policy.evaluation is Ok
}

/// Whether the policy calls a transaction an escape.
pub open spec fn is_escape(policy: PolicyVerdictView) -> bool {
    policy.classification matches Ok(c) && c.class == TxClass::Escape
}

proof fn lemma_position_is_found(sigs: Seq<PartialSigView>, pubkey: Seq<u8>)
    requires
        sig_position(sigs, pubkey) < sigs.len(),
    ensures
        sigs[sig_position(sigs, pubkey) as int].pubkey == pubkey,
    decreases sigs.len(),
{
    if sigs[0].pubkey != pubkey {
        lemma_position_is_found(sigs.skip(1), pubkey);
    }
}

proof fn lemma_signed(keys: NodeKeysView, psbt: PsbtView, index: int, i: int)
    requires
        0 <= index <= i < psbt.inputs.len(),
        signatures_refusal(keys, psbt, index) is None,
    ensures
        input_signed(keys, psbt, i),
    decreases i - index,
{
    if index < i {
        lemma_signed(keys, psbt, index + 1, i);
    } else {
        assert(input_refusal(keys, psbt, i) is None);
        let sigs = psbt.inputs[i].partial_sigs;
        let k = sig_position(sigs, keys.user_pubkey);
        lemma_position_is_found(sigs, keys.user_pubkey);
        assert(sigs[k as int].sighash_type == SIGHASH_ALL);
    }
}

proof fn lemma_agrees(psbt: PsbtView, prevouts: Seq<Option<PrevoutView>>, index: int, i: int)
    requires
        0 <= index <= i < prevouts.len(),
        disagreement_from(psbt, prevouts, index) is None,
    ensures
        !disagrees(psbt, prevouts, i),
    decreases i - index,
{
    if index < i {
        lemma_agrees(psbt, prevouts, index + 1, i);
    }
}

proof fn lemma_disagreement_refuses(psbt: PsbtView, prevouts: Seq<Option<PrevoutView>>, index: int)
    ensures
        disagreement_from(psbt, prevouts, index) matches Some(r) ==> r is Refusal,
    decreases prevouts.len() - index,
{
    if index < prevouts.len() {
        lemma_disagreement_refuses(psbt, prevouts, index + 1);
    }
}

pub(crate) proof fn lemma_signature_refuses(keys: NodeKeysView, psbt: PsbtView, index: int)
    ensures
        signatures_refusal(keys, psbt, index) matches Some(r) ==> r is Refusal,
    decreases psbt.inputs.len() - index,
{
    if index < psbt.inputs.len() {
        lemma_signature_refuses(keys, psbt, index + 1);
    }
}

/// Whether a look at the chain that failed is a refusal.
pub open spec fn fails_as_refusal(fetched: Option<PrevoutFetchView>) -> bool {
    fetched matches Some(Err(r)) ==> r is Refusal
}

pub(crate) proof fn lemma_truth_refuses(psbt: PsbtView, fetched: Option<PrevoutFetchView>)
    requires
        fails_as_refusal(fetched),
    ensures
        ground_truth_check(psbt, fetched) matches Some(r) ==> r is Refusal,
{
    if let Some(Ok(prevouts)) = fetched {
        lemma_disagreement_refuses(psbt, prevouts, 0);
    }
}

proof fn lemma_checks(
    node: NodeView,
    psbt: PsbtView,
    fetched: Option<PrevoutFetchView>,
    policy: PolicyVerdictView,
)
    requires
        signatures_refusal(node.keys, psbt, 0) is None,
        node.has_backend ==> ground_truth_check(psbt, fetched) is None,
        policy.evaluation is Ok,
    ensures
        checked(node, psbt, fetched, policy),
{
    assert forall|i: int| 0 <= i < psbt.inputs.len() implies #[trigger] input_signed(
        node.keys,
        psbt,
        i,
    ) by {
        lemma_signed(node.keys, psbt, 0, i);
    }
    if node.has_backend {
        let prevouts = fetched->0->Ok_0;
        assert(comparison(psbt, prevouts) is None);
        assert forall|i: int| 0 <= i < prevouts.len() implies !#[trigger] disagrees(
            psbt,
            prevouts,
            i,
        ) by {
            lemma_agrees(psbt, prevouts, 0, i);
        }
    }
}

proof fn lemma_escape_checks(
    node: NodeView,
    psbt: PsbtView,
    fetched: Option<PrevoutFetchView>,
    policy: PolicyVerdictView,
)
    requires
        fails_as_refusal(fetched),
        escape_check(node, psbt, fetched, policy) is None,
    ensures
        checked(node, psbt, fetched, policy),
        is_escape(policy),
{
    lemma_truth_refuses(psbt, fetched);
    lemma_checks(node, psbt, fetched, policy);
}

proof fn lemma_bumps_check(
    node: NodeView,
    bumps: Seq<PsbtView>,
    fetched: Option<PrevoutFetchView>,
    policies: Seq<PolicyVerdictView>,
    rung: int,
    i: int,
)
    requires
        fails_as_refusal(fetched),
        bumps_refusal(node, bumps, fetched, policies, rung) is None,
        0 <= rung <= i < bumps.len(),
    ensures
        checked(node, bumps[i], fetched, policies[i]),
        is_escape(policies[i]),
    decreases i - rung,
{
    if rung < i {
        lemma_bumps_check(node, bumps, fetched, policies, rung + 1, i);
    } else {
        lemma_escape_checks(node, bumps[i], fetched, policies[i]);
    }
}

pub(crate) proof fn lemma_bumps_refuse(
    node: NodeView,
    bumps: Seq<PsbtView>,
    fetched: Option<PrevoutFetchView>,
    policies: Seq<PolicyVerdictView>,
    rung: int,
)
    requires
        fails_as_refusal(fetched),
    ensures
        bumps_refusal(node, bumps, fetched, policies, rung) matches Some(r) ==> r is Refusal,
    decreases bumps.len() - rung,
{
    if rung < bumps.len() {
        lemma_bumps_refuse(node, bumps, fetched, policies, rung + 1);
        lemma_signature_refuses(node.keys, bumps[rung], 0);
    }
}

/// What the acceptance of a spend stands for where no earlier verdict is on file: spend,
/// escape and every bump are checked; the spend pays a hot wallet or the escape
/// wallet, the escape and its bumps pay the escape wallet alone; the bumps are a
/// ladder; the ledger has room for what goes to a hot wallet; it can be finished
/// before it expires; and the registry keeps the pair.
pub open spec fn spend_stands(
    node: NodeView,
    request: SignRequestView,
    now: u64,
    pair: SpendPairView,
    facts: SignFacts,
) -> bool {
    let fetched = fetched_coins(node, request, facts);
    let policies = policy_views(facts.bump_policies@);
    let ids = facts.ids@;
    &&& checked(node, pair.spend, fetched.0, facts.spend_policy@)
    &&& facts.spend_policy@.classification matches Ok(c)
    &&& c.class == TxClass::Hot || (c.class == TxClass::Escape && !ids.self_paired())
    &&& c.class == TxClass::Hot && node.channel is Some ==> facts.reserve is Ok
    &&& checked(node, pair.escape, fetched.1, facts.escape_policy@)
    &&& is_escape(facts.escape_policy@)
    &&& ladder_fault(
        node.params.max_vault_satisfaction_weight,
        pair.escape,
        pair.bumps,
        ids.self_paired(),
    ) is None
    &&& forall|i: int|
        0 <= i < pair.bumps.len() ==> checked(
            node,
            #[trigger] pair.bumps[i],
            fetched.1,
            policies[i],
        ) && is_escape(policies[i])
    &&& c.class == TxClass::Hot ==> request.expiry >= saturating(
        fires_at(node, now, c) + node.params.combine_slack_secs,
    )
    &&& kept_refusal(node, ids, c, facts.kept) is None
}

/// Whether an acceptance of the request is on file.
pub open spec fn acceptance_on_file(
    log: Map<Seq<char>, EntryView>,
    key: Seq<char>,
    id: Seq<char>,
    now: u64,
) -> bool {
    ||| recorded(log, key, now) matches Some(v) && v is Accepted
    ||| recorded(log, id, now) matches Some(v) && v is Accepted
}

proof fn lemma_classed_stands(
    node: NodeView,
    request: SignRequestView,
    job: SignJobView,
    pair: SpendPairView,
    key: Seq<char>,
    c: Classification,
    fetched: Option<PrevoutFetchView>,
    facts: SignFacts,
)
    requires
        fails_as_refusal(fetched),
        accepts(classed_run(node, request, job, pair, key, c, fetched, facts).1),
    ensures
        c.class == TxClass::Hot && node.channel is Some ==> facts.reserve is Ok,
        pairing_refusal(
            node,
            PairingView {
                pair,
                ids: facts.ids@,
                class: c,
                fetched,
                escape_policy: facts.escape_policy@,
                bump_policies: policy_views(facts.bump_policies@),
            },
        ) is None,
        too_short(node, request.expiry, job.now, c) is None,
        kept_refusal(node, facts.ids@, c, facts.kept) is None,
{
    let p = PairingView {
        pair,
        ids: facts.ids@,
        class: c,
        fetched,
        escape_policy: facts.escape_policy@,
        bump_policies: policy_views(facts.bump_policies@),
    };
    lemma_truth_refuses(pair.escape, fetched);
    lemma_signature_refuses(node.keys, pair.escape, 0);
    lemma_bumps_refuse(node, pair.bumps, fetched, p.bump_policies, 0);
    let (n1, metered_as) = metered(node, request, job, c, facts.reserve);
    if let Ok(reserved) = metered_as {
        assert(n1 == node);
        let (n2, signed) = paired(node, request, job, p, reserved);
        if signed is Ok {
            assert(kept_refusal(n2, facts.ids@, c, facts.kept) == kept_refusal(
                node,
                facts.ids@,
                c,
                facts.kept,
            ));
        }
    }
}

proof fn lemma_opened_stands(
    node: NodeView,
    request: SignRequestView,
    job: SignJobView,
    pair: SpendPairView,
    facts: SignFacts,
)
    requires
        accepts(
            opened_run(node, request, job, pair, fetched_coins(node, request, facts), facts).1,
        ),
    ensures
        acceptance_on_file(
            node.sign_state.replay,
            acceptance_key(pair_candidates(pair, facts.ids@)),
            facts.ids@.spend,
            job.now,
        ) || spend_stands(node, request, job.now, pair, facts),
{
    reveal(opened_run);
    let fetched = fetched_coins(node, request, facts);
    assert(fails_as_refusal(fetched.0) && fails_as_refusal(fetched.1));
    let ids = facts.ids@;
    let (n1, found) = looked_up(node, request, job, pair, ids, fetched);
    if let Ok(key) = found {
        let (n2, class) = judged(n1, request, job, pair, ids, fetched.0, facts.spend_policy@);
        lemma_truth_refuses(pair.spend, fetched.0);
        lemma_signature_refuses(node.keys, pair.spend, 0);
        if let Ok(c) = class {
            lemma_classed_stands(n2, request, job, pair, key, c, fetched.1, facts);
            let policies = policy_views(facts.bump_policies@);
            lemma_checks(node, pair.spend, fetched.0, facts.spend_policy@);
            assert(escape_check(node, pair.escape, fetched.1, facts.escape_policy@) == escape_check(
                n2,
                pair.escape,
                fetched.1,
                facts.escape_policy@,
            ));
            lemma_escape_checks(node, pair.escape, fetched.1, facts.escape_policy@);
            assert forall|i: int| 0 <= i < pair.bumps.len() implies checked(
                node,
                #[trigger] pair.bumps[i],
                fetched.1,
                policies[i],
            ) && is_escape(policies[i]) by {
                lemma_bumps_check(n2, pair.bumps, fetched.1, policies, 0, i);
            }
            assert(kept_refusal(n2, ids, c, facts.kept) == kept_refusal(
                node,
                ids,
                c,
                facts.kept,
            ));
        }
    }
}

/// Nothing outside the policy is accepted: a spend is accepted only on a node that is
/// not locked down, with a pin that the budget of attempts lets pass, before it
/// expires; and unless the same spend was accepted before, only if all of
/// [`spend_stands`] holds.
pub proof fn only_validated_spends_are_accepted(
    node: NodeView,
    request: SignRequestView,
    job: SignJobView,
    facts: SignFacts,
)
    requires
        accepts(admitted_run(node, request, job, facts).1),
    ensures
        ({
            let now = node.sign_state.coord_nonces.effective_now(facts.reopen_at);
            &&& !node.lockdown
            &&& !facts.charge.refuse
            &&& now < request.expiry <= saturating(
                facts.reopen_at + node.params.max_commitment_age_secs,
            )
            &&& decoded_pair(request) matches Ok(pair)
            &&& {
                ||| acceptance_on_file(
                    node.sign_state.replay,
                    acceptance_key(pair_candidates(pair, facts.ids@)),
                    facts.ids@.spend,
                    now,
                )
                ||| spend_stands(node, request, now, pair, facts)
            }
        }),
{
    reveal(admitted_run);
    reveal(charged_run);
    let verdict = effective_verdict(facts.compared, request.pin, node.params.max_pin_bytes);
    let armed = armed_job(node, job, verdict, facts.carrier@, facts.commit_at);
    let (n1, j1) = committed(counted(node, verdict), request, armed, facts.upgrade);
    if let Ok(j1) = j1 {
        let (n2, j2) = charged(n1, request, j1, facts.charge);
        if let Ok(j2) = j2 {
            let (n3, j3) = reopened(n2, request, j2, facts.reopen_at);
            if let Ok((j3, pair)) = j3 {
                assert(n3 == counted(node, verdict));
                assert(fetched_coins(n3, request, facts) == fetched_coins(node, request, facts));
                lemma_opened_stands(n3, request, j3, pair, facts);
                if spend_stands(n3, request, j3.now, pair, facts) {
                    lemma_stands_alike(n3, node, request, j3.now, pair, facts);
                }
            }
        }
    }
}

proof fn lemma_stands_alike(
    a: NodeView,
    b: NodeView,
    request: SignRequestView,
    now: u64,
    pair: SpendPairView,
    facts: SignFacts,
)
    requires
        a == (NodeView { duress_arm: a.duress_arm, ..b }),
        spend_stands(a, request, now, pair, facts),
    ensures
        spend_stands(b, request, now, pair, facts),
{
    assert(a.keys == b.keys && a.has_backend == b.has_backend && a.params == b.params);
    let c = facts.spend_policy@.classification->Ok_0;
    let fetched = fetched_coins(a, request, facts);
    let policies = policy_views(facts.bump_policies@);
    assert(fetched == fetched_coins(b, request, facts));
    assert forall|i: int| 0 <= i < pair.bumps.len() implies checked(
        b,
        #[trigger] pair.bumps[i],
        fetched.1,
        policies[i],
    ) && is_escape(policies[i]) by {
        assert(checked(a, pair.bumps[i], fetched.1, policies[i]));
    }
    assert(kept_refusal(a, facts.ids@, c, facts.kept) == kept_refusal(
        b,
        facts.ids@,
        c,
        facts.kept,
    ));
}

/// Whether a coin has not been refreshed for as long as it must not be.
pub open spec fn rested(node: NodeView, coin: OutPoint, now: u64) -> bool {
    let log = node.sign_state.refreshes;
    log.contains_key(coin) ==> seconds_since(log[coin], now)
        >= node.params.refresh_min_interval_secs
}

pub(crate) proof fn lemma_interval(
    log: Map<OutPoint, u64>,
    inputs: Seq<TxIn>,
    now: u64,
    min_interval: u64,
    index: int,
)
    ensures
        match interval_refusal(log, inputs, now, min_interval, index) {
            Some(r) => r is Refusal,
            None => forall|i: int|
                0 <= index <= i < inputs.len() && log.contains_key(
                    (#[trigger] inputs[i]).previous_output,
                ) ==> seconds_since(log[inputs[i].previous_output], now) >= min_interval,
        },
    decreases inputs.len() - index,
{
    if index < inputs.len() {
        lemma_interval(log, inputs, now, min_interval, index + 1);
    }
}

/// What the acceptance of a refresh stands for where no earlier verdict is on file: it
/// is checked, pays the vault alone, no spend stands before it, none of its coins was
/// refreshed too recently, its fee is under the cap, and the registry keeps it.
pub open spec fn refresh_stands(
    node: NodeView,
    request: RefreshRequestView,
    now: u64,
    refresh: PsbtView,
    facts: RefreshFacts,
) -> bool {
    let fetched = prefetched(
        node,
        request.refresh_psbt,
        "refresh"@,
        chain_answer_view(facts.chain),
    );
    &&& checked(node, refresh, fetched, facts.policy@)
    &&& facts.policy@.classification matches Ok(c)
    &&& c.class == TxClass::Refresh
    &&& !spend_comes_first(node, now)
    &&& forall|i: int|
        0 <= i < refresh.unsigned_tx.input.len() ==> rested(
            node,
            #[trigger] refresh.unsigned_tx.input[i].previous_output,
            now,
        )
    &&& feerate_refusal(node, refresh) is None
    &&& node.channel is Some ==> registration_refusal(node, seq![facts.id@], None, facts.kept) is None
}

/// No refresh is accepted that is not one: it is accepted only on a node that is not
/// locked down, before it expires; and unless the same refresh was accepted before,
/// only if all of [`refresh_stands`] holds.
pub proof fn only_validated_refreshes_are_accepted(
    node: NodeView,
    request: RefreshRequestView,
    facts: RefreshFacts,
)
    requires
        accepts(refresh_run(node, request, facts).1),
    ensures
        ({
            let now = node.sign_state.coord_nonces.effective_now(facts.reopen_at);
            &&& !node.lockdown
            &&& now < request.expiry <= saturating(
                facts.reopen_at + node.params.max_commitment_age_secs,
            )
            &&& refresh_reopened(node, request, facts.reopen_at) matches Ok(job)
            &&& {
                ||| acceptance_on_file(
                    node.sign_state.replay,
                    refresh_key(job, facts.id@),
                    facts.id@,
                    now,
                )
                ||| refresh_stands(node, request, now, job.refresh, facts)
            }
        }),
{
    reveal(refresh_run);
    let fetched = prefetched(
        node,
        request.refresh_psbt,
        "refresh"@,
        chain_answer_view(facts.chain),
    );
    assert(fails_as_refusal(fetched));
    if let Ok(job) = refresh_reopened(node, request, facts.reopen_at) {
        let (n1, found) = refresh_looked_up(node, job, facts.id@);
        if found is Ok {
            lemma_truth_refuses(job.refresh, fetched);
            lemma_signature_refuses(node.keys, job.refresh, 0);
            let inputs = job.refresh.unsigned_tx.input;
            let interval = node.params.refresh_min_interval_secs;
            lemma_interval(n1.sign_state.refreshes, inputs, job.now, interval, 0);
            let (n2, passed) = refresh_judged(
                n1,
                request,
                job,
                facts.id@,
                facts.carrier@,
                fetched,
                facts.policy@,
            );
            if passed is Ok {
                lemma_checks(node, job.refresh, fetched, facts.policy@);
                assert forall|i: int| 0 <= i < inputs.len() implies rested(
                    node,
                    #[trigger] inputs[i].previous_output,
                    job.now,
                ) by {
                    let coin = inputs[i].previous_output;
                    if node.sign_state.refreshes.contains_key(coin) && seconds_since(
                        node.sign_state.refreshes[coin],
                        job.now,
                    ) < interval {
                        assert(n1.sign_state.refreshes.contains_key(coin));
                    }
                }
                assert(pending_at(n1.sign_state.pending, job.now) =~= pending_at(
                    node.sign_state.pending,
                    job.now,
                ));
            }
        }
    }
}

/// What a spend has the node do for it, beyond what it did before.
pub open spec fn new_errands(before: NodeView, after: NodeView) -> Seq<ErrandView> {
    after.errands.skip(before.errands.len() as int)
}

/// A reservation of hot outflow stands exactly as long as its spend: one that was made
/// for a spend is given back if and only if the spend is not accepted.
pub proof fn a_reservation_stands_with_its_spend(
    node: NodeView,
    request: SignRequestView,
    job: SignJobView,
    pair: SpendPairView,
    key: Seq<char>,
    c: Classification,
    escape_fetch: Option<PrevoutFetchView>,
    facts: SignFacts,
)
    requires
        node.channel is Some,
        c.class == TxClass::Hot,
        facts.reserve == Result::<bool, HotReserveRefusal>::Ok(true),
        fails_as_refusal(escape_fetch),
    ensures
        ({
            let (after, answer) = classed_run(
                node,
                request,
                job,
                pair,
                key,
                c,
                escape_fetch,
                facts,
            );
            accepts(answer) != new_errands(node, after).contains(
                ErrandView::ReleaseHotBudget { commitment_id: facts.ids@.spend },
            )
        }),
{
    let given = ErrandView::ReleaseHotBudget { commitment_id: facts.ids@.spend };
    let p = PairingView {
        pair,
        ids: facts.ids@,
        class: c,
        fetched: escape_fetch,
        escape_policy: facts.escape_policy@,
        bump_policies: policy_views(facts.bump_policies@),
    };
    lemma_truth_refuses(pair.escape, escape_fetch);
    lemma_signature_refuses(node.keys, pair.escape, 0);
    lemma_bumps_refuse(node, pair.bumps, escape_fetch, p.bump_policies, 0);
    let (after, answer) = classed_run(node, request, job, pair, key, c, escape_fetch, facts);
    let new = new_errands(node, after);
    let back = unwound(node, facts.ids@, true);
    if pairing_refusal(node, p) is Some || too_short(node, request.expiry, job.now, c) is Some
        || pair_signing_failure(node.keys, pair) is Some {
        assert(back.errands[node.errands.len() as int] == given);
        assert(after.errands[node.errands.len() as int] == given);
        assert(new[0] == given);
    } else {
        let handed_on = node.errands.push(
            ErrandView::MarkCarrierPropagated { carrier: job.carrier },
        );
        if kept_refusal(node, facts.ids@, c, facts.kept) is Some {
            assert(after.errands[node.errands.len() + 1int] == given);
            assert(new[1] == given);
        } else {
            assert(after.errands == released(
                NodeView { errands: handed_on, ..node },
                job.guard,
            ).errands);
        }
    }
}

/// No request changes what the node was sealed with, lifts a lockdown or enters one, or
/// makes it forget a nonce.
pub proof fn requests_leave_the_seal_alone(
    node: NodeView,
    spend: SignRequestView,
    job: SignJobView,
    spend_facts: SignFacts,
    refresh: RefreshRequestView,
    refresh_facts: RefreshFacts,
)
    ensures
        same_frame(node, admitted_run(node, spend, job, spend_facts).0),
        same_frame(node, refresh_run(node, refresh, refresh_facts).0),
{
    lemma_admitted_frame(node, spend, job, spend_facts);
    lemma_refresh_frame(node, refresh, refresh_facts);
}

} // verus!
