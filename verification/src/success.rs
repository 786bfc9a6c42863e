//! Laws of when success is owed, and of what none is had without.

use vstd::prelude::*;

use crate::commitment::acceptance_key;
use crate::coord::signature_refusal;
use crate::freshness::{memory_outlasts_pruning, no_claim_is_accepted_twice, remembers};
use crate::ingress::{
    after_ingress, armed_job, charged, clock_refusal, committed, counted, decoded_pair,
    entry_request, ingress_answer, reopened, takes_nonce, with_nonces, ClockStage, SignJobView,
    SpendPairView,
};
use crate::ladder::{
    fee_of, ladder_fault, ladder_of, rung_fault, rungs_fault, sequence_fault, step_fault,
    steps_fault, vsize_bound,
};
use crate::memory::pruning_frees_no_coin;
use crate::node::{NodeKeysView, NodeView};
use crate::pin::effective_verdict;
use crate::policy::{PolicyVerdictView, TxClass};
use crate::prevouts::PrevoutFetchView;
use crate::proto::{RefreshRequest, RefreshRequestView, SignRequest, SignRequestView};
use crate::refresh::{
    feerate_refusal, interval_refusal, lemma_refresh_frame, refresh_entry, refresh_entry_answer,
    refresh_key, refresh_looked_up, refresh_nonces_after, refresh_reopened, refresh_run,
    refresh_takes_nonce, refresh_whole_run, spend_comes_first, RefreshFacts,
};
use crate::registry::{RegisterAnswer, RegisterOutcome};
use crate::replay::{pending_at, recorded, NonceLogView};
use crate::rungs::{a_ladder_keeps_what_it_sweeps, lemma_no_step_fault};
use crate::signatures::signing_failure;
use crate::silence::accepts;
use crate::spend::{
    admitted_job, admitted_run, bumps_refusal, bumps_signing_failure, charged_run, classed_run,
    fetched_coins, lemma_admitted_frame, looked_up, nonces_after, opened_run, pair_candidates, policy_views, replay_pruned, sign_run, stores_pruned,
    too_short, SignFacts,
};
use crate::tx::{PsbtView, TxIn};
use crate::verdict::{
    chain_answer_view, escape_check, prefetched, spend_refusal, AnswerView,
};

verus! {

/// Whether the registry keeps what it was asked to keep; a node without peers asks for
/// nothing.
pub open spec fn all_held(node: NodeView, answer: RegisterAnswer) -> bool {
    ||| node.channel is None
    ||| answer matches RegisterAnswer::Outcomes(outcomes) && forall|i: int|
        0 <= i < outcomes@.len() ==> #[trigger] outcomes@[i] == RegisterOutcome::Held
}

proof fn lemma_bumps_pass(
    node: NodeView,
    bumps: Seq<PsbtView>,
    fetched: Option<PrevoutFetchView>,
    policies: Seq<PolicyVerdictView>,
    from: int,
)
    requires
        0 <= from <= bumps.len(),
        forall|i: int|
            0 <= i < bumps.len() ==> escape_check(
                node,
                #[trigger] bumps[i],
                fetched,
                policies[i],
            ) is None,
    ensures
        bumps_refusal(node, bumps, fetched, policies, from) is None,
    decreases bumps.len() - from,
{
    if from < bumps.len() {
        assert(escape_check(node, bumps[from], fetched, policies[from]) is None);
        lemma_bumps_pass(node, bumps, fetched, policies, from + 1);
    }
}

proof fn lemma_bumps_signable(keys: NodeKeysView, bumps: Seq<PsbtView>, from: int)
    requires
        0 <= from <= bumps.len(),
        forall|i: int|
            0 <= i < bumps.len() ==> signing_failure(keys, #[trigger] bumps[i], 0) is None,
    ensures
        bumps_signing_failure(keys, bumps, from) is None,
    decreases bumps.len() - from,
{
    if from < bumps.len() {
        assert(signing_failure(keys, bumps[from], 0) is None);
        lemma_bumps_signable(keys, bumps, from + 1);
    }
}

/// Whether nothing is wrong with a spend: each of its transactions passes the checks and
/// can be signed, its class is one that a spend may have, the escape's ladder climbs, and
/// there is time for it.
pub open spec fn spend_is_sound(
    node: NodeView,
    request: SignRequestView,
    now: u64,
    pair: SpendPairView,
    fetched: (Option<PrevoutFetchView>, Option<PrevoutFetchView>),
    facts: SignFacts,
) -> bool {
    let policies = policy_views(facts.bump_policies@);
    let ids = facts.ids@;
    &&& spend_refusal(node, pair.spend, fetched.0, facts.spend_policy@) is None
    &&& facts.spend_policy@.classification matches Ok(c)
    &&& c.class == TxClass::Hot || (c.class == TxClass::Escape && ids.spend != ids.escape)
    &&& too_short(node, request.expiry, now, c) is None
    &&& escape_check(node, pair.escape, fetched.1, facts.escape_policy@) is None
    &&& forall|i: int|
        0 <= i < pair.bumps.len() ==> escape_check(
            node,
            #[trigger] pair.bumps[i],
            fetched.1,
            policies[i],
        ) is None
    &&& ladder_fault(
        node.params.max_vault_satisfaction_weight,
        pair.escape,
        pair.bumps,
        ids.spend == ids.escape,
    ) is None
    &&& signing_failure(node.keys, pair.spend, 0) is None
    &&& signing_failure(node.keys, pair.escape, 0) is None
    &&& forall|i: int|
        0 <= i < pair.bumps.len() ==> signing_failure(node.keys, #[trigger] pair.bumps[i], 0)
            is None
}

proof fn lemma_outcomes_held(node: NodeView, answer: RegisterAnswer)
    requires
        all_held(node, answer),
        node.channel is Some,
    ensures
        answer matches RegisterAnswer::Outcomes(outcomes) && !outcomes@.contains(
            RegisterOutcome::Conflict,
        ) && !outcomes@.contains(RegisterOutcome::AtCapacity),
{
}

proof fn lemma_sound_is_accepted(
    node: NodeView,
    request: SignRequestView,
    job: SignJobView,
    pair: SpendPairView,
    fetched: (Option<PrevoutFetchView>, Option<PrevoutFetchView>),
    facts: SignFacts,
)
    requires
        spend_is_sound(node, request, job.now, pair, fetched, facts),
        !(fetched.0 matches Some(Err(_))),
        !(fetched.1 matches Some(Err(_))),
        facts.reserve is Ok,
        all_held(node, facts.kept),
        recorded(
            node.sign_state.replay,
            acceptance_key(pair_candidates(pair, facts.ids@)),
            job.now,
        ) is None,
        recorded(node.sign_state.replay, facts.ids@.spend, job.now) is None,
    ensures
        accepts(opened_run(node, request, job, pair, fetched, facts).1),
{
    reveal(opened_run);
    let policies = policy_views(facts.bump_policies@);
    let pruned = stores_pruned(replay_pruned(node, job.now), job.now);
    let key = acceptance_key(pair_candidates(pair, facts.ids@));
    assert(looked_up(node, request, job, pair, facts.ids@, fetched) == (
        pruned,
        Ok::<Seq<char>, AnswerView>(key),
    ));
    let c = facts.spend_policy@.classification->Ok_0;
    assert(spend_refusal(pruned, pair.spend, fetched.0, facts.spend_policy@) is None);
    assert forall|i: int| 0 <= i < pair.bumps.len() implies escape_check(
        pruned,
        #[trigger] pair.bumps[i],
        fetched.1,
        policies[i],
    ) is None by {
        assert(escape_check(node, pair.bumps[i], fetched.1, policies[i]) is None);
    }
    lemma_bumps_pass(pruned, pair.bumps, fetched.1, policies, 0);
    lemma_bumps_signable(pruned.keys, pair.bumps, 0);
    if node.channel is Some {
        lemma_outcomes_held(node, facts.kept);
    }
    assert(accepts(classed_run(pruned, request, job, pair, key, c, fetched.1, facts).1));
}

/// A spend with which nothing is wrong is accepted: on a node that is not locked down,
/// under a pin that the budget of attempts lets pass, at clocks that it passes, where the
/// chain answers, the ledger has room and the registry keeps the pair, and where no
/// verdict on it is on file.
pub proof fn a_sound_spend_is_accepted(
    node: NodeView,
    request: SignRequestView,
    job: SignJobView,
    pair: SpendPairView,
    facts: SignFacts,
)
    requires
        ({
            let pinned = node.sign_state.coord_nonces.effective_now(facts.commit_at);
            let now = node.sign_state.coord_nonces.effective_now(facts.reopen_at);
            let fetched = fetched_coins(node, request, facts);
            &&& !node.lockdown
            &&& !facts.charge.refuse
            &&& clock_refusal(node, request.expiry, facts.commit_at, pinned, ClockStage::Pin)
                is None
            &&& clock_refusal(node, request.expiry, facts.reopen_at, now, ClockStage::Preflight)
                is None
            &&& decoded_pair(request) == Ok::<
                SpendPairView,
                AnswerView,
            >(pair)
            &&& spend_is_sound(node, request, now, pair, fetched, facts)
            &&& !(fetched.0 matches Some(Err(_)))
            &&& !(fetched.1 matches Some(Err(_)))
            &&& facts.reserve is Ok
            &&& all_held(node, facts.kept)
            &&& recorded(
                node.sign_state.replay,
                acceptance_key(pair_candidates(pair, facts.ids@)),
                now,
            ) is None
            &&& recorded(node.sign_state.replay, facts.ids@.spend, now) is None
        }),
    ensures
        accepts(admitted_run(node, request, job, facts).1),
{
    reveal(admitted_run);
    reveal(charged_run);
    let now = node.sign_state.coord_nonces.effective_now(facts.reopen_at);
    let fetched = fetched_coins(node, request, facts);
    let verdict = effective_verdict(facts.compared, request.pin, node.params.max_pin_bytes);
    let armed = armed_job(node, job, verdict, facts.carrier@, facts.commit_at);
    let n = counted(node, verdict);
    let j1 = committed(n, request, armed, facts.upgrade).1->Ok_0;
    let j2 = charged(n, request, j1, facts.charge).1->Ok_0;
    let j3 = reopened(n, request, j2, facts.reopen_at).1->Ok_0.0;
    assert(fetched_coins(n, request, facts) == fetched);
    let policies = policy_views(facts.bump_policies@);
    assert forall|i: int| 0 <= i < pair.bumps.len() implies escape_check(
        n,
        #[trigger] pair.bumps[i],
        fetched.1,
        policies[i],
    ) is None by {
        assert(escape_check(node, pair.bumps[i], fetched.1, policies[i]) is None);
    }
    assert(spend_is_sound(n, request, now, pair, fetched, facts));
    lemma_sound_is_accepted(n, request, j3, pair, fetched, facts);
}

/// A refresh with which nothing is wrong is accepted: on a node that is not locked down,
/// within its window, where no spend stands before it, its coins have rested, its fee is
/// under the cap, the registry keeps it, and where no verdict on it is on file.
pub proof fn a_sound_refresh_is_accepted(
    node: NodeView,
    request: RefreshRequestView,
    facts: RefreshFacts,
)
    requires
        ({
            let now = node.sign_state.coord_nonces.effective_now(facts.reopen_at);
            let fetched = prefetched(
                node,
                request.refresh_psbt,
                "refresh"@,
                chain_answer_view(facts.chain),
            );
            &&& !node.lockdown
            &&& now < request.expiry
            &&& request.expiry <= facts.reopen_at + node.params.max_commitment_age_secs
            &&& refresh_reopened(node, request, facts.reopen_at) matches Ok(job)
            &&& spend_refusal(node, job.refresh, fetched, facts.policy@) is None
            &&& facts.policy@.classification matches Ok(c)
            &&& c.class == TxClass::Refresh
            &&& !spend_comes_first(node, now)
            &&& interval_refusal(
                node.sign_state.refreshes,
                job.refresh.unsigned_tx.input,
                now,
                node.params.refresh_min_interval_secs,
                0,
            ) is None
            &&& feerate_refusal(node, job.refresh) is None
            &&& signing_failure(node.keys, job.refresh, 0) is None
            &&& all_held(node, facts.kept)
            &&& recorded(node.sign_state.replay, refresh_key(job, facts.id@), now) is None
            &&& recorded(node.sign_state.replay, facts.id@, now) is None
        }),
    ensures
        accepts(refresh_run(node, request, facts).1),
{
    reveal(refresh_run);
    let job = refresh_reopened(node, request, facts.reopen_at)->Ok_0;
    let pruned = stores_pruned(replay_pruned(node, job.now), job.now);
    let fetched = prefetched(
        node,
        request.refresh_psbt,
        "refresh"@,
        chain_answer_view(facts.chain),
    );
    assert(refresh_looked_up(node, job, facts.id@).0 == pruned);
    assert(spend_refusal(pruned, job.refresh, fetched, facts.policy@) is None);
    assert(pending_at(pruned.sign_state.pending, job.now) =~= pending_at(
        node.sign_state.pending,
        job.now,
    ));
    assert(!spend_comes_first(pruned, job.now));
    pruning_frees_no_coin(
        node.sign_state.refreshes,
        job.refresh.unsigned_tx.input,
        job.now,
        job.now,
        node.params.refresh_min_interval_secs,
    );
    assert(feerate_refusal(pruned, job.refresh) is None);
    if node.channel is Some {
        lemma_outcomes_held(node, facts.kept);
    }
}

/// Whatever came with a spend, it is accepted only on a node that is not locked down,
/// under the coordinator's signature over this very request, and with a nonce that is
/// taken by it.
pub proof fn no_spend_is_accepted_unannounced(
    node: NodeView,
    request: &SignRequest,
    facts: SignFacts,
    nonces: NonceLogView,
)
    requires
        accepts(sign_run(node, request, facts, nonces).1),
    ensures
        !node.lockdown,
        signature_refusal(facts.at.digest, request.coord_sig@, node.keys.coordinator_auth) is None,
        ({
            let log = node.sign_state.coord_nonces;
            let now = log.effective_now(facts.at.raw_now);
            &&& now < request.expiry
            &&& request.expiry <= facts.at.raw_now + node.params.max_commitment_age_secs
            &&& log.entries.contains_key(request.nonce@) ==> log.entries[request.nonce@].expiry
                <= now
        }),
        node.channel is Some ==> facts.at.fits,
{
    assert(request@.expiry == request.expiry);
}

/// The same of a refresh.
pub proof fn no_refresh_is_accepted_unannounced(
    node: NodeView,
    request: &RefreshRequest,
    facts: RefreshFacts,
    nonces: NonceLogView,
)
    requires
        accepts(refresh_whole_run(node, request, facts, nonces).1),
    ensures
        !node.lockdown,
        signature_refusal(facts.at.digest, request.coord_sig@, node.keys.coordinator_auth) is None,
        ({
            let log = node.sign_state.coord_nonces;
            let now = log.effective_now(facts.at.raw_now);
            &&& now < request.expiry
            &&& request.expiry <= facts.at.raw_now + node.params.max_commitment_age_secs
            &&& log.entries.contains_key(request.nonce@) ==> log.entries[request.nonce@].expiry
                <= now
        }),
        node.channel is Some ==> facts.at.fits,
{
}

proof fn lemma_sequences_signal(inputs: Seq<TxIn>, from: int, rung: nat)
    requires
        0 <= from <= inputs.len(),
        forall|i: int| 0 <= i < inputs.len() ==> (#[trigger] inputs[i]).sequence == 0xffff_fffd,
    ensures
        sequence_fault(inputs, from, rung) is None,
    decreases inputs.len() - from,
{
    if from < inputs.len() {
        assert(inputs[from].sequence == 0xffff_fffd);
        lemma_sequences_signal(inputs, from + 1, rung);
    }
}

/// Whether a rung may stand on a ladder by itself: it has the base's version, no lock time,
/// and signals on every input that it may be replaced.
pub open spec fn rung_is_sound(base: PsbtView, rung: PsbtView) -> bool {
    &&& rung.unsigned_tx.version == base.unsigned_tx.version
    &&& rung.unsigned_tx.lock_time == 0
    &&& forall|i: int|
        0 <= i < rung.unsigned_tx.input.len() ==> (
        #[trigger] rung.unsigned_tx.input[i]).sequence == 0xffff_fffd
}

/// Whether `high` may stand right above `low`: it spends the coins of the base and pays its
/// scripts, in order; no output grows; and the fee rises by a satoshi at least for each
/// virtual byte that it can have.
pub open spec fn step_is_sound(
    max_satisfaction: u64,
    base: PsbtView,
    low: PsbtView,
    high: PsbtView,
) -> bool {
    let (b, l, h) = (base.unsigned_tx, low.unsigned_tx, high.unsigned_tx);
    &&& h.input.len() == b.input.len()
    &&& forall|i: int|
        0 <= i < h.input.len() ==> (#[trigger] h.input[i]).previous_output
            == b.input[i].previous_output
    &&& h.output.len() == b.output.len()
    &&& forall|i: int|
        0 <= i < h.output.len() ==> (#[trigger] h.output[i]).script_pubkey
            == b.output[i].script_pubkey
    &&& forall|i: int|
        0 <= i < h.output.len() && i < l.output.len() ==> (#[trigger] h.output[i]).value
            <= l.output[i].value
    &&& fee_of(high) is Some
    &&& vsize_bound(max_satisfaction, h) is Ok
    &&& fee_of(high)->0 >= fee_of(low)->0 + vsize_bound(max_satisfaction, h)->Ok_0
}

proof fn lemma_rungs_sound(ladder: Seq<PsbtView>, from: int)
    requires
        0 <= from <= ladder.len(),
        forall|r: int| 0 <= r < ladder.len() ==> rung_is_sound(ladder[0], #[trigger] ladder[r]),
    ensures
        rungs_fault(ladder, from) is None,
    decreases ladder.len() - from,
{
    if from < ladder.len() {
        assert(rung_is_sound(ladder[0], ladder[from]));
        lemma_sequences_signal(ladder[from].unsigned_tx.input, 0, from as nat);
        assert(rung_fault(ladder, from) is None);
        lemma_rungs_sound(ladder, from + 1);
    }
}

proof fn lemma_steps_sound(max_satisfaction: u64, ladder: Seq<PsbtView>, from: int)
    requires
        1 <= from <= ladder.len(),
        forall|r: int|
            1 <= r < ladder.len() ==> step_is_sound(
                max_satisfaction,
                ladder[0],
                ladder[r - 1],
                #[trigger] ladder[r],
            ),
    ensures
        steps_fault(max_satisfaction, ladder, from) is None,
    decreases ladder.len() - from,
{
    if from < ladder.len() {
        assert(step_is_sound(max_satisfaction, ladder[0], ladder[from - 1], ladder[from]));
        assert(step_fault(max_satisfaction, ladder, from) is None);
        lemma_steps_sound(max_satisfaction, ladder, from + 1);
    }
}

/// An escape without bumps passes the ladder rule, and so does every ladder whose rungs are
/// sound, each by itself and each above the one below it.
pub proof fn a_sound_ladder_passes(
    max_satisfaction: u64,
    escape: PsbtView,
    bumps: Seq<PsbtView>,
)
    requires
        bumps.len() > 0 ==> {
            let ladder = seq![escape] + bumps;
            &&& fee_of(escape) is Some
            &&& forall|r: int|
                0 <= r < ladder.len() ==> rung_is_sound(escape, #[trigger] ladder[r])
            &&& forall|r: int|
                1 <= r < ladder.len() ==> step_is_sound(
                    max_satisfaction,
                    escape,
                    ladder[r - 1],
                    #[trigger] ladder[r],
                )
        },
    ensures
        ladder_fault(max_satisfaction, escape, bumps, false) is None,
{
    if bumps.len() > 0 {
        let ladder = seq![escape] + bumps;
        assert(ladder == ladder_of(escape, bumps));
        assert(ladder[0] == escape);
        lemma_rungs_sound(ladder, 0);
        lemma_steps_sound(max_satisfaction, ladder, 1);
    }
}

/// A ladder that passes is sound: each rung by itself and each above the one below it.
pub proof fn a_passing_ladder_is_sound(
    max_satisfaction: u64,
    escape: PsbtView,
    bumps: Seq<PsbtView>,
    self_paired: bool,
    rung: int,
)
    requires
        bumps.len() > 0,
        ladder_fault(max_satisfaction, escape, bumps, self_paired) is None,
        0 <= rung <= bumps.len(),
    ensures
        !self_paired,
        ({
            let ladder = seq![escape] + bumps;
            &&& rung_is_sound(escape, ladder[rung])
            &&& rung > 0 ==> step_is_sound(
                max_satisfaction,
                escape,
                ladder[rung - 1],
                ladder[rung],
            )
        }),
{
    let ladder = ladder_of(escape, bumps);
    assert(ladder[0] == escape);
    a_ladder_keeps_what_it_sweeps(max_satisfaction, escape, bumps, self_paired, rung);
    if rung > 0 {
        lemma_no_step_fault(max_satisfaction, ladder, 1, rung);
    }
}

/// Once a spend has passed the entrance its nonce is remembered, whatever becomes of the
/// spend; the same of a refresh.
pub proof fn a_request_that_passed_is_remembered(
    node: NodeView,
    spend: &SignRequest,
    spend_facts: SignFacts,
    spend_nonces: NonceLogView,
    refresh: &RefreshRequest,
    refresh_facts: RefreshFacts,
    refresh_nonces: NonceLogView,
)
    requires
        nonces_after(node, spend, spend_facts.at, spend_nonces),
        refresh_nonces_after(node, refresh, refresh_facts.at, refresh_nonces),
    ensures
        ingress_answer(node, spend, spend_facts.at) is None ==> remembers(
            sign_run(node, spend, spend_facts, spend_nonces).0.sign_state.coord_nonces,
            spend.nonce@,
            spend.expiry,
        ),
        refresh_entry_answer(node, refresh, refresh_facts.at) is None ==> remembers(
            refresh_whole_run(
                node,
                refresh,
                refresh_facts,
                refresh_nonces,
            ).0.sign_state.coord_nonces,
            refresh.nonce@,
            refresh.expiry,
        ),
{
    lemma_admitted_frame(
        with_nonces(after_ingress(node, spend, spend_facts.at), spend_nonces),
        spend@,
        admitted_job(node, spend, spend_facts.at),
        spend_facts,
    );
    lemma_refresh_frame(with_nonces(node, refresh_nonces), refresh@, refresh_facts);
}

/// What is remembered stays so, whatever spend or refresh comes next.
pub proof fn no_request_makes_the_node_forget(
    node: NodeView,
    nonce: Seq<char>,
    expiry: u64,
    spend: &SignRequest,
    spend_facts: SignFacts,
    spend_nonces: NonceLogView,
    refresh: &RefreshRequest,
    refresh_facts: RefreshFacts,
    refresh_nonces: NonceLogView,
)
    requires
        remembers(node.sign_state.coord_nonces, nonce, expiry),
        nonces_after(node, spend, spend_facts.at, spend_nonces),
        refresh_nonces_after(node, refresh, refresh_facts.at, refresh_nonces),
    ensures
        remembers(
            sign_run(node, spend, spend_facts, spend_nonces).0.sign_state.coord_nonces,
            nonce,
            expiry,
        ),
        remembers(
            refresh_whole_run(
                node,
                refresh,
                refresh_facts,
                refresh_nonces,
            ).0.sign_state.coord_nonces,
            nonce,
            expiry,
        ),
{
    let log = node.sign_state.coord_nonces;
    let max_age = node.params.max_commitment_age_secs;
    if takes_nonce(node, spend, spend_facts.at) {
        let claim = entry_request(spend, spend_facts.at.digest).claim(
            spend_facts.at.raw_now,
            max_age,
            spend_facts.at.mono_now,
        );
        memory_outlasts_pruning(log, nonce, expiry, claim, spend_nonces);
    }
    if refresh_takes_nonce(node, refresh, refresh_facts.at) {
        let claim = refresh_entry(refresh, refresh_facts.at.digest).claim(
            refresh_facts.at.raw_now,
            max_age,
            refresh_facts.at.mono_now,
        );
        memory_outlasts_pruning(log, nonce, expiry, claim, refresh_nonces);
    }
    lemma_admitted_frame(
        with_nonces(after_ingress(node, spend, spend_facts.at), spend_nonces),
        spend@,
        admitted_job(node, spend, spend_facts.at),
        spend_facts,
    );
    lemma_refresh_frame(with_nonces(node, refresh_nonces), refresh@, refresh_facts);
}

/// A captured request is worth nothing: while its nonce and expiry are remembered, neither
/// a spend nor a refresh with them is accepted, whatever the clocks show.
pub proof fn a_remembered_request_is_not_accepted(
    node: NodeView,
    spend: &SignRequest,
    spend_facts: SignFacts,
    spend_nonces: NonceLogView,
    refresh: &RefreshRequest,
    refresh_facts: RefreshFacts,
    refresh_nonces: NonceLogView,
)
    ensures
        remembers(node.sign_state.coord_nonces, spend.nonce@, spend.expiry) ==> !accepts(
            sign_run(node, spend, spend_facts, spend_nonces).1,
        ),
        remembers(node.sign_state.coord_nonces, refresh.nonce@, refresh.expiry) ==> !accepts(
            refresh_whole_run(node, refresh, refresh_facts, refresh_nonces).1,
        ),
{
    let log = node.sign_state.coord_nonces;
    let max_age = node.params.max_commitment_age_secs;
    let first = entry_request(spend, spend_facts.at.digest).claim(
        spend_facts.at.raw_now,
        max_age,
        spend_facts.at.mono_now,
    );
    let second = refresh_entry(refresh, refresh_facts.at.digest).claim(
        refresh_facts.at.raw_now,
        max_age,
        refresh_facts.at.mono_now,
    );
    if remembers(log, spend.nonce@, spend.expiry) {
        no_claim_is_accepted_twice(log, first);
    }
    if remembers(log, refresh.nonce@, refresh.expiry) {
        no_claim_is_accepted_twice(log, second);
    }
}

} // verus!
