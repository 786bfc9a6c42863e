//! How often a coin is refreshed: laws over the requests that a node handles one after
//! another.

use vstd::prelude::*;

use crate::acceptance::{
    acceptance_on_file, lemma_interval, lemma_signature_refuses, lemma_truth_refuses,
    only_validated_refreshes_are_accepted, rested,
};
use crate::ingress::{
    after_ingress, armed_job, charged, committed, counted, reopened, with_nonces, SignJobView,
    SpendPairView,
};
use crate::node::NodeView;
use crate::pin::effective_verdict;
use crate::policy::Classification;
use crate::prevouts::PrevoutFetchView;
use crate::proto::{
    RefreshRequest, RefreshRequestView, RefusalCode, SignRequest, SignRequestView,
    SignResponseView,
};
use crate::refresh::{
    interval_refusal, lemma_refresh_frame, refresh_content_refusal, refresh_entry_answer,
    refresh_judged, refresh_key, refresh_looked_up, refresh_nonces_after, refresh_reopened,
    refresh_run, refresh_whole_run, spend_comes_first, RefreshFacts,
};
use crate::replay::{pending_at, refreshed_within, seconds_since, touches, NonceLogView};
use crate::silence::accepts;
use crate::spend::{
    admitted_job, admitted_run, charged_run, classed_run, fetched_coins, judged,
    lemma_admitted_frame, looked_up, nonces_after, opened_run, sign_run, SignFacts,
};
use crate::tx::{OutPoint, TxIn};
use crate::verdict::{chain_answer_view, prefetched};

verus! {

/// Whether the node remembers that `coin` was refreshed at `since` or later.
pub open spec fn marked(node: NodeView, coin: OutPoint, since: u64) -> bool {
    node.sign_state.refreshes.contains_key(coin) && node.sign_state.refreshes[coin] >= since
}

/// Whether `coin` is among the coins that these inputs spend.
pub open spec fn spends(inputs: Seq<TxIn>, coin: OutPoint) -> bool {
    exists|i: int| 0 <= i < inputs.len() && (#[trigger] inputs[i]).previous_output == coin
}

/// Whether `now` lies within the minimum interval from `since` on.
pub open spec fn within(node: NodeView, since: u64, now: u64) -> bool {
    since <= now && now - since < node.params.refresh_min_interval_secs
}

proof fn lemma_interval_first(
    log: Map<OutPoint, u64>,
    inputs: Seq<TxIn>,
    now: u64,
    min_interval: u64,
    index: int,
    at: int,
)
    requires
        0 <= index <= at < inputs.len(),
        log.contains_key(inputs[at].previous_output),
        seconds_since(log[inputs[at].previous_output], now) < min_interval,
    ensures
        interval_refusal(log, inputs, now, min_interval, index) matches Some(r) && (
        r matches SignResponseView::Refusal(r) && r.code == RefusalCode::RefreshTooSoon && r.check
            == "refresh_min_interval"@),
    decreases at - index,
{
    if index < at {
        lemma_interval_first(log, inputs, now, min_interval, index + 1, at);
    }
}

/// A refresh that is no repetition and spends a coin marked within the interval is not
/// accepted. Where nothing is wrong with it and no spend stands before it, it is told
/// that it comes too soon.
pub proof fn a_marked_coin_rests(
    node: NodeView,
    request: RefreshRequestView,
    facts: RefreshFacts,
    coin: OutPoint,
    since: u64,
)
    requires
        ({
            let now = node.sign_state.coord_nonces.effective_now(facts.reopen_at);
            &&& marked(node, coin, since)
            &&& within(node, since, now)
            &&& refresh_reopened(node, request, facts.reopen_at) matches Ok(job)
            &&& spends(job.refresh.unsigned_tx.input, coin)
            &&& !acceptance_on_file(
                node.sign_state.replay,
                refresh_key(job, facts.id@),
                facts.id@,
                now,
            )
        }),
    ensures
        ({
            let job = refresh_reopened(node, request, facts.reopen_at)->Ok_0;
            let fetched = prefetched(
                node,
                request.refresh_psbt,
                "refresh"@,
                chain_answer_view(facts.chain),
            );
            let answer = refresh_run(node, request, facts).1;
            &&& !accepts(answer)
            &&& refresh_looked_up(node, job, facts.id@).1 is Ok && refresh_content_refusal(
                node,
                job,
                fetched,
                facts.policy@,
            ) is None && !spend_comes_first(node, job.now) ==> (answer matches Ok(v) && (
            v matches SignResponseView::Refusal(r) && r.code == RefusalCode::RefreshTooSoon
                && r.check == "refresh_min_interval"@))
        }),
{
    let now = node.sign_state.coord_nonces.effective_now(facts.reopen_at);
    let job = refresh_reopened(node, request, facts.reopen_at)->Ok_0;
    let inputs = job.refresh.unsigned_tx.input;
    let i = choose|i: int|
        0 <= i < inputs.len() && (#[trigger] inputs[i]).previous_output == coin;
    if accepts(refresh_run(node, request, facts).1) {
        only_validated_refreshes_are_accepted(node, request, facts);
        assert(rested(node, inputs[i].previous_output, now));
    }
    let (pruned, found) = refresh_looked_up(node, job, facts.id@);
    if found is Ok {
        reveal(refresh_run);
        assert(pruned.sign_state.refreshes.contains_key(coin));
        assert(pending_at(pruned.sign_state.pending, now) =~= pending_at(
            node.sign_state.pending,
            now,
        ));
        lemma_interval_first(
            pruned.sign_state.refreshes,
            inputs,
            now,
            node.params.refresh_min_interval_secs,
            0,
            i,
        );
    }
}

/// An accepted refresh that is no repetition marks every coin that it spends and every
/// coin that it creates.
pub proof fn an_accepted_refresh_marks_its_coins(
    node: NodeView,
    request: RefreshRequestView,
    facts: RefreshFacts,
    coin: OutPoint,
)
    requires
        accepts(refresh_run(node, request, facts).1),
        ({
            let now = node.sign_state.coord_nonces.effective_now(facts.reopen_at);
            &&& refresh_reopened(node, request, facts.reopen_at) matches Ok(job)
            &&& !acceptance_on_file(
                node.sign_state.replay,
                refresh_key(job, facts.id@),
                facts.id@,
                now,
            )
            &&& touches(job.refresh, coin)
        }),
    ensures
        marked(
            refresh_run(node, request, facts).0,
            coin,
            node.sign_state.coord_nonces.effective_now(facts.reopen_at),
        ),
{
    reveal(refresh_run);
    let fetched = prefetched(
        node,
        request.refresh_psbt,
        "refresh"@,
        chain_answer_view(facts.chain),
    );
    let job = refresh_reopened(node, request, facts.reopen_at)->Ok_0;
    let (pruned, found) = refresh_looked_up(node, job, facts.id@);
    lemma_truth_refuses(job.refresh, fetched);
    lemma_signature_refuses(node.keys, job.refresh, 0);
    lemma_interval(
        pruned.sign_state.refreshes,
        job.refresh.unsigned_tx.input,
        job.now,
        node.params.refresh_min_interval_secs,
        0,
    );
    assert(found is Ok);
    assert(refresh_judged(
        pruned,
        request,
        job,
        facts.id@,
        facts.carrier@,
        fetched,
        facts.policy@,
    ).1 is Ok);
}

proof fn lemma_classed_marks(
    node: NodeView,
    request: SignRequestView,
    job: SignJobView,
    pair: SpendPairView,
    key: Seq<char>,
    c: Classification,
    escape_fetch: Option<PrevoutFetchView>,
    facts: SignFacts,
)
    ensures
        classed_run(
            node,
            request,
            job,
            pair,
            key,
            c,
            escape_fetch,
            facts,
        ).0.sign_state.refreshes == node.sign_state.refreshes,
{
}

/// Whether the refreshes that `after` remembers are those of `before`, or those of them
/// that still count at `now`.
pub open spec fn at_most_pruned(before: NodeView, after: NodeView, now: u64) -> bool {
    ||| after.sign_state.refreshes == before.sign_state.refreshes
    ||| after.sign_state.refreshes == refreshed_within(
        before.sign_state.refreshes,
        now,
        before.params.refresh_min_interval_secs,
    )
}

proof fn lemma_opened_marks(
    node: NodeView,
    request: SignRequestView,
    job: SignJobView,
    pair: SpendPairView,
    fetched: (Option<PrevoutFetchView>, Option<PrevoutFetchView>),
    facts: SignFacts,
)
    ensures
        at_most_pruned(
            node,
            opened_run(node, request, job, pair, fetched, facts).0,
            job.now,
        ),
{
    reveal(opened_run);
    let ids = facts.ids@;
    let (n1, found) = looked_up(node, request, job, pair, ids, fetched);
    if let Ok(key) = found {
        let (n2, class) = judged(n1, request, job, pair, ids, fetched.0, facts.spend_policy@);
        if let Ok(c) = class {
            lemma_classed_marks(n2, request, job, pair, key, c, fetched.1, facts);
        }
    }
}

proof fn lemma_admitted_marks(
    node: NodeView,
    request: SignRequestView,
    job: SignJobView,
    facts: SignFacts,
)
    ensures
        at_most_pruned(
            node,
            admitted_run(node, request, job, facts).0,
            node.sign_state.coord_nonces.effective_now(facts.reopen_at),
        ),
{
    reveal(admitted_run);
    reveal(charged_run);
    let verdict = effective_verdict(facts.compared, request.pin, node.params.max_pin_bytes);
    let armed = armed_job(node, job, verdict, facts.carrier@, facts.commit_at);
    let (n1, j1) = committed(counted(node, verdict), request, armed, facts.upgrade);
    if let Ok(j1) = j1 {
        let (n2, j2) = charged(n1, request, j1, facts.charge);
        if let Ok(j2) = j2 {
            let (n3, j3) = reopened(n2, request, j2, facts.reopen_at);
            if let Ok((j3, pair)) = j3 {
                lemma_opened_marks(
                    n3,
                    request,
                    j3,
                    pair,
                    fetched_coins(n3, request, facts),
                    facts,
                );
            }
        }
    }
}

/// Something that a node did: it handled a spend or a refresh, whose entrance left the
/// nonce log `nonces`, or anything else that leaves alone how the node was sealed and
/// which refreshes it remembers.
pub enum Handled {
    Spend { request: SignRequest, facts: SignFacts, nonces: NonceLogView },
    Refresh { refresh: RefreshRequest, answers: RefreshFacts, nonces: NonceLogView },
    Else { after: NodeView },
}

impl Handled {
    /// Whether `node` can have done this.
    pub open spec fn possible(self, node: NodeView) -> bool {
        match self {
            Handled::Spend { request, facts, nonces } => nonces_after(
                node,
                &request,
                facts.at,
                nonces,
            ),
            Handled::Refresh { refresh, answers, nonces } => refresh_nonces_after(
                node,
                &refresh,
                answers.at,
                nonces,
            ),
            Handled::Else { after } => after.params == node.params && after.sign_state.refreshes
                == node.sign_state.refreshes,
        }
    }

    /// The node once it has done this.
    pub open spec fn after(self, node: NodeView) -> NodeView {
        match self {
            Handled::Spend { request, facts, nonces } => sign_run(node, &request, facts, nonces).0,
            Handled::Refresh { refresh, answers, nonces } => refresh_whole_run(
                node,
                &refresh,
                answers,
                nonces,
            ).0,
            Handled::Else { after } => after,
        }
    }

    /// Whether the time that a request is held against once its transactions are read lies
    /// within the minimum interval from `since` on.
    pub open spec fn timely(self, node: NodeView, since: u64) -> bool {
        match self {
            Handled::Spend { facts, nonces, .. } => within(
                node,
                since,
                nonces.effective_now(facts.reopen_at),
            ),
            Handled::Refresh { answers, nonces, .. } => within(
                node,
                since,
                nonces.effective_now(answers.reopen_at),
            ),
            Handled::Else { .. } => true,
        }
    }
}

/// A mark outlasts every request that is handled within the interval: the coin stays
/// marked, with the same time or a later one. No request changes the interval.
pub proof fn a_request_keeps_marks(node: NodeView, done: Handled, coin: OutPoint, since: u64)
    requires
        done.possible(node),
        done.timely(node, since),
        marked(node, coin, since),
    ensures
        marked(done.after(node), coin, since),
        done.after(node).params == node.params,
{
    match done {
        Handled::Spend { request, facts, nonces } => {
            let passed = with_nonces(after_ingress(node, &request, facts.at), nonces);
            let job = admitted_job(node, &request, facts.at);
            lemma_admitted_frame(passed, request@, job, facts);
            lemma_admitted_marks(passed, request@, job, facts);
        },
        Handled::Refresh { refresh, answers, nonces } => {
            let passed = with_nonces(node, nonces);
            lemma_refresh_frame(passed, refresh@, answers);
            reveal(refresh_run);
            if let Ok(job) = refresh_reopened(passed, refresh@, answers.reopen_at) {
                let (pruned, found) = refresh_looked_up(passed, job, answers.id@);
                assert(marked(pruned, coin, since));
            }
        },
        Handled::Else { .. } => {},
    }
}

/// The node once it has done all of `history`, in order.
pub open spec fn after_all(node: NodeView, history: Seq<Handled>) -> NodeView
    decreases history.len(),
{
    if history.len() == 0 {
        node
    } else {
        history.last().after(after_all(node, history.drop_last()))
    }
}

/// Whether `node` can have done all of `history`, every request of it within the minimum
/// interval from `since` on.
pub open spec fn all_timely(node: NodeView, history: Seq<Handled>, since: u64) -> bool
    decreases history.len(),
{
    history.len() == 0 || {
        let before = after_all(node, history.drop_last());
        &&& all_timely(node, history.drop_last(), since)
        &&& history.last().possible(before)
        &&& history.last().timely(before, since)
    }
}

proof fn lemma_history_keeps_marks(
    node: NodeView,
    history: Seq<Handled>,
    coin: OutPoint,
    since: u64,
)
    requires
        all_timely(node, history, since),
        marked(node, coin, since),
    ensures
        marked(after_all(node, history), coin, since),
        after_all(node, history).params == node.params,
    decreases history.len(),
{
    if history.len() > 0 {
        lemma_history_keeps_marks(node, history.drop_last(), coin, since);
        a_request_keeps_marks(
            after_all(node, history.drop_last()),
            history.last(),
            coin,
            since,
        );
    }
}

/// A refreshed coin rests. Once a refresh is accepted, and whatever requests the node
/// handles meanwhile, no other refresh that spends a coin it spent or created is accepted
/// before the minimum interval is over: one that nothing else stops is told that it comes
/// too soon. So a chain of refreshes, each of which spends what the last one made, is no
/// faster than refreshes of one coin.
pub proof fn a_refreshed_coin_rests(
    node: NodeView,
    first: &RefreshRequest,
    first_facts: RefreshFacts,
    first_nonces: NonceLogView,
    history: Seq<Handled>,
    next: &RefreshRequest,
    next_facts: RefreshFacts,
    next_nonces: NonceLogView,
    coin: OutPoint,
)
    requires
        accepts(refresh_whole_run(node, first, first_facts, first_nonces).1),
        ({
            let passed = with_nonces(node, first_nonces);
            let since = first_nonces.effective_now(first_facts.reopen_at);
            let later = after_all(
                refresh_whole_run(node, first, first_facts, first_nonces).0,
                history,
            );
            let entered = with_nonces(later, next_nonces);
            let now = next_nonces.effective_now(next_facts.reopen_at);
            &&& refresh_reopened(passed, first@, first_facts.reopen_at) matches Ok(job)
            &&& !acceptance_on_file(
                passed.sign_state.replay,
                refresh_key(job, first_facts.id@),
                first_facts.id@,
                since,
            )
            &&& touches(job.refresh, coin)
            &&& all_timely(
                refresh_whole_run(node, first, first_facts, first_nonces).0,
                history,
                since,
            )
            &&& within(node, since, now)
            &&& refresh_reopened(entered, next@, next_facts.reopen_at) matches Ok(other)
            &&& spends(other.refresh.unsigned_tx.input, coin)
            &&& !acceptance_on_file(
                entered.sign_state.replay,
                refresh_key(other, next_facts.id@),
                next_facts.id@,
                now,
            )
        }),
    ensures
        ({
            let later = after_all(
                refresh_whole_run(node, first, first_facts, first_nonces).0,
                history,
            );
            let entered = with_nonces(later, next_nonces);
            let other = refresh_reopened(entered, next@, next_facts.reopen_at)->Ok_0;
            let fetched = prefetched(
                entered,
                next@.refresh_psbt,
                "refresh"@,
                chain_answer_view(next_facts.chain),
            );
            let answer = refresh_whole_run(later, next, next_facts, next_nonces).1;
            &&& !accepts(answer)
            &&& refresh_entry_answer(later, next, next_facts.at) is None
                && refresh_looked_up(entered, other, next_facts.id@).1 is Ok
                && refresh_content_refusal(entered, other, fetched, next_facts.policy@) is None
                && !spend_comes_first(entered, other.now) ==> (answer matches Ok(v) && (
            v matches SignResponseView::Refusal(r) && r.code == RefusalCode::RefreshTooSoon
                && r.check == "refresh_min_interval"@))
        }),
{
    let passed = with_nonces(node, first_nonces);
    let since = first_nonces.effective_now(first_facts.reopen_at);
    let after = refresh_whole_run(node, first, first_facts, first_nonces).0;
    let later = after_all(after, history);
    let entered = with_nonces(later, next_nonces);
    an_accepted_refresh_marks_its_coins(passed, first@, first_facts, coin);
    lemma_refresh_frame(passed, first@, first_facts);
    lemma_history_keeps_marks(after, history, coin, since);
    a_marked_coin_rests(entered, next@, next_facts, coin, since);
}

} // verus!
