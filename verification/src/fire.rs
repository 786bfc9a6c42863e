//! The fire pass: what is due, which rung of an armed escape goes out, and what
//! becomes of a candidate that the federation has finished.

use vstd::prelude::*;

use crate::codec::{compute_txid, raw_transaction_id, raw_txid, transaction_id};
use crate::ladder::{maximum_finalized_vsize_for, vsize_bound};
use crate::node::{Node, NodeParams, NodeView};
use crate::order::{ascending, in_order};
use crate::proto::{TaggedRequest, TaggedRequestView};
use crate::registry::{Errand, ErrandView};
use crate::replay::{pending_at, SignStateView};
use crate::sweep::{
    first_where, rung_objection, select_escape_rung, sweep_env, sweep_rung_admissible, texted,
    ScoredLadder, ScoredLadderView, SweepEnv, SweepFacts,
};
use crate::table::texts;
use crate::text::{owned, push_txid, txid_text};
use crate::tx::{same_txid, Transaction, TransactionView};

verus! {

/// The start of a fire pass. A node without peers has nothing to fire. Any other has
/// its channel prune first, before the deadline is looked at.
pub fn fire_begin(node: &mut Node, now: u64) -> (fires: bool)
    ensures
        fires == old(node)@.channel is Some,
        final(node)@ == if fires {
            NodeView {
                errands: old(node)@.errands.push(ErrandView::PruneStore { now }),
                ..old(node)@
            }
        } else {
            old(node)@
        },
{
    if node.channel.is_none() {
        return false;
    }
    node.tell(Errand::PruneStore { now });
    true
}

/// The fire pass once the deadline has been looked at: the node locks down if it is due,
/// and goes by the spends it holds.
pub fn fire_held(node: &mut Node, now: u64, lockdown_due: bool) -> (ids: Vec<String>)
    ensures
        texts(ids@).no_duplicates(),
        texts(ids@).to_set() == pending_at(old(node)@.sign_state.pending, now).dom(),
        final(node)@ == (NodeView {
            lockdown: old(node)@.lockdown || (old(node)@.channel is Some && lockdown_due),
            ..old(node)@
        }),
{
    node.lockdown_tick(lockdown_due);
    node.sign_state.pending.ids(now)
}

/// The spends of `held` that `pollable` marks.
pub open spec fn polled(held: Seq<Seq<char>>, pollable: Seq<bool>) -> Set<Seq<char>> {
    Set::new(
        |id: Seq<char>|
            exists|i: int|
                0 <= i < held.len() && i < pollable.len() && pollable[i] && #[trigger] held[i] == id,
    )
}

/// What the pass goes through, in order and each once: what the channel says is due,
/// and the spends held whose settlement is to be looked at.
pub fn fire_due(due: Vec<String>, held: &Vec<String>, pollable: &Vec<bool>) -> (list: Vec<String>)
    ensures
        ascending(texts(list@)),
        texts(list@).to_set() == texts(due@).to_set().union(polled(texts(held@), pollable@)),
{
    let ghost before = texts(due@);
    let mut all = due;
    let mut i: usize = 0;
    assert(texts(all@).to_set() =~= before.to_set().union(
        polled(texts(held@).take(0), pollable@),
    ));
    while i < held.len() && i < pollable.len()
        invariant
            i <= held.len(),
            i <= pollable.len(),
            texts(all@).to_set() == before.to_set().union(
                polled(texts(held@).take(i as int), pollable@),
            ),
        decreases held.len() - i,
    {
        let ghost listed = texts(all@);
        if pollable[i] {
            all.push(held[i].clone());
            assert(texts(all@) =~= listed.push(held@[i as int]@));
        }
        proof {
            let then = texts(held@).take(i as int);
            let now = texts(held@).take(i + 1);
            assert forall|id: Seq<char>| texts(all@).to_set().contains(id) == before.to_set().union(
                polled(now, pollable@),
            ).contains(id) by {
                lemma_polled_grows(texts(held@), pollable@, i as int, id);
                if pollable@[i as int] {
                    lemma_push_member(listed, held@[i as int]@, id);
                }
                assert(listed.to_set().contains(id) == before.to_set().union(
                    polled(then, pollable@),
                ).contains(id));
            }
            assert(texts(all@).to_set() =~= before.to_set().union(polled(now, pollable@)));
        }
        i += 1;
    }
    proof {
        assert(polled(texts(held@).take(i as int), pollable@) =~= polled(texts(held@), pollable@))
            by {
            assert forall|id: Seq<char>|
                polled(texts(held@).take(i as int), pollable@).contains(id) == polled(
                    texts(held@),
                    pollable@,
                ).contains(id) by {
                let h = texts(held@);
                if polled(h, pollable@).contains(id) {
                    let k = choose|k: int|
                        0 <= k < h.len() && k < pollable@.len() && pollable@[k] && #[trigger] h[k]
                            == id;
                    assert(h.take(i as int)[k] == id);
                }
                if polled(h.take(i as int), pollable@).contains(id) {
                    let k = choose|k: int|
                        0 <= k < h.take(i as int).len() && k < pollable@.len() && pollable@[k]
                            && #[trigger] h.take(i as int)[k] == id;
                    assert(h[k] == id);
                }
            }
        }
    }
    in_order(&all)
}

proof fn lemma_push_member(list: Seq<Seq<char>>, new: Seq<char>, id: Seq<char>)
    ensures
        list.push(new).to_set().contains(id) == (list.to_set().contains(id) || id == new),
{
    if list.contains(id) {
        let k = choose|k: int| 0 <= k < list.len() && list[k] == id;
        assert(list.push(new)[k] == id);
    }
    assert(list.push(new)[list.len() as int] == new);
}

proof fn lemma_polled_grows(held: Seq<Seq<char>>, pollable: Seq<bool>, i: int, id: Seq<char>)
    requires
        0 <= i < held.len(),
        i < pollable.len(),
    ensures
        polled(held.take(i + 1), pollable).contains(id) == (polled(held.take(i), pollable).contains(
            id,
        ) || (pollable[i] && held[i] == id)),
{
    let then = held.take(i);
    let now = held.take(i + 1);
    if polled(then, pollable).contains(id) {
        let k = choose|k: int|
            0 <= k < then.len() && k < pollable.len() && pollable[k] && #[trigger] then[k] == id;
        assert(now[k] == id);
    }
    if pollable[i] && held[i] == id {
        assert(now[i] == id);
    }
    if polled(now, pollable).contains(id) {
        let k = choose|k: int|
            0 <= k < now.len() && k < pollable.len() && pollable[k] && #[trigger] now[k] == id;
        if k < i {
            assert(then[k] == id);
        }
    }
}

/// Whether the node's own signatures on a due candidate may go out: an armed escape
/// must have been judged in this pass.
pub fn may_release(armed_escape: bool, judged: bool) -> (yes: bool)
    ensures
        yes == (armed_escape ==> judged),
{
    !armed_escape || judged
}

/// The ids of the rungs.
pub open spec fn rung_ids(rungs: Seq<TransactionView>) -> Seq<[u8; 32]> {
    rungs.map_values(|t: TransactionView| transaction_id(t))
}

/// Which rung of the ladder the mempool holds, by id. `found` is what the mempool
/// returned for the ladder: an id and the transaction's bytes.
pub open spec fn resident_id(
    rungs: Option<Seq<TransactionView>>,
    found: Result<Option<([u8; 32], Seq<u8>)>, Seq<char>>,
) -> Result<Option<[u8; 32]>, Seq<char>> {
    match (rungs, found) {
        (None, _) => Ok(None),
        (Some(_), Err(e)) => Err(e),
        (Some(_), Ok(None)) => Ok(None),
        (Some(rungs), Ok(Some((expected, raw)))) => if !rung_ids(rungs).contains(expected) {
            Err(
                "mempool lookup returned "@ + txid_text(expected@)
                    + ", which is not a rung of this escape's ladder"@,
            )
        } else {
            match raw_transaction_id(raw) {
                Err(e) => Err(
                    "mempool escape rung "@ + txid_text(expected@) + " is malformed: "@ + e,
                ),
                Ok(txid) => if txid == expected {
                    Ok(Some(expected))
                } else {
                    Err(
                        "mempool lookup for escape rung "@ + txid_text(expected@)
                            + " returned transaction "@ + txid_text(txid@),
                    )
                },
            }
        },
    }
}

/// What the mempool returned for a ladder.
pub type MempoolAnswer = Result<Option<([u8; 32], Vec<u8>)>, String>;

/// The contents of `answer`.
pub open spec fn mempool_view(answer: MempoolAnswer) -> Result<
    Option<([u8; 32], Seq<u8>)>,
    Seq<char>,
> {
    match answer {
        Ok(Some((txid, raw))) => Ok(Some((txid, raw@))),
        Ok(None) => Ok(None),
        Err(e) => Err(e@),
    }
}

/// The transactions in `rungs`, if there are any.
pub open spec fn rungs_view(rungs: Option<Vec<Transaction>>) -> Option<Seq<TransactionView>> {
    match rungs {
        Some(r) => Some(r@.map_values(|t: Transaction| t@)),
        None => None,
    }
}

fn position_of(txids: &Vec<[u8; 32]>, txid: &[u8; 32]) -> (at: Option<usize>)
    ensures
        match at {
            Some(i) => i < txids.len() && txids@[i as int] == *txid && forall|k: int|
                0 <= k < i ==> txids@[k] != *txid,
            None => !txids@.contains(*txid),
        },
{
    let mut i: usize = 0;
    while i < txids.len()
        invariant
            i <= txids.len(),
            forall|k: int| 0 <= k < i ==> txids@[k] != *txid,
        decreases txids.len() - i,
    {
        if same_txid(&txids[i], txid) {
            return Some(i);
        }
        i += 1;
    }
    None
}

fn ids_of(rungs: &Vec<Transaction>) -> (ids: Vec<[u8; 32]>)
    ensures
        ids@ == rung_ids(rungs@.map_values(|t: Transaction| t@)),
{
    let mut ids: Vec<[u8; 32]> = Vec::new();
    let mut i: usize = 0;
    while i < rungs.len()
        invariant
            i <= rungs.len(),
            ids.len() == i,
            forall|k: int| 0 <= k < i ==> ids@[k] == transaction_id((#[trigger] rungs@[k])@),
        decreases rungs.len() - i,
    {
        ids.push(compute_txid(&rungs[i]));
        i += 1;
    }
    assert(ids@ =~= rung_ids(rungs@.map_values(|t: Transaction| t@)));
    ids
}

/// Which rung of the ladder the mempool holds. A reply that names none of the ladder's
/// transactions, or brings another than it names, is a complaint.
pub fn mempool_escape_rung(rungs: &Option<Vec<Transaction>>, answer: &MempoolAnswer) -> (out: Result<
    Option<[u8; 32]>,
    String,
>)
    ensures
        texted(out) == resident_id(rungs_view(*rungs), mempool_view(*answer)),
{
    let rungs = match rungs {
        Some(rungs) => rungs,
        None => return Ok(None),
    };
    let (expected, raw) = match answer {
        Ok(Some((expected, raw))) => (expected, raw),
        Ok(None) => return Ok(None),
        Err(e) => return Err(e.clone()),
    };
    let ids = ids_of(rungs);
    if position_of(&ids, expected).is_none() {
        let mut text = owned("mempool lookup returned ");
        push_txid(&mut text, expected.as_slice());
        text.append(", which is not a rung of this escape's ladder");
        return Err(text);
    }
    match raw_txid(raw.as_slice()) {
        Err(e) => {
            let mut text = owned("mempool escape rung ");
            push_txid(&mut text, expected.as_slice());
            text.append(" is malformed: ");
            text.append(e.as_str());
            Err(text)
        },
        Ok(txid) => {
            if same_txid(&txid, expected) {
                return Ok(Some(*expected));
            }
            let mut text = owned("mempool lookup for escape rung ");
            push_txid(&mut text, expected.as_slice());
            text.append(" returned transaction ");
            push_txid(&mut text, txid.as_slice());
            Err(text)
        },
    }
}

/// Whether a transaction is in the mempool or confirmed; the mempool is asked first.
pub open spec fn settled(
    mempool: Result<bool, Seq<char>>,
    confirmed: Result<bool, Seq<char>>,
) -> Result<bool, Seq<char>> {
    match mempool {
        Err(e) => Err(e),
        Ok(true) => Ok(true),
        Ok(false) => confirmed,
    }
}

/// Whether a transaction is in the mempool or confirmed.
pub fn transaction_is_settled(
    in_mempool: Result<bool, String>,
    confirmed: Result<bool, String>,
) -> (out: Result<bool, String>)
    ensures
        texted(out) == settled(texted(in_mempool), texted(confirmed)),
{
    match in_mempool {
        Err(e) => Err(e),
        Ok(true) => Ok(true),
        Ok(false) => confirmed,
    }
}

/// Where the network stands with an armed escape.
#[derive(Clone, Copy, Debug, PartialEq, Eq)]
pub enum ArmedEscapeState {
    /// This rung is confirmed.
    Confirmed([u8; 32]),
    /// A rung at least as high as the latched one is in the mempool.
    InMempoolAtOrAboveLatch,
    Absent,
}

/// Where the network stands, from rung `i` on: the first rung that is confirmed, or
/// whose state cannot be read, decides.
pub open spec fn network_state(
    txids: Seq<[u8; 32]>,
    confirmed: Seq<Result<bool, Seq<char>>>,
    latched: nat,
    resident: Option<[u8; 32]>,
    i: int,
) -> Result<ArmedEscapeState, Seq<char>>
    decreases txids.len() - i,
{
    if i < txids.len() {
        match confirmed[i] {
            Err(e) => Err(e),
            Ok(true) => Ok(ArmedEscapeState::Confirmed(txids[i])),
            Ok(false) => network_state(txids, confirmed, latched, resident, i + 1),
        }
    } else {
        match resident {
            Some(r) => match first_where(|k: int| txids[k] == r, 0, txids.len() as int) {
                Some(rung) if rung >= latched => Ok(ArmedEscapeState::InMempoolAtOrAboveLatch),
                _ => Ok(ArmedEscapeState::Absent),
            },
            None => Ok(ArmedEscapeState::Absent),
        }
    }
}

/// The answers in `confirmed`.
pub open spec fn answer_texts(confirmed: Seq<Result<bool, String>>) -> Seq<Result<bool, Seq<char>>> {
    confirmed.map_values(|r: Result<bool, String>| texted(r))
}

proof fn lemma_first_position(txids: Seq<[u8; 32]>, txid: [u8; 32], from: int, at: Option<int>)
    requires
        0 <= from <= txids.len(),
        match at {
            Some(i) => from <= i < txids.len() && txids[i] == txid && forall|k: int|
                from <= k < i ==> txids[k] != txid,
            None => forall|k: int| from <= k < txids.len() ==> txids[k] != txid,
        },
    ensures
        first_where(|k: int| txids[k] == txid, from, txids.len() as int) == at,
    decreases txids.len() - from,
{
    if from < txids.len() && at != Some(from) {
        lemma_first_position(txids, txid, from + 1, at);
    }
}

/// Where the network stands with an armed escape. `confirmed` answers for each rung.
pub fn armed_escape_network_state(
    rung_txids: &Vec<[u8; 32]>,
    confirmed: &Vec<Result<bool, String>>,
    latched: usize,
    resident: &Option<[u8; 32]>,
) -> (out: Result<ArmedEscapeState, String>)
    requires
        confirmed.len() == rung_txids.len(),
    ensures
        texted(out) == network_state(
            rung_txids@,
            answer_texts(confirmed@),
            latched as nat,
            *resident,
            0,
        ),
{
    let ghost answers = answer_texts(confirmed@);
    let mut i: usize = 0;
    while i < rung_txids.len()
        invariant
            i <= rung_txids.len(),
            confirmed.len() == rung_txids.len(),
            answers == answer_texts(confirmed@),
            network_state(rung_txids@, answers, latched as nat, *resident, 0) == network_state(
                rung_txids@,
                answers,
                latched as nat,
                *resident,
                i as int,
            ),
        decreases rung_txids.len() - i,
    {
        assert(answers[i as int] == texted(confirmed@[i as int]));
        match &confirmed[i] {
            Err(e) => return Err(e.clone()),
            Ok(true) => return Ok(ArmedEscapeState::Confirmed(rung_txids[i])),
            Ok(false) => {},
        }
        i += 1;
    }
    if let Some(r) = resident {
        let at = position_of(rung_txids, r);
        proof {
            let shown: Option<int> = match at {
                Some(i) => Some(i as int),
                None => None,
            };
            lemma_first_position(rung_txids@, *r, 0, shown);
        }
        if let Some(rung) = at {
            if rung >= latched {
                return Ok(ArmedEscapeState::InMempoolAtOrAboveLatch);
            }
        }
    }
    Ok(ArmedEscapeState::Absent)
}

/// The largest size of each rung once finished, or the first complaint.
pub open spec fn rung_sizes(max_satisfaction: u64, rungs: Seq<TransactionView>) -> Result<
    Seq<u64>,
    Seq<char>,
>
    decreases rungs.len(),
{
    if rungs.len() == 0 {
        Ok(Seq::empty())
    } else {
        match rung_sizes(max_satisfaction, rungs.drop_last()) {
            Err(e) => Err(e),
            Ok(sizes) => match vsize_bound(max_satisfaction, rungs.last()) {
                Err(e) => Err(e),
                Ok(size) => Ok(sizes.push(size)),
            },
        }
    }
}

/// Whether each rung may fire.
pub open spec fn rung_scores(
    params: NodeParams,
    env: SweepEnv,
    rungs: Seq<TransactionView>,
    sizes: Seq<u64>,
    pays_escape: Seq<Option<Seq<bool>>>,
) -> Seq<Result<(), Seq<char>>> {
    Seq::new(
        rungs.len(),
        |i: int|
            match rung_objection(params, env, rungs[i], sizes[i], pays_escape[i]) {
                Some(e) => Err(e),
                None => Ok(()),
            },
    )
}

/// The rung to fire an armed escape at.
#[derive(Clone, Copy, Debug, PartialEq, Eq, Structural)]
pub struct SweepPlan {
    pub selected: usize,
    pub target: u64,
    pub required: u64,
    /// The lowest rung whose signatures may go out with the selected one.
    pub lowest_admissible: usize,
}

/// The plan as numbers.
pub open spec fn plan_numbers(plan: SweepPlan) -> (int, u64, u64, int) {
    (plan.selected as int, plan.target, plan.required, plan.lowest_admissible as int)
}

/// The rung to fire an armed escape at, or why none may.
pub open spec fn sweep_plan(
    params: NodeParams,
    env: SweepEnv,
    rungs: Seq<TransactionView>,
    pays_escape: Seq<Option<Seq<bool>>>,
    reading: Result<Option<u64>, Seq<char>>,
    latch: int,
) -> Result<(int, u64, u64, int), Seq<char>> {
    if rungs.len() == 0 {
        Err("armed escape candidate context is unavailable"@)
    } else {
        match rung_sizes(params.max_vault_satisfaction_weight, rungs) {
            Err(e) => Err(e),
            Ok(sizes) => {
                let admissible = rung_scores(params, env, rungs, sizes, pays_escape);
                let ladder = ScoredLadderView {
                    rungs,
                    maximum_vsizes: sizes,
                    admissible,
                    total_in: env.total_in,
                };
                match ladder.selection(params.escape_feerate_floor, reading, latch) {
                    Err(e) => Err(e),
                    Ok((selected, target, required)) => {
                        let lowest = match first_where(
                            |r: int| admissible[r] is Ok,
                            0,
                            rungs.len() as int,
                        ) {
                            Some(r) if r < selected => r,
                            _ => selected,
                        };
                        Ok((selected, target, required, lowest))
                    },
                }
            },
        }
    }
}

proof fn lemma_size_error_stays(max_satisfaction: u64, rungs: Seq<TransactionView>, i: int)
    requires
        0 <= i <= rungs.len(),
        rung_sizes(max_satisfaction, rungs.take(i)) is Err,
    ensures
        rung_sizes(max_satisfaction, rungs) == rung_sizes(max_satisfaction, rungs.take(i)),
    decreases rungs.len(),
{
    if i < rungs.len() {
        assert(rungs.drop_last().take(i) =~= rungs.take(i));
        lemma_size_error_stays(max_satisfaction, rungs.drop_last(), i);
    } else {
        assert(rungs.take(i) =~= rungs);
    }
}

fn sizes_of(max_satisfaction: u64, rungs: &Vec<Transaction>) -> (out: Result<Vec<u64>, String>)
    ensures
        match out {
            Ok(sizes) => {
                &&& rung_sizes(max_satisfaction, rungs@.map_values(|t: Transaction| t@))
                    == Result::<Seq<u64>, Seq<char>>::Ok(sizes@)
                &&& sizes.len() == rungs.len()
            },
            Err(e) => rung_sizes(max_satisfaction, rungs@.map_values(|t: Transaction| t@))
                == Result::<Seq<u64>, Seq<char>>::Err(e@),
        },
{
    let ghost views = rungs@.map_values(|t: Transaction| t@);
    let mut sizes: Vec<u64> = Vec::new();
    let mut i: usize = 0;
    assert(views.take(0) =~= Seq::<TransactionView>::empty());
    while i < rungs.len()
        invariant
            i <= rungs.len(),
            views == rungs@.map_values(|t: Transaction| t@),
            sizes.len() == i,
            rung_sizes(max_satisfaction, views.take(i as int)) == Result::<
                Seq<u64>,
                Seq<char>,
            >::Ok(sizes@),
        decreases rungs.len() - i,
    {
        proof {
            let here = views.take(i + 1);
            assert(here.drop_last() =~= views.take(i as int));
            assert(here.last() == rungs@[i as int]@);
        }
        match maximum_finalized_vsize_for(max_satisfaction, &rungs[i]) {
            Ok(size) => sizes.push(size),
            Err(e) => {
                proof {
                    lemma_size_error_stays(max_satisfaction, views, i + 1);
                }
                return Err(e);
            },
        }
        i += 1;
    }
    assert(views.take(i as int) =~= views);
    Ok(sizes)
}

/// Which outputs pay the escape wallet, rung by rung.
pub open spec fn mark_views(marks: Seq<Option<Vec<bool>>>) -> Seq<Option<Seq<bool>>> {
    marks.map_values(
        |m: Option<Vec<bool>>|
            match m {
                Some(m) => Some(m@),
                None => None,
            },
    )
}

/// Picks the rung to fire an armed escape at, before any signature on it goes out:
/// every rung is sized and judged, and the choice never falls below the latch.
pub fn plan_sweep(
    params: &NodeParams,
    env: &SweepEnv,
    rungs: &Vec<Transaction>,
    pays_escape: &Vec<Option<Vec<bool>>>,
    reading: Result<Option<u64>, String>,
    latch: usize,
) -> (out: Result<SweepPlan, String>)
    requires
        pays_escape.len() == rungs.len(),
    ensures
        ({
            let plan = sweep_plan(
                *params,
                *env,
                rungs@.map_values(|t: Transaction| t@),
                mark_views(pays_escape@),
                texted(reading),
                latch as int,
            );
            match out {
                Ok(p) => plan == Result::<(int, u64, u64, int), Seq<char>>::Ok(plan_numbers(p)),
                Err(e) => plan == Result::<(int, u64, u64, int), Seq<char>>::Err(e@),
            }
        }),
{
    if rungs.len() == 0 {
        return Err(owned("armed escape candidate context is unavailable"));
    }
    let ghost views = rungs@.map_values(|t: Transaction| t@);
    let ghost marks = mark_views(pays_escape@);
    let sizes = match sizes_of(params.max_vault_satisfaction_weight, rungs) {
        Ok(sizes) => sizes,
        Err(e) => return Err(e),
    };
    let ghost scores = rung_scores(*params, *env, views, sizes@, marks);
    let mut admissible: Vec<Result<(), String>> = Vec::new();
    let mut i: usize = 0;
    while i < rungs.len()
        invariant
            i <= rungs.len(),
            rungs.len() == pays_escape.len(),
            rungs.len() == sizes.len(),
            views == rungs@.map_values(|t: Transaction| t@),
            marks == mark_views(pays_escape@),
            scores == rung_scores(*params, *env, views, sizes@, marks),
            admissible.len() == i,
            forall|k: int| 0 <= k < i ==> texted(#[trigger] admissible@[k]) == scores[k],
        decreases rungs.len() - i,
    {
        assert(views[i as int] == rungs@[i as int]@);
        admissible.push(
            sweep_rung_admissible(params, env, &rungs[i], sizes[i], &pays_escape[i]),
        );
        i += 1;
    }
    let ladder = ScoredLadder {
        rungs,
        maximum_vsizes: &sizes,
        admissible: &admissible,
        total_in: env.total_in,
    };
    assert(ladder@.admissible =~= scores);
    let (selected, target, required) = match select_escape_rung(
        params.escape_feerate_floor,
        &ladder,
        reading,
        latch,
    ) {
        Ok(choice) => choice,
        Err(e) => return Err(e),
    };
    let ghost fits = |r: int| scores[r] is Ok;
    let mut lowest: usize = 0;
    while lowest < admissible.len() && admissible[lowest].is_err()
        invariant
            lowest <= admissible.len(),
            admissible.len() == rungs.len(),
            fits == (|r: int| scores[r] is Ok),
            forall|k: int|
                0 <= k < rungs.len() ==> texted(#[trigger] admissible@[k]) == scores[k],
            first_where(fits, 0, rungs.len() as int) == first_where(
                fits,
                lowest as int,
                rungs.len() as int,
            ),
        decreases admissible.len() - lowest,
    {
        assert(texted(admissible@[lowest as int]) == scores[lowest as int]);
        assert(!fits(lowest as int));
        lowest += 1;
    }
    proof {
        if lowest < rungs.len() {
            assert(texted(admissible@[lowest as int]) == scores[lowest as int]);
            assert(fits(lowest as int));
        }
    }
    let lowest_admissible = if lowest < rungs.len() && lowest < selected {
        lowest
    } else {
        selected
    };
    Ok(SweepPlan { selected, target, required, lowest_admissible })
}

/// What the chain and the registry answered about an armed escape before its
/// signatures may go out.
pub struct PreflightFacts {
    /// The rungs of its ladder.
    pub rungs: Option<Vec<Transaction>>,
    /// What the mempool returned for them.
    pub mempool: MempoolAnswer,
    /// What the sweep is measured by. The rung in the mempool and the number of rungs
    /// are filled in from the above.
    pub sweep: SweepFacts,
    /// Which outputs of each rung pay the escape wallet, where the wallet is known.
    pub pays_escape: Vec<Option<Vec<bool>>>,
    /// The bump target, where the chain could be read.
    pub reading: Result<Option<u64>, String>,
    /// The rung latched so far.
    pub latch: usize,
}

/// What a pass knows of an armed escape that it has judged.
#[derive(Clone, Copy, Debug)]
pub struct SweepTick {
    /// The rung in the mempool.
    pub resident: Option<[u8; 32]>,
    pub env: SweepEnv,
    pub plan: SweepPlan,
}

impl PreflightFacts {
    /// The judgement on the armed escape: the rung in the mempool, what it is measured
    /// by, and the rung to fire at; or why it may not fire.
    pub open spec fn judgement(self, node: NodeView) -> Result<
        (Option<[u8; 32]>, SweepEnv, (int, u64, u64, int)),
        Seq<char>,
    > {
        match rungs_view(self.rungs) {
            None => Err("armed escape candidate context is unavailable"@),
            Some(rungs) => if rungs.len() == 0 {
                Err("armed escape candidate context is unavailable"@)
            } else {
                match resident_id(Some(rungs), mempool_view(self.mempool)) {
                    Err(e) => Err("cannot inspect the escape ladder in the mempool: "@ + e),
                    Ok(resident) => {
                        let sweep = SweepFacts {
                            resident,
                            laddered: rungs.len() > 1,
                            ..self.sweep
                        };
                        match sweep.env(node) {
                            Err(e) => Err(e),
                            Ok(env) => match sweep_plan(
                                node.params,
                                env,
                                rungs,
                                mark_views(self.pays_escape@),
                                texted(self.reading),
                                self.latch as int,
                            ) {
                                Err(e) => Err(e),
                                Ok(plan) => Ok((resident, env, plan)),
                            },
                        }
                    },
                }
            },
        }
    }
}

/// Judges an armed escape before any signature on it goes out. The rung it picks is
/// still to be put together with its ancestors and latched: see [`latch_sweep`].
pub fn escape_sweep_pre_release_admissible(node: &Node, facts: PreflightFacts) -> (out:
    Result<SweepTick, String>)
    requires
        facts.rungs matches Some(rungs) ==> facts.pays_escape.len() == rungs.len(),
    ensures
        match out {
            Ok(tick) => facts.judgement(node@) == Result::<
                (Option<[u8; 32]>, SweepEnv, (int, u64, u64, int)),
                Seq<char>,
            >::Ok((tick.resident, tick.env, plan_numbers(tick.plan))),
            Err(e) => facts.judgement(node@) == Result::<
                (Option<[u8; 32]>, SweepEnv, (int, u64, u64, int)),
                Seq<char>,
            >::Err(e@),
        },
{
    let many = match &facts.rungs {
        Some(rungs) => {
            if rungs.len() == 0 {
                return Err(owned("armed escape candidate context is unavailable"));
            }
            rungs.len() > 1
        },
        None => return Err(owned("armed escape candidate context is unavailable")),
    };
    let resident = match mempool_escape_rung(&facts.rungs, &facts.mempool) {
        Ok(resident) => resident,
        Err(e) => {
            let mut text = owned("cannot inspect the escape ladder in the mempool: ");
            text.append(e.as_str());
            return Err(text);
        },
    };
    let mut sweep = facts.sweep;
    sweep.resident = resident;
    sweep.laddered = many;
    let env = match sweep_env(node, &sweep) {
        Ok(env) => env,
        Err(e) => return Err(e),
    };
    match &facts.rungs {
        Some(rungs) => match plan_sweep(
            &node.params,
            &env,
            rungs,
            &facts.pays_escape,
            facts.reading,
            facts.latch,
        ) {
            Ok(plan) => Ok(SweepTick { resident, env, plan }),
            Err(e) => Err(e),
        },
        None => Err(owned("armed escape candidate context is unavailable")),
    }
}

/// The latch of an armed escape after its judgement: whether it has risen, or why the
/// escape may not fire after all. A package that cannot be put together stops it, and
/// so does an escape that is gone.
pub open spec fn latched_sweep(
    assembled: Result<(), Seq<char>>,
    latched: Option<usize>,
    latch: usize,
) -> Result<bool, Seq<char>> {
    match assembled {
        Err(e) => Err("escape package ancestry is inadmissible before release: "@ + e),
        Ok(_) => match latched {
            None => Err("armed escape disappeared while latching its fee rung"@),
            Some(rung) => Ok(rung > latch),
        },
    }
}

/// Takes what came of putting the selected rung's package together and of latching the
/// rung, given the rung latched before. Says whether the latch has risen.
pub fn latch_sweep(assembled: Result<(), String>, latched: Option<usize>, latch: usize) -> (out:
    Result<bool, String>)
    ensures
        texted(out) == latched_sweep(texted(assembled), latched, latch),
{
    if let Err(e) = assembled {
        let mut text = owned("escape package ancestry is inadmissible before release: ");
        text.append(e.as_str());
        return Err(text);
    }
    match latched {
        Some(rung) => Ok(rung > latch),
        None => Err(owned("armed escape disappeared while latching its fee rung")),
    }
}

/// The commitments that are settled together with `id`.
pub open spec fn settled_ids(id: Seq<char>, paired: Option<Seq<char>>, invalidated: Seq<Seq<char>>) ->
    Set<Seq<char>> {
    let own = match paired {
        Some(p) => set![id, p],
        None => set![id],
    };
    own.union(invalidated.to_set())
}

/// The commitment paired with another, if there is one.
pub open spec fn paired_view(paired: Option<String>) -> Option<Seq<char>> {
    match paired {
        Some(p) => Some(p@),
        None => None,
    }
}

/// The node once these spends are no longer held.
pub open spec fn no_longer_held(node: NodeView, ids: Set<Seq<char>>) -> NodeView {
    NodeView {
        sign_state: SignStateView {
            pending: node.sign_state.pending.remove_keys(ids),
            ..node.sign_state
        },
        ..node
    }
}

/// Stops holding a candidate that is settled, its pair, and the hot spends that it
/// made impossible. Says whether any of them was still held.
pub fn settle_candidate(
    node: &mut Node,
    commitment_id: &String,
    paired: &Option<String>,
    invalidated: &Vec<String>,
) -> (any_held: bool)
    ensures
        ({
            let ids = settled_ids(commitment_id@, paired_view(*paired), texts(invalidated@));
            &&& final(node)@ == no_longer_held(old(node)@, ids)
            &&& any_held == exists|id: Seq<char>|
                ids.contains(id) && #[trigger] old(node)@.sign_state.pending.contains_key(id)
        }),
{
    let ghost before = node@;
    let ghost pending = before.sign_state.pending;
    let mut any = node.sign_state.pending.remove(commitment_id);
    let ghost gone = set![commitment_id@];
    assert(node@.sign_state.pending =~= pending.remove_keys(gone));
    let ghost mut done: Set<Seq<char>> = gone;
    if let Some(p) = paired {
        let removed = node.sign_state.pending.remove(p);
        any = any || removed;
        proof {
            done = set![commitment_id@, p@];
            assert(node@.sign_state.pending =~= pending.remove_keys(done));
        }
    }
    let ghost own = done;
    let ghost list = texts(invalidated@);
    let mut i: usize = 0;
    assert(own.union(list.take(0).to_set()) =~= own);
    proof {
        assert(any == exists|id: Seq<char>|
            own.union(list.take(0).to_set()).contains(id) && #[trigger] pending.contains_key(id)) by {
            if any {
                if pending.contains_key(commitment_id@) {
                    assert(own.contains(commitment_id@));
                }
            }
        }
    }
    while i < invalidated.len()
        invariant
            i <= invalidated.len(),
            list == texts(invalidated@),
            pending == before.sign_state.pending,
            node@ == no_longer_held(before, own.union(list.take(i as int).to_set())),
            any == exists|id: Seq<char>|
                own.union(list.take(i as int).to_set()).contains(id)
                    && #[trigger] pending.contains_key(id),
        decreases invalidated.len() - i,
    {
        let ghost then = own.union(list.take(i as int).to_set());
        let ghost was = any;
        let removed = node.sign_state.pending.remove(&invalidated[i]);
        any = any || removed;
        proof {
            let id = list[i as int];
            let now = own.union(list.take(i + 1).to_set());
            assert(list.take(i + 1) =~= list.take(i as int).push(id));
            assert forall|x: Seq<char>| now.contains(x) == (then.contains(x) || x == id) by {
                lemma_push_member(list.take(i as int), id, x);
            }
            assert(node@.sign_state.pending =~= pending.remove_keys(now));
            if any {
                if was {
                    let w = choose|x: Seq<char>| then.contains(x) && #[trigger] pending.contains_key(x);
                    assert(now.contains(w) && pending.contains_key(w));
                } else {
                    assert(now.contains(id) && pending.contains_key(id));
                }
            }
            if exists|x: Seq<char>| now.contains(x) && #[trigger] pending.contains_key(x) {
                let w = choose|x: Seq<char>| now.contains(x) && #[trigger] pending.contains_key(x);
                if then.contains(w) {
                    assert(was);
                } else {
                    assert(w == id);
                    assert(removed);
                }
            }
        }
        i += 1;
    }
    assert(list.take(i as int) =~= list);
    any
}

/// When a request handed on is of no more use: its expiry.
pub open spec fn request_expiry(request: TaggedRequestView) -> u64 {
    match request {
        TaggedRequestView::Spend(spend) => spend.expiry,
        TaggedRequestView::Refresh(refresh) => refresh.expiry,
    }
}

/// A request on its way to the peers, and the time up to which it is tried.
#[derive(Debug)]
pub struct Outbound {
    pub request: TaggedRequest,
    pub deadline: u64,
}

/// Takes what waits in the outbox, each request with the time up to which it is to be
/// tried. A node without peers keeps it.
pub fn propagate_outbox(node: &mut Node) -> (list: Vec<Outbound>)
    ensures
        old(node)@.channel is None ==> list.len() == 0 && final(node)@ == old(node)@,
        old(node)@.channel is Some ==> {
            &&& final(node)@ == (NodeView {
                outbox: Seq::<TaggedRequestView>::empty(),
                ..old(node)@
            })
            &&& list.len() == old(node)@.outbox.len()
            &&& forall|i: int|
                0 <= i < list.len() ==> (#[trigger] list@[i]).request@ == old(node)@.outbox[i]
                    && list@[i].deadline == request_expiry(old(node)@.outbox[i])
        },
{
    let mut list: Vec<Outbound> = Vec::new();
    if node.channel.is_none() {
        return list;
    }
    let ghost waiting = node@.outbox;
    let mut requests = node.take_outbox();
    let ghost all = requests@;
    let total = requests.len();
    let mut taken: usize = 0;
    while requests.len() > 0
        invariant
            taken + requests.len() == total,
            total == all.len(),
            waiting == crate::node::requests(all),
            list.len() == taken,
            forall|k: int| 0 <= k < requests.len() ==> #[trigger] requests@[k] == all[taken + k],
            forall|k: int|
                0 <= k < taken ==> (#[trigger] list@[k]).request@ == waiting[k] && list@[k].deadline
                    == request_expiry(waiting[k]),
        decreases requests.len(),
    {
        let ghost rest = requests@;
        let request = requests.remove(0);
        proof {
            assert(rest[0] == all[taken + 0]);
            assert(waiting[taken as int] == all[taken as int]@);
            assert forall|k: int| 0 <= k < requests.len() implies #[trigger] requests@[k] == all[taken
                + 1 + k] by {
                assert(requests@[k] == rest[k + 1]);
            }
        }
        let deadline = match &request {
            TaggedRequest::Spend(spend) => spend.expiry,
            TaggedRequest::Refresh(refresh) => refresh.expiry,
        };
        list.push(Outbound { request, deadline });
        taken += 1;
    }
    list
}

} // verus!
