//! Laws of what the registry is asked to keep and when it may be broadcast.

use vstd::prelude::*;

use crate::codec::transaction_id;
use crate::ingress::{SignJobView, SpendPairView};
use crate::measures::capped;
use crate::node::NodeView;
use crate::pin::PinVerdict;
use crate::policy::{Classification, PolicyVerdictView, TxClass};
use crate::prevouts::PrevoutFetchView;
use crate::proto::{RefreshRequestView, SignRequestView, SignResponseView, TaggedRequestView};
use crate::refresh::{refresh_judged, refresh_registered, refresh_reopened, RefreshJobView};
use crate::registry::{CandidateRole, RegisterAnswer, RegisterOutcome};
use crate::replay::{recorded, touches};
use crate::signatures::{node_signed, signing_failure};
use crate::silence::accepts;
use crate::spend::{
    bumps_signing_failure, pair_txids, paired, registered, PairIdsView, PairingView,
};
use crate::tx::OutPoint;

verus! {

/// A hot spend is held back: the window of its candidate opens when the hold is over, not
/// before, and stays open for all of the slack that combining takes, within the
/// spend's expiry.
pub proof fn a_hot_spend_waits_out_its_hold(
    node: NodeView,
    request: SignRequestView,
    job: SignJobView,
    p: PairingView,
    reserved: bool,
)
    requires
        p.class.class == TxClass::Hot,
        paired(node, request, job, p, reserved).1 matches Ok(Some(_)),
    ensures
        ({
            let kept = paired(node, request, job, p, reserved).1->Ok_0->0;
            let opens = capped(job.now + node.params.hold_secs);
            &&& kept.specs.len() > 0
            &&& kept.specs[0].role == CandidateRole::Spend
            &&& kept.specs[0].commitment_id == p.ids.spend
            &&& kept.specs[0].hot
            &&& kept.specs[0].fire matches Some(fire)
            &&& fire.fire_at == opens
            &&& fire.fire_at >= job.now
            &&& fire.deadline == capped(opens + node.params.combine_slack_secs)
            &&& fire.fire_at <= fire.deadline <= request.expiry
        }),
{
}

/// A spend to the escape wallet is not held back: the window of its candidate opens at
/// once, and closes after the slack that combining takes or when the spend expires.
pub proof fn an_escape_spend_fires_at_once(
    node: NodeView,
    request: SignRequestView,
    job: SignJobView,
    p: PairingView,
    reserved: bool,
)
    requires
        p.class.class == TxClass::Escape,
        paired(node, request, job, p, reserved).1 matches Ok(Some(_)),
    ensures
        ({
            let kept = paired(node, request, job, p, reserved).1->Ok_0->0;
            let latest = capped(job.now + node.params.combine_slack_secs);
            &&& kept.specs.len() > 0
            &&& kept.specs[0].role == CandidateRole::Spend
            &&& kept.specs[0].commitment_id == p.ids.spend
            &&& !kept.specs[0].hot
            &&& kept.specs[0].fire matches Some(fire)
            &&& fire.fire_at == job.now
            &&& fire.deadline == if latest < request.expiry {
                latest
            } else {
                request.expiry as int
            }
        }),
{
}

/// A refresh is not held back: the window of its candidate opens at the time of the
/// judgement, and closes within the slack that combining takes and no later than the
/// refresh expires.
pub proof fn a_refresh_fires_at_once(
    before: NodeView,
    raw_now: u64,
    node: NodeView,
    request: RefreshRequestView,
    job: RefreshJobView,
    id: Seq<char>,
    carrier: Seq<char>,
    fetched: Option<PrevoutFetchView>,
    policy: PolicyVerdictView,
)
    requires
        refresh_reopened(before, request, raw_now) == Ok::<
            RefreshJobView,
            Result<SignResponseView, Seq<char>>,
        >(job),
        refresh_judged(node, request, job, id, carrier, fetched, policy).1 matches Ok(Some(_)),
    ensures
        ({
            let kept = refresh_judged(
                node,
                request,
                job,
                id,
                carrier,
                fetched,
                policy,
            ).1->Ok_0->0;
            let latest = capped(job.now + node.params.combine_slack_secs);
            &&& kept.specs.len() == 1
            &&& kept.specs[0].commitment_id == id
            &&& kept.specs[0].fire matches Some(fire)
            &&& fire.fire_at == job.now
            &&& fire.fire_at <= fire.deadline <= request.expiry
            &&& fire.deadline == if latest < request.expiry {
                latest
            } else {
                request.expiry as int
            }
        }),
{
}

proof fn lemma_bumps_sign(pair: SpendPairView, node: NodeView, from: int, i: int)
    requires
        0 <= from <= i < pair.bumps.len(),
        bumps_signing_failure(node.keys, pair.bumps, from) is None,
    ensures
        signing_failure(node.keys, pair.bumps[i], 0) is None,
    decreases i - from,
{
    if from < i {
        lemma_bumps_sign(pair, node, from + 1, i);
    }
}

/// A spend is kept together with its escape, both under their own names and each naming
/// the other, and with all of the escape's bumps; the node has signed every one of these
/// transactions. The escape has no window of its own, none of the two counts as
/// confirmed by the holders, and both expire with the request. The escape is armed for
/// this spend, under the pin that came with it.
pub proof fn a_spend_is_kept_with_its_escape(
    node: NodeView,
    request: SignRequestView,
    job: SignJobView,
    p: PairingView,
    reserved: bool,
)
    requires
        paired(node, request, job, p, reserved).1 matches Ok(Some(_)),
        p.ids.spend != p.ids.escape,
    ensures
        ({
            let kept = paired(node, request, job, p, reserved).1->Ok_0->0;
            let spend = kept.specs[0];
            let escape = kept.specs[1];
            &&& kept.specs.len() == 2
            &&& signing_failure(node.keys, p.pair.spend, 0) is None
            &&& signing_failure(node.keys, p.pair.escape, 0) is None
            &&& spend.role == CandidateRole::Spend && escape.role == CandidateRole::Escape
            &&& spend.psbt == node_signed(node.keys, p.pair.spend)
            &&& escape.psbt == node_signed(node.keys, p.pair.escape)
            &&& spend.escape_bumps.len() == 0
            &&& escape.escape_bumps.len() == p.pair.bumps.len()
            &&& forall|i: int|
                0 <= i < p.pair.bumps.len() ==> signing_failure(
                    node.keys,
                    #[trigger] p.pair.bumps[i],
                    0,
                ) is None && escape.escape_bumps[i] == node_signed(node.keys, p.pair.bumps[i])
            &&& spend.commitment_id == p.ids.spend && escape.commitment_id == p.ids.escape
            &&& spend.paired_commitment_id == p.ids.escape
            &&& escape.paired_commitment_id == p.ids.spend
            &&& spend.hot == (p.class.class == TxClass::Hot) && !escape.hot
            &&& spend.fire is Some && escape.fire is None
            &&& spend.expiry == request.expiry && escape.expiry == request.expiry
            &&& !spend.holder_quorum_reached && !escape.holder_quorum_reached
            &&& kept.directive.sweep_escape == p.ids.escape
            &&& kept.directive.spend_commitment_id == p.ids.spend
            &&& kept.directive.carrier == job.carrier
            &&& kept.directive.duress == (job.verdict == PinVerdict::Duress)
            &&& kept.directive.epsilon_secs == node.params.epsilon_secs
            &&& kept.directive.now == job.now
        }),
{
    let kept = paired(node, request, job, p, reserved).1->Ok_0->0;
    let escape = kept.specs[1];
    assert forall|i: int| 0 <= i < p.pair.bumps.len() implies signing_failure(
        node.keys,
        #[trigger] p.pair.bumps[i],
        0,
    ) is None && escape.escape_bumps[i] == node_signed(node.keys, p.pair.bumps[i]) by {
        lemma_bumps_sign(p.pair, node, 0, i);
    }
}

/// A hot spend is registered with the reservation of all that it pays to a hot wallet,
/// under its own name, until it expires; another spend reserves nothing.
pub proof fn a_hot_spend_is_metered(
    node: NodeView,
    request: SignRequestView,
    job: SignJobView,
    p: PairingView,
    reserved: bool,
)
    requires
        paired(node, request, job, p, reserved).1 matches Ok(Some(_)),
    ensures
        ({
            let kept = paired(node, request, job, p, reserved).1->Ok_0->0;
            &&& kept.hot_reserve is Some <==> p.class.class == TxClass::Hot
            &&& kept.hot_reserve matches Some(reserve) ==> {
                &&& reserve.commitment_id == p.ids.spend
                &&& reserve.outflow_sat == p.class.hot_outflow
                &&& reserve.wall_now == job.raw_now
                &&& reserve.expiry == request.expiry
            }
        }),
{
}

/// A refresh is kept once, signed by the node, as its own escape; it needs no word of the
/// holders, arms nothing for duress and reserves nothing.
pub proof fn a_refresh_is_kept_alone(
    node: NodeView,
    request: RefreshRequestView,
    job: RefreshJobView,
    id: Seq<char>,
    carrier: Seq<char>,
    fetched: Option<PrevoutFetchView>,
    policy: PolicyVerdictView,
)
    requires
        refresh_judged(node, request, job, id, carrier, fetched, policy).1 matches Ok(Some(_)),
    ensures
        ({
            let kept = refresh_judged(
                node,
                request,
                job,
                id,
                carrier,
                fetched,
                policy,
            ).1->Ok_0->0;
            let only = kept.specs[0];
            &&& kept.specs.len() == 1
            &&& signing_failure(node.keys, job.refresh, 0) is None
            &&& only.psbt == node_signed(node.keys, job.refresh)
            &&& only.escape_bumps.len() == 0
            &&& only.commitment_id == id && only.paired_commitment_id == id
            &&& only.holder_quorum_reached
            &&& !only.hot
            &&& only.expiry == request.expiry
            &&& kept.hot_reserve is None
            &&& !kept.directive.duress
            &&& kept.directive.sweep_escape == id && kept.directive.spend_commitment_id == id
            &&& kept.directive.carrier == carrier
            &&& kept.directive.now == job.now
        }),
{
}

/// Once a spend is accepted, the answer names it and says how long it is held; each of
/// its transactions, and no other, counts as authorized; a hot one is pending until it
/// expires; and the same request is given the same answer until then.
pub proof fn an_accepted_spend_is_remembered(
    node: NodeView,
    request: SignRequestView,
    job: SignJobView,
    pair: SpendPairView,
    ids: PairIdsView,
    key: Seq<char>,
    c: Classification,
    reserved: bool,
    answer: RegisterAnswer,
)
    requires
        accepts(
            registered(
                node,
                request,
                job,
                ids,
                key,
                c,
                reserved,
                pair_txids(pair),
                answer,
            ).1,
        ),
    ensures
        ({
            let (after, out) = registered(
                node,
                request,
                job,
                ids,
                key,
                c,
                reserved,
                pair_txids(pair),
                answer,
            );
            let hot = c.class == TxClass::Hot;
            &&& out matches Ok(SignResponseView::Accepted(a))
            &&& a.commitment_id == ids.spend
            &&& a.first_seen == job.now
            &&& a.remaining_secs + job.now == if hot {
                capped(job.now + node.params.hold_secs)
            } else {
                job.now as int
            }
            &&& forall|id: [u8; 32]| #[trigger]
                after.authorized.contains(id) <==> {
                    ||| node.authorized.contains(id)
                    ||| id == transaction_id(pair.spend.unsigned_tx)
                    ||| id == transaction_id(pair.escape.unsigned_tx)
                    ||| exists|i: int|
                        0 <= i < pair.bumps.len() && id == transaction_id(
                            (#[trigger] pair.bumps[i]).unsigned_tx,
                        )
                }
            &&& after.sign_state.pending == if hot {
                node.sign_state.pending.insert(ids.spend, request.expiry)
            } else {
                node.sign_state.pending
            }
            &&& forall|now: u64|
                now < request.expiry ==> #[trigger] recorded(after.sign_state.replay, key, now)
                    == Some(SignResponseView::Accepted(a))
            &&& forall|now: u64|
                now >= request.expiry ==> #[trigger] recorded(after.sign_state.replay, key, now)
                    is None
            &&& forall|other: Seq<char>, now: u64|
                other != key ==> #[trigger] recorded(after.sign_state.replay, other, now)
                    == recorded(node.sign_state.replay, other, now)
            &&& after.sign_state.refreshes == node.sign_state.refreshes
            &&& after.sign_state.coord_nonces == node.sign_state.coord_nonces
            &&& after.outbox == node.outbox
        }),
{
    let ids_of = pair_txids(pair);
    let after = registered(node, request, job, ids, key, c, reserved, ids_of, answer).0;
    assert forall|id: [u8; 32]| #[trigger] after.authorized.contains(id) <==> {
        ||| node.authorized.contains(id)
        ||| id == transaction_id(pair.spend.unsigned_tx)
        ||| id == transaction_id(pair.escape.unsigned_tx)
        ||| exists|i: int|
            0 <= i < pair.bumps.len() && id == transaction_id(
                (#[trigger] pair.bumps[i]).unsigned_tx,
            )
    } by {
        assert(ids_of[0] == transaction_id(pair.spend.unsigned_tx));
        assert(ids_of[1] == transaction_id(pair.escape.unsigned_tx));
        if ids_of.contains(id) {
            let k = choose|k: int| 0 <= k < ids_of.len() && ids_of[k] == id;
            if k >= 2 {
                assert(ids_of[k] == transaction_id(pair.bumps[k - 2].unsigned_tx));
            }
        }
        if exists|i: int|
            0 <= i < pair.bumps.len() && id == transaction_id(
                (#[trigger] pair.bumps[i]).unsigned_tx,
            ) {
            let i = choose|i: int|
                0 <= i < pair.bumps.len() && id == transaction_id(
                    (#[trigger] pair.bumps[i]).unsigned_tx,
                );
            assert(ids_of[i + 2] == id);
        }
    }
}

/// Once a refresh is accepted, its answer is given again until it expires, its transaction
/// counts as authorized, it is handed on, and every coin that it spends or creates counts
/// as refreshed just now; no other coin does.
pub proof fn an_accepted_refresh_is_remembered(
    node: NodeView,
    request: RefreshRequestView,
    job: RefreshJobView,
    id: Seq<char>,
    key: Seq<char>,
    answer: RegisterAnswer,
)
    requires
        accepts(refresh_registered(node, request, job, id, key, answer).1),
        job.refresh.unsigned_tx.output.len() <= u32::MAX,
    ensures
        ({
            let (after, out) = refresh_registered(node, request, job, id, key, answer);
            let tx = job.refresh.unsigned_tx;
            &&& out matches Ok(SignResponseView::Accepted(a))
            &&& a.commitment_id == id && a.first_seen == job.now && a.remaining_secs == 0
            &&& after.authorized == node.authorized.insert(transaction_id(tx))
            &&& after.outbox == node.outbox.push(TaggedRequestView::Refresh(request))
            &&& forall|now: u64|
                now < request.expiry ==> #[trigger] recorded(after.sign_state.replay, key, now)
                    == Some(SignResponseView::Accepted(a))
            &&& forall|i: int|
                0 <= i < tx.input.len() ==> after.sign_state.refreshes.contains_pair(
                    (#[trigger] tx.input[i]).previous_output,
                    job.now,
                )
            &&& forall|vout: u32|
                vout < tx.output.len() ==> #[trigger] after.sign_state.refreshes.contains_pair(
                    OutPoint { txid: transaction_id(tx), vout },
                    job.now,
                )
            &&& forall|coin: OutPoint|
                coin.txid != transaction_id(tx) && (forall|i: int|
                    0 <= i < tx.input.len() ==> (#[trigger] tx.input[i]).previous_output != coin)
                    ==> #[trigger] after.sign_state.refreshes.get(coin)
                    == node.sign_state.refreshes.get(coin)
            &&& after.sign_state.pending == node.sign_state.pending
            &&& after.sign_state.coord_nonces == node.sign_state.coord_nonces
        }),
{
    let after = refresh_registered(node, request, job, id, key, answer).0;
    let tx = job.refresh.unsigned_tx;
    assert forall|coin: OutPoint|
        coin.txid != transaction_id(tx) && (forall|i: int|
            0 <= i < tx.input.len() ==> (#[trigger] tx.input[i]).previous_output
                != coin) implies #[trigger] after.sign_state.refreshes.get(coin)
        == node.sign_state.refreshes.get(coin) by {
        assert(!touches(job.refresh, coin));
    }
}

/// The registry stops a request on a node with peers exactly where it answers that a
/// candidate could not be built, that the hot outflow has no room, or that a candidate
/// is taken or finds no place.
pub proof fn the_registry_decides(
    node: NodeView,
    request: SignRequestView,
    job: SignJobView,
    ids: PairIdsView,
    key: Seq<char>,
    c: Classification,
    reserved: bool,
    txids: Seq<[u8; 32]>,
    answer: RegisterAnswer,
)
    ensures
        accepts(registered(node, request, job, ids, key, c, reserved, txids, answer).1) <==> {
            ||| node.channel is None
            ||| answer matches RegisterAnswer::Outcomes(outcomes) && forall|i: int|
                0 <= i < outcomes@.len() ==> #[trigger] outcomes@[i] == RegisterOutcome::Held
        },
{
    if let RegisterAnswer::Outcomes(outcomes) = answer {
        if exists|i: int| 0 <= i < outcomes@.len() && #[trigger] outcomes@[i]
            != RegisterOutcome::Held {
            let i = choose|i: int|
                0 <= i < outcomes@.len() && #[trigger] outcomes@[i] != RegisterOutcome::Held;
            assert(outcomes@.contains(outcomes@[i]));
        }
    }
}

/// A spend that is its own escape is kept once, signed by the node, and is the escape that
/// is armed.
pub proof fn a_self_paired_spend_is_kept_once(
    node: NodeView,
    request: SignRequestView,
    job: SignJobView,
    p: PairingView,
    reserved: bool,
)
    requires
        paired(node, request, job, p, reserved).1 matches Ok(Some(_)),
        p.ids.spend == p.ids.escape,
    ensures
        ({
            let kept = paired(node, request, job, p, reserved).1->Ok_0->0;
            let only = kept.specs[0];
            &&& kept.specs.len() == 1
            &&& p.class.class == TxClass::Hot
            &&& signing_failure(node.keys, p.pair.spend, 0) is None
            &&& only.psbt == node_signed(node.keys, p.pair.spend)
            &&& only.role == CandidateRole::Spend && only.hot
            &&& only.commitment_id == p.ids.spend && only.paired_commitment_id == p.ids.spend
            &&& only.expiry == request.expiry
            &&& !only.holder_quorum_reached
            &&& kept.directive.sweep_escape == p.ids.spend
            &&& kept.directive.spend_commitment_id == p.ids.spend
            &&& kept.directive.duress == (job.verdict == PinVerdict::Duress)
            &&& kept.directive.carrier == job.carrier && kept.directive.now == job.now
            &&& kept.directive.epsilon_secs == node.params.epsilon_secs
        }),
{
}

/// The registry's answer is read against the names of the very candidates that it was
/// given, in their order.
pub proof fn an_answer_is_read_by_its_candidates(
    node: NodeView,
    request: SignRequestView,
    job: SignJobView,
    p: PairingView,
    reserved: bool,
)
    requires
        paired(node, request, job, p, reserved).1 matches Ok(Some(_)),
    ensures
        ({
            let kept = paired(node, request, job, p, reserved).1->Ok_0->0;
            &&& p.ids.kept().len() == kept.specs.len()
            &&& forall|i: int|
                0 <= i < kept.specs.len() ==> p.ids.kept()[i] == (
                #[trigger] kept.specs[i]).commitment_id
        }),
{
}

} // verus!
