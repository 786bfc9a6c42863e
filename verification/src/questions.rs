//! Laws of what the surroundings are asked about a request, step by step.

use vstd::prelude::*;

use crate::codec::{psbt_decoding, transaction_id, trimmed};
use crate::commitment::{acceptance_key, CommitmentView};
use crate::ingress::{clock_refusal, decoded_pair, ClockStage, SpendPairView};
use crate::node::NodeView;
use crate::passage::{after_the_lookup, after_the_refresh_lookup, handed_on};
use crate::pin::{effective_verdict, PinVerdict};
use crate::policy::TxClass;
use crate::prevouts::fetch_failure;
use crate::proto::{RefreshRequestView, SignRequestView, SignResponseView, TaggedRequestView};
use crate::registry::{CandidateRole, RegisterAnswer, RegisterOutcome};
use crate::replay::recorded;
use crate::signatures::node_signed;
use crate::silence::accepts;
use crate::spend::pair_candidates;
use crate::steps::{
    coins_to_look_up, RefreshEvent, RefreshStepView, SpendEvent, SpendStepView,
};
use crate::success::all_held;
use crate::tx::{OutPoint, PsbtView};
use crate::verdict::AnswerView;
use crate::windows::the_registry_decides;

verus! {

/// Whether `coins` are the coins that a transaction spends, each in its place.
pub open spec fn are_coins_of(coins: Seq<OutPoint>, psbt: PsbtView) -> bool {
    &&& coins.len() == psbt.unsigned_tx.input.len()
    &&& forall|i: int|
        0 <= i < coins.len() ==> #[trigger] coins[i]
            == psbt.unsigned_tx.input[i].previous_output
}

/// The chain is asked for every coin that a readable transaction spends, by a node that
/// sees it.
pub proof fn every_coin_is_looked_up(node: NodeView, text: Seq<char>, field: Seq<char>)
    ensures
        ({
            let read = psbt_decoding(trimmed(text));
            let asked = coins_to_look_up(node, text, field);
            &&& asked is Some <==> node.has_backend && read is Ok
            &&& asked matches Some(coins) ==> are_coins_of(coins, read->Ok_0)
        }),
{
}

/// Once its pin is compared, a spend is armed under what the pin counts as, and the duress
/// pin alone adds to the count of arms. A node locked down meanwhile goes no further.
pub proof fn what_is_armed(
    node: NodeView,
    request: SignRequestView,
    step: SpendStepView,
    event: SpendEvent,
)
    requires
        step is Compare,
        event is Compared,
    ensures
        ({
            let (after, next) = step.next(node, request, event);
            let pin = effective_verdict(
                event->compared,
                request.pin,
                node.params.max_pin_bytes,
            );
            &&& node.lockdown ==> (next matches SpendStepView::Done(_)) && after.duress_arm
                == node.duress_arm
            &&& !node.lockdown ==> {
                &&& next matches SpendStepView::Arm { job, intent }
                &&& job.verdict == pin
                &&& intent is Some <==> node.channel is Some && step->Compare_job.guard is Some
                &&& intent matches Some(told) ==> {
                    &&& told.duress == (pin == PinVerdict::Duress)
                    &&& told.carrier == event->carrier@
                    &&& told.nonce == step->Compare_job.guard->0.nonce
                    &&& told.first_seen == step->Compare_job.first_seen
                    &&& told.now == job.now
                }
                &&& pin != PinVerdict::Duress ==> after == node
            }
        }),
{
    reveal(SpendStepView::next);
}

/// A spend whose attempt is paid for has the coins of both its transactions looked up.
pub proof fn what_is_looked_up(
    node: NodeView,
    request: SignRequestView,
    step: SpendStepView,
    event: SpendEvent,
)
    requires
        step is Charge,
        event is Charged,
    ensures
        ({
            let next = step.next(node, request, event).1;
            let spend = psbt_decoding(trimmed(request.psbt));
            let escape = psbt_decoding(trimmed(request.escape_psbt));
            &&& next is Look <==> !event->Charged_0.refuse
            &&& next matches SpendStepView::Look { spend_coins, escape_coins, .. } ==> {
                &&& spend_coins is Some <==> node.has_backend && spend is Ok
                &&& escape_coins is Some <==> node.has_backend && escape is Ok
                &&& spend_coins matches Some(coins) ==> are_coins_of(coins, spend->Ok_0)
                &&& escape_coins matches Some(coins) ==> are_coins_of(coins, escape->Ok_0)
            }
        }),
{
    reveal(SpendStepView::next);
}

/// Whether `c` commits this node to just this transaction until this expiry.
pub open spec fn commits_to(
    c: CommitmentView,
    node: NodeView,
    psbt: PsbtView,
    expiry: u64,
) -> bool {
    &&& c.wallet_id == node.wallet_id
    &&& c.policy_version == node.params.policy_version
    &&& c.version == psbt.unsigned_tx.version && c.lock_time == psbt.unsigned_tx.lock_time
    &&& c.inputs == psbt.unsigned_tx.input && c.outputs == psbt.unsigned_tx.output
    &&& c.expiry == expiry
}

/// The two commitments that are to be named are those to the request's own spend and to
/// its own escape, under the node's wallet and policy and the request's expiry.
pub proof fn what_is_named(
    node: NodeView,
    request: SignRequestView,
    step: SpendStepView,
    event: SpendEvent,
)
    requires
        step is Look,
        event is Looked,
    ensures
        step.next(node, request, event).1 matches SpendStepView::Name {
            pair,
            spend,
            escape,
            spend_fetch,
            escape_fetch,
            ..
        } ==> {
            &&& decoded_pair(request) == Ok::<SpendPairView, AnswerView>(pair)
            &&& commits_to(spend, node, pair.spend, request.expiry)
            &&& commits_to(escape, node, pair.escape, request.expiry)
            &&& node.has_backend ==> spend_fetch is Some && escape_fetch is Some
            &&& spend_fetch matches Some(Ok(prevouts)) ==> prevouts.len()
                == pair.spend.unsigned_tx.input.len()
            &&& escape_fetch matches Some(Ok(prevouts)) ==> prevouts.len()
                == pair.escape.unsigned_tx.input.len()
        },
{
    reveal(SpendStepView::next);
}

/// The ledger is asked for room exactly for a hot spend on a node with peers, and for all
/// that it pays to a hot wallet.
pub proof fn what_is_reserved(
    node: NodeView,
    request: SignRequestView,
    step: SpendStepView,
    event: SpendEvent,
)
    requires
        step is Judge,
        event is Judged,
    ensures
        step.next(node, request, event).1 matches SpendStepView::Reserve {
            job,
            pair,
            ids,
            class,
            reserve,
            ..
        } ==> {
            &&& event->Judged_0@.classification matches Ok(c) && c == class
            &&& pair == step->Judge_pair && ids == step->Judge_ids
            &&& reserve is Some <==> node.channel is Some && class.class == TxClass::Hot
            &&& reserve matches Some(r) ==> {
                &&& r.commitment_id == ids.spend
                &&& r.outflow_sat == class.hot_outflow
                &&& r.wall_now == job.raw_now
                &&& r.expiry == request.expiry
            }
        },
{
    reveal(SpendStepView::next);
}

/// The registry is asked to keep the pair that was judged, signed by the node, for its own
/// names; all of its transactions are to be authorized.
pub proof fn what_is_kept(
    node: NodeView,
    request: SignRequestView,
    step: SpendStepView,
    event: SpendEvent,
)
    requires
        step is JudgePair,
        event is PairJudged,
    ensures
        step.next(node, request, event).1 matches SpendStepView::Register {
            ids,
            txids,
            ask,
            class,
            reserved,
            key,
            ..
        } ==> {
            let pair = step->JudgePair_pair;
            &&& ids == step->JudgePair_ids && class == step->JudgePair_class
            &&& key == step->JudgePair_key && reserved == step->JudgePair_reserved
            &&& txids.len() == pair.bumps.len() + 2
            &&& txids[0] == transaction_id(pair.spend.unsigned_tx)
            &&& txids[1] == transaction_id(pair.escape.unsigned_tx)
            &&& forall|i: int|
                0 <= i < pair.bumps.len() ==> txids[i + 2] == transaction_id(
                    (#[trigger] pair.bumps[i]).unsigned_tx,
                )
            &&& ask is Some <==> node.channel is Some
            &&& ask matches Some(kept) ==> {
                &&& kept.specs.len() > 0
                &&& kept.specs[0].role == CandidateRole::Spend
                &&& kept.specs[0].commitment_id == ids.spend
                &&& kept.specs[0].psbt == node_signed(node.keys, pair.spend)
                &&& ids.spend != ids.escape ==> {
                    &&& kept.specs.len() == 2
                    &&& kept.specs[1].role == CandidateRole::Escape
                    &&& kept.specs[1].commitment_id == ids.escape
                    &&& kept.specs[1].psbt == node_signed(node.keys, pair.escape)
                    &&& kept.specs[1].escape_bumps.len() == pair.bumps.len()
                }
            }
        },
{
    reveal(SpendStepView::next);
}

/// A refresh is named by the commitment to its own transaction, under the node's wallet and
/// policy and the request's expiry.
pub proof fn what_a_refresh_is_named(
    node: NodeView,
    request: RefreshRequestView,
    step: RefreshStepView,
    event: RefreshEvent,
)
    requires
        step is Look,
        event is Looked,
    ensures
        step.next(node, request, event).1 matches RefreshStepView::Name {
            job,
            commitment,
            fetched,
        } ==> {
            &&& psbt_decoding(trimmed(request.refresh_psbt)) == Ok::<PsbtView, Seq<char>>(
                job.refresh,
            )
            &&& commits_to(commitment, node, job.refresh, request.expiry)
            &&& node.has_backend ==> fetched is Some
            &&& fetched matches Some(Ok(prevouts)) ==> prevouts.len()
                == job.refresh.unsigned_tx.input.len()
        },
        step.next(node, request, event).0 == node,
{
}

/// The registry is asked to keep the refresh that was judged, signed by the node, under its
/// own name.
pub proof fn what_is_kept_of_a_refresh(
    node: NodeView,
    request: RefreshRequestView,
    step: RefreshStepView,
    event: RefreshEvent,
)
    requires
        step is Judge,
        event is Judged,
    ensures
        step.next(node, request, event).1 matches RefreshStepView::Register { job, id, key, ask }
            ==> {
            &&& id == step->Judge_id && key == step->Judge_key && job == step->Judge_job
            &&& ask is Some <==> node.channel is Some
            &&& ask matches Some(kept) ==> {
                &&& kept.specs.len() == 1
                &&& kept.specs[0].commitment_id == id
                &&& kept.specs[0].psbt == node_signed(node.keys, job.refresh)
                &&& kept.directive.carrier == event->Judged_carrier@
            }
        },
{
}

/// Once its intent is recorded, a spend goes on to the charge for its pin exactly where the
/// clock lets it pass; else it is refused for its time and handed on.
pub proof fn what_follows_the_arming(
    node: NodeView,
    request: SignRequestView,
    step: SpendStepView,
    event: SpendEvent,
)
    requires
        step is Arm,
        event is Armed,
    ensures
        ({
            let (after, next) = step.next(node, request, event);
            let job = step->Arm_job;
            let late = clock_refusal(node, request.expiry, job.raw_now, job.now, ClockStage::Pin);
            &&& late is None ==> after == node && (next matches SpendStepView::Charge { job: on }
                && on.verdict == job.verdict && on.carrier == job.carrier)
            &&& late matches Some(r) ==> next == SpendStepView::Done(Ok(r)) && handed_on(
                node,
                after,
                request,
            )
        }),
{
    reveal(SpendStepView::next);
}

/// Once it is named, a spend goes on to be judged exactly where nothing on file answers it
/// and the chain did.
pub proof fn what_follows_the_names(
    node: NodeView,
    request: SignRequestView,
    step: SpendStepView,
    event: SpendEvent,
)
    requires
        step is Name,
        event is Named,
    ensures
        ({
            let next = step.next(node, request, event).1;
            let ids = event->Named_0@;
            let pair = step->Name_pair;
            let now = step->Name_job.now;
            let key = acceptance_key(pair_candidates(pair, ids));
            let log = node.sign_state.replay;
            let lost = fetch_failure(step->Name_spend_fetch, step->Name_escape_fetch);
            &&& next is Judge <==> recorded(log, key, now) is None && recorded(log, ids.spend, now)
                is None && lost is None
            &&& next matches SpendStepView::Judge {
                job,
                pair: on,
                ids: named,
                key: under,
                spend_fetch,
                escape_fetch,
            } ==> {
                &&& on == pair && named == ids && under == key && job == step->Name_job
                &&& spend_fetch == step->Name_spend_fetch
                &&& escape_fetch == step->Name_escape_fetch
            }
            &&& recorded(log, key, now) matches Some(v) ==> next == SpendStepView::Done(Ok(v))
        }),
{
    reveal(SpendStepView::next);
    after_the_lookup(
        node,
        request,
        step->Name_job,
        step->Name_pair,
        event->Named_0@,
        (step->Name_spend_fetch, step->Name_escape_fetch),
    );
}

/// Once the ledger has answered, a spend goes on to have its escape judged, unless it is hot
/// and the ledger has no room for it.
pub proof fn what_follows_the_ledger(
    node: NodeView,
    request: SignRequestView,
    step: SpendStepView,
    event: SpendEvent,
)
    requires
        step is Reserve,
        event is Reserved,
    ensures
        ({
            let (after, next) = step.next(node, request, event);
            let class = step->Reserve_class;
            let answer = event->Reserved_0;
            let asked = class.class == TxClass::Hot && node.channel is Some;
            &&& next is JudgePair <==> !asked || answer is Ok
            &&& next matches SpendStepView::JudgePair {
                job,
                pair,
                ids,
                key,
                class: on,
                reserved,
                escape_fetch,
            } ==> {
                &&& after == node
                &&& job == step->Reserve_job && pair == step->Reserve_pair
                &&& ids == step->Reserve_ids && key == step->Reserve_key && on == class
                &&& reserved == (asked && answer->Ok_0)
                &&& escape_fetch == step->Reserve_escape_fetch
            }
            &&& !(next is JudgePair) ==> handed_on(node, after, request)
        }),
{
    reveal(SpendStepView::next);
}

/// Once the registry has answered, a spend is answered.
pub proof fn what_follows_the_registry(
    node: NodeView,
    request: SignRequestView,
    step: SpendStepView,
    event: SpendEvent,
)
    requires
        step is Register,
        event is Registered,
    ensures
        ({
            let (after, next) = step.next(node, request, event);
            &&& next matches SpendStepView::Done(answer)
            &&& accepts(answer) <==> all_held(node, event->Registered_0)
            &&& accepts(answer) ==> {
                &&& answer matches Ok(SignResponseView::Accepted(a))
                &&& a.commitment_id == step->Register_ids.spend
                &&& forall|i: int|
                    0 <= i < step->Register_txids.len() ==> after.authorized.contains(
                        #[trigger] step->Register_txids[i],
                    )
            }
        }),
{
    reveal(SpendStepView::next);
    the_registry_decides(
        node,
        request,
        step->Register_job,
        step->Register_ids,
        step->Register_key,
        step->Register_class,
        step->Register_reserved,
        step->Register_txids,
        event->Registered_0,
    );
}

/// A reply to something that was not asked changes nothing.
pub proof fn an_odd_reply_changes_nothing(
    node: NodeView,
    request: SignRequestView,
    step: SpendStepView,
    event: SpendEvent,
)
    requires
        !(step is Compare && event is Compared),
        !(step is Arm && event is Armed),
        !(step is Charge && event is Charged),
        !(step is Look && event is Looked),
        !(step is Name && event is Named),
        !(step is Judge && event is Judged),
        !(step is Reserve && event is Reserved),
        !(step is JudgePair && event is PairJudged),
        !(step is Register && event is Registered),
    ensures
        step.next(node, request, event) == (node, step),
{
    reveal(SpendStepView::next);
}

/// Once it is named, a refresh goes on to be judged exactly where nothing on file answers
/// it; once the registry has answered, it is answered.
pub proof fn what_follows_for_a_refresh(
    node: NodeView,
    request: RefreshRequestView,
    step: RefreshStepView,
    event: RefreshEvent,
)
    ensures
        ({
            let (after, next) = step.next(node, request, event);
            let log = node.sign_state.replay;
            &&& step is Name && event is Named ==> {
                let id = event->Named_0@;
                let job = step->Name_job;
                let key = acceptance_key(seq![(id, job.bytes)]);
                &&& next is Judge <==> recorded(log, key, job.now) is None && recorded(
                    log,
                    id,
                    job.now,
                ) is None
                &&& next matches RefreshStepView::Judge { job: on, id: named, key: under, fetched }
                    ==> on == job && named == id && under == key && fetched == step->Name_fetched
            }
            &&& step is Register && event is Registered ==> {
                &&& next matches RefreshStepView::Done(answer)
                &&& accepts(answer) <==> all_held(node, event->Registered_0)
                &&& accepts(answer) ==> after.authorized.contains(
                    transaction_id(step->Register_job.refresh.unsigned_tx),
                ) && after.outbox == node.outbox.push(TaggedRequestView::Refresh(request))
            }
        }),
{
    if step is Name && event is Named {
        after_the_refresh_lookup(node, step->Name_job, event->Named_0@);
    }
    if step is Register && event is Registered {
        if let RegisterAnswer::Outcomes(outcomes) = event->Registered_0 {
            if exists|i: int| 0 <= i < outcomes@.len() && #[trigger] outcomes@[i]
                != RegisterOutcome::Held {
                let i = choose|i: int|
                    0 <= i < outcomes@.len() && #[trigger] outcomes@[i] != RegisterOutcome::Held;
                assert(outcomes@.contains(outcomes@[i]));
            }
        }
    }
}

} // verus!
