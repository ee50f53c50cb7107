//! What holds of each part of the pipeline over any sequence of events,
//! stated over the same functions that the contracts of the parts use.

use crate::backoff::{lemma_retry_delays, RETRY_LIMIT};
use crate::collector::{CollectState, CollectorAction, COLLECTOR_POLL_MS};
use crate::dispatch::{work_then_sentinels, DispatchPhase, DispatchState};
use crate::items::{ResultItem, WorkItem};
use crate::record::{BatchError, RecordFault};
use crate::results::{ended_by, pending_after, pull, BatchNext, EndReason};
use crate::state::{batch_state_of, is_terminal, BatchState};
use crate::store::{pending_entries, PendingStore};
use vstd::prelude::*;

verus! {

/// The side data at hand after the first `upto` of `messages` have been
/// pulled, one after the other, starting from `pending`.
pub open spec fn pending_along<M>(
    pending: Map<usize, M>,
    messages: Seq<Option<ResultItem>>,
    upto: int,
) -> Map<usize, M>
    decreases upto,
{
    if upto <= 0 {
        pending
    } else {
        pending_after(pending_along(pending, messages, upto - 1), messages[upto - 1])
    }
}

/// What the pull number `at` gives when `messages` are pulled one after the
/// other, starting from `pending`.
pub open spec fn pull_at<M>(pending: Map<usize, M>, messages: Seq<Option<ResultItem>>, at: int)
    -> BatchNext<M> {
    pull(pending_along(pending, messages, at), messages[at])
}

/// The message number `at` is a result under `id`.
pub open spec fn is_result_for(messages: Seq<Option<ResultItem>>, at: int, id: usize) -> bool {
    messages[at] matches Some(ResultItem::Result(found, _)) && found == id
}

/// Some message is a result under `id`.
pub open spec fn has_result_for(messages: Seq<Option<ResultItem>>, id: usize) -> bool {
    exists|at: int| 0 <= at < messages.len() && #[trigger] is_result_for(messages, at, id)
}

/// Pulling never brings side data back: what is at hand later was at hand
/// before, unchanged.
pub proof fn lemma_pending_shrinks<M>(
    pending: Map<usize, M>,
    messages: Seq<Option<ResultItem>>,
    upto: int,
    id: usize,
)
    requires
        0 <= upto <= messages.len(),
        pending_along(pending, messages, upto).contains_key(id),
    ensures
        pending.contains_key(id),
        pending_along(pending, messages, upto)[id] == pending[id],
        forall|earlier: int|
            0 <= earlier < upto ==> !is_result_for(messages, earlier, id),
    decreases upto,
{
    if upto > 0 {
        lemma_pending_shrinks(pending, messages, upto - 1, id);
    }
}

/// Whatever arrives on the output channel, in whatever order: a result is
/// handed out only under an id that a record of the batch was given, with
/// exactly that record's side data, and no id is handed out twice.
///
/// `submitted` is the side data of the batch's records in the order of
/// their ids, and `delivered` the ids handed out before the first of
/// `messages`.
pub proof fn lemma_results_match_records<M>(
    submitted: Seq<M>,
    delivered: Set<usize>,
    messages: Seq<Option<ResultItem>>,
    at: int,
)
    requires
        0 <= at < messages.len(),
        pull_at(pending_entries(submitted, delivered), messages, at) is Yield,
    ensures
        messages[at] matches Some(ResultItem::Result(id, output)) && {
            &&& id < submitted.len()
            &&& !delivered.contains(id)
            &&& pull_at(pending_entries(submitted, delivered), messages, at) == BatchNext::Yield(
                output,
                submitted[id as int],
            )
            &&& forall|earlier: int| 0 <= earlier < at ==> !is_result_for(messages, earlier, id)
            &&& forall|later: int|
                at < later < messages.len() ==> !(is_result_for(messages, later, id) && pull_at(
                    pending_entries(submitted, delivered),
                    messages,
                    later,
                ) is Yield)
        },
{
    let start = pending_entries(submitted, delivered);
    match messages[at] {
        Some(ResultItem::Result(id, output)) => {
            lemma_pending_shrinks(start, messages, at, id);
            assert forall|later: int|
                at < later < messages.len() && is_result_for(messages, later, id) implies !(pull_at(
                start,
                messages,
                later,
            ) is Yield) by {
                if pending_along(start, messages, later).contains_key(id) {
                    lemma_pending_shrinks(start, messages, later, id);
                    assert(is_result_for(messages, at, id));
                }
            }
        },
        _ => {},
    }
}

/// A store in order holds nothing once every id it has given out has been
/// handed back.
pub proof fn lemma_store_drained<M>(store: PendingStore<M>)
    requires
        store.wf(),
        forall|id: usize| id < store.submitted().len() ==> store.delivered().contains(id),
    ensures
        store@ == Map::<usize, M>::empty(),
{
    assert(store@ =~= Map::<usize, M>::empty());
}

/// Once a result has arrived for every record of a batch, no side data is
/// left behind, whatever else arrived and in whatever order.
pub proof fn lemma_complete_batch_leaves_nothing<M>(
    submitted: Seq<M>,
    messages: Seq<Option<ResultItem>>,
)
    requires
        forall|id: usize| id < submitted.len() ==> #[trigger] has_result_for(messages, id),
    ensures
        pending_along(
            pending_entries(submitted, Set::<usize>::empty()),
            messages,
            messages.len() as int,
        ) == Map::<usize, M>::empty(),
{
    let start = pending_entries(submitted, Set::<usize>::empty());
    let end = pending_along(start, messages, messages.len() as int);
    assert forall|id: usize| !end.contains_key(id) by {
        if end.contains_key(id) {
            lemma_pending_shrinks(start, messages, messages.len() as int, id);
            assert(has_result_for(messages, id));
            let at = choose|at: int| 0 <= at < messages.len() && is_result_for(messages, at, id);
            assert(!is_result_for(messages, at, id));
        }
    }
    assert(end =~= Map::<usize, M>::empty());
}

/// The number of termination sentinels among the first `upto` of `items`.
pub open spec fn sentinels_among(items: Seq<Option<ResultItem>>, upto: int) -> nat
    decreases upto,
{
    if upto <= 0 {
        0
    } else {
        sentinels_among(items, upto - 1) + if items[upto - 1] == Some(ResultItem::Done) {
            1nat
        } else {
            0nat
        }
    }
}

/// The collector's state after the first `upto` of `items` came off the
/// results queue and every send was delivered.
pub open spec fn collector_along(start: CollectState, items: Seq<Option<ResultItem>>, upto: int)
    -> CollectState
    decreases upto,
{
    if upto <= 0 {
        start
    } else {
        collector_along(start, items, upto - 1).react(items[upto - 1]).0
    }
}

/// What the collector does with the item number `at`.
pub open spec fn collector_action_at(start: CollectState, items: Seq<Option<ResultItem>>, at: int)
    -> CollectorAction {
    collector_along(start, items, at).react(items[at]).1
}

/// A collector counts the sentinels it has seen, up to the pool's size.
pub proof fn lemma_collector_counts(n_threads: usize, items: Seq<Option<ResultItem>>, upto: int)
    requires
        n_threads >= 1,
        0 <= upto <= items.len(),
    ensures
        collector_along(CollectState::fresh(n_threads), items, upto) == (CollectState {
            n_threads,
            n_finished: if sentinels_among(items, upto) <= n_threads {
                sentinels_among(items, upto) as usize
            } else {
                n_threads
            },
            forwarding: true,
        }),
    decreases upto,
{
    if upto > 0 {
        lemma_collector_counts(n_threads, items, upto - 1);
    }
}

/// Whatever comes off the results queue, in whatever order: while fewer
/// sentinels than workers have been seen, every result is forwarded as it
/// is; the sentinel that completes the count gives the completion marker;
/// after that nothing is sent. So the marker is sent once, and after every
/// result that was forwarded.
pub proof fn lemma_collector_forwards_then_finishes(
    n_threads: usize,
    items: Seq<Option<ResultItem>>,
    at: int,
)
    requires
        n_threads >= 1,
        0 <= at < items.len(),
    ensures
        collector_action_at(CollectState::fresh(n_threads), items, at) == (if sentinels_among(
            items,
            at,
        ) >= n_threads {
            CollectorAction::Skip
        } else {
            match items[at] {
                None => CollectorAction::Pause(COLLECTOR_POLL_MS),
                Some(ResultItem::Result(id, output)) => CollectorAction::Send(
                    ResultItem::Result(id, output),
                ),
                Some(ResultItem::Done) => if sentinels_among(items, at) + 1 == n_threads {
                    CollectorAction::Send(ResultItem::Finished)
                } else {
                    CollectorAction::Skip
                },
                Some(ResultItem::Finished) => CollectorAction::Skip,
            }
        }),
{
    lemma_collector_counts(n_threads, items, at);
}

/// What comes off the results queue when `count` workers report the end of
/// their input and nothing else happens.
pub open spec fn sentinels_only(count: nat) -> Seq<Option<ResultItem>> {
    Seq::new(count, |i: int| Some(ResultItem::Done))
}

/// The dispatcher's state after the work queue has taken the held item
/// `times` times in a row.
pub open spec fn taken_times(start: DispatchState, times: nat) -> DispatchState
    decreases times,
{
    if times == 0 {
        start
    } else {
        taken_times(start, (times - 1) as nat).settle(true).0
    }
}

/// A batch that winds down without a failure, on a queue that takes every
/// sentinel, sends one sentinel after the other and ends well after the
/// last.
pub proof fn lemma_sentinels_follow(start: DispatchState, times: nat)
    requires
        start.wf(),
        start.phase() == DispatchPhase::Accepting,
        times <= start.n_threads,
    ensures
        times < start.n_threads ==> taken_times(start.close(), times) == (DispatchState {
            sentinels: times,
            accepted: start.accepted + Seq::new(times, |i: int| WorkItem::Done),
            ..start.close()
        }),
        times == start.n_threads ==> taken_times(start.close(), times) == (DispatchState {
            held: None,
            sentinels: times,
            finished: true,
            accepted: start.accepted + Seq::new(times, |i: int| WorkItem::Done),
            ..start.close()
        }),
    decreases times,
{
    if times == 0 {
        assert(start.accepted + Seq::new(0, |i: int| WorkItem::Done) =~= start.accepted);
    } else {
        lemma_sentinels_follow(start, (times - 1) as nat);
        let before = taken_times(start.close(), (times - 1) as nat);
        assert(before.accepted.push(WorkItem::Done) =~= start.accepted + Seq::new(
            times,
            |i: int| WorkItem::Done,
        ));
    }
}

/// The work items of a batch whose records name these sequences, when
/// the first of them gets the id `first`.
pub open spec fn work_items(first: usize, payloads: Seq<String>) -> Seq<WorkItem> {
    Seq::new(payloads.len(), |i: int| WorkItem::Work((first + i) as usize, payloads[i]))
}

/// The dispatcher's state after the first `upto` of the records that name
/// these sequences were offered, one after the other, and the work queue
/// took each work item at once.
pub open spec fn dispatched(
    start: DispatchState,
    first: usize,
    payloads: Seq<String>,
    upto: int,
) -> DispatchState
    decreases upto,
{
    if upto <= 0 {
        start
    } else {
        dispatched(start, first, payloads, upto - 1).receive(
            (first + upto - 1) as usize,
            Ok(payloads[upto - 1]),
        ).settle(true).0
    }
}

/// Records that each name a sequence, offered to a dispatcher whose queue
/// takes everything, reach the queue as one work item each, in the order of
/// the records and under ids that count up from the first one's.
pub proof fn lemma_records_are_dispatched_in_order(
    start: DispatchState,
    first: usize,
    payloads: Seq<String>,
    upto: int,
)
    requires
        start.wf(),
        start.phase() == DispatchPhase::Accepting,
        first + payloads.len() <= usize::MAX,
        0 <= upto <= payloads.len(),
    ensures
        dispatched(start, first, payloads, upto) == (DispatchState {
            accepted: start.accepted + work_items(first, payloads.take(upto)),
            retry: None,
            ..start
        }),
    decreases upto,
{
    if upto == 0 {
        assert(start.accepted + work_items(first, payloads.take(0)) =~= start.accepted);
    } else {
        lemma_records_are_dispatched_in_order(start, first, payloads, upto - 1);
        let before = dispatched(start, first, payloads, upto - 1);
        let item = WorkItem::Work((first + upto - 1) as usize, payloads[upto - 1]);
        assert(before.accepted.push(item) =~= start.accepted + work_items(
            first,
            payloads.take(upto),
        ));
    }
}

/// A whole batch on a queue that takes everything: every record's work
/// item reaches the queue, in the order of the records and under the ids 0,
/// 1, 2 and so on, then one sentinel for each worker, and the submission
/// ends well.
pub proof fn lemma_whole_batch_is_dispatched(
    n_threads: usize,
    back_off: bool,
    payloads: Seq<String>,
)
    requires
        n_threads >= 1,
        payloads.len() <= usize::MAX,
    ensures
        ({
            let start = DispatchState::fresh(n_threads, back_off);
            let fed = dispatched(start, 0, payloads, payloads.len() as int);
            let end = taken_times(fed.close(), n_threads as nat);
            &&& end.outcome() == Some(Ok::<(), BatchError>(()))
            &&& end.accepted == work_items(0, payloads) + Seq::new(
                n_threads as nat,
                |i: int| WorkItem::Done,
            )
        }),
{
    let start = DispatchState::fresh(n_threads, back_off);
    lemma_records_are_dispatched_in_order(start, 0, payloads, payloads.len() as int);
    let fed = dispatched(start, 0, payloads, payloads.len() as int);
    assert(payloads.take(payloads.len() as int) =~= payloads);
    assert(start.accepted + work_items(0, payloads) =~= work_items(0, payloads));
    lemma_sentinels_follow(fed, n_threads as nat);
}

/// A batch without records, for a pool of `n_threads` workers: the
/// dispatcher sends `n_threads` sentinels and nothing else and ends well;
/// a collector that sees those sentinels come back, one from each worker,
/// sends nothing before the last and the completion marker on the last; and
/// the pull that meets the marker ends the sequence, with no result handed
/// out before it.
pub proof fn lemma_empty_batch_completes<M>(n_threads: usize, back_off: bool)
    requires
        n_threads >= 1,
    ensures
        ({
            let end = taken_times(
                DispatchState::fresh(n_threads, back_off).close(),
                n_threads as nat,
            );
            &&& end.outcome() == Some(Ok::<(), BatchError>(()))
            &&& end.accepted == Seq::new(n_threads as nat, |i: int| WorkItem::Done)
        }),
        forall|at: int|
            0 <= at < n_threads ==> #[trigger] collector_action_at(
                CollectState::fresh(n_threads),
                sentinels_only(n_threads as nat),
                at,
            ) == (if at == n_threads - 1 {
                CollectorAction::Send(ResultItem::Finished)
            } else {
                CollectorAction::Skip
            }),
        pull(Map::<usize, M>::empty(), Some(ResultItem::Finished)) == BatchNext::<M>::Return(
            EndReason::Finished,
        ),
{
    let start = DispatchState::fresh(n_threads, back_off);
    lemma_sentinels_follow(start, n_threads as nat);
    assert(start.accepted + Seq::new(n_threads as nat, |i: int| WorkItem::Done) =~= Seq::new(
        n_threads as nat,
        |i: int| WorkItem::Done,
    ));
    let items = sentinels_only(n_threads as nat);
    assert forall|at: int| 0 <= at < n_threads implies #[trigger] collector_action_at(
        CollectState::fresh(n_threads),
        items,
        at,
    ) == (if at == n_threads - 1 {
        CollectorAction::Send(ResultItem::Finished)
    } else {
        CollectorAction::Skip
    }) by {
        lemma_all_sentinels(n_threads as nat, at);
        lemma_collector_forwards_then_finishes(n_threads, items, at);
    }
}

/// Among sentinels only, the first `upto` items hold `upto` sentinels.
proof fn lemma_all_sentinels(len: nat, upto: int)
    requires
        0 <= upto <= len,
    ensures
        sentinels_among(sentinels_only(len), upto) == upto,
    decreases upto,
{
    if upto > 0 {
        lemma_all_sentinels(len, upto - 1);
    }
}

/// Without back-off, a work item that the queue turns down fails the batch
/// at once, under that item's id; the batch then winds down.
pub proof fn lemma_fail_fast(state: DispatchState, id: usize, seq: String)
    requires
        state.wf(),
        !state.back_off,
        state.held == Some(WorkItem::Work(id, seq)),
    ensures
        state.settle(false).1 is None,
        state.settle(false).0.failure == Some(BatchError::QueueFull { item: Some(id) }),
        state.settle(false).0.held == Some(WorkItem::Done),
        state.settle(false).0.accepted == state.accepted,
{
}

/// The dispatcher's state after the work queue has turned the held item
/// down `times` times in a row.
pub open spec fn refused_times(start: DispatchState, times: nat) -> DispatchState
    decreases times,
{
    if times == 0 {
        start
    } else {
        refused_times(start, (times - 1) as nat).settle(false).0
    }
}

/// The pause that is due after rejection number `at`, counted from zero, of
/// a run of rejections.
pub open spec fn pause_at(start: DispatchState, at: nat) -> Option<u64> {
    refused_times(start, at).settle(false).1
}

/// With back-off, a work item that the queue keeps turning down is pushed
/// seven times: once, again at once, and again after pauses of 50, 100,
/// 200, 400 and 800 ms. After one more pause of 1600 ms the batch fails
/// under that item's id, which is known from then on, and winds down.
/// Nothing has reached the queue meanwhile.
pub proof fn lemma_backoff_gives_up(state: DispatchState, id: usize, seq: String)
    requires
        state.wf(),
        state.back_off,
        state.held == Some(WorkItem::Work(id, seq)),
        state.retry is None,
    ensures
        pause_at(state, 0) is None,
        pause_at(state, 1) == Some(50u64),
        pause_at(state, 2) == Some(100u64),
        pause_at(state, 3) == Some(200u64),
        pause_at(state, 4) == Some(400u64),
        pause_at(state, 5) == Some(800u64),
        pause_at(state, 6) == Some(1600u64),
        forall|times: nat|
            times <= RETRY_LIMIT ==> (#[trigger] refused_times(state, times)).held == state.held
                && refused_times(state, times).failure is None,
        refused_times(state, 7).failure == Some(BatchError::QueueFull { item: Some(id) }),
        refused_times(state, 7).held == Some(WorkItem::Done),
        refused_times(state, 7).accepted == state.accepted,
{
    lemma_retry_delays();
    reveal_with_fuel(refused_times, 8);
    assert(refused_times(state, 1).retry == Some(0nat));
    assert(refused_times(state, 2).retry == Some(1nat));
    assert(refused_times(state, 3).retry == Some(2nat));
    assert(refused_times(state, 4).retry == Some(3nat));
    assert(refused_times(state, 5).retry == Some(4nat));
    assert(refused_times(state, 6).retry == Some(5nat));
}

/// With back-off, a sentinel that the queue keeps turning down is pushed
/// on the same schedule as a work item. After the last pause the batch ends,
/// short of the sentinels that were still to come, with the failure noted
/// before or, if there was none, with one that names no work item.
pub proof fn lemma_backoff_gives_up_on_a_sentinel(state: DispatchState)
    requires
        state.wf(),
        state.back_off,
        state.held == Some(WorkItem::Done),
        state.retry is None,
    ensures
        pause_at(state, 0) is None,
        pause_at(state, 1) == Some(50u64),
        pause_at(state, 2) == Some(100u64),
        pause_at(state, 3) == Some(200u64),
        pause_at(state, 4) == Some(400u64),
        pause_at(state, 5) == Some(800u64),
        pause_at(state, 6) == Some(1600u64),
        forall|times: nat|
            times <= RETRY_LIMIT ==> (#[trigger] refused_times(state, times)).held == state.held
                && refused_times(state, times).failure == state.failure,
        refused_times(state, 7).finished,
        refused_times(state, 7).sentinels == state.sentinels,
        refused_times(state, 7).accepted == state.accepted,
        refused_times(state, 7).failure == (if state.failure is Some {
            state.failure
        } else {
            Some(BatchError::QueueFull { item: None })
        }),
{
    lemma_retry_delays();
    reveal_with_fuel(refused_times, 8);
    assert(refused_times(state, 1).retry == Some(0nat));
    assert(refused_times(state, 2).retry == Some(1nat));
    assert(refused_times(state, 3).retry == Some(2nat));
    assert(refused_times(state, 4).retry == Some(3nat));
    assert(refused_times(state, 5).retry == Some(4nat));
    assert(refused_times(state, 6).retry == Some(5nat));
}

/// A batch that winds down, for whatever reason, on a queue that takes
/// every sentinel sends exactly one sentinel for each worker and then ends,
/// with the failure noted before, if there was one.
pub proof fn lemma_sentinels_follow_an_abort(start: DispatchState, times: nat)
    requires
        start.wf(),
        start.held == Some(WorkItem::Done),
        start.sentinels == 0,
        times <= start.n_threads,
    ensures
        taken_times(start, times).n_threads == start.n_threads,
        taken_times(start, times).sentinels == times,
        taken_times(start, times).failure == start.failure,
        taken_times(start, times).accepted == start.accepted + Seq::new(
            times,
            |i: int| WorkItem::Done,
        ),
        taken_times(start, times).finished <==> times == start.n_threads,
        times < start.n_threads ==> taken_times(start, times).held == Some(WorkItem::Done),
    decreases times,
{
    if times == 0 {
        assert(start.accepted + Seq::new(0, |i: int| WorkItem::Done) =~= start.accepted);
    } else {
        lemma_sentinels_follow_an_abort(start, (times - 1) as nat);
        let before = taken_times(start, (times - 1) as nat);
        assert(before.held == Some(WorkItem::Done));
        assert(taken_times(start, times) == before.taken());
        assert(before.accepted.push(WorkItem::Done) =~= start.accepted + Seq::new(
            times,
            |i: int| WorkItem::Done,
        ));
    }
}

/// A dispatcher that has ended well has sent every work item it was given
/// and then exactly one sentinel for each worker.
pub proof fn lemma_ended_well(state: DispatchState)
    requires
        state.wf(),
        state.outcome() == Some(Ok::<(), BatchError>(())),
    ensures
        state.sentinels == state.n_threads,
        work_then_sentinels(state.accepted, state.n_threads as nat),
{
}

/// `after` is what one step of the dispatcher makes of `before`: it was
/// offered a record, or told that the input has ended, or had the queue's
/// answer to a push.
pub open spec fn dispatch_step(before: DispatchState, after: DispatchState) -> bool {
    ||| before.phase() == DispatchPhase::Accepting && exists|
        id: usize,
        payload: Result<String, RecordFault>,
    | after == #[trigger] before.receive(id, payload)
    ||| before.phase() == DispatchPhase::Accepting && after == before.close()
    ||| exists|accepted: bool| after == (#[trigger] before.settle(accepted)).0
}

/// How a sequence of results stands after one more pull that gave `next`:
/// one that has ended stays as it is.
pub open spec fn ended_after<M>(ended: Option<EndReason>, next: BatchNext<M>) -> Option<EndReason> {
    if ended is Some {
        ended
    } else {
        ended_by(next)
    }
}

/// Every step of a dispatcher leads from a state in order to a state in
/// order: the queue has taken a run of work items followed by as many
/// sentinels as counted, never more than one for each worker.
pub proof fn lemma_dispatch_step_keeps_order(before: DispatchState, after: DispatchState)
    requires
        before.wf(),
        dispatch_step(before, after),
    ensures
        after.wf(),
{
    if before.phase() == DispatchPhase::Accepting && after == before.close() {
    } else if before.phase() == DispatchPhase::Accepting && exists|
        id: usize,
        payload: Result<String, RecordFault>,
    | after == #[trigger] before.receive(id, payload) {
    } else {
        let accepted = choose|accepted: bool| after == (#[trigger] before.settle(accepted)).0;
        if before.held is Some && accepted {
            assert(after == before.taken());
        }
    }
}

/// A batch that is being dispatched goes on being dispatched, or starts to
/// drain, or is aborted; nothing else.
pub proof fn lemma_dispatching_moves_on(before: DispatchState, after: DispatchState)
    requires
        before.wf(),
        dispatch_step(before, after),
        batch_state_of(Some(before), None) == BatchState::Dispatching,
    ensures
        ({
            let state = batch_state_of(Some(after), None);
            state == BatchState::Dispatching || state == BatchState::Draining || state
                == BatchState::Aborted
        }),
        batch_state_of(Some(after), None) == BatchState::Draining ==> after.outcome() == Some(
            Ok::<(), BatchError>(()),
        ) && after.sentinels == after.n_threads,
{
}

/// A batch that drains goes on draining until the completion marker is
/// pulled, which ends it well.
pub proof fn lemma_draining_ends_on_the_marker<M>(
    dispatch: DispatchState,
    pending: Map<usize, M>,
    message: Option<ResultItem>,
)
    requires
        batch_state_of(Some(dispatch), None) == BatchState::Draining,
    ensures
        batch_state_of(Some(dispatch), ended_after(None, pull(pending, message))) == (if message
            == Some(ResultItem::Finished) {
            BatchState::Finished
        } else {
            BatchState::Draining
        }),
{
}

/// A batch that has finished or was aborted stays so, whatever is done with
/// its dispatcher and whatever is pulled.
pub proof fn lemma_terminal_states_stay<M>(
    before: DispatchState,
    after: DispatchState,
    ended: Option<EndReason>,
    next: BatchNext<M>,
)
    requires
        before.wf(),
        dispatch_step(before, after) || after == before,
        is_terminal(batch_state_of(Some(before), ended)),
    ensures
        after == before,
        batch_state_of(Some(after), ended_after(ended, next)) == batch_state_of(
            Some(before),
            ended,
        ),
{
}

} // verus!
