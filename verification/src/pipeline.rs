//! The pipeline as a whole.
//!
//! A run puts the parts together: one dispatcher, a pool of workers, one
//! collector and the caller that pulls, taking turns in any order. Between
//! them lie the work queue, the results queue and the output channel. A run
//! takes three things for granted: that each of these hands out what was
//! put in, in the order in which it was put in; that a worker whose sentinel
//! is on the results queue takes no more work for this batch; and that the
//! caller stays to pull. Whether a queue has room when something is pushed
//! is left open at every push.
//!
//! Every part moves as its own contract says. What is shown here is what
//! follows for the whole: no result reaches the caller without its side
//! data or twice, and when the completion marker reaches the caller every
//! work item that the queue took has either been handed out or failed to
//! align.

use crate::collector::{CollectState, CollectorAction};
use crate::dispatch::{DispatchPhase, DispatchState};
use crate::items::{ResultItem, WorkItem};
use crate::mapping::Mapping;
use crate::record::{BatchError, RecordFault};
use crate::results::{delivered_after, ended_by, pull, BatchNext, EndReason};
use crate::store::pending_entries;
use crate::worker::{EngineError, WorkerAction, WorkerState};
use vstd::prelude::*;

verus! {

/// Where a work item is, once the work queue has taken it.
pub enum Stage {
    /// On the work queue.
    Queued,
    /// With the worker at this place, being aligned.
    Aligning(int),
    /// With the worker at this place, aligned, on its way to the results
    /// queue.
    Held(int),
    /// On the results queue.
    Published,
    /// On the output channel.
    Forwarded,
    /// With the caller.
    Delivered,
    /// Nowhere: its alignment failed.
    Failed,
}

/// One worker of a run.
pub struct WorkerSlot {
    /// What the worker holds.
    pub state: WorkerState,
    /// The id of the work item that is being aligned for it.
    pub aligning: Option<usize>,
    /// Its sentinel is on the results queue, or was: it takes no more work.
    pub retired: bool,
    /// The collector has counted its sentinel.
    pub collected: bool,
}

/// A run of the pipeline at one moment.
pub struct Run<M> {
    /// The dispatcher.
    pub dispatch: DispatchState,
    /// The side data registered so far, by id.
    pub submitted: Seq<M>,
    /// The ids handed out to the caller.
    pub delivered: Set<usize>,
    /// The work queue, head first.
    pub work: Seq<WorkItem>,
    /// The number of items that workers have taken off the work queue.
    pub taken: nat,
    /// The workers.
    pub workers: Seq<WorkerSlot>,
    /// The results queue, head first, each item with the place of the worker
    /// that put it there.
    pub results: Seq<(int, ResultItem)>,
    /// The collector.
    pub collector: CollectState,
    /// The output channel, head first.
    pub channel: Seq<ResultItem>,
    /// Why the caller's sequence has ended, once it has.
    pub ended: Option<EndReason>,
    /// The ids of the work items whose alignment failed.
    pub failed: Set<usize>,
    /// Where each work item is that the work queue has taken.
    pub stage: Map<usize, Stage>,
}

/// One turn of one part.
pub enum Step<M> {
    /// The dispatcher is offered a record that names this payload and, if
    /// it is a mapping, comes with this side data.
    Offer(Result<String, RecordFault>, Option<M>),
    /// The dispatcher is told that the input has ended.
    Close,
    /// The dispatcher pushes what it holds; the work queue takes it or not.
    Push(bool),
    /// The worker at this place pops the work queue.
    Poll(int),
    /// The alignment for the worker at this place ends like this.
    Complete(int, Result<Vec<Mapping>, EngineError>),
    /// The worker at this place pushes what it holds; the results queue
    /// takes it or not.
    Publish(int, bool),
    /// The collector pops the results queue and sends what is due.
    Collect,
    /// The caller pulls the next message off the output channel.
    Pull,
}

/// The number of workers whose sentinel the collector has counted.
pub open spec fn count_collected(workers: Seq<WorkerSlot>) -> nat
    decreases workers.len(),
{
    if workers.len() == 0 {
        0
    } else {
        count_collected(workers.drop_last()) + if workers.last().collected {
            1nat
        } else {
            0nat
        }
    }
}

/// The workers of a fresh pool.
pub open spec fn fresh_workers(n_threads: usize) -> Seq<WorkerSlot> {
    Seq::new(
        n_threads as nat,
        |place: int|
            WorkerSlot {
                state: WorkerState::fresh(place as usize),
                aligning: None,
                retired: false,
                collected: false,
            },
    )
}

impl<M> Run<M> {
    /// A run before its first turn, for a pool of `n_threads` workers.
    pub open spec fn start(n_threads: usize, back_off: bool) -> Run<M> {
        Run {
            dispatch: DispatchState::fresh(n_threads, back_off),
            submitted: Seq::empty(),
            delivered: Set::empty(),
            work: Seq::empty(),
            taken: 0,
            workers: fresh_workers(n_threads),
            results: Seq::empty(),
            collector: CollectState::fresh(n_threads),
            channel: Seq::empty(),
            ended: None,
            failed: Set::empty(),
            stage: Map::empty(),
        }
    }

    /// The number of work items that the work queue has taken.
    pub open spec fn work_count(self) -> int {
        self.dispatch.accepted.len() - self.dispatch.sentinels
    }

    /// The side data that is pending.
    pub open spec fn pending(self) -> Map<usize, M> {
        pending_entries(self.submitted, self.delivered)
    }

    /// The worker at `place` is one that can take a turn.
    pub open spec fn has_worker(self, place: int) -> bool {
        0 <= place < self.workers.len()
    }

    /// Whether the part whose turn `step` is can take it now.
    pub open spec fn enabled(self, step: Step<M>) -> bool {
        match step {
            Step::Offer(payload, meta) => {
                &&& self.dispatch.phase() == DispatchPhase::Accepting
                &&& self.submitted.len() < usize::MAX
                &&& meta is None <==> payload == Err::<String, RecordFault>(RecordFault::NotMapping)
            },
            Step::Close => self.dispatch.phase() == DispatchPhase::Accepting,
            Step::Push(_) => self.dispatch.held is Some,
            Step::Poll(place) => {
                &&& self.has_worker(place)
                &&& !self.workers[place].retired
                &&& self.workers[place].aligning is None
                &&& self.workers[place].state.held is None
            },
            Step::Complete(place, _) => self.has_worker(place) && self.workers[place].aligning
                is Some,
            Step::Publish(place, _) => self.has_worker(place) && self.workers[place].state.held
                is Some,
            Step::Collect => true,
            Step::Pull => self.ended is None && self.channel.len() > 0,
        }
    }

    /// The run after the dispatcher was offered a record.
    pub open spec fn offered(self, payload: Result<String, RecordFault>, meta: Option<M>) -> Run<M> {
        Run {
            dispatch: self.dispatch.receive(self.submitted.len() as usize, payload),
            submitted: match meta {
                Some(meta) => self.submitted.push(meta),
                None => self.submitted,
            },
            ..self
        }
    }

    /// The run after the dispatcher pushed what it holds.
    pub open spec fn pushed(self, accepted: bool) -> Run<M> {
        let item = self.dispatch.held->0;
        Run {
            dispatch: self.dispatch.settle(accepted).0,
            work: if accepted {
                self.work.push(item)
            } else {
                self.work
            },
            stage: match item {
                WorkItem::Work(id, _) if accepted => self.stage.insert(id, Stage::Queued),
                _ => self.stage,
            },
            ..self
        }
    }

    /// The run after the worker at `place` popped the work queue.
    pub open spec fn polled(self, place: int) -> Run<M> {
        let slot = self.workers[place];
        let popped = if self.work.len() > 0 {
            Some(self.work[0])
        } else {
            None
        };
        let (state, action) = slot.state.react(popped);
        Run {
            work: if self.work.len() > 0 {
                self.work.drop_first()
            } else {
                self.work
            },
            taken: if self.work.len() > 0 {
                self.taken + 1
            } else {
                self.taken
            },
            workers: self.workers.update(
                place,
                WorkerSlot {
                    state,
                    aligning: match action {
                        WorkerAction::Align(id, _) => Some(id),
                        _ => None,
                    },
                    ..slot
                },
            ),
            stage: match popped {
                Some(WorkItem::Work(id, _)) => self.stage.insert(id, Stage::Aligning(place)),
                _ => self.stage,
            },
            ..self
        }
    }

    /// The run after the alignment for the worker at `place` ended.
    pub open spec fn completed(self, place: int, outcome: Result<Vec<Mapping>, EngineError>)
        -> Run<M> {
        let slot = self.workers[place];
        let id = slot.aligning->0;
        Run {
            workers: self.workers.update(
                place,
                WorkerSlot { state: slot.state.complete(id, outcome), aligning: None, ..slot },
            ),
            failed: if outcome is Err {
                self.failed.insert(id)
            } else {
                self.failed
            },
            stage: if outcome is Err {
                self.stage.insert(id, Stage::Failed)
            } else {
                self.stage.insert(id, Stage::Held(place))
            },
            ..self
        }
    }

    /// The run after the worker at `place` pushed what it holds.
    pub open spec fn published(self, place: int, accepted: bool) -> Run<M> {
        let slot = self.workers[place];
        let item = slot.state.held->0;
        let (state, action) = slot.state.published(accepted);
        Run {
            workers: self.workers.update(
                place,
                WorkerSlot { state, retired: action == WorkerAction::Retire, ..slot },
            ),
            results: if accepted {
                self.results.push((place, item))
            } else {
                self.results
            },
            stage: match item {
                ResultItem::Result(id, _) if accepted => self.stage.insert(id, Stage::Published),
                _ => self.stage,
            },
            ..self
        }
    }

    /// The run after the collector took its turn.
    pub open spec fn collected(self) -> Run<M> {
        if self.results.len() == 0 {
            Run { collector: self.collector.turn(None, true).0, ..self }
        } else {
            let (place, item) = self.results[0];
            let (_, action) = self.collector.react(Some(item));
            Run {
                collector: self.collector.turn(Some(item), true).0,
                results: self.results.drop_first(),
                channel: match action {
                    CollectorAction::Send(message) => self.channel.push(message),
                    _ => self.channel,
                },
                workers: if item == ResultItem::Done && self.has_worker(place) {
                    self.workers.update(
                        place,
                        WorkerSlot { collected: true, ..self.workers[place] },
                    )
                } else {
                    self.workers
                },
                stage: match item {
                    ResultItem::Result(id, _) if action is Send => self.stage.insert(
                        id,
                        Stage::Forwarded,
                    ),
                    _ => self.stage,
                },
                ..self
            }
        }
    }

    /// The run after the caller pulled.
    pub open spec fn pulled(self) -> Run<M> {
        let message = Some(self.channel[0]);
        let next = pull(self.pending(), message);
        Run {
            channel: self.channel.drop_first(),
            delivered: delivered_after(self.pending(), self.delivered, message),
            ended: ended_by(next),
            stage: match self.channel[0] {
                ResultItem::Result(id, _) if self.pending().contains_key(id) => self.stage.insert(
                    id,
                    Stage::Delivered,
                ),
                _ => self.stage,
            },
            ..self
        }
    }

    /// The run after `step`.
    pub open spec fn after(self, step: Step<M>) -> Run<M> {
        match step {
            Step::Offer(payload, meta) => self.offered(payload, meta),
            Step::Close => Run { dispatch: self.dispatch.close(), ..self },
            Step::Push(accepted) => self.pushed(accepted),
            Step::Poll(place) => self.polled(place),
            Step::Complete(place, outcome) => self.completed(place, outcome),
            Step::Publish(place, accepted) => self.published(place, accepted),
            Step::Collect => self.collected(),
            Step::Pull => self.pulled(),
        }
    }
}

/// The id that a result item carries.
pub open spec fn result_id(item: ResultItem) -> Option<usize> {
    match item {
        ResultItem::Result(id, _) => Some(id),
        _ => None,
    }
}

impl<M> Run<M> {
    /// The result for the work item `id` is at `at` on the results queue.
    pub open spec fn published_at(self, id: usize, at: int) -> bool {
        0 <= at < self.results.len() && result_id(self.results[at].1) == Some(id)
    }

    /// The result for the work item `id` is at `at` on the output channel.
    pub open spec fn forwarded_at(self, id: usize, at: int) -> bool {
        0 <= at < self.channel.len() && result_id(self.channel[at]) == Some(id)
    }

    /// The sentinel of the worker at `place` is at `at` on the results
    /// queue.
    pub open spec fn sentinel_at(self, place: int, at: int) -> bool {
        0 <= at < self.results.len() && self.results[at] == (place, ResultItem::Done)
    }

    /// The parts fit together: each is in order by itself, and dispatcher,
    /// pool and collector agree on the pool's size.
    pub open spec fn parts_in_order(self) -> bool {
        &&& self.dispatch.wf()
        &&& self.collector.wf()
        &&& self.collector.forwarding
        &&& self.collector.n_threads == self.dispatch.n_threads
        &&& self.workers.len() == self.dispatch.n_threads
    }

    /// The work items that the work queue has taken carry the ids 0, 1, 2
    /// and so on, in that order, and no id has been given out beyond the one
    /// in the dispatcher's hand.
    pub open spec fn ids_in_order(self) -> bool {
        &&& forall|i: int|
            0 <= i < self.work_count() ==> (#[trigger] self.dispatch.accepted[i] matches WorkItem::Work(
                id,
                _,
            ) && id == i)
        &&& self.work_count() <= self.submitted.len() <= self.work_count() + 1
        &&& self.submitted.len() <= usize::MAX
        &&& self.dispatch.held matches Some(WorkItem::Work(id, _)) ==> id == self.work_count()
            && self.submitted.len() == self.work_count() + 1
        &&& !(self.dispatch.held matches Some(WorkItem::Work(_, _))) && self.dispatch.failure
            is None ==> self.submitted.len() == self.work_count()
    }

    /// The work queue holds what it has taken and not yet handed out.
    pub open spec fn work_in_order(self) -> bool {
        &&& self.taken <= self.dispatch.accepted.len()
        &&& self.work == self.dispatch.accepted.skip(self.taken as int)
    }

    /// Every work item that the work queue has taken is in one place, and
    /// that place holds it.
    pub open spec fn stages_in_order(self) -> bool {
        &&& forall|id: usize| #[trigger] self.stage.contains_key(id) <==> id < self.work_count()
        &&& forall|id: usize|
            id < self.work_count() ==> ((#[trigger] self.stage[id]) == Stage::Queued <==> id
                >= self.taken)
        &&& forall|id: usize|
            id < self.work_count() ==> ((#[trigger] self.stage[id]) matches Stage::Aligning(place)
                ==> self.has_worker(place) && self.workers[place].aligning == Some(id))
        &&& forall|place: int|
            self.has_worker(place) ==> ((#[trigger] self.workers[place]).aligning matches Some(id)
                ==> id < self.work_count() && self.stage[id] == Stage::Aligning(place))
        &&& forall|id: usize|
            id < self.work_count() ==> ((#[trigger] self.stage[id]) matches Stage::Held(place)
                ==> self.has_worker(place) && result_id(self.workers[place].state.held->0) == Some(
                id,
            ) && self.workers[place].state.held is Some)
        &&& forall|place: int|
            self.has_worker(place) ==> ((#[trigger] self.workers[place]).state.held matches Some(
                ResultItem::Result(id, _),
            ) ==> id < self.work_count() && self.stage[id] == Stage::Held(place))
        &&& forall|id: usize|
            id < self.work_count() ==> ((#[trigger] self.stage[id]) == Stage::Published
                ==> exists|at: int| self.published_at(id, at))
        &&& forall|at: int|
            0 <= at < self.results.len() ==> ((#[trigger] self.results[at]).1 matches ResultItem::Result(
                id,
                _,
            ) ==> id < self.work_count() && self.stage[id] == Stage::Published)
        &&& forall|id: usize, at: int, other: int|
            #![trigger self.published_at(id, at), self.published_at(id, other)]
            self.published_at(id, at) && self.published_at(id, other) ==> at == other
        &&& forall|id: usize|
            id < self.work_count() ==> ((#[trigger] self.stage[id]) == Stage::Forwarded
                ==> exists|at: int| self.forwarded_at(id, at))
        &&& forall|at: int|
            0 <= at < self.channel.len() ==> ((#[trigger] self.channel[at]) matches ResultItem::Result(
                id,
                _,
            ) ==> id < self.work_count() && self.stage[id] == Stage::Forwarded)
        &&& forall|id: usize, at: int, other: int|
            #![trigger self.forwarded_at(id, at), self.forwarded_at(id, other)]
            self.forwarded_at(id, at) && self.forwarded_at(id, other) ==> at == other
        &&& forall|id: usize|
            #[trigger] self.delivered.contains(id) <==> id < self.work_count() && self.stage[id]
                == Stage::Delivered
        &&& forall|id: usize|
            #[trigger] self.failed.contains(id) <==> id < self.work_count() && self.stage[id]
                == Stage::Failed
    }

    /// A worker does one thing at a time, takes no work once it has taken a
    /// sentinel, and takes a sentinel only when every work item is off the
    /// work queue.
    pub open spec fn workers_in_order(self) -> bool {
        forall|place: int|
            self.has_worker(place) ==> {
                let slot = #[trigger] self.workers[place];
                &&& slot.retired ==> slot.aligning is None && slot.state.held is None
                &&& slot.collected ==> slot.retired
                &&& slot.aligning is Some ==> slot.state.held is None
                &&& slot.state.held != Some(ResultItem::Finished)
                &&& slot.state.held == Some(ResultItem::Done) || slot.retired ==> self.taken
                    > self.work_count()
            }
    }

    /// On the results queue, every result lies ahead of the sentinel of the
    /// worker that found it, and every worker has at most one sentinel
    /// there. The collector has counted the sentinels that have left the
    /// queue.
    pub open spec fn results_in_order(self) -> bool {
        &&& forall|at: int|
            0 <= at < self.results.len() ==> {
                let (place, item) = #[trigger] self.results[at];
                &&& self.has_worker(place)
                &&& item != ResultItem::Finished
                &&& item is Result ==> !self.workers[place].collected
                &&& item is Result && self.workers[place].retired ==> exists|later: int|
                    at < later && self.sentinel_at(place, later)
                &&& item == ResultItem::Done ==> self.workers[place].retired
                    && !self.workers[place].collected
            }
        &&& forall|place: int, at: int, other: int|
            #![trigger self.sentinel_at(place, at), self.sentinel_at(place, other)]
            self.sentinel_at(place, at) && self.sentinel_at(place, other) ==> at == other
        &&& self.collector.n_finished == count_collected(self.workers)
    }

    /// The completion marker is the last thing on the output channel, and
    /// the caller's sequence ends on nothing else.
    pub open spec fn channel_in_order(self) -> bool {
        &&& forall|at: int|
            0 <= at < self.channel.len() ==> (#[trigger] self.channel[at]) != ResultItem::Done
        &&& forall|at: int|
            0 <= at < self.channel.len() ==> ((#[trigger] self.channel[at]) == ResultItem::Finished
                ==> at == self.channel.len() - 1)
        &&& self.collector.finished() <==> self.ended == Some(EndReason::Finished) || (
        self.channel.len() > 0 && self.channel.last() == ResultItem::Finished)
        &&& self.ended matches Some(reason) ==> reason == EndReason::Finished
            && self.channel.len() == 0
    }

    /// What holds at every moment of a run.
    pub open spec fn inv(self) -> bool {
        &&& self.parts_in_order()
        &&& self.ids_in_order()
        &&& self.work_in_order()
        &&& self.stages_in_order()
        &&& self.workers_in_order()
        &&& self.results_in_order()
        &&& self.channel_in_order()
    }
}

/// A fresh pool has no worker whose sentinel was counted.
proof fn lemma_count_fresh(n_threads: usize, upto: int)
    requires
        0 <= upto <= n_threads,
    ensures
        count_collected(fresh_workers(n_threads).take(upto)) == 0,
    decreases upto,
{
    if upto > 0 {
        lemma_count_fresh(n_threads, upto - 1);
        assert(fresh_workers(n_threads).take(upto).drop_last() =~= fresh_workers(n_threads).take(
            upto - 1,
        ));
    }
}

/// A run starts in order.
pub proof fn lemma_start_in_order<M>(n_threads: usize, back_off: bool)
    requires
        n_threads >= 1,
    ensures
        Run::<M>::start(n_threads, back_off).inv(),
{
    let run = Run::<M>::start(n_threads, back_off);
    assert(run.work =~= run.dispatch.accepted.skip(0));
    lemma_count_fresh(n_threads, n_threads as int);
    assert(fresh_workers(n_threads).take(n_threads as int) =~= fresh_workers(n_threads));
}

proof fn lemma_offer_keeps_order<M>(
    run: Run<M>,
    payload: Result<String, RecordFault>,
    meta: Option<M>,
)
    requires
        run.inv(),
        run.enabled(Step::Offer(payload, meta)),
    ensures
        run.offered(payload, meta).inv(),
{
    let next = run.offered(payload, meta);
    assert(next.work_count() == run.work_count());
    assert(next.stages_in_order()) by {
        assert forall|id: usize, at: int| next.published_at(id, at) == run.published_at(id, at) by {}
        assert forall|id: usize, at: int| next.forwarded_at(id, at) == run.forwarded_at(id, at) by {}
    }
    assert(next.results_in_order()) by {
        assert forall|place: int, at: int| next.sentinel_at(place, at) == run.sentinel_at(
            place,
            at,
        ) by {}
    }
}

proof fn lemma_close_keeps_order<M>(run: Run<M>)
    requires
        run.inv(),
        run.enabled(Step::Close),
    ensures
        run.after(Step::Close).inv(),
{
    let next = run.after(Step::Close);
    assert(next.work_count() == run.work_count());
    assert(next.stages_in_order()) by {
        assert forall|id: usize, at: int| next.published_at(id, at) == run.published_at(id, at) by {}
        assert forall|id: usize, at: int| next.forwarded_at(id, at) == run.forwarded_at(id, at) by {}
    }
    assert(next.results_in_order()) by {
        assert forall|place: int, at: int| next.sentinel_at(place, at) == run.sentinel_at(
            place,
            at,
        ) by {}
    }
}

proof fn lemma_push_keeps_order<M>(run: Run<M>, accepted: bool)
    requires
        run.inv(),
        run.enabled(Step::Push(accepted)),
    ensures
        run.pushed(accepted).inv(),
{
    let next = run.pushed(accepted);
    let item = run.dispatch.held->0;
    assert forall|id: usize, at: int| next.published_at(id, at) == run.published_at(id, at) by {}
    assert forall|id: usize, at: int| next.forwarded_at(id, at) == run.forwarded_at(id, at) by {}
    assert forall|place: int, at: int| next.sentinel_at(place, at) == run.sentinel_at(
        place,
        at,
    ) by {}
    if accepted {
        assert(next.dispatch == run.dispatch.taken());
        assert(next.dispatch.accepted == run.dispatch.accepted.push(item));
        assert(next.work =~= next.dispatch.accepted.skip(next.taken as int));
        match item {
            WorkItem::Work(id, _) => {
                assert(next.work_count() == run.work_count() + 1);
                assert(run.dispatch.sentinels == 0);
                assert(run.taken <= run.work_count());
                assert(next.ids_in_order());
                assert(next.workers_in_order());
                assert(next.stages_in_order());
                assert(next.results_in_order());
            },
            WorkItem::Done => {
                assert(next.work_count() == run.work_count());
                assert(next.ids_in_order());
                assert(next.stages_in_order());
            },
        }
    } else {
        assert(next.dispatch.accepted == run.dispatch.accepted);
        assert(next.dispatch.sentinels == run.dispatch.sentinels);
        assert(next.work_count() == run.work_count());
        assert(next.ids_in_order());
        assert(next.stages_in_order());
    }
}

/// Replacing one worker changes the count of counted sentinels by what
/// that worker adds to it.
proof fn lemma_count_update(workers: Seq<WorkerSlot>, place: int, slot: WorkerSlot)
    requires
        0 <= place < workers.len(),
    ensures
        count_collected(workers.update(place, slot)) + (if workers[place].collected {
            1nat
        } else {
            0nat
        }) == count_collected(workers) + (if slot.collected {
            1nat
        } else {
            0nat
        }),
    decreases workers.len(),
{
    let updated = workers.update(place, slot);
    if place == workers.len() - 1 {
        assert(updated.drop_last() =~= workers.drop_last());
    } else {
        lemma_count_update(workers.drop_last(), place, slot);
        assert(updated.drop_last() =~= workers.drop_last().update(place, slot));
    }
}

/// No more sentinels are counted than there are workers, and if as many,
/// then every worker's.
pub proof fn lemma_count_bound(workers: Seq<WorkerSlot>)
    ensures
        count_collected(workers) <= workers.len(),
        count_collected(workers) == workers.len() ==> forall|place: int|
            0 <= place < workers.len() ==> (#[trigger] workers[place]).collected,
    decreases workers.len(),
{
    if workers.len() > 0 {
        lemma_count_bound(workers.drop_last());
        if count_collected(workers) == workers.len() {
            assert forall|place: int| 0 <= place < workers.len() implies (
            #[trigger] workers[place]).collected by {
                if place < workers.len() - 1 {
                    assert(workers.drop_last()[place] == workers[place]);
                }
            }
        }
    }
}

proof fn lemma_poll_keeps_order<M>(run: Run<M>, place: int)
    requires
        run.inv(),
        run.enabled(Step::Poll(place)),
    ensures
        run.polled(place).inv(),
{
    let next = run.polled(place);
    assert forall|id: usize, at: int| next.published_at(id, at) == run.published_at(id, at) by {}
    assert forall|id: usize, at: int| next.forwarded_at(id, at) == run.forwarded_at(id, at) by {}
    assert forall|other: int, at: int| next.sentinel_at(other, at) == run.sentinel_at(
        other,
        at,
    ) by {}
    lemma_count_update(run.workers, place, next.workers[place]);
    assert(next.work_count() == run.work_count());
    if run.work.len() == 0 {
        assert(next.workers =~= run.workers);
        assert(next.stages_in_order());
        assert(next.results_in_order());
    } else {
        assert(run.work[0] == run.dispatch.accepted[run.taken as int]);
        assert(next.work =~= next.dispatch.accepted.skip(next.taken as int));
        match run.work[0] {
            WorkItem::Work(id, _) => {
                assert(run.taken < run.work_count());
                assert(id == run.taken);
                assert(next.workers_in_order());
                assert(next.stages_in_order());
                assert(next.results_in_order());
            },
            WorkItem::Done => {
                assert(run.taken >= run.work_count());
                assert(next.workers_in_order());
                assert(next.stages_in_order());
                assert(next.results_in_order());
            },
        }
    }
}

proof fn lemma_complete_keeps_order<M>(
    run: Run<M>,
    place: int,
    outcome: Result<Vec<Mapping>, EngineError>,
)
    requires
        run.inv(),
        run.enabled(Step::Complete(place, outcome)),
    ensures
        run.completed(place, outcome).inv(),
{
    let next = run.completed(place, outcome);
    let id = run.workers[place].aligning->0;
    assert forall|id: usize, at: int| next.published_at(id, at) == run.published_at(id, at) by {}
    assert forall|id: usize, at: int| next.forwarded_at(id, at) == run.forwarded_at(id, at) by {}
    assert forall|other: int, at: int| next.sentinel_at(other, at) == run.sentinel_at(
        other,
        at,
    ) by {}
    lemma_count_update(run.workers, place, next.workers[place]);
    assert(next.work_count() == run.work_count());
    assert(run.stage[id] == Stage::Aligning(place));
    assert(run.workers[place].state.held is None);
    assert(next.workers_in_order());
    assert(next.stages_in_order());
    assert(next.results_in_order());
}

proof fn lemma_publish_keeps_order<M>(run: Run<M>, place: int, accepted: bool)
    requires
        run.inv(),
        run.enabled(Step::Publish(place, accepted)),
    ensures
        run.published(place, accepted).inv(),
{
    let next = run.published(place, accepted);
    let item = run.workers[place].state.held->0;
    let end = run.results.len() as int;
    lemma_count_update(run.workers, place, next.workers[place]);
    assert(next.work_count() == run.work_count());
    assert forall|id: usize, at: int| next.forwarded_at(id, at) == run.forwarded_at(id, at) by {}
    assert(!run.workers[place].retired);
    assert(!run.workers[place].collected);
    assert(run.workers[place].aligning is None);
    if !accepted {
        assert(next.workers =~= run.workers);
        assert forall|id: usize, at: int| next.published_at(id, at) == run.published_at(
            id,
            at,
        ) by {}
        assert forall|other: int, at: int| next.sentinel_at(other, at) == run.sentinel_at(
            other,
            at,
        ) by {}
        assert(next.stages_in_order());
        assert(next.results_in_order());
    } else {
        assert forall|id: usize, at: int| at != end implies next.published_at(id, at)
            == run.published_at(id, at) by {}
        assert forall|other: int, at: int| at != end implies next.sentinel_at(other, at)
            == run.sentinel_at(other, at) by {}
        match item {
            ResultItem::Result(id, _) => {
                assert(run.stage[id] == Stage::Held(place));
                assert(next.published_at(id, end));
                assert forall|other: usize, at: int| next.published_at(other, at) && other
                    != id implies run.published_at(other, at) by {}
                assert forall|at: int| !run.published_at(id, at) by {
                    if run.published_at(id, at) {
                        assert(run.results[at].1 is Result);
                    }
                }
                assert forall|other: int, at: int| next.sentinel_at(other, at)
                    == run.sentinel_at(other, at) by {}
                assert(next.workers_in_order());
                assert(next.stages_in_order()) by {
                    assert forall|other: usize|
                        other < next.work_count() && (#[trigger] next.stage[other])
                            == Stage::Published implies exists|at: int|
                        next.published_at(other, at) by {
                        if other != id {
                            let at = choose|at: int| run.published_at(other, at);
                            assert(next.published_at(other, at));
                        }
                    }
                }
                assert(next.results_in_order()) by {
                    assert forall|at: int| 0 <= at < next.results.len() implies {
                        let (spot, thing) = #[trigger] next.results[at];
                        thing is Result && next.workers[spot].retired ==> exists|later: int|
                            at < later && next.sentinel_at(spot, later)
                    } by {
                        if at < end {
                            let (spot, thing) = run.results[at];
                            if thing is Result && run.workers[spot].retired {
                                let later = choose|later: int|
                                    at < later && run.sentinel_at(spot, later);
                                assert(next.sentinel_at(spot, later));
                            }
                        }
                    }
                }
            },
            ResultItem::Done => {
                assert(next.sentinel_at(place, end));
                assert forall|at: int| !run.sentinel_at(place, at) by {
                    if run.sentinel_at(place, at) {
                        assert(run.results[at].1 == ResultItem::Done);
                    }
                }
                assert forall|id: usize, at: int| next.published_at(id, at) == run.published_at(
                    id,
                    at,
                ) by {}
                assert(next.workers_in_order());
                assert(next.stages_in_order());
                assert(next.results_in_order()) by {
                    assert forall|at: int| 0 <= at < next.results.len() implies {
                        let (spot, thing) = #[trigger] next.results[at];
                        thing is Result && next.workers[spot].retired ==> exists|later: int|
                            at < later && next.sentinel_at(spot, later)
                    } by {
                        if at < end {
                            let (spot, thing) = run.results[at];
                            if thing is Result {
                                if spot == place {
                                    assert(at < end && next.sentinel_at(place, end));
                                } else if run.workers[spot].retired {
                                    let later = choose|later: int|
                                        at < later && run.sentinel_at(spot, later);
                                    assert(next.sentinel_at(spot, later));
                                }
                            }
                        }
                    }
                }
            },
            ResultItem::Finished => {},
        }
    }
}

proof fn lemma_collect_keeps_order<M>(run: Run<M>)
    requires
        run.inv(),
    ensures
        run.collected().inv(),
{
    let next = run.collected();
    assert(next.work_count() == run.work_count());
    lemma_count_bound(run.workers);
    if run.results.len() == 0 {
        assert forall|id: usize, at: int| next.published_at(id, at) == run.published_at(
            id,
            at,
        ) by {}
        assert forall|id: usize, at: int| next.forwarded_at(id, at) == run.forwarded_at(
            id,
            at,
        ) by {}
        assert forall|other: int, at: int| next.sentinel_at(other, at) == run.sentinel_at(
            other,
            at,
        ) by {}
        assert(next.stages_in_order());
        assert(next.results_in_order());
    } else {
        let (place, item) = run.results[0];
        let end = run.channel.len() as int;
        assert(!run.workers[place].collected);
        assert(!run.collector.finished());
        assert(run.ended is None);
        assert forall|at: int| 0 <= at < run.channel.len() implies run.channel[at]
            != ResultItem::Finished by {}
        assert forall|id: usize, at: int| at >= 0 implies next.published_at(id, at)
            == run.published_at(id, at + 1) by {}
        assert forall|id: usize, at: int| at < 0 implies !next.published_at(id, at) by {}
        assert forall|other: int, at: int| at >= 0 implies next.sentinel_at(other, at)
            == run.sentinel_at(other, at + 1) by {}
        assert forall|other: int, at: int| at < 0 implies !next.sentinel_at(other, at) by {}
        match item {
            ResultItem::Result(id, _) => {
                assert(run.published_at(id, 0));
                assert(next.workers == run.workers);
                assert(next.collector == run.collector);
                assert(next.forwarded_at(id, end));
                assert forall|other: usize, at: int| at != end implies next.forwarded_at(
                    other,
                    at,
                ) == run.forwarded_at(other, at) by {}
                assert forall|at: int| !run.forwarded_at(id, at) by {
                    if run.forwarded_at(id, at) {
                        assert(run.channel[at] is Result);
                    }
                }
                assert(next.stages_in_order()) by {
                    assert forall|other: usize|
                        other < next.work_count() && (#[trigger] next.stage[other])
                            == Stage::Published implies exists|at: int|
                        next.published_at(other, at) by {
                        let at = choose|at: int| run.published_at(other, at);
                        assert(at != 0);
                        assert(next.published_at(other, at - 1));
                    }
                    assert forall|other: usize|
                        other < next.work_count() && (#[trigger] next.stage[other])
                            == Stage::Forwarded implies exists|at: int|
                        next.forwarded_at(other, at) by {
                        if other != id {
                            let at = choose|at: int| run.forwarded_at(other, at);
                            assert(next.forwarded_at(other, at));
                        }
                    }
                    assert forall|at: int| 0 <= at < next.results.len() implies ((
                    #[trigger] next.results[at]).1 matches ResultItem::Result(other, _) ==> other
                        < next.work_count() && next.stage[other] == Stage::Published) by {
                        assert(next.results[at] == run.results[at + 1]);
                        if let ResultItem::Result(other, _) = next.results[at].1 {
                            assert(run.published_at(other, at + 1));
                        }
                    }
                }
                assert(next.results_in_order()) by {
                    assert forall|at: int| 0 <= at < next.results.len() implies {
                        let (spot, thing) = #[trigger] next.results[at];
                        &&& next.has_worker(spot)
                        &&& thing != ResultItem::Finished
                        &&& thing is Result ==> !next.workers[spot].collected
                        &&& thing is Result && next.workers[spot].retired ==> exists|later: int|
                            at < later && next.sentinel_at(spot, later)
                        &&& thing == ResultItem::Done ==> next.workers[spot].retired
                            && !next.workers[spot].collected
                    } by {
                        let (spot, thing) = run.results[at + 1];
                        assert(next.results[at] == run.results[at + 1]);
                        if thing is Result && run.workers[spot].retired {
                            let later = choose|later: int|
                                at + 1 < later && run.sentinel_at(spot, later);
                            assert(next.sentinel_at(spot, later - 1));
                        }
                    }
                }
                assert(next.channel_in_order());
            },
            ResultItem::Done => {
                assert(run.sentinel_at(place, 0));
                lemma_count_update(run.workers, place, next.workers[place]);
                assert forall|id: usize, at: int| at != end implies next.forwarded_at(id, at)
                    == run.forwarded_at(id, at) by {}
                assert forall|id: usize| !next.forwarded_at(id, end) by {}
                assert(next.workers_in_order());
                assert(next.stages_in_order()) by {
                    assert forall|other: usize|
                        other < next.work_count() && (#[trigger] next.stage[other])
                            == Stage::Published implies exists|at: int|
                        next.published_at(other, at) by {
                        let at = choose|at: int| run.published_at(other, at);
                        assert(at != 0);
                        assert(next.published_at(other, at - 1));
                    }
                    assert forall|other: usize|
                        other < next.work_count() && (#[trigger] next.stage[other])
                            == Stage::Forwarded implies exists|at: int|
                        next.forwarded_at(other, at) by {
                        let at = choose|at: int| run.forwarded_at(other, at);
                        assert(next.forwarded_at(other, at));
                    }
                    assert forall|at: int| 0 <= at < next.results.len() implies ((
                    #[trigger] next.results[at]).1 matches ResultItem::Result(other, _) ==> other
                        < next.work_count() && next.stage[other] == Stage::Published) by {
                        assert(next.results[at] == run.results[at + 1]);
                    }
                }
                assert(next.results_in_order()) by {
                    assert forall|at: int| 0 <= at < next.results.len() implies {
                        let (spot, thing) = #[trigger] next.results[at];
                        &&& next.has_worker(spot)
                        &&& thing != ResultItem::Finished
                        &&& thing is Result ==> !next.workers[spot].collected
                        &&& thing is Result && next.workers[spot].retired ==> exists|later: int|
                            at < later && next.sentinel_at(spot, later)
                        &&& thing == ResultItem::Done ==> next.workers[spot].retired
                            && !next.workers[spot].collected
                    } by {
                        let (spot, thing) = run.results[at + 1];
                        assert(next.results[at] == run.results[at + 1]);
                        if thing is Result && run.workers[spot].retired {
                            let later = choose|later: int|
                                at + 1 < later && run.sentinel_at(spot, later);
                            assert(next.sentinel_at(spot, later - 1));
                        }
                        if thing == ResultItem::Done && spot == place {
                            assert(run.sentinel_at(place, at + 1));
                        }
                    }
                }
                assert(next.channel_in_order());
            },
            ResultItem::Finished => {},
        }
    }
}

proof fn lemma_pull_keeps_order<M>(run: Run<M>)
    requires
        run.inv(),
        run.enabled(Step::Pull),
    ensures
        run.pulled().inv(),
{
    let next = run.pulled();
    assert(next.work_count() == run.work_count());
    assert forall|id: usize, at: int| next.published_at(id, at) == run.published_at(id, at) by {}
    assert forall|other: int, at: int| next.sentinel_at(other, at) == run.sentinel_at(
        other,
        at,
    ) by {}
    assert forall|id: usize, at: int| at >= 0 implies next.forwarded_at(id, at)
        == run.forwarded_at(id, at + 1) by {}
    assert forall|id: usize, at: int| at < 0 implies !next.forwarded_at(id, at) by {}
    match run.channel[0] {
        ResultItem::Result(id, _) => {
            assert(run.forwarded_at(id, 0));
            assert(run.stage[id] == Stage::Forwarded);
            assert(!run.delivered.contains(id));
            assert(run.pending().contains_key(id));
            assert(next.stages_in_order()) by {
                assert forall|other: usize|
                    other < next.work_count() && (#[trigger] next.stage[other])
                        == Stage::Forwarded implies exists|at: int|
                    next.forwarded_at(other, at) by {
                    let at = choose|at: int| run.forwarded_at(other, at);
                    assert(at != 0);
                    assert(next.forwarded_at(other, at - 1));
                }
                assert forall|at: int| 0 <= at < next.channel.len() implies ((
                #[trigger] next.channel[at]) matches ResultItem::Result(other, _) ==> other
                    < next.work_count() && next.stage[other] == Stage::Forwarded) by {
                    assert(next.channel[at] == run.channel[at + 1]);
                    if let ResultItem::Result(other, _) = next.channel[at] {
                        assert(run.forwarded_at(other, at + 1));
                    }
                }
            }
            assert(next.channel_in_order()) by {
                assert forall|at: int| 0 <= at < next.channel.len() implies (
                #[trigger] next.channel[at]) != ResultItem::Done && (next.channel[at]
                    == ResultItem::Finished ==> at == next.channel.len() - 1) by {
                    assert(next.channel[at] == run.channel[at + 1]);
                }
                if next.channel.len() > 0 {
                    assert(next.channel.last() == run.channel.last());
                }
            }
        },
        ResultItem::Finished => {
            assert(run.channel.len() == 1);
            assert(next.stages_in_order());
            assert(next.channel_in_order());
        },
        ResultItem::Done => {},
    }
}

/// Every turn of every part leads from a run in order to a run in order.
pub proof fn lemma_step_keeps_order<M>(run: Run<M>, step: Step<M>)
    requires
        run.inv(),
        run.enabled(step),
    ensures
        run.after(step).inv(),
{
    match step {
        Step::Offer(payload, meta) => lemma_offer_keeps_order(run, payload, meta),
        Step::Close => lemma_close_keeps_order(run),
        Step::Push(accepted) => lemma_push_keeps_order(run, accepted),
        Step::Poll(place) => lemma_poll_keeps_order(run, place),
        Step::Complete(place, outcome) => lemma_complete_keeps_order(run, place, outcome),
        Step::Publish(place, accepted) => lemma_publish_keeps_order(run, place, accepted),
        Step::Collect => lemma_collect_keeps_order(run),
        Step::Pull => lemma_pull_keeps_order(run),
    }
}

/// No turn changes the size of the pool that dispatcher, workers and
/// collector go by.
pub proof fn lemma_step_keeps_pool_size<M>(run: Run<M>, step: Step<M>)
    requires
        run.enabled(step),
    ensures
        run.after(step).dispatch.n_threads == run.dispatch.n_threads,
        run.after(step).collector.n_threads == run.collector.n_threads,
        run.after(step).workers.len() == run.workers.len(),
{
}

/// The run after the first `upto` of `steps`, taken one after the other.
pub open spec fn run_after<M>(start: Run<M>, steps: Seq<Step<M>>, upto: int) -> Run<M>
    decreases upto,
{
    if upto <= 0 {
        start
    } else {
        run_after(start, steps, upto - 1).after(steps[upto - 1])
    }
}

/// Each of `steps` can be taken when its turn comes.
pub open spec fn feasible<M>(start: Run<M>, steps: Seq<Step<M>>) -> bool {
    forall|k: int|
        0 <= k < steps.len() ==> (#[trigger] run_after(start, steps, k)).enabled(steps[k])
}

/// A run is in order at every moment, whoever takes which turn when.
pub proof fn lemma_run_in_order<M>(
    n_threads: usize,
    back_off: bool,
    steps: Seq<Step<M>>,
    upto: int,
)
    requires
        n_threads >= 1,
        feasible(Run::<M>::start(n_threads, back_off), steps),
        0 <= upto <= steps.len(),
    ensures
        run_after(Run::<M>::start(n_threads, back_off), steps, upto).inv(),
    decreases upto,
{
    if upto == 0 {
        lemma_start_in_order::<M>(n_threads, back_off);
    } else {
        lemma_run_in_order(n_threads, back_off, steps, upto - 1);
        let before = run_after(Run::<M>::start(n_threads, back_off), steps, upto - 1);
        assert(before.enabled(steps[upto - 1]));
        lemma_step_keeps_order(before, steps[upto - 1]);
    }
}

/// At every moment of a run, the pool has the size that the run started
/// with: the dispatcher sends its sentinels for that many workers, that many
/// workers are there to take them, and the collector waits for that many.
pub proof fn lemma_run_keeps_pool_size<M>(
    n_threads: usize,
    back_off: bool,
    steps: Seq<Step<M>>,
    upto: int,
)
    requires
        feasible(Run::<M>::start(n_threads, back_off), steps),
        0 <= upto <= steps.len(),
    ensures
        run_after(Run::<M>::start(n_threads, back_off), steps, upto).dispatch.n_threads
            == n_threads,
        run_after(Run::<M>::start(n_threads, back_off), steps, upto).collector.n_threads
            == n_threads,
        run_after(Run::<M>::start(n_threads, back_off), steps, upto).workers.len()
            == n_threads,
    decreases upto,
{
    if upto > 0 {
        lemma_run_keeps_pool_size(n_threads, back_off, steps, upto - 1);
        let before = run_after(Run::<M>::start(n_threads, back_off), steps, upto - 1);
        assert(before.enabled(steps[upto - 1]));
        lemma_step_keeps_pool_size(before, steps[upto - 1]);
    }
}

/// In a run in order, a result that the caller pulls comes with the side
/// data of the record it belongs to, and has not been handed out before:
/// no result arrives that nothing is pending for.
pub proof fn lemma_every_result_is_matched<M>(run: Run<M>)
    requires
        run.inv(),
        run.enabled(Step::Pull),
        run.channel[0] is Result,
    ensures
        run.channel[0] matches ResultItem::Result(id, output) && {
            &&& id < run.submitted.len()
            &&& !run.delivered.contains(id)
            &&& pull(run.pending(), Some(run.channel[0])) == BatchNext::Yield(
                output,
                run.submitted[id as int],
            )
        },
{
    match run.channel[0] {
        ResultItem::Result(id, _) => {
            assert(run.forwarded_at(id, 0));
            assert(run.stage[id] == Stage::Forwarded);
        },
        _ => {},
    }
}

/// In a run in order, what ends the caller's sequence is the completion
/// marker, and when it has, nothing is on its way any more: every work item
/// that the work queue took has been handed out to the caller or has failed
/// to align.
pub proof fn lemma_marker_comes_last<M>(run: Run<M>)
    requires
        run.inv(),
        run.ended is Some,
    ensures
        run.ended == Some(EndReason::Finished),
        run.collector.finished(),
        run.channel.len() == 0,
        run.results.len() == 0,
        forall|at: int| 0 <= at < run.work.len() ==> (#[trigger] run.work[at]) == WorkItem::Done,
        forall|place: int|
            run.has_worker(place) ==> (#[trigger] run.workers[place]).retired
                && run.workers[place].aligning is None && run.workers[place].state.held is None,
        forall|id: usize|
            id < run.work_count() ==> run.delivered.contains(id) || run.failed.contains(id),
{
    lemma_count_bound(run.workers);
    assert forall|place: int| run.has_worker(place) implies (#[trigger] run.workers[place]).retired
        && run.workers[place].collected by {}
    assert(run.results.len() == 0) by {
        if run.results.len() > 0 {
            let (place, item) = run.results[0];
            assert(run.workers[place].collected);
        }
    }
    assert(run.has_worker(0));
    assert(run.workers[0].retired);
    assert(run.taken > run.work_count());
    assert forall|at: int| 0 <= at < run.work.len() implies (#[trigger] run.work[at])
        == WorkItem::Done by {
        assert(run.work[at] == run.dispatch.accepted[run.taken + at]);
    }
    assert forall|id: usize| id < run.work_count() implies run.delivered.contains(id)
        || run.failed.contains(id) by {
        match run.stage[id] {
            Stage::Queued => {},
            Stage::Aligning(place) => {},
            Stage::Held(place) => {},
            Stage::Published => {
                let at = choose|at: int| run.published_at(id, at);
                assert(run.published_at(id, at));
            },
            Stage::Forwarded => {
                let at = choose|at: int| run.forwarded_at(id, at);
                assert(run.forwarded_at(id, at));
            },
            Stage::Delivered => {},
            Stage::Failed => {},
        }
    }
}

/// When the completion marker has reached the caller of a batch whose
/// submission ended well and whose alignments all succeeded, no side data is
/// left behind.
pub proof fn lemma_complete_run_leaves_nothing<M>(run: Run<M>)
    requires
        run.inv(),
        run.ended is Some,
        run.dispatch.outcome() == Some(Ok::<(), BatchError>(())),
        run.failed == Set::<usize>::empty(),
    ensures
        run.pending() == Map::<usize, M>::empty(),
{
    lemma_marker_comes_last(run);
    assert(run.submitted.len() == run.work_count());
    assert forall|id: usize| !run.pending().contains_key(id) by {
        if id < run.submitted.len() {
            assert(run.delivered.contains(id) || run.failed.contains(id));
        }
    }
    assert(run.pending() =~= Map::<usize, M>::empty());
}

} // verus!
