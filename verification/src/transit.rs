//! How much can be on its way at once.
//!
//! A work item that the work queue has taken is in transit until the caller
//! has it or its alignment has failed. At every moment of a run there are
//! no more work items in transit than there are items on the two queues
//! and on the output channel, plus one for each worker. So what a batch
//! holds in memory is bounded by the sizes of the queues, of the channel and
//! of the pool, not by the size of the batch.

use crate::dispatch::work_then_sentinels;
use crate::items::{ResultItem, WorkItem};
use crate::pipeline::{
    feasible, lemma_count_bound, lemma_marker_comes_last, lemma_run_in_order,
    lemma_run_keeps_pool_size, lemma_step_keeps_order, run_after, Run, Stage, Step, WorkerSlot,
};
use vstd::prelude::*;

verus! {

/// The number of results among the items of the results queue.
pub open spec fn count_published(results: Seq<(int, ResultItem)>) -> nat
    decreases results.len(),
{
    if results.len() == 0 {
        0
    } else {
        count_published(results.drop_last()) + if results.last().1 is Result {
            1nat
        } else {
            0nat
        }
    }
}

/// The number of results among the messages on the output channel.
pub open spec fn count_forwarded(channel: Seq<ResultItem>) -> nat
    decreases channel.len(),
{
    if channel.len() == 0 {
        0
    } else {
        count_forwarded(channel.drop_last()) + if channel.last() is Result {
            1nat
        } else {
            0nat
        }
    }
}

/// Whether a worker has a work item in hand: one that is being aligned for
/// it, or the result that came of it.
pub open spec fn is_busy(slot: WorkerSlot) -> bool {
    slot.aligning is Some || slot.state.held matches Some(ResultItem::Result(_, _))
}

/// The number of workers that have a work item in hand.
pub open spec fn count_busy(workers: Seq<WorkerSlot>) -> nat
    decreases workers.len(),
{
    if workers.len() == 0 {
        0
    } else {
        count_busy(workers.drop_last()) + if is_busy(workers.last()) {
            1nat
        } else {
            0nat
        }
    }
}

/// Whether a worker has taken its sentinel off the work queue.
pub open spec fn took_sentinel(slot: WorkerSlot) -> bool {
    slot.state.held == Some(ResultItem::Done) || slot.retired
}

/// The number of workers that have taken their sentinel off the work queue.
pub open spec fn count_took(workers: Seq<WorkerSlot>) -> nat
    decreases workers.len(),
{
    if workers.len() == 0 {
        0
    } else {
        count_took(workers.drop_last()) + if took_sentinel(workers.last()) {
            1nat
        } else {
            0nat
        }
    }
}

impl<M> Run<M> {
    /// The number of sentinels that workers have taken off the work queue.
    pub open spec fn sentinels_taken(self) -> int {
        if self.taken > self.work_count() {
            self.taken - self.work_count()
        } else {
            0
        }
    }

    /// The number of work items on the work queue.
    pub open spec fn queued(self) -> int {
        if self.taken < self.work_count() {
            self.work_count() - self.taken
        } else {
            0
        }
    }

    /// The number of work items in transit: taken by the work queue, and
    /// neither handed out to the caller nor failed.
    pub open spec fn in_transit(self) -> int {
        self.work_count() - self.delivered.len() - self.failed.len()
    }

    /// Every work item in transit is counted where it is.
    pub open spec fn counts_in_order(self) -> bool {
        &&& self.delivered.finite()
        &&& self.failed.finite()
        &&& self.in_transit() == self.queued() + count_busy(self.workers) + count_published(
            self.results,
        ) + count_forwarded(self.channel)
        &&& self.sentinels_taken() == count_took(self.workers)
    }
}

proof fn lemma_busy_update(workers: Seq<WorkerSlot>, place: int, slot: WorkerSlot)
    requires
        0 <= place < workers.len(),
    ensures
        count_busy(workers.update(place, slot)) + (if is_busy(workers[place]) {
            1nat
        } else {
            0nat
        }) == count_busy(workers) + (if is_busy(slot) {
            1nat
        } else {
            0nat
        }),
    decreases workers.len(),
{
    let updated = workers.update(place, slot);
    if place == workers.len() - 1 {
        assert(updated.drop_last() =~= workers.drop_last());
    } else {
        lemma_busy_update(workers.drop_last(), place, slot);
        assert(updated.drop_last() =~= workers.drop_last().update(place, slot));
    }
}

proof fn lemma_took_update(workers: Seq<WorkerSlot>, place: int, slot: WorkerSlot)
    requires
        0 <= place < workers.len(),
    ensures
        count_took(workers.update(place, slot)) + (if took_sentinel(workers[place]) {
            1nat
        } else {
            0nat
        }) == count_took(workers) + (if took_sentinel(slot) {
            1nat
        } else {
            0nat
        }),
    decreases workers.len(),
{
    let updated = workers.update(place, slot);
    if place == workers.len() - 1 {
        assert(updated.drop_last() =~= workers.drop_last());
    } else {
        lemma_took_update(workers.drop_last(), place, slot);
        assert(updated.drop_last() =~= workers.drop_last().update(place, slot));
    }
}

proof fn lemma_took_all(workers: Seq<WorkerSlot>)
    requires
        forall|place: int| 0 <= place < workers.len() ==> took_sentinel(#[trigger] workers[place]),
    ensures
        count_took(workers) == workers.len(),
    decreases workers.len(),
{
    if workers.len() > 0 {
        assert forall|place: int| 0 <= place < workers.drop_last().len() implies took_sentinel(
            #[trigger] workers.drop_last()[place],
        ) by {
            assert(workers.drop_last()[place] == workers[place]);
        }
        lemma_took_all(workers.drop_last());
    }
}

proof fn lemma_took_none(workers: Seq<WorkerSlot>)
    requires
        forall|place: int| 0 <= place < workers.len() ==> !took_sentinel(#[trigger] workers[place]),
    ensures
        count_took(workers) == 0,
    decreases workers.len(),
{
    if workers.len() > 0 {
        assert forall|place: int| 0 <= place < workers.drop_last().len() implies !took_sentinel(
            #[trigger] workers.drop_last()[place],
        ) by {
            assert(workers.drop_last()[place] == workers[place]);
        }
        lemma_took_none(workers.drop_last());
    }
}

proof fn lemma_busy_bound(workers: Seq<WorkerSlot>)
    ensures
        count_busy(workers) <= workers.len(),
    decreases workers.len(),
{
    if workers.len() > 0 {
        lemma_busy_bound(workers.drop_last());
    }
}

proof fn lemma_busy_fresh(workers: Seq<WorkerSlot>)
    requires
        forall|place: int| 0 <= place < workers.len() ==> !is_busy(#[trigger] workers[place]),
    ensures
        count_busy(workers) == 0,
    decreases workers.len(),
{
    if workers.len() > 0 {
        assert forall|place: int| 0 <= place < workers.drop_last().len() implies !is_busy(
            #[trigger] workers.drop_last()[place],
        ) by {
            assert(workers.drop_last()[place] == workers[place]);
        }
        lemma_busy_fresh(workers.drop_last());
    }
}

proof fn lemma_published_bound(results: Seq<(int, ResultItem)>)
    ensures
        count_published(results) <= results.len(),
    decreases results.len(),
{
    if results.len() > 0 {
        lemma_published_bound(results.drop_last());
    }
}

proof fn lemma_published_pop(results: Seq<(int, ResultItem)>)
    requires
        results.len() > 0,
    ensures
        count_published(results) == count_published(results.drop_first()) + (if results[0].1
            is Result {
            1nat
        } else {
            0nat
        }),
    decreases results.len(),
{
    if results.len() == 1 {
        assert(results.drop_last() =~= results.drop_first());
    } else {
        lemma_published_pop(results.drop_last());
        assert(results.drop_last().drop_first() =~= results.drop_first().drop_last());
    }
}

proof fn lemma_forwarded_bound(channel: Seq<ResultItem>)
    ensures
        count_forwarded(channel) <= channel.len(),
    decreases channel.len(),
{
    if channel.len() > 0 {
        lemma_forwarded_bound(channel.drop_last());
    }
}

proof fn lemma_forwarded_pop(channel: Seq<ResultItem>)
    requires
        channel.len() > 0,
    ensures
        count_forwarded(channel) == count_forwarded(channel.drop_first()) + (if channel[0]
            is Result {
            1nat
        } else {
            0nat
        }),
    decreases channel.len(),
{
    if channel.len() == 1 {
        assert(channel.drop_last() =~= channel.drop_first());
    } else {
        lemma_forwarded_pop(channel.drop_last());
        assert(channel.drop_last().drop_first() =~= channel.drop_first().drop_last());
    }
}

/// A run starts with nothing in transit.
pub proof fn lemma_start_counts<M>(n_threads: usize, back_off: bool)
    ensures
        Run::<M>::start(n_threads, back_off).counts_in_order(),
{
    let run = Run::<M>::start(n_threads, back_off);
    lemma_busy_fresh(run.workers);
    lemma_took_none(run.workers);
}

/// Every turn of every part keeps the count.
pub proof fn lemma_step_keeps_count<M>(run: Run<M>, step: Step<M>)
    requires
        run.inv(),
        run.counts_in_order(),
        run.enabled(step),
    ensures
        run.after(step).counts_in_order(),
{
    let next = run.after(step);
    lemma_step_keeps_order(run, step);
    match step {
        Step::Offer(payload, meta) => {
            assert(next.work_count() == run.work_count());
        },
        Step::Close => {
            assert(next.work_count() == run.work_count());
        },
        Step::Push(accepted) => {
            if accepted {
                assert(next.dispatch == run.dispatch.taken());
                if run.dispatch.held matches Some(WorkItem::Work(_, _)) {
                    assert(run.dispatch.sentinels == 0);
                    assert(run.taken <= run.work_count());
                }
            }
        },
        Step::Poll(place) => {
            lemma_busy_update(run.workers, place, next.workers[place]);
            lemma_took_update(run.workers, place, next.workers[place]);
            assert(next.work_count() == run.work_count());
            if run.work.len() > 0 {
                assert(run.work[0] == run.dispatch.accepted[run.taken as int]);
            }
        },
        Step::Complete(place, outcome) => {
            lemma_busy_update(run.workers, place, next.workers[place]);
            lemma_took_update(run.workers, place, next.workers[place]);
            assert(next.work_count() == run.work_count());
            let id = run.workers[place].aligning->0;
            assert(run.stage[id] == Stage::Aligning(place));
            assert(!run.failed.contains(id));
        },
        Step::Publish(place, accepted) => {
            lemma_busy_update(run.workers, place, next.workers[place]);
            lemma_took_update(run.workers, place, next.workers[place]);
            assert(next.work_count() == run.work_count());
            if accepted {
                assert(next.results.drop_last() =~= run.results);
            }
        },
        Step::Collect => {
            assert(next.work_count() == run.work_count());
            if run.results.len() > 0 {
                let (place, item) = run.results[0];
                lemma_published_pop(run.results);
                lemma_count_bound(run.workers);
                assert(!run.workers[place].collected);
                assert(!run.collector.finished());
                match item {
                    ResultItem::Result(id, _) => {
                        assert(next.workers == run.workers);
                        assert(next.channel == run.channel.push(item));
                        assert(next.channel.drop_last() =~= run.channel);
                    },
                    ResultItem::Done => {
                        lemma_busy_update(run.workers, place, next.workers[place]);
                        lemma_took_update(run.workers, place, next.workers[place]);
                        if next.channel.len() > run.channel.len() {
                            assert(next.channel == run.channel.push(ResultItem::Finished));
                            assert(next.channel.drop_last() =~= run.channel);
                        }
                    },
                    ResultItem::Finished => {},
                }
            }
        },
        Step::Pull => {
            assert(next.work_count() == run.work_count());
            lemma_forwarded_pop(run.channel);
            match run.channel[0] {
                ResultItem::Result(id, _) => {
                    assert(run.forwarded_at(id, 0));
                    assert(run.stage[id] == Stage::Forwarded);
                    assert(!run.delivered.contains(id));
                    assert(run.pending().contains_key(id));
                },
                _ => {},
            }
        },
    }
}

/// The count holds at every moment of a run, whoever takes which turn when.
pub proof fn lemma_run_keeps_count<M>(
    n_threads: usize,
    back_off: bool,
    steps: Seq<Step<M>>,
    upto: int,
)
    requires
        n_threads >= 1,
        feasible(Run::<M>::start(n_threads, back_off), steps),
        0 <= upto <= steps.len(),
    ensures
        run_after(Run::<M>::start(n_threads, back_off), steps, upto).inv(),
        run_after(
            Run::<M>::start(n_threads, back_off),
            steps,
            upto,
        ).counts_in_order(),
    decreases upto,
{
    let start = Run::<M>::start(n_threads, back_off);
    lemma_run_in_order(n_threads, back_off, steps, upto);
    if upto == 0 {
        lemma_start_counts::<M>(n_threads, back_off);
    } else {
        lemma_run_keeps_count(n_threads, back_off, steps, upto - 1);
        let before = run_after(start, steps, upto - 1);
        assert(before.enabled(steps[upto - 1]));
        lemma_step_keeps_count(before, steps[upto - 1]);
    }
}

/// No more work items are in transit than there are items on the two
/// queues and on the output channel, and one for each worker.
pub proof fn lemma_transit_is_bounded<M>(run: Run<M>)
    requires
        run.inv(),
        run.counts_in_order(),
    ensures
        0 <= run.in_transit() <= run.work.len() + run.workers.len() + run.results.len()
            + run.channel.len(),
{
    lemma_busy_bound(run.workers);
    lemma_published_bound(run.results);
    lemma_forwarded_bound(run.channel);
}

/// When the completion marker has reached the caller, the work queue has
/// taken exactly one sentinel for each worker of the pool that the run
/// started with, after every work item, and the dispatcher has ended.
pub proof fn lemma_marker_follows_every_sentinel<M>(
    n_threads: usize,
    back_off: bool,
    steps: Seq<Step<M>>,
)
    requires
        n_threads >= 1,
        feasible(Run::<M>::start(n_threads, back_off), steps),
        run_after(Run::<M>::start(n_threads, back_off), steps, steps.len() as int).ended is Some,
    ensures
        ({
            let run = run_after(Run::<M>::start(n_threads, back_off), steps, steps.len() as int);
            &&& run.dispatch.sentinels == n_threads
            &&& run.dispatch.finished
            &&& work_then_sentinels(run.dispatch.accepted, n_threads as nat)
            &&& run.work.len() == 0
        }),
{
    let run = run_after(Run::<M>::start(n_threads, back_off), steps, steps.len() as int);
    lemma_run_keeps_count(n_threads, back_off, steps, steps.len() as int);
    lemma_run_keeps_pool_size(n_threads, back_off, steps, steps.len() as int);
    lemma_marker_comes_last(run);
    assert forall|place: int| 0 <= place < run.workers.len() implies took_sentinel(
        #[trigger] run.workers[place],
    ) by {
        assert(run.has_worker(place));
    }
    lemma_took_all(run.workers);
    assert(run.taken - run.work_count() == n_threads);
    assert(run.dispatch.sentinels == n_threads);
}

} // verus!
