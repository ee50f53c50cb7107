//! The workers: each takes work items off the work queue, has them aligned,
//! and puts what was found on the results queue.
//!
//! A worker here is the part that decides. The alignment itself, the pauses
//! and the thread belong to whoever runs it: a worker says what is due next
//! and is told what came of it.

use crate::items::{ResultItem, WorkItem};
use crate::mapping::Mapping;
use crossbeam::queue::ArrayQueue;
use vstd::prelude::*;

verus! {

/// How long a worker pauses when a queue cannot serve it, in milliseconds.
pub const WORKER_POLL_MS: u64 = 10;

/// How long a worker pauses while it waits for its peers to end the round,
/// in milliseconds.
pub const ROUND_POLL_MS: u64 = 1;

/// The alignment of one sequence failed.
#[derive(Debug, Clone, Copy, PartialEq, Eq, Structural)]
pub struct EngineError;

/// What is due next for a worker.
#[derive(Debug, Clone, PartialEq, Eq)]
pub enum WorkerAction {
    /// Pause for this many milliseconds.
    Pause(u64),
    /// Align this sequence and report what came of it under this id.
    Align(usize, String),
    /// Go on with the next turn.
    Continue,
    /// This worker's sentinel is on the results queue: its part in the
    /// batch is over.
    Retire,
}

/// A worker's state as contracts see it.
pub struct WorkerState {
    /// The worker's place in the pool.
    pub thread_number: usize,
    /// What the results queue has yet to take.
    pub held: Option<ResultItem>,
}

impl WorkerState {
    /// The state of a worker that has done nothing yet.
    pub open spec fn fresh(thread_number: usize) -> WorkerState {
        WorkerState { thread_number, held: None }
    }

    /// The state after `popped` came off the work queue, and what is due
    /// next: a pause if nothing was there, the alignment of a work item, or
    /// the publication of this worker's own sentinel.
    ///
    /// A worker that still holds a result leaves the state as it is.
    pub open spec fn react(self, popped: Option<WorkItem>) -> (WorkerState, WorkerAction) {
        if self.held is Some {
            (self, WorkerAction::Continue)
        } else {
            match popped {
                None => (self, WorkerAction::Pause(WORKER_POLL_MS)),
                Some(WorkItem::Work(id, seq)) => (self, WorkerAction::Align(id, seq)),
                Some(WorkItem::Done) => (
                    WorkerState { held: Some(ResultItem::Done), ..self },
                    WorkerAction::Continue,
                ),
            }
        }
    }

    /// The state after the alignment of the work item `id` ended: what was
    /// found is held for the results queue; a failed alignment leaves
    /// nothing behind.
    ///
    /// A worker that still holds a result leaves the state as it is.
    pub open spec fn complete(self, id: usize, outcome: Result<Vec<Mapping>, EngineError>)
        -> WorkerState {
        if self.held is Some {
            self
        } else {
            match outcome {
                Ok(output) => WorkerState { held: Some(ResultItem::Result(id, output)), ..self },
                Err(_) => self,
            }
        }
    }

    /// The state after one push of the held item onto the results queue, by
    /// what the queue did, and what is due next.
    pub open spec fn published(self, accepted: bool) -> (WorkerState, WorkerAction) {
        if self.held is None {
            (self, WorkerAction::Continue)
        } else if !accepted {
            (self, WorkerAction::Pause(WORKER_POLL_MS))
        } else if self.held == Some(ResultItem::Done) {
            (WorkerState { held: None, ..self }, WorkerAction::Retire)
        } else {
            (WorkerState { held: None, ..self }, WorkerAction::Continue)
        }
    }
}

/// One worker of the pool.
pub struct Worker {
    thread_number: usize,
    held: Option<ResultItem>,
}

impl View for Worker {
    type V = WorkerState;

    closed spec fn view(&self) -> WorkerState {
        WorkerState { thread_number: self.thread_number, held: self.held }
    }
}

impl Worker {
    /// The worker at this place in the pool.
    pub fn new(thread_number: usize) -> (worker: Worker)
        ensures
            worker@ == WorkerState::fresh(thread_number),
    {
        Worker { thread_number, held: None }
    }

    /// The worker's place in the pool.
    pub fn thread_number(&self) -> (n: usize)
        ensures
            n == self@.thread_number,
    {
        self.thread_number
    }

    /// Whether the worker holds something for the results queue.
    pub fn holding(&self) -> (holding: bool)
        ensures
            holding == self@.held is Some,
    {
        self.held.is_some()
    }

    /// Takes what came off the work queue and says what is due next.
    pub fn react(&mut self, popped: Option<WorkItem>) -> (action: WorkerAction)
        ensures
            (final(self)@, action) == old(self)@.react(popped),
    {
        if self.held.is_some() {
            return WorkerAction::Continue;
        }
        match popped {
            None => WorkerAction::Pause(WORKER_POLL_MS),
            Some(WorkItem::Work(id, seq)) => WorkerAction::Align(id, seq),
            Some(WorkItem::Done) => {
                self.held = Some(ResultItem::Done);
                WorkerAction::Continue
            },
        }
    }

    /// Takes what came of the alignment of the work item `id`.
    pub fn complete(&mut self, id: usize, outcome: Result<Vec<Mapping>, EngineError>)
        ensures
            final(self)@ == old(self)@.complete(id, outcome),
    {
        if self.held.is_some() {
            return ;
        }
        match outcome {
            Ok(output) => {
                self.held = Some(ResultItem::Result(id, output));
            },
            Err(_) => {},
        }
    }

    /// Takes what the results queue did with the held item and says what
    /// is due next.
    pub fn published(&mut self, accepted: bool) -> (action: WorkerAction)
        ensures
            (final(self)@, action) == old(self)@.published(accepted),
    {
        if self.held.is_none() {
            return WorkerAction::Continue;
        }
        if !accepted {
            return WorkerAction::Pause(WORKER_POLL_MS);
        }
        match self.held.take() {
            Some(ResultItem::Done) => WorkerAction::Retire,
            _ => WorkerAction::Continue,
        }
    }

    /// One turn: pushes the held result onto the results queue, or, with
    /// nothing held, pops the work queue. Says what is due next.
    ///
    /// What the queues do lies with them; either way the worker ends up as
    /// `published` or `react` say for what they did.
    pub fn step(&mut self, work: &ArrayQueue<WorkItem>, results: &ArrayQueue<ResultItem>) -> (action:
        WorkerAction)
        ensures
            old(self)@.held is Some ==> exists|accepted: bool|
                (final(self)@, action) == #[trigger] old(self)@.published(accepted),
            old(self)@.held is None ==> exists|popped: Option<WorkItem>|
                (final(self)@, action) == #[trigger] old(self)@.react(popped),
    {
        match self.held.take() {
            Some(item) => {
                let sentinel = match item {
                    ResultItem::Done => true,
                    _ => false,
                };
                match results.push(item) {
                    Ok(()) => {
                        let action = if sentinel {
                            WorkerAction::Retire
                        } else {
                            WorkerAction::Continue
                        };
                        assert((self@, action) == old(self)@.published(true));
                        action
                    },
                    Err(back) => {
                        self.held = Some(back);
                        assert((self@, WorkerAction::Pause(WORKER_POLL_MS)) == old(
                            self,
                        )@.published(false));
                        WorkerAction::Pause(WORKER_POLL_MS)
                    },
                }
            },
            None => {
                let popped = work.pop();
                let ghost seen = popped;
                let action = self.react(popped);
                assert((self@, action) == old(self)@.react(seen));
                action
            },
        }
    }
}

/// Every worker of the pool has ended its round.
pub open spec fn round_over(dones: Seq<bool>) -> bool {
    forall|i: int| 0 <= i < dones.len() ==> dones[i]
}

/// Whether a flag is set.
fn is_set(done: &bool) -> (set: bool)
    ensures
        set == *done,
{
    *done
}

/// `itertools::all` over the flags with the test `is_set`: whether the test
/// holds of every flag. It holds of all of none.
#[verifier::external_body]
fn all_set(dones: &Vec<bool>) -> (all: bool)
    ensures
        all == round_over(dones@),
{
    itertools::all(dones.iter(), is_set)
}

/// The flags of a pool of `n_threads` workers at the start of a round: none
/// is set.
pub fn round_flags(n_threads: usize) -> (dones: Vec<bool>)
    ensures
        dones@ == Seq::new(n_threads as nat, |i: int| false),
{
    let mut dones: Vec<bool> = Vec::new();
    let mut i: usize = 0;
    while i < n_threads
        invariant
            i <= n_threads,
            dones@ == Seq::new(i as nat, |k: int| false),
        decreases n_threads - i,
    {
        dones.push(false);
        i += 1;
        assert(dones@ =~= Seq::new(i as nat, |k: int| false));
    }
    dones
}

/// Notes that the worker `thread_number` has ended its round.
pub fn mark_done(dones: &mut Vec<bool>, thread_number: usize)
    requires
        thread_number < old(dones)@.len(),
    ensures
        final(dones)@ == old(dones)@.update(thread_number as int, true),
{
    dones.set(thread_number, true);
}

/// Whether the worker `thread_number` has to wait before it takes more
/// work: it has ended its round and some peer has not.
///
/// Once every worker has ended the round, the first to ask clears every
/// flag; a new round begins and nobody waits.
pub fn wait_as_done(dones: &mut Vec<bool>, thread_number: usize) -> (wait: bool)
    requires
        thread_number < old(dones)@.len(),
    ensures
        final(dones)@.len() == old(dones)@.len(),
        round_over(old(dones)@) ==> !wait && final(dones)@ == Seq::new(
            old(dones)@.len(),
            |i: int| false,
        ),
        !round_over(old(dones)@) ==> wait == old(dones)@[thread_number as int] && final(dones)@
            == old(dones)@,
{
    let done = dones[thread_number];
    let all_done = all_set(dones);
    if all_done {
        let n = dones.len();
        let mut i: usize = 0;
        while i < n
            invariant
                i <= n,
                n == dones@.len(),
                n == old(dones)@.len(),
                forall|k: int| 0 <= k < i ==> !dones@[k],
                forall|k: int| i <= k < n ==> dones@[k],
            decreases n - i,
        {
            let flipped = !dones[i];
            dones.set(i, flipped);
            i += 1;
        }
        assert(dones@ =~= Seq::new(old(dones)@.len(), |i: int| false));
    }
    done && !all_done
}

} // verus!
