//! The dispatcher: records in, work items and termination sentinels out.
//!
//! A dispatcher takes the records of one batch in order. For each it keeps
//! the record as side data under the next correlation id, then holds a work
//! item with that id until the work queue has taken it. A queue that is full
//! either fails the batch at once or is tried again on a fixed schedule of
//! pauses. When the records end, and also when the batch fails, one
//! termination sentinel per worker follows.
//!
//! The dispatcher never waits by itself: where a pause is due it says for
//! how long, and goes on when it is called again.

use crate::backoff::{retry_delay_ms, Backoff, RETRY_LIMIT};
use crate::items::WorkItem;
use crate::record::{fault_error, record_payload, BatchError, Field, Record, RecordFault};
use crate::store::PendingStore;
use crossbeam::queue::ArrayQueue;
use vstd::prelude::*;

verus! {

/// What a dispatcher is ready for.
#[derive(Debug, Clone, Copy, PartialEq, Eq, Structural)]
pub enum DispatchPhase {
    /// It takes the next record, or the end of the input.
    Accepting,
    /// It holds an item that the work queue has yet to take.
    Pushing,
    /// It has ended; its outcome is known.
    Finished,
}

/// A dispatcher's state as contracts see it.
pub struct DispatchState {
    /// The number of workers, and so of sentinels to send.
    pub n_threads: usize,
    /// Whether a rejected push is retried. Otherwise the item is given up
    /// at once.
    pub back_off: bool,
    /// The item that the work queue has yet to take.
    pub held: Option<WorkItem>,
    /// The number of failed retries for the held item, once its first push
    /// has been rejected.
    pub retry: Option<nat>,
    /// No more records are taken: sentinels are being sent.
    pub closing: bool,
    /// The number of sentinels that the work queue has taken.
    pub sentinels: nat,
    /// The first thing that went wrong.
    pub failure: Option<BatchError>,
    /// Nothing more will be pushed.
    pub finished: bool,
    /// Every item that the work queue has taken, in order.
    pub accepted: Seq<WorkItem>,
}

/// `log` is a run of work items followed by exactly `sentinels` sentinels.
pub open spec fn work_then_sentinels(log: Seq<WorkItem>, sentinels: nat) -> bool {
    &&& sentinels <= log.len()
    &&& forall|i: int|
        0 <= i < log.len() ==> ((#[trigger] log[i]) is Done <==> i >= log.len() - sentinels)
}

impl DispatchState {
    /// The state of a dispatcher that has done nothing yet.
    pub open spec fn fresh(n_threads: usize, back_off: bool) -> DispatchState {
        DispatchState {
            n_threads,
            back_off,
            held: None,
            retry: None,
            closing: false,
            sentinels: 0,
            failure: None,
            finished: false,
            accepted: Seq::empty(),
        }
    }

    /// What the dispatcher is ready for.
    pub open spec fn phase(self) -> DispatchPhase {
        if self.finished {
            DispatchPhase::Finished
        } else if self.held is Some {
            DispatchPhase::Pushing
        } else {
            DispatchPhase::Accepting
        }
    }

    /// What holds of every state that a dispatcher can reach.
    pub open spec fn wf(self) -> bool {
        &&& self.n_threads >= 1
        &&& self.sentinels <= self.n_threads
        &&& self.finished ==> self.held is None && self.closing
        &&& self.held is None && !self.finished ==> !self.closing
        &&& self.held matches Some(WorkItem::Work(_, _)) ==> !self.closing
        &&& self.held == Some(WorkItem::Done) ==> self.closing && self.sentinels < self.n_threads
        &&& !self.closing ==> self.sentinels == 0 && self.failure is None
        &&& self.retry matches Some(attempts) ==> self.back_off && self.held is Some && attempts
            < RETRY_LIMIT
        &&& self.finished && self.failure is None ==> self.sentinels == self.n_threads
        &&& work_then_sentinels(self.accepted, self.sentinels)
    }

    /// How the batch's submission ended, once it has.
    pub open spec fn outcome(self) -> Option<Result<(), BatchError>> {
        if !self.finished {
            None
        } else {
            match self.failure {
                None => Some(Ok(())),
                Some(error) => Some(Err(error)),
            }
        }
    }

    /// No more records are taken; the first sentinel is held. A failure
    /// noted earlier stays.
    pub open spec fn wind_down(self, failure: Option<BatchError>) -> DispatchState {
        DispatchState {
            held: Some(WorkItem::Done),
            retry: None,
            closing: true,
            failure: if self.failure is Some {
                self.failure
            } else {
                failure
            },
            ..self
        }
    }

    /// The state after a record was offered that would get `id` and names
    /// this payload: its work item is held, or the batch fails on its fault.
    pub open spec fn receive(self, id: usize, payload: Result<String, RecordFault>) -> DispatchState {
        match payload {
            Ok(seq) => DispatchState { held: Some(WorkItem::Work(id, seq)), retry: None, ..self },
            Err(fault) => self.wind_down(Some(fault_error(fault, id))),
        }
    }

    /// The state after the input has ended.
    pub open spec fn close(self) -> DispatchState {
        self.wind_down(None)
    }

    /// The state after the work queue has taken the held item.
    pub open spec fn taken(self) -> DispatchState {
        let accepted = self.accepted.push(self.held->0);
        match self.held->0 {
            WorkItem::Work(_, _) => DispatchState { held: None, retry: None, accepted, ..self },
            WorkItem::Done => if self.sentinels + 1 == self.n_threads {
                DispatchState {
                    held: None,
                    retry: None,
                    sentinels: self.sentinels + 1,
                    finished: true,
                    accepted,
                    ..self
                }
            } else {
                DispatchState { retry: None, sentinels: self.sentinels + 1, accepted, ..self }
            },
        }
    }

    /// The state after the held item has been given up: a work item fails
    /// the batch, which then winds down; a sentinel ends it, short of the
    /// sentinels that were still to come.
    ///
    /// The sentinels that follow a work item that was given up are pushed
    /// as every item is: once without back-off, on the schedule with it.
    pub open spec fn abandon(self) -> DispatchState {
        match self.held->0 {
            WorkItem::Work(id, _) => self.wind_down(
                Some(BatchError::QueueFull { item: Some(id) }),
            ),
            WorkItem::Done => DispatchState {
                held: None,
                retry: None,
                finished: true,
                failure: if self.failure is Some {
                    self.failure
                } else {
                    Some(BatchError::QueueFull { item: None })
                },
                ..self
            },
        }
    }

    /// The state after the work queue has turned the held item down, and the
    /// pause that is due before anything else is tried.
    ///
    /// Without back-off the item is given up at once. With it, the first
    /// rejection is followed by a retry without a pause; each failed retry by
    /// a pause that doubles; the last failed retry, after its pause, by
    /// giving the item up.
    pub open spec fn refused(self) -> (DispatchState, Option<u64>) {
        if !self.back_off {
            (self.abandon(), None)
        } else {
            match self.retry {
                None => (DispatchState { retry: Some(0), ..self }, None),
                Some(attempts) => {
                    let pause = Some(retry_delay_ms(attempts) as u64);
                    if attempts + 1 == RETRY_LIMIT {
                        (self.abandon(), pause)
                    } else {
                        (DispatchState { retry: Some(attempts + 1), ..self }, pause)
                    }
                },
            }
        }
    }

    /// The state after one push of the held item, by what the queue did.
    pub open spec fn settle(self, accepted: bool) -> (DispatchState, Option<u64>) {
        if self.held is None {
            (self, None)
        } else if accepted {
            (self.taken(), None)
        } else {
            self.refused()
        }
    }
}

/// The dispatcher of one batch.
pub struct Dispatcher {
    n_threads: usize,
    back_off: bool,
    held: Option<WorkItem>,
    retry: Option<Backoff>,
    closing: bool,
    sentinels: usize,
    failure: Option<BatchError>,
    finished: bool,
    accepted: Ghost<Seq<WorkItem>>,
}

impl View for Dispatcher {
    type V = DispatchState;

    closed spec fn view(&self) -> DispatchState {
        DispatchState {
            n_threads: self.n_threads,
            back_off: self.back_off,
            held: self.held,
            retry: match self.retry {
                None => None,
                Some(backoff) => Some(backoff.spec_attempts() as nat),
            },
            closing: self.closing,
            sentinels: self.sentinels as nat,
            failure: self.failure,
            finished: self.finished,
            accepted: self.accepted@,
        }
    }
}

impl Dispatcher {
    /// The view is of a reachable state, and the retry schedule in use is
    /// sound.
    pub closed spec fn wf(&self) -> bool {
        &&& self@.wf()
        &&& self.retry matches Some(backoff) ==> backoff.wf()
    }

    /// A dispatcher for a pool of `n_threads` workers. A batch cannot be
    /// submitted to an empty pool.
    pub fn new(n_threads: usize, back_off: bool) -> (made: Result<Dispatcher, BatchError>)
        ensures
            n_threads == 0 <==> made is Err,
            made matches Err(error) ==> error == BatchError::ConfigurationError,
            made matches Ok(dispatcher) ==> dispatcher.wf() && dispatcher@ == DispatchState::fresh(
                n_threads,
                back_off,
            ),
    {
        if n_threads == 0 {
            return Err(BatchError::ConfigurationError);
        }
        Ok(
            Dispatcher {
                n_threads,
                back_off,
                held: None,
                retry: None,
                closing: false,
                sentinels: 0,
                failure: None,
                finished: false,
                accepted: Ghost(Seq::empty()),
            },
        )
    }

    /// What the dispatcher is ready for.
    pub fn phase(&self) -> (phase: DispatchPhase)
        ensures
            phase == self@.phase(),
    {
        if self.finished {
            DispatchPhase::Finished
        } else if self.held.is_some() {
            DispatchPhase::Pushing
        } else {
            DispatchPhase::Accepting
        }
    }

    /// How the batch's submission ended, once it has.
    pub fn outcome(&self) -> (outcome: Option<Result<(), BatchError>>)
        ensures
            outcome == self@.outcome(),
    {
        if !self.finished {
            None
        } else {
            match self.failure {
                None => Some(Ok(())),
                Some(error) => Some(Err(error)),
            }
        }
    }

    /// The item that the work queue has yet to take.
    pub fn pending(&self) -> (item: Option<&WorkItem>)
        ensures
            item matches Some(held) ==> self@.held == Some(*held),
            item is None ==> self@.held is None,
    {
        self.held.as_ref()
    }

    /// The first thing that went wrong, as soon as it has: the batch may
    /// still be winding down.
    pub fn failure(&self) -> (failure: Option<BatchError>)
        ensures
            failure == self@.failure,
    {
        self.failure
    }

    /// The number of sentinels that the work queue has taken.
    pub fn sentinels(&self) -> (sentinels: usize)
        ensures
            sentinels == self@.sentinels,
    {
        self.sentinels
    }

    fn wind_down(&mut self, failure: Option<BatchError>)
        requires
            (DispatchState { held: None, retry: None, ..old(self)@ }).wf(),
            !old(self)@.closing,
            !old(self)@.finished,
        ensures
            final(self).wf(),
            final(self)@ == old(self)@.wind_down(failure),
    {
        self.held = Some(WorkItem::Done);
        self.retry = None;
        self.closing = true;
        if self.failure.is_none() {
            self.failure = failure;
        }
    }

    /// Takes the next record of the batch: keeps it as side data under the
    /// next correlation id, and holds a work item with its sequence under
    /// that id. A record that is no mapping, or names no sequence, fails the
    /// batch, which then winds down; a mapping is kept as side data even so.
    ///
    /// A dispatcher that is not accepting leaves everything as it is.
    pub fn offer<T>(&mut self, store: &mut PendingStore<Vec<Field<T>>>, record: Record<T>)
        requires
            old(self).wf(),
            old(store).wf(),
            old(store).submitted().len() < usize::MAX,
        ensures
            final(self).wf(),
            final(store).wf(),
            final(store).delivered() == old(store).delivered(),
            old(self)@.phase() != DispatchPhase::Accepting ==> final(self)@ == old(self)@
                && final(store).submitted() == old(store).submitted(),
            old(self)@.phase() == DispatchPhase::Accepting ==> final(self)@ == old(self)@.receive(
                old(store).spec_next_id(),
                record_payload(record),
            ),
            old(self)@.phase() == DispatchPhase::Accepting ==> final(store).submitted() == (
            match record {
                Record::Mapping(fields) => old(store).submitted().push(fields),
                Record::NotMapping => old(store).submitted(),
            }),
    {
        if self.finished || self.held.is_some() {
            return ;
        }
        let payload = record.payload();
        let id = match record {
            Record::Mapping(fields) => store.register(fields),
            Record::NotMapping => store.next_id(),
        };
        match payload {
            Ok(seq) => {
                self.held = Some(WorkItem::Work(id, seq));
                self.retry = None;
            },
            Err(fault) => {
                self.wind_down(Some(fault.at(id)));
            },
        }
    }

    /// Takes the end of the input: the batch winds down.
    ///
    /// A dispatcher that is not accepting leaves everything as it is.
    pub fn close(&mut self)
        requires
            old(self).wf(),
        ensures
            final(self).wf(),
            final(self)@ == (if old(self)@.phase() == DispatchPhase::Accepting {
                old(self)@.close()
            } else {
                old(self)@
            }),
    {
        if self.finished || self.held.is_some() {
            return ;
        }
        self.wind_down(None);
    }

    fn taken(&mut self, Ghost(item): Ghost<WorkItem>, sentinel: bool)
        requires
            old(self)@.held is None,
            (DispatchState { held: Some(item), ..old(self)@ }).wf(),
            sentinel <==> item is Done,
        ensures
            final(self).wf(),
            final(self)@ == (DispatchState { held: Some(item), ..old(self)@ }).taken(),
    {
        self.accepted = Ghost(self.accepted@.push(item));
        self.retry = None;
        if sentinel {
            self.sentinels = self.sentinels + 1;
            if self.sentinels == self.n_threads {
                self.finished = true;
            } else {
                self.held = Some(WorkItem::Done);
            }
        }
    }

    fn abandon(&mut self)
        requires
            old(self).wf(),
            old(self)@.held is Some,
        ensures
            final(self).wf(),
            final(self)@ == old(self)@.abandon(),
    {
        self.retry = None;
        match self.held.take() {
            Some(WorkItem::Work(id, _)) => {
                self.wind_down(Some(BatchError::QueueFull { item: Some(id) }));
            },
            _ => {
                self.finished = true;
                if self.failure.is_none() {
                    self.failure = Some(BatchError::QueueFull { item: None });
                }
            },
        }
    }

    fn refused(&mut self) -> (pause: Option<u64>)
        requires
            old(self).wf(),
            old(self)@.held is Some,
        ensures
            final(self).wf(),
            (final(self)@, pause) == old(self)@.refused(),
    {
        if !self.back_off {
            self.abandon();
            return None;
        }
        match self.retry {
            None => {
                self.retry = Some(Backoff::new());
                None
            },
            Some(mut backoff) => {
                let pause = backoff.fail();
                if backoff.exhausted() {
                    self.abandon();
                } else {
                    self.retry = Some(backoff);
                }
                pause
            },
        }
    }

    /// Takes what the work queue did with the held item: whether it
    /// accepted it. Returns the pause, in milliseconds, that is due before
    /// the dispatcher is called again.
    ///
    /// A dispatcher that holds no item leaves everything as it is.
    pub fn settle(&mut self, accepted: bool) -> (pause: Option<u64>)
        requires
            old(self).wf(),
        ensures
            final(self).wf(),
            (final(self)@, pause) == old(self)@.settle(accepted),
    {
        if self.held.is_none() {
            return None;
        }
        if accepted {
            let item = self.held.take();
            let sentinel = match item {
                Some(WorkItem::Work(_, _)) => false,
                _ => true,
            };
            self.taken(Ghost(item->0), sentinel);
            None
        } else {
            self.refused()
        }
    }

    /// Pushes the held item onto the work queue, once, and takes what came
    /// of it. Returns the pause, in milliseconds, that is due before the
    /// dispatcher is called again.
    ///
    /// The queue alone decides whether it accepts the item; either way the
    /// dispatcher ends up as `settle` says for that answer. A dispatcher that
    /// holds no item pushes nothing.
    pub fn pump(&mut self, queue: &ArrayQueue<WorkItem>) -> (pause: Option<u64>)
        requires
            old(self).wf(),
        ensures
            final(self).wf(),
            exists|accepted: bool| (final(self)@, pause) == #[trigger] old(self)@.settle(accepted),
    {
        let item = match self.held.take() {
            None => {
                assert((self@, None::<u64>) == old(self)@.settle(true));
                return None;
            },
            Some(item) => item,
        };
        let sentinel = match item {
            WorkItem::Work(_, _) => false,
            WorkItem::Done => true,
        };
        match queue.push(item) {
            Ok(()) => {
                self.taken(Ghost(item), sentinel);
                assert((self@, None::<u64>) == old(self)@.settle(true));
                None
            },
            Err(back) => {
                self.held = Some(back);
                let pause = self.refused();
                assert((self@, pause) == old(self)@.settle(false));
                pause
            },
        }
    }
}

} // verus!
