//! The collector: one per batch. It moves results from the results queue to
//! the output channel and turns the workers' termination sentinels into one
//! completion marker.
//!
//! A consumer that has gone away does not stop the collector: it keeps
//! emptying the results queue, so that no worker is left waiting on a full
//! one, and merely stops forwarding.

use crate::items::ResultItem;
use crossbeam::channel::Sender;
use crossbeam::queue::ArrayQueue;
use vstd::prelude::*;

verus! {

/// How long a collector pauses when it finds the results queue empty, in
/// milliseconds.
pub const COLLECTOR_POLL_MS: u64 = 5;

/// What a collector does with what it has popped.
#[derive(Debug, Clone, PartialEq, Eq)]
pub enum CollectorAction {
    /// Nothing was there: pause for this many milliseconds.
    Pause(u64),
    /// Put this on the output channel.
    Send(ResultItem),
    /// Nothing to do for this item.
    Skip,
}

/// A collector's state as contracts see it.
pub struct CollectState {
    /// The number of workers whose sentinels are awaited.
    pub n_threads: usize,
    /// The number of sentinels seen.
    pub n_finished: usize,
    /// Results are still being forwarded: no send has failed.
    pub forwarding: bool,
}

impl CollectState {
    /// The state of a collector that has seen nothing yet.
    pub open spec fn fresh(n_threads: usize) -> CollectState {
        CollectState { n_threads, n_finished: 0, forwarding: true }
    }

    /// What holds of every state that a collector can reach.
    pub open spec fn wf(self) -> bool {
        1 <= self.n_threads && self.n_finished <= self.n_threads
    }

    /// Every worker's sentinel has been seen: the collector has ended.
    pub open spec fn finished(self) -> bool {
        self.n_finished == self.n_threads
    }

    /// The state after `popped` came off the results queue, and what to do
    /// with it.
    ///
    /// A result is forwarded while the consumer is there. The sentinel that
    /// completes the count yields the completion marker. A collector that
    /// has ended does nothing more.
    pub open spec fn react(self, popped: Option<ResultItem>) -> (CollectState, CollectorAction) {
        if self.finished() {
            (self, CollectorAction::Skip)
        } else {
            match popped {
                None => (self, CollectorAction::Pause(COLLECTOR_POLL_MS)),
                Some(ResultItem::Result(id, output)) => if self.forwarding {
                    (self, CollectorAction::Send(ResultItem::Result(id, output)))
                } else {
                    (self, CollectorAction::Skip)
                },
                Some(ResultItem::Done) => {
                    let counted = CollectState {
                        n_finished: (self.n_finished + 1) as usize,
                        ..self
                    };
                    if counted.finished() {
                        (counted, CollectorAction::Send(ResultItem::Finished))
                    } else {
                        (counted, CollectorAction::Skip)
                    }
                },
                Some(ResultItem::Finished) => (self, CollectorAction::Skip),
            }
        }
    }

    /// The state after a send: one that failed ends the forwarding.
    pub open spec fn sent(self, delivered: bool) -> CollectState {
        if delivered {
            self
        } else {
            CollectState { forwarding: false, ..self }
        }
    }

    /// The state after one turn: `popped` came off the results queue and, if
    /// something was sent for it, `delivered` says whether the channel took
    /// it. With it the pause that is due before the next turn.
    pub open spec fn turn(self, popped: Option<ResultItem>, delivered: bool) -> (
        CollectState,
        Option<u64>,
    ) {
        let (next, action) = self.react(popped);
        match action {
            CollectorAction::Pause(ms) => (next, Some(ms)),
            CollectorAction::Send(_) => (next.sent(delivered), None),
            CollectorAction::Skip => (next, None),
        }
    }
}

/// The collector of one batch.
pub struct Collector {
    n_threads: usize,
    n_finished: usize,
    forwarding: bool,
}

impl View for Collector {
    type V = CollectState;

    closed spec fn view(&self) -> CollectState {
        CollectState {
            n_threads: self.n_threads,
            n_finished: self.n_finished,
            forwarding: self.forwarding,
        }
    }
}

impl Collector {
    /// A collector for a pool of `n_threads` workers, if there is any
    /// worker.
    pub fn new(n_threads: usize) -> (made: Option<Collector>)
        ensures
            n_threads == 0 <==> made is None,
            made matches Some(collector) ==> collector@ == CollectState::fresh(n_threads),
    {
        if n_threads == 0 {
            None
        } else {
            Some(Collector { n_threads, n_finished: 0, forwarding: true })
        }
    }

    /// Whether every worker's sentinel has been seen.
    pub fn finished(&self) -> (finished: bool)
        ensures
            finished == self@.finished(),
    {
        self.n_finished == self.n_threads
    }

    /// The number of sentinels seen.
    pub fn n_finished(&self) -> (n: usize)
        ensures
            n == self@.n_finished,
    {
        self.n_finished
    }

    /// Whether results are still being forwarded.
    pub fn forwarding(&self) -> (forwarding: bool)
        ensures
            forwarding == self@.forwarding,
    {
        self.forwarding
    }

    /// Takes what came off the results queue and says what to do with it.
    pub fn react(&mut self, popped: Option<ResultItem>) -> (action: CollectorAction)
        requires
            old(self)@.wf(),
        ensures
            final(self)@.wf(),
            (final(self)@, action) == old(self)@.react(popped),
    {
        if self.n_finished == self.n_threads {
            return CollectorAction::Skip;
        }
        match popped {
            None => CollectorAction::Pause(COLLECTOR_POLL_MS),
            Some(ResultItem::Result(id, output)) => {
                if self.forwarding {
                    CollectorAction::Send(ResultItem::Result(id, output))
                } else {
                    CollectorAction::Skip
                }
            },
            Some(ResultItem::Done) => {
                self.n_finished = self.n_finished + 1;
                if self.n_finished == self.n_threads {
                    CollectorAction::Send(ResultItem::Finished)
                } else {
                    CollectorAction::Skip
                }
            },
            Some(ResultItem::Finished) => CollectorAction::Skip,
        }
    }

    /// Takes what came of a send.
    pub fn sent(&mut self, delivered: bool)
        requires
            old(self)@.wf(),
        ensures
            final(self)@.wf(),
            final(self)@ == old(self)@.sent(delivered),
    {
        if !delivered {
            self.forwarding = false;
        }
    }

    /// One turn: pops the results queue once, and sends what is due for
    /// what came off it. Returns the pause, in milliseconds, that is due
    /// before the next turn.
    ///
    /// What the queue hands out and whether the channel takes what is sent
    /// lie with them; either way the collector ends up as `turn` says for
    /// what they did. The send waits while the channel is full.
    pub fn step(&mut self, queue: &ArrayQueue<ResultItem>, tx: &Sender<ResultItem>) -> (pause:
        Option<u64>)
        requires
            old(self)@.wf(),
        ensures
            final(self)@.wf(),
            exists|popped: Option<ResultItem>, delivered: bool|
                (final(self)@, pause) == #[trigger] old(self)@.turn(popped, delivered),
    {
        let popped = queue.pop();
        let ghost seen = popped;
        match self.react(popped) {
            CollectorAction::Pause(ms) => {
                assert((self@, Some(ms)) == old(self)@.turn(seen, true));
                Some(ms)
            },
            CollectorAction::Send(item) => {
                let delivered = match tx.send(item) {
                    Ok(()) => true,
                    Err(_) => false,
                };
                self.sent(delivered);
                assert((self@, None::<u64>) == old(self)@.turn(seen, delivered));
                None
            },
            CollectorAction::Skip => {
                assert((self@, None::<u64>) == old(self)@.turn(seen, true));
                None
            },
        }
    }
}

} // verus!
