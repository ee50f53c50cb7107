//! The caller's end of a batch: the sequence of results, each paired with
//! the side data of the record it belongs to.

use crate::items::ResultItem;
use crate::mapping::Mapping;
use crate::store::PendingStore;
use crate::transport::{output_channel_capacity, output_channel_of};
use crossbeam::channel::{Receiver, RecvError, Sender};
use vstd::prelude::*;

verus! {

/// The room on the output channel, in messages.
pub const OUTPUT_CHANNEL_CAPACITY: usize = 20_000;

/// Why a batch's sequence of results has ended.
#[derive(Debug, Clone, Copy, PartialEq, Eq, Structural)]
pub enum EndReason {
    /// The batch is complete.
    Finished,
    /// Something arrived that is neither a result nor the completion marker.
    WrongVariant,
    /// The channel was closed.
    ChannelClosed,
    /// A result arrived for which no side data was pending: the pipeline is
    /// broken, and nothing that follows can be trusted.
    Unmatched,
}

/// What one pull on a batch gives.
#[derive(Debug, PartialEq, Eq)]
pub enum BatchNext<M> {
    /// The alignments of one record, with that record's side data.
    Yield(Vec<Mapping>, M),
    /// The sequence has ended.
    Return(EndReason),
    /// A result arrived under this id, for which no side data is pending.
    /// This does not happen in a pipeline that is put together as intended;
    /// where it does, the sequence ends here.
    Unmatched(usize),
}

/// What a `recv` on the output channel came back with: a message, or
/// nothing once the channel is closed.
pub open spec fn arrival(received: Result<ResultItem, RecvError>) -> Option<ResultItem> {
    match received {
        Ok(item) => Some(item),
        Err(_) => None,
    }
}

/// What a pull gives for `message`, with `pending` as the side data at hand.
pub open spec fn pull<M>(pending: Map<usize, M>, message: Option<ResultItem>) -> BatchNext<M> {
    match message {
        Some(ResultItem::Result(id, output)) => if pending.contains_key(id) {
            BatchNext::Yield(output, pending[id])
        } else {
            BatchNext::Unmatched(id)
        },
        Some(ResultItem::Finished) => BatchNext::Return(EndReason::Finished),
        Some(ResultItem::Done) => BatchNext::Return(EndReason::WrongVariant),
        None => BatchNext::Return(EndReason::ChannelClosed),
    }
}

/// The side data at hand after a pull for `message`: what was given out is
/// gone, the rest is as before.
pub open spec fn pending_after<M>(pending: Map<usize, M>, message: Option<ResultItem>) -> Map<
    usize,
    M,
> {
    match message {
        Some(ResultItem::Result(id, _)) => pending.remove(id),
        _ => pending,
    }
}

/// Why the sequence has ended, if the pull that gave `next` ended it.
pub open spec fn ended_by<M>(next: BatchNext<M>) -> Option<EndReason> {
    match next {
        BatchNext::Return(reason) => Some(reason),
        BatchNext::Unmatched(_) => Some(EndReason::Unmatched),
        BatchNext::Yield(_, _) => None,
    }
}

/// The ids given out including the pull for `message`.
pub open spec fn delivered_after<M>(
    pending: Map<usize, M>,
    delivered: Set<usize>,
    message: Option<ResultItem>,
) -> Set<usize> {
    match message {
        Some(ResultItem::Result(id, _)) => if pending.contains_key(id) {
            delivered.insert(id)
        } else {
            delivered
        },
        _ => delivered,
    }
}

/// The results of one batch, to be pulled one at a time, in the order in
/// which they complete.
pub struct AlignmentBatchResultIter<M> {
    tx: Sender<ResultItem>,
    rx: Receiver<ResultItem>,
    data: PendingStore<M>,
    _n_threads: usize,
    ended: Option<EndReason>,
}

impl<M> AlignmentBatchResultIter<M> {
    /// The pending-metadata store of this batch.
    pub closed spec fn store(&self) -> PendingStore<M> {
        self.data
    }

    /// The number of workers that this batch was set up for.
    pub closed spec fn spec_n_threads(&self) -> usize {
        self._n_threads
    }

    /// Why the sequence has ended, once it has.
    pub closed spec fn spec_ended(&self) -> Option<EndReason> {
        self.ended
    }

    /// The sending end of the output channel.
    pub closed spec fn spec_sender(&self) -> Sender<ResultItem> {
        self.tx
    }

    /// The receiving end of the output channel.
    pub closed spec fn spec_receiver(&self) -> Receiver<ResultItem> {
        self.rx
    }

    /// The two ends of the output channel are those of `before`.
    pub open spec fn same_channel(&self, before: &Self) -> bool {
        &&& self.spec_sender() == before.spec_sender()
        &&& self.spec_receiver() == before.spec_receiver()
    }

    /// The store is in order.
    pub open spec fn wf(&self) -> bool {
        self.store().wf()
    }

    /// A batch without records, with a fresh output channel of the usual
    /// size.
    pub fn new() -> (batch: Self)
        ensures
            batch.wf(),
            batch.spec_n_threads() == 0,
            batch.spec_ended() is None,
            output_channel_capacity(batch.spec_sender()) == Some(OUTPUT_CHANNEL_CAPACITY),
            batch.store().submitted() == Seq::<M>::empty(),
            batch.store().delivered() == Set::<usize>::empty(),
    {
        let (tx, rx) = output_channel_of(OUTPUT_CHANNEL_CAPACITY);
        AlignmentBatchResultIter { tx, rx, data: PendingStore::new(), _n_threads: 0, ended: None }
    }

    /// Sets the number of workers that this batch is set up for.
    pub fn set_n_threads(&mut self, n_threads: usize)
        ensures
            final(self).spec_n_threads() == n_threads,
            final(self).store() == old(self).store(),
            final(self).spec_ended() == old(self).spec_ended(),
            final(self).same_channel(old(self)),
    {
        self._n_threads = n_threads;
    }

    /// Why the sequence has ended, once it has.
    #[verifier::when_used_as_spec(spec_ended)]
    pub fn ended(&self) -> (ended: Option<EndReason>)
        ensures
            ended == self.spec_ended(),
    {
        self.ended
    }

    /// The number of workers that this batch was set up for.
    #[verifier::when_used_as_spec(spec_n_threads)]
    pub fn n_threads(&self) -> (n: usize)
        ensures
            n == self.spec_n_threads(),
    {
        self._n_threads
    }

    /// The sending end of the output channel, for the collector.
    pub fn sender(&self) -> (tx: &Sender<ResultItem>)
        ensures
            *tx == self.spec_sender(),
    {
        &self.tx
    }

    /// The pending-metadata store, to look at.
    pub fn pending(&self) -> (store: &PendingStore<M>)
        ensures
            *store == self.store(),
    {
        &self.data
    }

    /// The pending-metadata store, for the dispatcher to fill.
    pub fn pending_mut(&mut self) -> (store: &mut PendingStore<M>)
        ensures
            *store == old(self).store(),
            final(self).store() == *final(store),
            final(self).spec_n_threads() == old(self).spec_n_threads(),
            final(self).spec_ended() == old(self).spec_ended(),
            final(self).same_channel(old(self)),
    {
        &mut self.data
    }

    /// Takes one message off the output channel's receiving end and gives
    /// what a pull gives for it.
    ///
    /// A result comes back with the side data kept under its id, which is
    /// then gone from the store: no id is given out twice, and none that was
    /// not registered. The completion marker and a closed channel end the
    /// sequence, and so does a message that is neither a result nor the
    /// marker, and so does a result for which no side data is pending. A
    /// sequence that has ended stays ended: it gives its reason again and
    /// leaves everything as it is.
    pub fn accept(&mut self, received: Result<ResultItem, RecvError>) -> (next: BatchNext<M>)
        requires
            old(self).wf(),
        ensures
            final(self).wf(),
            final(self).spec_n_threads() == old(self).spec_n_threads(),
            final(self).same_channel(old(self)),
            final(self).store().submitted() == old(self).store().submitted(),
            old(self).spec_ended() matches Some(reason) ==> {
                &&& next == BatchNext::<M>::Return(reason)
                &&& final(self).spec_ended() == old(self).spec_ended()
                &&& final(self).store()@ == old(self).store()@
                &&& final(self).store().delivered() == old(self).store().delivered()
            },
            old(self).spec_ended() is None ==> {
                &&& next == pull(old(self).store()@, arrival(received))
                &&& final(self).spec_ended() == ended_by(next)
                &&& final(self).store()@ == pending_after(old(self).store()@, arrival(received))
                &&& final(self).store().delivered() == delivered_after(
                    old(self).store()@,
                    old(self).store().delivered(),
                    arrival(received),
                )
            },
    {
        if let Some(reason) = self.ended {
            return BatchNext::Return(reason);
        }
        let reason = match received {
            Ok(ResultItem::Result(id, output)) => {
                return match self.data.take(id) {
                    Some(meta) => BatchNext::Yield(output, meta),
                    None => {
                        assert(self.store()@ =~= old(self).store()@.remove(id));
                        self.ended = Some(EndReason::Unmatched);
                        BatchNext::Unmatched(id)
                    },
                };
            },
            Ok(ResultItem::Finished) => EndReason::Finished,
            Ok(ResultItem::Done) => EndReason::WrongVariant,
            Err(_) => EndReason::ChannelClosed,
        };
        self.ended = Some(reason);
        BatchNext::Return(reason)
    }

    /// One pull: waits for the next message on the output channel and gives
    /// what `accept` gives for it. A sequence that has ended gives its
    /// reason again without waiting.
    pub fn next_result(&mut self) -> (next: BatchNext<M>)
        requires
            old(self).wf(),
        ensures
            final(self).wf(),
            final(self).spec_n_threads() == old(self).spec_n_threads(),
            final(self).same_channel(old(self)),
            final(self).store().submitted() == old(self).store().submitted(),
            old(self).spec_ended() matches Some(reason) ==> {
                &&& next == BatchNext::<M>::Return(reason)
                &&& final(self).spec_ended() == old(self).spec_ended()
                &&& final(self).store()@ == old(self).store()@
                &&& final(self).store().delivered() == old(self).store().delivered()
            },
            old(self).spec_ended() is None ==> exists|message: Option<ResultItem>|
                {
                    &&& next == #[trigger] pull(old(self).store()@, message)
                    &&& final(self).spec_ended() == ended_by(next)
                    &&& final(self).store()@ == pending_after(old(self).store()@, message)
                    &&& final(self).store().delivered() == delivered_after(
                        old(self).store()@,
                        old(self).store().delivered(),
                        message,
                    )
                },
    {
        if let Some(reason) = self.ended {
            return BatchNext::Return(reason);
        }
        let received = self.rx.recv();
        let ghost message = arrival(received);
        let next = self.accept(received);
        assert(next == pull(old(self).store()@, message));
        next
    }
}

impl<M> Default for AlignmentBatchResultIter<M> {
    fn default() -> (batch: Self)
        ensures
            batch.wf(),
            batch.spec_n_threads() == 0,
            batch.spec_ended() is None,
            output_channel_capacity(batch.spec_sender()) == Some(OUTPUT_CHANNEL_CAPACITY),
            batch.store().submitted() == Seq::<M>::empty(),
            batch.store().delivered() == Set::<usize>::empty(),
    {
        Self::new()
    }
}

} // verus!
