//! The aligner: the pool's size and the two queues that every batch shares.

use crate::collector::{CollectState, Collector};
use crate::dispatch::{DispatchState, Dispatcher};
use crate::items::{ResultItem, WorkItem};
use crate::mapping::{Mapping, Strand};
use crate::record::BatchError;
use crate::results::{AlignmentBatchResultIter, OUTPUT_CHANNEL_CAPACITY};
use crate::transport::{output_channel_capacity, results_queue_capacity, results_queue_of, work_queue_capacity, work_queue_of, CAPACITY_LIMIT};
use crate::worker::{Worker, WorkerState};
use crossbeam::queue::ArrayQueue;
use std::sync::Arc;
use vstd::prelude::*;
use vstd::string::StringExecFns;

verus! {

/// The room on the work queue, in items.
pub const WORK_QUEUE_CAPACITY: usize = 50_000;

/// The room on the results queue, in items.
pub const RESULTS_QUEUE_CAPACITY: usize = 20_000;

/// Mapping against a second sequence is not offered.
#[derive(Debug, Clone, Copy, PartialEq, Eq, Structural)]
pub struct NotImplemented;

/// The one alignment that `no_op_map` reports.
pub open spec fn is_placeholder(mapping: Mapping) -> bool {
    &&& mapping.query_start == 0
    &&& mapping.query_end == 1000
    &&& mapping.strand == Strand::Forward
    &&& mapping.target_name@ == "Hello"@
    &&& mapping.target_len == 101010
    &&& mapping.target_start == 10
    &&& mapping.target_end == 1010
    &&& mapping.match_len == 1000
    &&& mapping.block_len == 1000
    &&& mapping.mapq == 60
    &&& mapping.is_primary
    &&& mapping.cigar@.len() == 0
    &&& mapping.NM == 0
    &&& mapping.MD is None
    &&& mapping.cs matches Some(cs) && cs@ == "Cigar string"@
}

/// The pool's size and the queues between dispatcher, workers and
/// collector.
pub struct Aligner {
    n_threads: usize,
    work_queue: Arc<ArrayQueue<WorkItem>>,
    results_queue: Arc<ArrayQueue<ResultItem>>,
}

impl Aligner {
    /// The number of workers enabled.
    pub closed spec fn spec_n_threads(&self) -> usize {
        self.n_threads
    }

    /// The work queue.
    pub closed spec fn spec_work_queue(&self) -> Arc<ArrayQueue<WorkItem>> {
        self.work_queue
    }

    /// The results queue.
    pub closed spec fn spec_results_queue(&self) -> Arc<ArrayQueue<ResultItem>> {
        self.results_queue
    }

    /// An aligner without workers, with queues of the usual size.
    pub fn new() -> (aligner: Aligner)
        ensures
            aligner.spec_n_threads() == 0,
            work_queue_capacity(*aligner.spec_work_queue()) == WORK_QUEUE_CAPACITY,
            results_queue_capacity(*aligner.spec_results_queue()) == RESULTS_QUEUE_CAPACITY,
    {
        Aligner {
            n_threads: 0,
            work_queue: Arc::new(work_queue_of(WORK_QUEUE_CAPACITY)),
            results_queue: Arc::new(results_queue_of(RESULTS_QUEUE_CAPACITY)),
        }
    }

    /// An aligner without workers, with queues of the given sizes, if both
    /// are sizes that a queue can have.
    pub fn with_capacities(work: usize, results: usize) -> (made: Option<Aligner>)
        ensures
            made is Some <==> 0 < work <= CAPACITY_LIMIT && 0 < results <= CAPACITY_LIMIT,
            made matches Some(aligner) ==> {
                &&& aligner.spec_n_threads() == 0
                &&& work_queue_capacity(*aligner.spec_work_queue()) == work
                &&& results_queue_capacity(*aligner.spec_results_queue()) == results
            },
    {
        if work == 0 || work > CAPACITY_LIMIT || results == 0 || results > CAPACITY_LIMIT {
            return None;
        }
        Some(
            Aligner {
                n_threads: 0,
                work_queue: Arc::new(work_queue_of(work)),
                results_queue: Arc::new(results_queue_of(results)),
            },
        )
    }

    /// The number of workers enabled.
    #[verifier::when_used_as_spec(spec_n_threads)]
    pub fn n_threads(&self) -> (n: usize)
        ensures
            n == self.spec_n_threads(),
    {
        self.n_threads
    }

    /// The work queue, to hand to the dispatcher and to every worker.
    pub fn work_queue(&self) -> (queue: &Arc<ArrayQueue<WorkItem>>)
        ensures
            *queue == self.spec_work_queue(),
    {
        &self.work_queue
    }

    /// The results queue, to hand to every worker and to the collector.
    pub fn results_queue(&self) -> (queue: &Arc<ArrayQueue<ResultItem>>)
        ensures
            *queue == self.spec_results_queue(),
    {
        &self.results_queue
    }

    /// Sets the pool's size and returns its workers, one for each place in
    /// the pool, for the caller to run.
    pub fn enable_threading(&mut self, n_threads: usize) -> (workers: Vec<Worker>)
        ensures
            final(self).spec_n_threads() == n_threads,
            final(self).spec_work_queue() == old(self).spec_work_queue(),
            final(self).spec_results_queue() == old(self).spec_results_queue(),
            workers@.len() == n_threads,
            forall|i: int|
                0 <= i < n_threads ==> (#[trigger] workers@[i])@ == WorkerState::fresh(i as usize),
    {
        self.n_threads = n_threads;
        let mut workers: Vec<Worker> = Vec::new();
        let mut i: usize = 0;
        while i < n_threads
            invariant
                i <= n_threads,
                workers@.len() == i,
                forall|k: int| 0 <= k < i ==> (#[trigger] workers@[k])@ == WorkerState::fresh(k as usize),
            decreases n_threads - i,
        {
            workers.push(Worker::new(i));
            i += 1;
        }
        workers
    }

    /// Opens the submission of a batch on `res`: gives the dispatcher that
    /// takes its records and the collector that gathers its results.
    ///
    /// Without workers there is no batch: the call fails and `res` stays as
    /// it was.
    pub fn _map_batch<M>(&self, res: &mut AlignmentBatchResultIter<M>, back_off: bool) -> (made:
        Result<(Dispatcher, Collector), BatchError>)
        requires
            old(res).wf(),
        ensures
            final(res).wf(),
            final(res).store() == old(res).store(),
            final(res).spec_ended() == old(res).spec_ended(),
            final(res).same_channel(old(res)),
            self.spec_n_threads() == 0 <==> made is Err,
            made matches Err(error) ==> error == BatchError::ConfigurationError
                && final(res).spec_n_threads() == old(res).spec_n_threads(),
            made matches Ok((dispatcher, collector)) ==> {
                &&& final(res).spec_n_threads() == self.spec_n_threads()
                &&& dispatcher.wf()
                &&& dispatcher@ == DispatchState::fresh(self.spec_n_threads(), back_off)
                &&& collector@ == CollectState::fresh(self.spec_n_threads())
            },
    {
        let dispatcher = match Dispatcher::new(self.n_threads, back_off) {
            Err(error) => {
                return Err(error);
            },
            Ok(dispatcher) => dispatcher,
        };
        let collector = match Collector::new(self.n_threads) {
            None => {
                return Err(BatchError::ConfigurationError);
            },
            Some(collector) => collector,
        };
        res.set_n_threads(self.n_threads);
        Ok((dispatcher, collector))
    }

    /// Opens a new batch: gives its results' end, its dispatcher and its
    /// collector. Without workers there is no batch.
    pub fn map_batch<M>(&self, back_off: bool) -> (made: Result<
        (AlignmentBatchResultIter<M>, Dispatcher, Collector),
        BatchError,
    >)
        ensures
            self.spec_n_threads() == 0 <==> made is Err,
            made matches Err(error) ==> error == BatchError::ConfigurationError,
            made matches Ok((res, dispatcher, collector)) ==> {
                &&& res.wf()
                &&& res.spec_n_threads() == self.spec_n_threads()
                &&& res.spec_ended() is None
                &&& output_channel_capacity(res.spec_sender()) == Some(OUTPUT_CHANNEL_CAPACITY)
                &&& res.store().submitted() == Seq::<M>::empty()
                &&& res.store().delivered() == Set::<usize>::empty()
                &&& dispatcher.wf()
                &&& dispatcher@ == DispatchState::fresh(self.spec_n_threads(), back_off)
                &&& collector@ == CollectState::fresh(self.spec_n_threads())
            },
    {
        let mut res = AlignmentBatchResultIter::new();
        match self._map_batch(&mut res, back_off) {
            Err(error) => Err(error),
            Ok((dispatcher, collector)) => Ok((res, dispatcher, collector)),
        }
    }

    /// In place of an alignment: one made-up mapping, always the same.
    pub fn no_op_map(&self) -> (mappings: Vec<Mapping>)
        ensures
            mappings@.len() == 1,
            is_placeholder(mappings@[0]),
    {
        let mut mappings: Vec<Mapping> = Vec::new();
        mappings.push(
            Mapping {
                query_start: 0,
                query_end: 1000,
                strand: Strand::Forward,
                target_name: String::from_str("Hello"),
                target_len: 101010,
                target_start: 10,
                target_end: 1010,
                match_len: 1000,
                block_len: 1000,
                mapq: 60,
                is_primary: true,
                cigar: Vec::new(),
                NM: 0,
                MD: None,
                cs: Some(String::from_str("Cigar string")),
            },
        );
        mappings
    }

    /// Whether a read can be mapped as it comes: alone. A second sequence
    /// to map it with is turned down.
    pub fn single_read(seq2: &Option<String>) -> (accepted: Result<(), NotImplemented>)
        ensures
            seq2 is Some <==> accepted is Err,
    {
        if seq2.is_some() {
            Err(NotImplemented)
        } else {
            Ok(())
        }
    }

    /// Maps a single read without aligning anything. A second sequence is
    /// turned down.
    #[allow(non_snake_case)]
    pub fn map_no_op(&self, _seq: String, seq2: Option<String>, _cs: bool, _MD: bool) -> (mapped:
        Result<Vec<Mapping>, NotImplemented>)
        ensures
            seq2 is Some <==> mapped is Err,
            mapped matches Ok(mappings) ==> mappings@.len() == 1 && is_placeholder(mappings@[0]),
    {
        match Aligner::single_read(&seq2) {
            Err(refusal) => Err(refusal),
            Ok(()) => Ok(self.no_op_map()),
        }
    }
}

} // verus!
