//! The tokens that travel through the pipeline.

use crate::mapping::Mapping;
use vstd::prelude::*;

verus! {

/// What travels on the work queue.
#[derive(Debug, Clone, PartialEq, Eq)]
pub enum WorkItem {
    /// A sequence to align, under its correlation id.
    Work(usize, String),
    /// No more work will follow for the worker that takes this.
    Done,
}

/// What travels on the results queue and on the output channel.
#[derive(Debug, Clone, PartialEq, Eq)]
pub enum ResultItem {
    /// The alignments found for the work item with this correlation id.
    Result(usize, Vec<Mapping>),
    /// One worker has seen the end of its input.
    Done,
    /// Every worker has seen the end of its input: the batch is complete.
    Finished,
}

} // verus!
