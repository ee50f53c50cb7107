//! Batched sequence alignment over a pool of workers.
//!
//! A batch of records is turned into work items on a bounded queue, aligned by
//! a pool of workers, gathered by a collector and handed back to the caller,
//! each result paired with the side data of the record it came from. Results
//! may arrive in any order; a correlation id ties each one to its record.
//!
//! Everything here is a step of that pipeline written as a function with a
//! contract. The threads that run the steps, the pauses between them and the
//! alignment engine itself belong to the caller.

pub mod aligner;
pub mod backoff;
pub mod collector;
pub mod dispatch;
pub mod index_seq;
pub mod items;
pub mod laws;
pub mod mapping;
pub mod options;
pub mod pipeline;
pub mod record;
pub mod results;
pub mod state;
pub mod store;
pub mod text;
pub mod transit;
pub mod transport;
pub mod worker;

pub use aligner::Aligner;
pub use items::{ResultItem, WorkItem};
pub use mapping::{Mapping, Strand};
pub use results::AlignmentBatchResultIter;
