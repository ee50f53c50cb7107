//! The bounded queues and the output channel, as far as the pipeline relies
//! on them.
//!
//! Both are shared between threads, so a call on one of them says nothing
//! about what the queue holds afterwards: another thread may have pushed or
//! popped in between. What is stated here is only what holds of every
//! outcome of a single call.

use crate::items::{ResultItem, WorkItem};
use crossbeam::channel::{Receiver, RecvError, SendError, Sender};
use crossbeam::queue::ArrayQueue;
use vstd::prelude::*;

verus! {

/// `crossbeam::queue::ArrayQueue`: a bounded queue that threads share. What
/// it holds is not known here.
#[verifier::external_type_specification]
#[verifier::external_body]
#[verifier::reject_recursive_types(T)]
pub struct ExArrayQueue<T>(ArrayQueue<T>);

/// `crossbeam::channel::Sender`: the sending end of a channel.
#[verifier::external_type_specification]
#[verifier::external_body]
#[verifier::reject_recursive_types(T)]
pub struct ExSender<T>(Sender<T>);

/// `crossbeam::channel::Receiver`: the receiving end of a channel.
#[verifier::external_type_specification]
#[verifier::external_body]
#[verifier::reject_recursive_types(T)]
pub struct ExReceiver<T>(Receiver<T>);

/// `crossbeam::channel::SendError`: what a failed send comes back with.
#[verifier::external_type_specification]
#[verifier::external_body]
#[verifier::reject_recursive_types(T)]
pub struct ExSendError<T>(SendError<T>);

/// `crossbeam::channel::RecvError`: what a failed receive comes back with.
#[verifier::external_type_specification]
#[verifier::external_body]
pub struct ExRecvError(RecvError);

/// `ArrayQueue::push`: the queue either takes the value or, when it is full,
/// hands it back. Claimed: what is handed back is the value that was given.
/// Which of the two happens is not claimed.
pub assume_specification<T>[ ArrayQueue::<T>::push ](queue: &ArrayQueue<T>, value: T) -> (r: Result<(), T>)
    ensures
        r matches Err(back) ==> back == value,
;

/// `ArrayQueue::pop`: the value at the head of the queue, or `None` when the
/// queue is empty at that moment. Nothing is claimed of what comes back.
pub assume_specification<T>[ ArrayQueue::<T>::pop ](queue: &ArrayQueue<T>) -> (r: Option<T>)
;

/// `Sender::send`: waits while the channel is full; fails once every
/// receiver is gone. Nothing is claimed of what comes back.
pub assume_specification<T>[ Sender::<T>::send ](tx: &Sender<T>, msg: T) -> (r: Result<(), SendError<T>>)
;

/// `Receiver::recv`: waits until a message arrives; fails once the channel
/// is empty and every sender is gone. Nothing is claimed of what comes back.
pub assume_specification<T>[ Receiver::<T>::recv ](rx: &Receiver<T>) -> (r: Result<T, RecvError>)
;

/// The largest capacity this crate asks of a queue or channel.
pub const CAPACITY_LIMIT: usize = 16_777_216;

/// `ArrayQueue::capacity` of a work queue: the number of items that the
/// queue was made to hold. It is fixed when the queue is made.
pub uninterp spec fn work_queue_capacity(queue: ArrayQueue<WorkItem>) -> usize;

/// `ArrayQueue::capacity` of a results queue: the number of items that the
/// queue was made to hold. It is fixed when the queue is made.
pub uninterp spec fn results_queue_capacity(queue: ArrayQueue<ResultItem>) -> usize;

/// `ArrayQueue::new` for work items: an empty queue with room for `cap`
/// items. It panics on a capacity of zero and on one too large to allocate;
/// the bounds here leave both out. Claimed: the queue's capacity is `cap`.
#[verifier::external_body]
pub(crate) fn work_queue_of(cap: usize) -> (queue: ArrayQueue<WorkItem>)
    requires
        0 < cap <= CAPACITY_LIMIT,
    ensures
        work_queue_capacity(queue) == cap,
{
    ArrayQueue::new(cap)
}

/// `ArrayQueue::new` for result items: an empty queue with room for `cap`
/// items. It panics on a capacity of zero and on one too large to allocate;
/// the bounds here leave both out. Claimed: the queue's capacity is `cap`.
#[verifier::external_body]
pub(crate) fn results_queue_of(cap: usize) -> (queue: ArrayQueue<ResultItem>)
    requires
        0 < cap <= CAPACITY_LIMIT,
    ensures
        results_queue_capacity(queue) == cap,
{
    ArrayQueue::new(cap)
}

/// `Sender::capacity` of an output channel: the number of messages that the
/// channel was made to hold. It is fixed when the channel is made.
pub uninterp spec fn output_channel_capacity(tx: Sender<ResultItem>) -> Option<usize>;

/// `crossbeam::channel::bounded` for result items: the two ends of a new,
/// empty channel with room for `cap` messages. It panics on a capacity too
/// large to allocate, which the bound here leaves out. Claimed: the
/// channel's capacity is `cap`.
#[verifier::external_body]
pub(crate) fn output_channel_of(cap: usize) -> (ends: (Sender<ResultItem>, Receiver<ResultItem>))
    requires
        cap <= CAPACITY_LIMIT,
    ensures
        output_channel_capacity(ends.0) == Some(cap),
{
    crossbeam::channel::bounded(cap)
}

} // verus!
