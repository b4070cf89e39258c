//! The bounded queue between the broker and one subscriber.
//!
//! The queue is tokio's bounded multi-producer channel. The broker keeps the
//! sending half and the subscriber the receiving half. Nothing here is
//! proved: the declarations below say what the verified code may assume of
//! tokio.

use crate::event::Event;
use std::sync::Arc;
use tokio::sync::mpsc::error::TrySendError;
use tokio::sync::mpsc::{Receiver, Sender};
use vstd::prelude::*;

verus! {

/// How many events a subscriber's queue holds before it refuses the next.
pub const OUTBOUND_CAPACITY: usize = 16;

/// The largest capacity `tokio::sync::mpsc::channel` accepts: the number of
/// permits its semaphore can hold, `usize::MAX >> 3`.
pub open spec fn max_capacity() -> usize {
    usize::MAX / 8
}

/// `tokio::sync::mpsc::Sender`, the sending half of a bounded channel.
/// Opaque: which messages it holds depends on what the receiving half,
/// possibly on another thread, has taken out.
#[verifier::external_type_specification]
#[verifier::external_body]
#[verifier::reject_recursive_types(T)]
pub struct ExSender<T>(Sender<T>);

/// `tokio::sync::mpsc::Receiver`, the receiving half of a bounded channel.
#[verifier::external_type_specification]
#[verifier::external_body]
#[verifier::reject_recursive_types(T)]
pub struct ExReceiver<T>(Receiver<T>);

/// `tokio::sync::mpsc::error::TrySendError`, which hands back the message
/// that a full or closed channel refused.
#[verifier::external_type_specification]
#[verifier::external_body]
#[verifier::reject_recursive_types(T)]
pub struct ExTrySendError<T>(TrySendError<T>);

/// The capacity that the queue behind a sending half was made with. It is
/// what `Sender::max_capacity` returns, and stays the same for as long as
/// the queue lives, however full the queue is.
pub uninterp spec fn queue_capacity(sender: Sender<Arc<Event>>) -> usize;

/// `tokio::sync::mpsc::channel` panics on a capacity of zero and on one
/// above its semaphore's limit; any other capacity gives the two halves of
/// a new channel that buffers up to that many messages. Nothing else is
/// claimed of the halves.
#[verifier::external_body]
fn bounded_channel(capacity: usize) -> (halves: (Sender<Arc<Event>>, Receiver<Arc<Event>>))
    requires
        0 < capacity <= max_capacity(),
    ensures
        queue_capacity(halves.0) == capacity,
{
    tokio::sync::mpsc::channel(capacity)
}

/// `Sender::try_send` never blocks and never panics. Whether it accepts the
/// message depends on how full the channel is and on whether the receiving
/// half still exists, so nothing is claimed of its answer.
pub assume_specification<T>[ Sender::<T>::try_send ](sender: &Sender<T>, message: T) -> (answer:
    Result<(), TrySendError<T>>)
;

/// The two halves of a new queue of [`OUTBOUND_CAPACITY`] events.
pub(crate) fn outbound_queue() -> (halves: (Sender<Arc<Event>>, Receiver<Arc<Event>>))
    ensures
        queue_capacity(halves.0) == OUTBOUND_CAPACITY,
{
    bounded_channel(OUTBOUND_CAPACITY)
}

/// Whether the queue took the event, given its answer to the offer: any
/// refusal, for a full queue or for a closed one, counts the same.
pub(crate) fn took(answer: Result<(), TrySendError<Arc<Event>>>) -> (accepted: bool)
    ensures
        accepted == (answer is Ok),
{
    match answer {
        Ok(()) => true,
        Err(_) => false,
    }
}

/// Offers `event` to the queue behind `sender` without waiting, and says
/// whether the queue took it. The answer is the queue's alone: it depends
/// on how full the queue is and on whether its reader still exists.
pub(crate) fn offer(sender: &Sender<Arc<Event>>, event: Arc<Event>) -> (accepted: bool) {
    took(sender.try_send(event))
}

/// `Arc::clone`: one more pointer to the same event.
#[verifier::external_body]
pub(crate) fn share(event: &Arc<Event>) -> (shared: Arc<Event>)
    ensures
        shared == *event,
{
    Arc::clone(event)
}

} // verus!
