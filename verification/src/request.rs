//! Requests as they reach the broker from the transport, already opened and
//! decoded, and what a subscriber's consumer loop does with each wake-up.

use crate::event::{Event, EventView};
use crate::instruction::InstructionView;
use crate::index::topic_set;
use crate::messenger::{id_after, queues_subscription, MessageReceiver, Messenger};
use std::sync::Arc;
use vstd::prelude::*;

verus! {

/// A request to follow topics.
#[derive(Debug)]
pub struct SubscribeRequest {
    pub topics: Vec<String>,
}

/// One publication of a batch.
#[derive(Debug)]
pub struct Message {
    pub topic: String,
    pub event: String,
    pub data: String,
}

/// A batch of publications.
#[derive(Debug)]
pub struct Submission {
    pub events: Vec<Message>,
}

/// Subscribes to the topics of the request.
pub fn subscribe(messenger: &mut Messenger, request: SubscribeRequest) -> (receiver:
    MessageReceiver)
    ensures
        receiver.id() == old(messenger).next_id(),
        final(messenger).next_id() == id_after(old(messenger).next_id()),
        queues_subscription(old(messenger).pending(), final(messenger).pending()),
        final(messenger).pending().last()->Subscribe_id == old(messenger).next_id(),
        final(messenger).pending().last()->Subscribe_topics == topic_set(request.topics@),
{
    messenger.subscribe(request.topics)
}

/// The publications that a batch asks for, in the order of the batch.
pub open spec fn publications(batch: Seq<Message>) -> Seq<InstructionView> {
    Seq::new(
        batch.len(),
        |i: int|
            InstructionView::Message {
                topic: batch[i].topic@,
                event: EventView { event: batch[i].event@, data: batch[i].data@ },
            },
    )
}

/// Publishes every message of the batch, first to last.
pub fn submit(messenger: &mut Messenger, request: Submission)
    ensures
        final(messenger).pending() == old(messenger).pending() + publications(request.events@),
        final(messenger).next_id() == old(messenger).next_id(),
{
    let ghost batch = request.events@;
    let mut events = request.events;
    let mut sent: usize = 0;
    while sent < events.len()
        invariant
            sent <= events.len(),
            events@.len() == batch.len(),
            forall|i: int| sent <= i < batch.len() ==> events@[i] == batch[i],
            messenger.pending() == old(messenger).pending() + publications(batch).take(
                sent as int,
            ),
            messenger.next_id() == old(messenger).next_id(),
        decreases events.len() - sent,
    {
        let topic = events[sent].topic.clone();
        let event = events[sent].event.clone();
        let data = events[sent].data.clone();
        messenger.send(topic, Event::new(event, data));
        sent += 1;
    }
}

/// What a subscriber's consumer loop woke up to.
pub enum Wakeup {
    /// Its queue answered: with the next event, or with `None` because the
    /// broker has dropped the sending half.
    Next(Option<Arc<Event>>),
    /// The transport asked it to stop.
    Cancelled,
}

/// What the consumer loop does next.
#[derive(Debug)]
pub enum Reaction {
    /// Hand this name and payload to the transport, then wait again.
    Forward { event: String, data: String },
    /// Leave the loop and give the subscription up.
    Finish,
}

/// Decides what the consumer loop does with a wake-up: an event is
/// forwarded; the end of the queue and a cancellation both end the loop,
/// and neither is an error.
pub fn react(wakeup: Wakeup) -> (reaction: Reaction)
    ensures
        match wakeup {
            Wakeup::Next(Some(evt)) => reaction matches Reaction::Forward { event, data }
                && event@ == evt.event@ && data@ == evt.data@,
            Wakeup::Next(None) => reaction is Finish,
            Wakeup::Cancelled => reaction is Finish,
        },
{
    match wakeup {
        Wakeup::Next(Some(evt)) => Reaction::Forward {
            event: evt.event.clone(),
            data: evt.data.clone(),
        },
        Wakeup::Next(None) => Reaction::Finish,
        Wakeup::Cancelled => Reaction::Finish,
    }
}

} // verus!
