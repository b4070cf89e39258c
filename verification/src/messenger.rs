//! The caller's side of the broker: it numbers the subscribers and queues
//! the instructions that the broker actor will carry out.

use crate::event::Event;
use crate::index::topic_set;
use crate::instruction::{views, Instruction, InstructionView};
use crate::outbound::{outbound_queue, queue_capacity, OUTBOUND_CAPACITY};
use std::collections::VecDeque;
use std::sync::Arc;
use tokio::sync::mpsc::Receiver;
use vstd::prelude::*;

verus! {

/// The id that is handed out after `id`. Ids start again at zero once
/// every `u64` has been used.
pub open spec fn id_after(id: u64) -> u64 {
    if id == u64::MAX {
        0
    } else {
        (id + 1) as u64
    }
}

/// Whether the channel grew from `before` to `after` by one instruction at
/// its back, and that instruction registers a subscriber with the sending
/// half of a queue of [`OUTBOUND_CAPACITY`] events.
pub open spec fn queues_subscription(
    before: Seq<InstructionView>,
    after: Seq<InstructionView>,
) -> bool {
    &&& after.len() == before.len() + 1
    &&& after.drop_last() == before
    &&& after.last() is Subscribe
    &&& queue_capacity(after.last()->Subscribe_sender) == OUTBOUND_CAPACITY
}

/// The entry point for publishers and subscribers. Every request becomes
/// one instruction at the back of the instruction channel; the actor takes
/// them from the front, so it sees the requests in the order they were made.
#[derive(Debug)]
pub struct Messenger {
    chan: VecDeque<Instruction>,
    id_counter: u64,
}

/// A subscriber's handle: its id and the receiving half of its queue. The
/// queue reports its end once the broker has dropped the sending half, which
/// is how a subscriber learns that it was released or evicted.
#[derive(Debug)]
pub struct MessageReceiver {
    id: u64,
    pub subscription: Receiver<Arc<Event>>,
}

impl MessageReceiver {
    /// The id under which the broker knows this subscriber.
    pub closed spec fn spec_id(&self) -> u64 {
        self.id
    }

    /// The id under which the broker knows this subscriber.
    #[verifier::when_used_as_spec(spec_id)]
    pub fn id(&self) -> (id: u64)
        ensures
            id == self.spec_id(),
    {
        self.id
    }
}

impl Messenger {
    /// The instructions that wait in the channel, oldest first.
    pub closed spec fn pending(&self) -> Seq<InstructionView> {
        views(self.chan@)
    }

    /// The id that the next subscriber will get.
    pub closed spec fn next_id(&self) -> u64 {
        self.id_counter
    }

    /// A messenger with an empty channel, whose first subscriber gets id 0.
    pub fn new() -> (messenger: Messenger)
        ensures
            messenger.pending() == Seq::<InstructionView>::empty(),
            messenger.next_id() == 0,
    {
        let messenger = Messenger { chan: VecDeque::new(), id_counter: 0 };
        messenger
    }

    /// Puts `instruction` at the back of the channel.
    fn enqueue(&mut self, instruction: Instruction)
        ensures
            final(self).pending() == old(self).pending().push(instruction@),
            final(self).next_id() == old(self).next_id(),
    {
        self.chan.push_back(instruction);
    }

    /// Publishes `evt` to `topic`: queues the publication and returns. What
    /// the subscribers' queues do with the event never holds the caller up.
    pub fn send(&mut self, topic: String, evt: Event)
        ensures
            final(self).pending() == old(self).pending().push(
                InstructionView::Message { topic: topic@, event: evt@ },
            ),
            final(self).next_id() == old(self).next_id(),
    {
        self.enqueue(Instruction::Message(topic, evt));
    }

    /// Subscribes to `topics`: takes the next id, makes a new bounded queue,
    /// queues the registration with the queue's sending half, and returns the
    /// handle that holds the receiving half. The handle can be used at once;
    /// events arrive once the actor has carried out the registration.
    pub fn subscribe(&mut self, topics: Vec<String>) -> (receiver: MessageReceiver)
        ensures
            receiver.id() == old(self).next_id(),
            final(self).next_id() == id_after(old(self).next_id()),
            queues_subscription(old(self).pending(), final(self).pending()),
            final(self).pending().last()->Subscribe_id == old(self).next_id(),
            final(self).pending().last()->Subscribe_topics == topic_set(topics@),
    {
        let (tx, rx) = outbound_queue();
        let id = self.id_counter;
        self.id_counter = if id == u64::MAX {
            0
        } else {
            id + 1
        };
        self.enqueue(Instruction::Subscribe(id, tx, topics));
        assert(self.pending().drop_last() =~= old(self).pending());
        MessageReceiver { id: id, subscription: rx }
    }

    /// Gives the handle `receiver` up: queues the release of its subscriber
    /// and drops the receiving half of its queue. The handle is consumed, so
    /// it is given up once.
    pub fn unsubscribe(&mut self, receiver: MessageReceiver)
        ensures
            final(self).pending() == old(self).pending().push(
                InstructionView::Unsubscribe { id: receiver.id() },
            ),
            final(self).next_id() == old(self).next_id(),
    {
        self.enqueue(Instruction::Unsubscribe(receiver.id));
    }

    /// Queues the instruction that ends the actor.
    pub fn stop(&mut self)
        ensures
            final(self).pending() == old(self).pending().push(InstructionView::Stop),
            final(self).next_id() == old(self).next_id(),
    {
        self.enqueue(Instruction::Stop);
    }

    /// Takes the oldest instruction out of the channel; `None` where none is
    /// waiting.
    pub fn recv(&mut self) -> (instruction: Option<Instruction>)
        ensures
            final(self).next_id() == old(self).next_id(),
            match instruction {
                Some(first) => {
                    &&& old(self).pending().len() > 0
                    &&& first@ == old(self).pending()[0]
                    &&& final(self).pending() == old(self).pending().drop_first()
                },
                None => {
                    &&& old(self).pending().len() == 0
                    &&& final(self).pending() == old(self).pending()
                },
            },
    {
        let instruction = self.chan.pop_front();
        instruction
    }
}

} // verus!
