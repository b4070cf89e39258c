//! The vocabulary through which callers reach the broker actor.

use crate::event::{Event, EventView};
use crate::index::{topic_set, Index};
use std::sync::Arc;
use tokio::sync::mpsc::Sender;
use vstd::prelude::*;

verus! {

/// What an [`Instruction`] is to a contract: the instruction itself, with
/// the topics of a `Subscribe` as a set.
pub enum InstructionView {
    Stop,
    Subscribe { id: u64, topics: Set<Seq<char>>, sender: Sender<Arc<Event>> },
    Unsubscribe { id: u64 },
    Message { topic: Seq<char>, event: EventView },
}

/// One request to the broker actor.
#[derive(Debug)]
pub enum Instruction {
    /// End the actor.
    Stop,
    /// Register the subscriber with this id, this sending half of its
    /// queue and these topics.
    Subscribe(u64, Sender<Arc<Event>>, Vec<String>),
    /// Release the subscriber with this id.
    Unsubscribe(u64),
    /// Publish this event to this topic.
    Message(String, Event),
}

impl View for Instruction {
    type V = InstructionView;

    open spec fn view(&self) -> InstructionView {
        match *self {
            Instruction::Stop => InstructionView::Stop,
            Instruction::Subscribe(id, sender, topics) => InstructionView::Subscribe {
                id,
                topics: topic_set(topics@),
                sender,
            },
            Instruction::Unsubscribe(id) => InstructionView::Unsubscribe { id },
            Instruction::Message(topic, event) => InstructionView::Message {
                topic: topic@,
                event: event@,
            },
        }
    }
}

/// The views of a sequence of instructions, in the same order.
pub open spec fn views(instructions: Seq<Instruction>) -> Seq<InstructionView> {
    Seq::new(instructions.len(), |i: int| instructions[i]@)
}

/// Whether carrying out `instruction` can take the index from `before` to
/// `after`. Only a publication leaves a choice: which of the topic's
/// subscribers have a queue that refuses the event.
pub open spec fn carries_out(before: Index, instruction: InstructionView, after: Index) -> bool {
    match instruction {
        InstructionView::Stop => after == before,
        InstructionView::Subscribe { id, topics, sender } => after == before.unsubscribe(
            id,
        ).subscribe(id, topics, sender),
        InstructionView::Unsubscribe { id } => after == before.unsubscribe(id),
        InstructionView::Message { topic, event } => exists|refused: Set<u64>|
            refused.subset_of(before.subscribers(topic)) && after == #[trigger] before.publish(
                topic,
                event,
                refused,
            ),
    }
}

/// Whether carrying out `instructions` one after the other, first to last,
/// can take the index from `before` to `after`.
pub open spec fn reaches(before: Index, instructions: Seq<InstructionView>, after: Index) -> bool
    decreases instructions.len(),
{
    if instructions.len() == 0 {
        after == before
    } else {
        exists|mid: Index|
            reaches(before, instructions.drop_last(), mid) && #[trigger] carries_out(
                mid,
                instructions.last(),
                after,
            )
    }
}

/// How many instructions stand before the first `Stop`; all of them where
/// there is no `Stop`.
pub open spec fn before_stop(instructions: Seq<InstructionView>) -> nat
    decreases instructions.len(),
{
    if instructions.len() == 0 || instructions[0] is Stop {
        0
    } else {
        1 + before_stop(instructions.drop_first())
    }
}

/// Carrying out any instruction keeps a consistent index consistent.
pub proof fn carrying_out_keeps_consistent(
    before: Index,
    instruction: InstructionView,
    after: Index,
)
    requires
        before.consistent(),
        carries_out(before, instruction, after),
    ensures
        after.consistent(),
{
    match instruction {
        InstructionView::Stop => {},
        InstructionView::Subscribe { id, topics, sender } => {
            crate::index::unsubscribe_keeps_consistent(before, id);
            crate::index::subscribe_keeps_consistent(before.unsubscribe(id), id, topics, sender);
        },
        InstructionView::Unsubscribe { id } => {
            crate::index::unsubscribe_keeps_consistent(before, id);
        },
        InstructionView::Message { topic, event } => {
            let refused = choose|refused: Set<u64>|
                refused.subset_of(before.subscribers(topic)) && after == #[trigger] before.publish(
                    topic,
                    event,
                    refused,
                );
            crate::index::publish_keeps_consistent(before, topic, event, refused);
        },
    }
}

/// Whatever instructions are carried out, in whatever number, a consistent
/// index stays consistent.
pub proof fn reaching_keeps_consistent(
    before: Index,
    instructions: Seq<InstructionView>,
    after: Index,
)
    requires
        before.consistent(),
        reaches(before, instructions, after),
    ensures
        after.consistent(),
    decreases instructions.len(),
{
    if instructions.len() > 0 {
        let mid = choose|mid: Index|
            reaches(before, instructions.drop_last(), mid) && #[trigger] carries_out(
                mid,
                instructions.last(),
                after,
            );
        reaching_keeps_consistent(before, instructions.drop_last(), mid);
        carrying_out_keeps_consistent(mid, instructions.last(), after);
    }
}

} // verus!
