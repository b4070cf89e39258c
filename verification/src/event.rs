//! The value that is published to a topic.

use vstd::prelude::*;

verus! {

/// What an [`Event`] is to a contract: its name and its payload as
/// sequences of characters.
pub struct EventView {
    pub event: Seq<char>,
    pub data: Seq<char>,
}

/// A named payload. It is built once per publication and then shared,
/// unchanged, by every subscriber queue that accepts it.
#[derive(Debug)]
pub struct Event {
    pub event: String,
    pub data: String,
}

impl View for Event {
    type V = EventView;

    open spec fn view(&self) -> EventView {
        EventView { event: self.event@, data: self.data@ }
    }
}

impl Event {
    /// An event with the given name and payload.
    pub fn new(event: String, data: String) -> (evt: Event)
        ensures
            evt.event == event,
            evt.data == data,
            evt@ == (EventView { event: event@, data: data@ }),
    {
        Event { event: event, data }
    }
}

} // verus!
