//! An in-process publish/subscribe broker.
//!
//! Publishers and subscribers talk to a [`Messenger`], which numbers the
//! subscribers and queues one [`Instruction`] per request. A
//! [`MessengerWorker`] owns the topic index and consumes those instructions
//! in order: it registers and releases subscribers and fans each published
//! [`Event`] out to the bounded queues of the subscribers of its topic,
//! evicting every subscriber whose queue refuses the event.

pub mod config;
pub mod event;
pub mod index;
pub mod instruction;
pub mod messenger;
pub mod outbound;
pub mod request;
pub mod worker;

pub use event::Event;
pub use instruction::Instruction;
pub use messenger::{MessageReceiver, Messenger};
pub use worker::MessengerWorker;
