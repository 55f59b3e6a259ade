//! The messages that travel between services and the runtime.
use vstd::prelude::*;
use crate::event::Event;

verus! {

/// A message between a service and the runtime.
#[derive(Debug, Clone, PartialEq, Eq)]
pub enum Message {
    /// A service announces itself, what it subscribes to and where it listens.
    Register { service_name: String, subscriptions: Vec<Event>, socket_path: String },
    /// A service hands an event to the runtime for delivery.
    Publish { service_name: String, event: Event },
    /// The runtime delivers an event to a subscriber.
    Dispatch { event: Event },
    /// A service reports that it is alive.
    Heartbeat { service_name: String },
    /// A service leaves.
    Shutdown { service_name: String },
}

/// Who sent a message: the service it names, or `"runtime"` for a dispatch.
pub open spec fn sender_spec(m: Message) -> Seq<char> {
    match m {
        Message::Register { service_name, .. } => service_name@,
        Message::Publish { service_name, .. } => service_name@,
        Message::Dispatch { .. } => "runtime"@,
        Message::Heartbeat { service_name } => service_name@,
        Message::Shutdown { service_name } => service_name@,
    }
}

impl Message {
    /// The name of the message's sender.
    pub fn sender(&self) -> (r: &str)
        ensures
            r@ == sender_spec(*self),
    {
        match self {
            Message::Register { service_name, .. } => service_name.as_str(),
            Message::Publish { service_name, .. } => service_name.as_str(),
            Message::Dispatch { .. } => "runtime",
            Message::Heartbeat { service_name } => service_name.as_str(),
            Message::Shutdown { service_name } => service_name.as_str(),
        }
    }
}

} // verus!
