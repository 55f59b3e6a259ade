//! What a service sends to the runtime, without knowing the runtime's insides.
use vstd::prelude::*;
use crate::config::{runtime_address, runtime_address_spec, service_address, service_address_spec, TransportKind};
use crate::event::Event;
use crate::message::Message;

verus! {

/// A message together with the address it is to be sent to.
#[derive(Debug)]
pub struct Outgoing {
    pub target: String,
    pub message: Message,
}

/// The mathematical content of a [`ServiceContext`].
pub struct ContextRecord {
    pub service_name: Seq<char>,
    pub runtime_address: Seq<char>,
    pub service_address: Seq<char>,
}

/// A service's identity: its name, the runtime's address and its own.
#[derive(Debug)]
pub struct ServiceContext {
    service_name: String,
    runtime_socket_path: String,
    service_socket_path: String,
}

impl View for ServiceContext {
    type V = ContextRecord;

    closed spec fn view(&self) -> ContextRecord {
        ContextRecord {
            service_name: self.service_name@,
            runtime_address: self.runtime_socket_path@,
            service_address: self.service_socket_path@,
        }
    }
}

impl Clone for ServiceContext {
    fn clone(&self) -> (r: Self)
        ensures
            r@ == self@,
    {
        ServiceContext {
            service_name: self.service_name.clone(),
            runtime_socket_path: self.runtime_socket_path.clone(),
            service_socket_path: self.service_socket_path.clone(),
        }
    }
}

impl ServiceContext {
    /// The context of the service `service_name` under the transport `kind`.
    pub fn new(service_name: &str, kind: TransportKind) -> (r: Self)
        ensures
            r@ == (ContextRecord {
                service_name: service_name@,
                runtime_address: runtime_address_spec(kind),
                service_address: service_address_spec(kind, service_name@),
            }),
    {
        ServiceContext {
            service_name: String::from_str(service_name),
            runtime_socket_path: runtime_address(kind),
            service_socket_path: service_address(kind, service_name),
        }
    }

    /// The service's name.
    pub fn service_name(&self) -> (r: &str)
        ensures
            r@ == self@.service_name,
    {
        self.service_name.as_str()
    }

    /// Where the service listens.
    pub fn service_socket_path(&self) -> (r: &str)
        ensures
            r@ == self@.service_address,
    {
        self.service_socket_path.as_str()
    }

    /// The registration to send to the runtime: the service's name, its
    /// `subscriptions` and its own address.
    pub fn register(&self, subscriptions: Vec<Event>) -> (r: Outgoing)
        ensures
            r.target@ == self@.runtime_address,
            r.message matches Message::Register { service_name, subscriptions: subs, socket_path }
                && service_name@ == self@.service_name && subs == subscriptions && socket_path@
                == self@.service_address,
    {
        Outgoing {
            target: self.runtime_socket_path.clone(),
            message: Message::Register {
                service_name: self.service_name.clone(),
                subscriptions,
                socket_path: self.service_socket_path.clone(),
            },
        }
    }

    /// The publication of `event` to send to the runtime.
    pub fn publish(&self, event: Event) -> (r: Outgoing)
        ensures
            r.target@ == self@.runtime_address,
            r.message matches Message::Publish { service_name, event: published } && service_name@
                == self@.service_name && published == event,
    {
        Outgoing {
            target: self.runtime_socket_path.clone(),
            message: Message::Publish { service_name: self.service_name.clone(), event },
        }
    }

    /// The heartbeat to send to the runtime.
    pub fn heartbeat(&self) -> (r: Outgoing)
        ensures
            r.target@ == self@.runtime_address,
            r.message matches Message::Heartbeat { service_name } && service_name@
                == self@.service_name,
    {
        Outgoing {
            target: self.runtime_socket_path.clone(),
            message: Message::Heartbeat { service_name: self.service_name.clone() },
        }
    }

    /// The shutdown notice to send to the runtime.
    pub fn shutdown(&self) -> (r: Outgoing)
        ensures
            r.target@ == self@.runtime_address,
            r.message matches Message::Shutdown { service_name } && service_name@
                == self@.service_name,
    {
        Outgoing {
            target: self.runtime_socket_path.clone(),
            message: Message::Shutdown { service_name: self.service_name.clone() },
        }
    }
}

} // verus!
