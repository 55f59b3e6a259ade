//! Fan-out of one event to the services subscribed to it.
use vstd::prelude::*;
use crate::event::Event;
use crate::message::Message;
use crate::registry::{records, ServiceInfo, ServiceRecord};

verus! {

/// One delivery: the message to send to a subscriber's socket.
#[derive(Debug)]
pub struct Dispatch {
    /// The subscriber's name.
    pub target: String,
    /// Where the subscriber listens.
    pub socket_path: String,
    pub message: Message,
}

/// The mathematical content of a [`Dispatch`].
pub struct DispatchRecord {
    pub target: Seq<char>,
    pub socket_path: Seq<char>,
    pub message: Message,
}

impl View for Dispatch {
    type V = DispatchRecord;

    open spec fn view(&self) -> DispatchRecord {
        DispatchRecord {
            target: self.target@,
            socket_path: self.socket_path@,
            message: self.message,
        }
    }
}

/// The records of a sequence of deliveries, in order.
pub open spec fn dispatch_records(v: Seq<Dispatch>) -> Seq<DispatchRecord> {
    v.map_values(|d: Dispatch| d@)
}

/// The deliveries of `event` to `subscribers`: one `Dispatch` message to each,
/// in order.
pub open spec fn dispatch_plan(subscribers: Seq<ServiceRecord>, event: Event) -> Seq<DispatchRecord> {
    subscribers.map_values(
        |r: ServiceRecord|
            DispatchRecord {
                target: r.name,
                socket_path: r.socket_path,
                message: Message::Dispatch { event },
            },
    )
}

/// The subscribers that one event goes to.
pub struct EventBus {
    subscribers: Vec<ServiceInfo>,
}

impl View for EventBus {
    type V = Seq<ServiceRecord>;

    closed spec fn view(&self) -> Seq<ServiceRecord> {
        records(self.subscribers@)
    }
}

impl EventBus {
    /// A bus that delivers to `subscribers`.
    pub fn new(subscribers: Vec<ServiceInfo>) -> (r: Self)
        ensures
            r@ == records(subscribers@),
    {
        EventBus { subscribers }
    }

    /// The deliveries that publishing `event` makes: a `Dispatch` of the event
    /// to every subscriber's socket, in order.
    pub fn publish(&self, event: Event) -> (r: Vec<Dispatch>)
        ensures
            dispatch_records(r@) == dispatch_plan(self@, event),
    {
        let mut result: Vec<Dispatch> = Vec::new();
        let mut i: usize = 0;
        while i < self.subscribers.len()
            invariant
                i <= self.subscribers@.len(),
                self@.len() == self.subscribers@.len(),
                dispatch_records(result@) == dispatch_plan(self@.take(i as int), event),
            decreases self.subscribers.len() - i,
        {
            let subscriber = &self.subscribers[i];
            assert(self@[i as int] == subscriber@);
            let dispatch = Dispatch {
                target: subscriber.name.clone(),
                socket_path: subscriber.socket_path.clone(),
                message: Message::Dispatch { event: event.clone() },
            };
            let ghost expected = DispatchRecord {
                target: self@[i as int].name,
                socket_path: self@[i as int].socket_path,
                message: Message::Dispatch { event },
            };
            assert(dispatch@ == expected);
            let ghost prev = result@;
            result.push(dispatch);
            assert(dispatch_records(result@) =~= dispatch_records(prev).push(expected));
            assert(dispatch_plan(self@.take(i + 1), event) =~= dispatch_plan(self@.take(i as int), event).push(expected));
            i = i + 1;
        }
        assert(self@.take(self.subscribers@.len() as int) =~= self@);
        result
    }
}

/// Publishing sends one `Dispatch` of the event itself to each subscriber, in
/// the subscribers' order, at the subscriber's own socket.
pub proof fn dispatch_plan_reaches_each_subscriber(subscribers: Seq<ServiceRecord>, event: Event)
    ensures
        dispatch_plan(subscribers, event).len() == subscribers.len(),
        forall|k: int|
            0 <= k < subscribers.len() ==> (#[trigger] dispatch_plan(subscribers, event)[k]).target
                == subscribers[k].name && dispatch_plan(subscribers, event)[k].socket_path
                == subscribers[k].socket_path && dispatch_plan(subscribers, event)[k].message
                == (Message::Dispatch { event }),
{
}

} // verus!
