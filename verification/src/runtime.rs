//! The runtime's decisions: what each incoming message does to the registry and
//! which deliveries it calls for. Sending, printing and locking are the caller's.
use vstd::prelude::*;
use std::time::{Duration, Instant};
use crate::clock::duration_nanos;
use crate::event::Event;
use crate::event_bus::{dispatch_plan, dispatch_records, Dispatch, EventBus};
use crate::message::Message;
use crate::registry::{
    expiry_flags, has_service, heartbeat_marked, index_of, marked_down, names_distinct, records,
    register_outcome, registered, service_line, subscribers, timed_out, unregistered, RegisterResult, ServiceInfo,
    ServiceRecord, ServiceRegistry,
};

verus! {

/// What the runtime did with a message, and what is left to do about it.
#[derive(Debug)]
pub enum RuntimeAction {
    /// A service registered; `result` tells how.
    Registered { service_name: String, result: RegisterResult },
    /// A service published `event`; `dispatches` are the deliveries to make.
    Published { service_name: String, event: Event, dispatches: Vec<Dispatch> },
    /// A dispatch reached the runtime, which does not take deliveries.
    IgnoredDispatch { event: Event },
    /// A registered service's heartbeat was recorded.
    HeartbeatUpdated { service_name: String },
    /// A heartbeat came from a name that is not registered.
    HeartbeatFromUnknown { service_name: String },
    /// A service left; this is its last entry.
    Unregistered { service: ServiceInfo },
    /// A shutdown came from a name that is not registered.
    ShutdownFromUnknown { service_name: String },
}

/// A service that a health check found down, the `ServiceDown` event about it,
/// and the deliveries of that event.
#[derive(Debug)]
pub struct ServiceDownNotice {
    pub service: ServiceInfo,
    pub event: Event,
    pub dispatches: Vec<Dispatch>,
}

/// The `ServiceDown` event about a service.
pub open spec fn down_event(service: ServiceInfo) -> Event {
    Event::ServiceDown { service_name: service.name }
}

/// The runtime: a registry of services and the rules for each message.
pub struct Runtime {
    registry: ServiceRegistry,
}

impl View for Runtime {
    type V = Seq<ServiceRecord>;

    closed spec fn view(&self) -> Seq<ServiceRecord> {
        self.registry@
    }
}

impl Runtime {
    /// The runtime's invariant: service names are unique.
    pub open spec fn wf(&self) -> bool {
        names_distinct(self@)
    }

    /// A runtime with no services.
    pub fn new() -> (r: Self)
        ensures
            r.wf(),
            r@ == Seq::<ServiceRecord>::empty(),
    {
        Runtime { registry: ServiceRegistry::new() }
    }

    /// Registers a service, stamped with the current time.
    pub fn register_service(&mut self, name: &str, subscriptions: Vec<Event>, socket_path: &str) -> (r:
        RegisterResult)
        ensures
            final(self).wf(),
            exists|at: Instant|
                final(self)@ == #[trigger] registered(
                    old(self)@,
                    name@,
                    subscriptions@,
                    socket_path@,
                    at,
                ),
            r == register_outcome(old(self)@, name@),
    {
        self.registry.register(name, subscriptions, socket_path)
    }

    /// The deliveries that publishing `event` calls for: one to each live
    /// service subscribed to its kind.
    pub fn publish(&self, event: Event) -> (r: Vec<Dispatch>)
        ensures
            dispatch_records(r@) == dispatch_plan(subscribers(self@, event), event),
    {
        let subscribers = self.registry.subscribers_for(&event);
        let event_bus = EventBus::new(subscribers);
        event_bus.publish(event)
    }

    /// How many services are registered.
    pub fn service_count(&self) -> (r: usize)
        ensures
            r == self@.len(),
    {
        self.registry.service_count()
    }

    /// The registered services, in registration order.
    pub fn services(&self) -> (r: &[ServiceInfo])
        ensures
            records(r@) == self@,
    {
        self.registry.services()
    }

    /// The listing of the registered services, one line each, in registration
    /// order.
    pub fn service_lines(&self) -> (r: Vec<String>)
        ensures
            r@.len() == self@.len(),
            forall|k: int| 0 <= k < r@.len() ==> #[trigger] r@[k]@ == service_line(self@[k]),
    {
        let services = self.registry.services();
        let mut lines: Vec<String> = Vec::new();
        let mut i: usize = 0;
        while i < services.len()
            invariant
                i <= services@.len(),
                records(services@) == self@,
                lines@.len() == i,
                forall|k: int| 0 <= k < i ==> #[trigger] lines@[k]@ == service_line(self@[k]),
            decreases services.len() - i,
        {
            assert(self@[i as int] == services@[i as int]@);
            lines.push(services[i].summary_line());
            i = i + 1;
        }
        lines
    }

    /// Records a heartbeat from `name` at the current time; returns whether such
    /// a service is registered.
    pub fn mark_heartbeat(&mut self, name: &str) -> (r: bool)
        ensures
            final(self).wf(),
            exists|at: Instant| final(self)@ == #[trigger] heartbeat_marked(old(self)@, name@, at),
            r == has_service(old(self)@, name@),
    {
        let ghost old_s = self@;
        let r = self.registry.mark_heartbeat(name);
        proof {
            let at = choose|at: Instant| #[trigger] heartbeat_marked(old_s, name@, at) == self.registry@;
            assert(self@ == heartbeat_marked(old_s, name@, at));
        }
        r
    }

    /// Removes the service `name` and returns its entry, or `None` where there
    /// is none.
    pub fn unregister_service(&mut self, name: &str) -> (r: Option<ServiceInfo>)
        ensures
            final(self).wf(),
            final(self)@ == unregistered(old(self)@, name@),
            match r {
                Some(service) => has_service(old(self)@, name@) && service@ == old(self)@[index_of(
                    old(self)@,
                    name@,
                )],
                None => !has_service(old(self)@, name@),
            },
    {
        self.registry.unregister(name)
    }

    /// Reads the clock once, marks down every live service whose last heartbeat
    /// is more than `timeout` before that reading, and for each, in order, the `ServiceDown` event about it and
    /// its deliveries to the services subscribed to that kind, as the registry
    /// stands after the check.
    pub fn check_health(&mut self, timeout: Duration) -> (r: Vec<ServiceDownNotice>)
        ensures
            final(self).wf(),
            exists|at: Instant|
                final(self)@ == marked_down(
                    old(self)@,
                    #[trigger] expiry_flags(old(self)@, at, duration_nanos(timeout)),
                ) && r@.len() == timed_out(
                    old(self)@,
                    expiry_flags(old(self)@, at, duration_nanos(timeout)),
                ).len() && forall|k: int|
                    0 <= k < r@.len() ==> #[trigger] r@[k].service@ == timed_out(
                        old(self)@,
                        expiry_flags(old(self)@, at, duration_nanos(timeout)),
                    )[k],
            forall|k: int|
                0 <= k < r@.len() ==> #[trigger] r@[k].event == down_event(r@[k].service)
                    && dispatch_records(r@[k].dispatches@) == dispatch_plan(
                    subscribers(final(self)@, r@[k].event),
                    r@[k].event,
                ),
    {
        let ghost old_s = self@;
        let down = self.registry.mark_timed_out_services_down(timeout);
        let ghost at = choose|at: Instant|
            self@ == marked_down(
                old_s,
                #[trigger] expiry_flags(old_s, at, duration_nanos(timeout)),
            ) && records(down@) == timed_out(old_s, expiry_flags(old_s, at, duration_nanos(timeout)));
        let ghost gone = timed_out(old_s, expiry_flags(old_s, at, duration_nanos(timeout)));
        let mut notices: Vec<ServiceDownNotice> = Vec::new();
        let mut i: usize = 0;
        while i < down.len()
            invariant
                i <= down@.len(),
                records(down@) == gone,
                notices@.len() == i,
                forall|k: int| 0 <= k < i ==> #[trigger] notices@[k].service@ == gone[k],
                forall|k: int|
                    0 <= k < i ==> #[trigger] notices@[k].event == down_event(notices@[k].service)
                        && dispatch_records(notices@[k].dispatches@) == dispatch_plan(
                        subscribers(self@, notices@[k].event),
                        notices@[k].event,
                    ),
            decreases down.len() - i,
        {
            let service = down[i].clone();
            assert(gone[i as int] == down@[i as int]@);
            let event = Event::ServiceDown { service_name: service.name.clone() };
            let dispatches = self.publish(event.clone());
            notices.push(ServiceDownNotice { service, event, dispatches });
            i = i + 1;
        }
        notices
    }

    /// Applies one message to the runtime and says what it did: a `Register`
    /// registers the sender, a `Publish` calls for delivering its event to the
    /// subscribers, a `Dispatch` is ignored, a `Heartbeat` refreshes the sender,
    /// and a `Shutdown` unregisters it.
    pub fn handle_message(&mut self, message: Message) -> (r: RuntimeAction)
        ensures
            final(self).wf(),
            match message {
                Message::Register { service_name, subscriptions, socket_path } => {
                    &&& exists|at: Instant|
                        final(self)@ == #[trigger] registered(
                            old(self)@,
                            service_name@,
                            subscriptions@,
                            socket_path@,
                            at,
                        )
                    &&& r == RuntimeAction::Registered {
                        service_name,
                        result: register_outcome(old(self)@, service_name@),
                    }
                },
                Message::Publish { service_name, event } => {
                    &&& final(self)@ == old(self)@
                    &&& r matches RuntimeAction::Published { service_name: from, event: published, dispatches }
                        && from == service_name && published == event && dispatch_records(dispatches@)
                        == dispatch_plan(subscribers(old(self)@, event), event)
                },
                Message::Dispatch { event } => {
                    &&& final(self)@ == old(self)@
                    &&& r == RuntimeAction::IgnoredDispatch { event }
                },
                Message::Heartbeat { service_name } => {
                    &&& exists|at: Instant|
                        final(self)@ == #[trigger] heartbeat_marked(old(self)@, service_name@, at)
                    &&& r == if has_service(old(self)@, service_name@) {
                        RuntimeAction::HeartbeatUpdated { service_name }
                    } else {
                        RuntimeAction::HeartbeatFromUnknown { service_name }
                    }
                },
                Message::Shutdown { service_name } => {
                    &&& final(self)@ == unregistered(old(self)@, service_name@)
                    &&& if has_service(old(self)@, service_name@) {
                        r matches RuntimeAction::Unregistered { service } && service@ == old(
                            self,
                        )@[index_of(old(self)@, service_name@)]
                    } else {
                        r == RuntimeAction::ShutdownFromUnknown { service_name }
                    }
                },
            },
    {
        proof {
            use_type_invariant(&self.registry);
        }
        match message {
            Message::Register { service_name, subscriptions, socket_path } => {
                let result = self.register_service(&service_name, subscriptions, &socket_path);
                RuntimeAction::Registered { service_name, result }
            },
            Message::Publish { service_name, event } => {
                let dispatches = self.publish(event.clone());
                RuntimeAction::Published { service_name, event, dispatches }
            },
            Message::Dispatch { event } => RuntimeAction::IgnoredDispatch { event },
            Message::Heartbeat { service_name } => {
                if self.mark_heartbeat(&service_name) {
                    RuntimeAction::HeartbeatUpdated { service_name }
                } else {
                    RuntimeAction::HeartbeatFromUnknown { service_name }
                }
            },
            Message::Shutdown { service_name } => {
                match self.unregister_service(&service_name) {
                    Some(service) => RuntimeAction::Unregistered { service },
                    None => RuntimeAction::ShutdownFromUnknown { service_name },
                }
            },
        }
    }
}

} // verus!
