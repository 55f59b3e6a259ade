use vstd::prelude::*;

verus! {

/// The events that services exchange through the runtime.
#[derive(Debug, PartialEq, Eq)]
pub enum Event {
    DoorOpened,
    EngineStarted,
    FuelLow,
    ReverseGear,
    ServiceDown { service_name: String },
    Heartbeat,
    Shutdown,
}

/// Two events are of the same kind when they are the same variant, whatever
/// their payload.
pub open spec fn same_kind_spec(a: Event, b: Event) -> bool {
    match (a, b) {
        (Event::DoorOpened, Event::DoorOpened) => true,
        (Event::EngineStarted, Event::EngineStarted) => true,
        (Event::FuelLow, Event::FuelLow) => true,
        (Event::ReverseGear, Event::ReverseGear) => true,
        (Event::ServiceDown { .. }, Event::ServiceDown { .. }) => true,
        (Event::Heartbeat, Event::Heartbeat) => true,
        (Event::Shutdown, Event::Shutdown) => true,
        _ => false,
    }
}

/// The name of an event's kind.
pub open spec fn event_name(e: Event) -> Seq<char> {
    match e {
        Event::DoorOpened => "DoorOpened"@,
        Event::EngineStarted => "EngineStarted"@,
        Event::FuelLow => "FuelLow"@,
        Event::ReverseGear => "ReverseGear"@,
        Event::ServiceDown { .. } => "ServiceDown"@,
        Event::Heartbeat => "Heartbeat"@,
        Event::Shutdown => "Shutdown"@,
    }
}

impl Clone for Event {
    fn clone(&self) -> (r: Self)
        ensures
            r == *self,
    {
        match self {
            Event::DoorOpened => Event::DoorOpened,
            Event::EngineStarted => Event::EngineStarted,
            Event::FuelLow => Event::FuelLow,
            Event::ReverseGear => Event::ReverseGear,
            Event::ServiceDown { service_name } => Event::ServiceDown {
                service_name: service_name.clone(),
            },
            Event::Heartbeat => Event::Heartbeat,
            Event::Shutdown => Event::Shutdown,
        }
    }
}

impl Event {
    /// The name of this event's kind, e.g. `"DoorOpened"`.
    pub fn name(&self) -> (r: &'static str)
        ensures
            r@ == event_name(*self),
    {
        match self {
            Event::DoorOpened => "DoorOpened",
            Event::EngineStarted => "EngineStarted",
            Event::FuelLow => "FuelLow",
            Event::ReverseGear => "ReverseGear",
            Event::ServiceDown { .. } => "ServiceDown",
            Event::Heartbeat => "Heartbeat",
            Event::Shutdown => "Shutdown",
        }
    }

    /// Whether `self` and `other` are the same kind of event; the payload of
    /// `ServiceDown` is not compared.
    pub fn same_kind(&self, other: &Event) -> (r: bool)
        ensures
            r == same_kind_spec(*self, *other),
    {
        match (self, other) {
            (Event::DoorOpened, Event::DoorOpened) => true,
            (Event::EngineStarted, Event::EngineStarted) => true,
            (Event::FuelLow, Event::FuelLow) => true,
            (Event::ReverseGear, Event::ReverseGear) => true,
            (Event::ServiceDown { .. }, Event::ServiceDown { .. }) => true,
            (Event::Heartbeat, Event::Heartbeat) => true,
            (Event::Shutdown, Event::Shutdown) => true,
            _ => false,
        }
    }
}

/// Being of the same kind is an equivalence relation on events.
pub proof fn same_kind_is_equivalence(a: Event, b: Event, c: Event)
    ensures
        same_kind_spec(a, a),
        same_kind_spec(a, b) == same_kind_spec(b, a),
        same_kind_spec(a, b) && same_kind_spec(b, c) ==> same_kind_spec(a, c),
{
}

/// Two events have the same name exactly when they are of the same kind.
pub proof fn name_identifies_kind(a: Event, b: Event)
    ensures
        same_kind_spec(a, b) <==> event_name(a) == event_name(b),
{
    reveal_strlit("DoorOpened");
    reveal_strlit("EngineStarted");
    reveal_strlit("FuelLow");
    reveal_strlit("ReverseGear");
    reveal_strlit("ServiceDown");
    reveal_strlit("Heartbeat");
    reveal_strlit("Shutdown");
    if event_name(a) == event_name(b) && !same_kind_spec(a, b) {
        assert(event_name(a)[0] == event_name(b)[0]);
        assert(event_name(a).len() == event_name(b).len());
    }
}

} // verus!
