use framework::event::Event;

#[test]
fn name_returns_correct_string() {
    assert_eq!(Event::DoorOpened.name(), "DoorOpened");
    assert_eq!(Event::FuelLow.name(), "FuelLow");
}

#[test]
fn same_kind_returns_true_for_same_event() {
    let event1 = Event::DoorOpened;
    let event2 = Event::DoorOpened;
    let event3 = Event::ServiceDown { service_name: "a".to_string() };

    assert!(event1.same_kind(&event2));
    assert!(event3.same_kind(&Event::ServiceDown { service_name: "b".to_string() }));
    assert!(!event1.same_kind(&event3));
}

#[test]
fn every_event_has_its_own_name() {
    let events = vec![
        Event::DoorOpened,
        Event::EngineStarted,
        Event::FuelLow,
        Event::ReverseGear,
        Event::ServiceDown { service_name: "x".to_string() },
        Event::Heartbeat,
        Event::Shutdown,
    ];
    let names = ["DoorOpened", "EngineStarted", "FuelLow", "ReverseGear", "ServiceDown", "Heartbeat", "Shutdown"];
    for (event, name) in events.iter().zip(names.iter()) {
        assert_eq!(event.name(), *name);
    }
    // same kind exactly when same name
    for a in &events {
        for b in &events {
            assert_eq!(a.same_kind(b), a.name() == b.name());
        }
    }
}

#[test]
fn same_kind_is_reflexive_symmetric_transitive_on_examples() {
    let a = Event::ServiceDown { service_name: "display".to_string() };
    let b = Event::ServiceDown { service_name: "*".to_string() };
    let c = Event::ServiceDown { service_name: "logger".to_string() };
    assert!(a.same_kind(&a));
    assert_eq!(a.same_kind(&b), b.same_kind(&a));
    assert!(a.same_kind(&b) && b.same_kind(&c) && a.same_kind(&c));
    assert!(!Event::Heartbeat.same_kind(&Event::Shutdown));
    assert!(!Event::Shutdown.same_kind(&Event::Heartbeat));
}

#[test]
fn clone_keeps_payload() {
    let a = Event::ServiceDown { service_name: "door".to_string() };
    assert_eq!(a.clone(), a);
}
