use framework::event::Event;
use framework::registry::{RegisterResult, ServiceRegistry, ServiceStatus};
use std::time::{Duration, Instant};

#[test]
fn register_returns_new_then_updated() {
    let mut registry = ServiceRegistry::new();

    let result1 = registry.register("door", vec![Event::DoorOpened], "/tmp/door.sock");
    assert_eq!(result1, RegisterResult::New);

    let result2 = registry.register(
        "door",
        vec![Event::DoorOpened, Event::EngineStarted],
        "/tmp/door.sock",
    );
    assert_eq!(result2, RegisterResult::Updated);
}

#[test]
fn register_returns_recovered_after_down() {
    let mut registry = ServiceRegistry::new();

    let _result1 = registry.register("door", vec![Event::DoorOpened], "/tmp/door.sock");

    // Mark the service as down
    registry.mark_timed_out_services_down(Duration::from_secs(0));

    let result2 = registry.register(
        "door",
        vec![Event::DoorOpened, Event::EngineStarted],
        "/tmp/door.sock",
    );
    assert_eq!(result2, RegisterResult::Recovered);
}

#[test]
fn subscribers_for_returns_correct_services() {
    let mut registry = ServiceRegistry::new();

    registry.register("display", vec![Event::DoorOpened], "/tmp/display.sock");

    registry.register("door", vec![], "/tmp/door.sock");

    let sub = registry.subscribers_for(&Event::DoorOpened);
    assert_eq!(sub.len(), 1);
    assert_eq!(sub[0].name, "display");
}

#[test]
fn subscribers_for_returns_empty_for_down_services() {
    let mut registry = ServiceRegistry::new();

    registry.register("display", vec![Event::DoorOpened], "/tmp/display.sock");

    registry.mark_timed_out_services_down(Duration::from_secs(0));

    let sub = registry.subscribers_for(&Event::DoorOpened);
    assert_eq!(sub.len(), 0);
}

#[test]
fn mark_timed_out_services_down_marks_correct_services_as_down() {
    let mut registry = ServiceRegistry::new();

    registry.register("display", vec![Event::DoorOpened], "/tmp/display.sock");

    let timed_out = registry.mark_timed_out_services_down(Duration::from_secs(0));
    assert_eq!(timed_out.len(), 1);

    let timed_out = registry.mark_timed_out_services_down(Duration::from_secs(0));
    assert_eq!(timed_out.len(), 0);
}

#[test]
fn register_keeps_names_unique_and_replaces_fields() {
    let mut registry = ServiceRegistry::new();
    let t = Instant::now();
    assert_eq!(registry.register_at("a", vec![Event::FuelLow], "/a1", t), RegisterResult::New);
    assert_eq!(registry.register_at("b", vec![], "/b", t), RegisterResult::New);
    assert_eq!(registry.register_at("a", vec![Event::ReverseGear], "/a2", t), RegisterResult::Updated);
    assert_eq!(registry.service_count(), 2);
    let services = registry.services();
    assert_eq!(services[0].name, "a");
    assert_eq!(services[0].socket_path, "/a2");
    assert_eq!(services[0].subscriptions, vec![Event::ReverseGear]);
    assert_eq!(services[1].name, "b");
}

#[test]
fn register_then_unregister_restores_the_registry() {
    let mut registry = ServiceRegistry::new();
    registry.register("a", vec![Event::FuelLow], "/a");
    registry.register("b", vec![Event::DoorOpened], "/b");
    let removed = registry.unregister("b").expect("b is registered");
    assert_eq!(removed.name, "b");
    assert_eq!(removed.socket_path, "/b");
    assert_eq!(registry.service_count(), 1);
    assert_eq!(registry.services()[0].name, "a");
    assert!(registry.unregister("b").is_none());
    assert!(registry.unregister("nobody").is_none());
    assert_eq!(registry.service_count(), 1);
}

#[test]
fn mark_services_down_follows_the_flags() {
    let mut registry = ServiceRegistry::new();
    registry.register("a", vec![Event::DoorOpened], "/a");
    registry.register("b", vec![Event::DoorOpened], "/b");
    registry.register("c", vec![Event::DoorOpened], "/c");
    let down = registry.mark_services_down(&vec![true, false, true]);
    assert_eq!(down.len(), 2);
    assert_eq!(down[0].name, "a");
    assert_eq!(down[1].name, "c");
    assert_eq!(down[0].status, ServiceStatus::Down);
    let services = registry.services();
    assert_eq!(services[0].status, ServiceStatus::Down);
    assert_eq!(services[1].status, ServiceStatus::Alive);
    assert_eq!(services[2].status, ServiceStatus::Down);
    // reported down only once
    let again = registry.mark_services_down(&vec![true, true, true]);
    assert_eq!(again.len(), 1);
    assert_eq!(again[0].name, "b");
    // down services receive nothing
    assert_eq!(registry.subscribers_for(&Event::DoorOpened).len(), 0);
}

#[test]
fn heartbeat_revives_a_down_service() {
    let mut registry = ServiceRegistry::new();
    registry.register("display", vec![Event::DoorOpened], "/d");
    registry.mark_services_down(&vec![true]);
    assert_eq!(registry.subscribers_for(&Event::DoorOpened).len(), 0);
    assert!(registry.mark_heartbeat("display"));
    assert!(!registry.mark_heartbeat("ghost"));
    assert_eq!(registry.services()[0].status, ServiceStatus::Alive);
    assert_eq!(registry.subscribers_for(&Event::DoorOpened).len(), 1);
}

#[test]
fn long_timeout_marks_nothing_down() {
    let mut registry = ServiceRegistry::new();
    registry.register("display", vec![Event::DoorOpened], "/d");
    let down = registry.mark_timed_out_services_down(Duration::from_secs(3600));
    assert_eq!(down.len(), 0);
    assert_eq!(registry.services()[0].status, ServiceStatus::Alive);
}

#[test]
fn subscribers_keep_order_and_ignore_payload() {
    let mut registry = ServiceRegistry::new();
    registry.register("logger", vec![Event::DoorOpened, Event::ServiceDown { service_name: "*".to_string() }], "/l");
    registry.register("display", vec![Event::DoorOpened], "/d");
    registry.register("door", vec![], "/door");
    let subs = registry.subscribers_for(&Event::ServiceDown { service_name: "display".to_string() });
    assert_eq!(subs.len(), 1);
    assert_eq!(subs[0].name, "logger");
    let subs = registry.subscribers_for(&Event::DoorOpened);
    assert_eq!(subs.len(), 2);
    assert_eq!(subs[0].name, "logger");
    assert_eq!(subs[1].name, "display");
    assert!(registry.subscribers_for(&Event::FuelLow).is_empty());
}

#[test]
fn cloned_registry_is_independent() {
    let mut registry = ServiceRegistry::new();
    registry.register("a", vec![Event::FuelLow], "/a");
    let copy = registry.clone();
    registry.unregister("a");
    assert_eq!(registry.service_count(), 0);
    assert_eq!(copy.service_count(), 1);
    assert_eq!(copy.services()[0].name, "a");
    assert_eq!(copy.services()[0].subscriptions, vec![Event::FuelLow]);
}

#[test]
fn summary_line_lists_name_subscriptions_path_and_status() {
    let mut registry = ServiceRegistry::new();
    registry.register("logger", vec![Event::DoorOpened, Event::ServiceDown { service_name: "*".to_string() }], "/tmp/l.sock");
    registry.register("door", vec![], "/tmp/door.sock");
    assert_eq!(
        registry.services()[0].summary_line(),
        "- logger [DoorOpened, ServiceDown] at /tmp/l.sock (Alive)"
    );
    registry.mark_services_down(&vec![false, true]);
    assert_eq!(registry.services()[1].summary_line(), "- door [] at /tmp/door.sock (Down)");
}

#[test]
fn longer_timeout_marks_no_more_services() {
    let mut short = ServiceRegistry::new();
    short.register("a", vec![Event::DoorOpened], "/a");
    short.register("b", vec![Event::DoorOpened], "/b");
    let mut long = short.clone();
    let down_long = long.mark_timed_out_services_down(Duration::from_secs(3600));
    let down_short = short.mark_timed_out_services_down(Duration::from_secs(0));
    assert!(down_long.len() <= down_short.len());
    for service in &down_long {
        assert!(down_short.iter().any(|s| s.name == service.name));
    }
    // services already down are reported by neither
    assert!(short.mark_timed_out_services_down(Duration::from_secs(0)).is_empty());
}

#[test]
fn service_count_follows_registrations_and_removals() {
    let mut registry = ServiceRegistry::new();
    registry.register("a", vec![], "/a");
    registry.register("b", vec![], "/b");
    registry.register("a", vec![Event::FuelLow], "/a2");
    assert_eq!(registry.service_count(), 2);
    registry.mark_heartbeat("a");
    registry.mark_timed_out_services_down(Duration::from_secs(0));
    assert_eq!(registry.service_count(), 2);
    registry.unregister("a");
    assert_eq!(registry.service_count(), 1);
    registry.unregister("a");
    assert_eq!(registry.service_count(), 1);
    registry.register("c", vec![], "/c");
    assert_eq!(registry.service_count(), 2);
}
