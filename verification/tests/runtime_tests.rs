use framework::event::Event;
use framework::event_bus::EventBus;
use framework::message::Message;
use framework::registry::{RegisterResult, ServiceRegistry, ServiceStatus};
use framework::runtime::{Runtime, RuntimeAction};
use std::time::Duration;

fn register(runtime: &mut Runtime, name: &str, subscriptions: Vec<Event>) -> RuntimeAction {
    runtime.handle_message(Message::Register {
        service_name: name.to_string(),
        subscriptions,
        socket_path: format!("/tmp/{name}.sock"),
    })
}

#[test]
fn register_message_registers_then_updates() {
    let mut runtime = Runtime::new();
    match register(&mut runtime, "display", vec![Event::DoorOpened]) {
        RuntimeAction::Registered { service_name, result } => {
            assert_eq!(service_name, "display");
            assert_eq!(result, RegisterResult::New);
        }
        other => panic!("unexpected {other:?}"),
    }
    match register(&mut runtime, "display", vec![Event::FuelLow]) {
        RuntimeAction::Registered { result, .. } => assert_eq!(result, RegisterResult::Updated),
        other => panic!("unexpected {other:?}"),
    }
    assert_eq!(runtime.service_count(), 1);
}

#[test]
fn publish_dispatches_to_alive_subscribers_only() {
    let mut runtime = Runtime::new();
    register(&mut runtime, "display", vec![Event::DoorOpened]);
    register(&mut runtime, "logger", vec![Event::DoorOpened, Event::ServiceDown { service_name: "*".to_string() }]);
    register(&mut runtime, "door", vec![]);
    let action = runtime.handle_message(Message::Publish {
        service_name: "door".to_string(),
        event: Event::DoorOpened,
    });
    match action {
        RuntimeAction::Published { service_name, event, dispatches } => {
            assert_eq!(service_name, "door");
            assert_eq!(event, Event::DoorOpened);
            assert_eq!(dispatches.len(), 2);
            assert_eq!(dispatches[0].target, "display");
            assert_eq!(dispatches[0].socket_path, "/tmp/display.sock");
            assert_eq!(dispatches[0].message, Message::Dispatch { event: Event::DoorOpened });
            assert_eq!(dispatches[1].target, "logger");
            assert_eq!(dispatches[1].socket_path, "/tmp/logger.sock");
        }
        other => panic!("unexpected {other:?}"),
    }
    let dispatches = runtime.publish(Event::EngineStarted);
    assert!(dispatches.is_empty());
}

#[test]
fn heartbeat_and_shutdown_messages() {
    let mut runtime = Runtime::new();
    register(&mut runtime, "display", vec![Event::DoorOpened]);
    match runtime.handle_message(Message::Heartbeat { service_name: "display".to_string() }) {
        RuntimeAction::HeartbeatUpdated { service_name } => assert_eq!(service_name, "display"),
        other => panic!("unexpected {other:?}"),
    }
    match runtime.handle_message(Message::Heartbeat { service_name: "ghost".to_string() }) {
        RuntimeAction::HeartbeatFromUnknown { service_name } => assert_eq!(service_name, "ghost"),
        other => panic!("unexpected {other:?}"),
    }
    match runtime.handle_message(Message::Shutdown { service_name: "display".to_string() }) {
        RuntimeAction::Unregistered { service } => {
            assert_eq!(service.name, "display");
            assert_eq!(service.socket_path, "/tmp/display.sock");
        }
        other => panic!("unexpected {other:?}"),
    }
    assert_eq!(runtime.service_count(), 0);
    match runtime.handle_message(Message::Shutdown { service_name: "display".to_string() }) {
        RuntimeAction::ShutdownFromUnknown { service_name } => assert_eq!(service_name, "display"),
        other => panic!("unexpected {other:?}"),
    }
}

#[test]
fn dispatch_message_is_ignored() {
    let mut runtime = Runtime::new();
    register(&mut runtime, "display", vec![Event::DoorOpened]);
    match runtime.handle_message(Message::Dispatch { event: Event::FuelLow }) {
        RuntimeAction::IgnoredDispatch { event } => assert_eq!(event, Event::FuelLow),
        other => panic!("unexpected {other:?}"),
    }
    assert_eq!(runtime.service_count(), 1);
    assert_eq!(runtime.services()[0].status, ServiceStatus::Alive);
}

#[test]
fn check_health_reports_service_down_to_its_subscribers() {
    let mut runtime = Runtime::new();
    register(&mut runtime, "display", vec![Event::DoorOpened]);
    register(&mut runtime, "logger", vec![Event::ServiceDown { service_name: "*".to_string() }]);
    let notices = runtime.check_health(Duration::from_secs(0));
    assert_eq!(notices.len(), 2);
    assert_eq!(notices[0].service.name, "display");
    assert_eq!(notices[0].event, Event::ServiceDown { service_name: "display".to_string() });
    // every service is down by now, so nobody receives the notice
    assert!(notices[0].dispatches.is_empty());
    assert!(notices[1].dispatches.is_empty());
    // a second check reports nothing new
    assert!(runtime.check_health(Duration::from_secs(0)).is_empty());
}

#[test]
fn check_health_notice_reaches_live_logger() {
    let mut runtime = Runtime::new();
    register(&mut runtime, "display", vec![Event::DoorOpened]);
    // the display goes down, then the logger comes up
    assert_eq!(runtime.check_health(Duration::from_secs(0)).len(), 1);
    register(&mut runtime, "logger", vec![Event::ServiceDown { service_name: "*".to_string() }]);
    let notices = runtime.check_health(Duration::from_secs(3600));
    assert!(notices.is_empty());
    let dispatches = runtime.publish(Event::ServiceDown { service_name: "display".to_string() });
    assert_eq!(dispatches.len(), 1);
    assert_eq!(dispatches[0].target, "logger");
    assert_eq!(
        dispatches[0].message,
        Message::Dispatch { event: Event::ServiceDown { service_name: "display".to_string() } }
    );
}

#[test]
fn event_bus_delivers_in_order() {
    let mut registry = ServiceRegistry::new();
    registry.register("a", vec![Event::FuelLow], "/a");
    registry.register("b", vec![Event::FuelLow], "/b");
    let bus = EventBus::new(registry.subscribers_for(&Event::FuelLow));
    let dispatches = bus.publish(Event::FuelLow);
    assert_eq!(dispatches.len(), 2);
    assert_eq!(dispatches[0].target, "a");
    assert_eq!(dispatches[0].socket_path, "/a");
    assert_eq!(dispatches[1].target, "b");
    assert_eq!(dispatches[1].message, Message::Dispatch { event: Event::FuelLow });
    assert!(EventBus::new(vec![]).publish(Event::FuelLow).is_empty());
}

#[test]
fn service_lines_list_every_service() {
    let mut runtime = Runtime::new();
    register(&mut runtime, "display", vec![Event::DoorOpened]);
    register(&mut runtime, "door", vec![]);
    let lines = runtime.service_lines();
    assert_eq!(lines.len(), 2);
    assert_eq!(lines[0], "- display [DoorOpened] at /tmp/display.sock (Alive)");
    assert_eq!(lines[1], "- door [] at /tmp/door.sock (Alive)");
}
