use framework::config::{
    health_check_interval, heartbeat_interval, heartbeat_timeout, runtime_address, service_address,
    service_socket_path, TransportKind, DEFAULT_RUNTIME_SOCKET_PATH,
};
use framework::event::Event;
use framework::message::Message;
use framework::service_api::ServiceContext;
use std::time::Duration;

#[test]
fn socket_paths() {
    assert_eq!(service_socket_path("display"), "/tmp/vehicle-framework-display.sock");
    assert_eq!(service_socket_path(""), "/tmp/vehicle-framework-.sock");
    assert_eq!(DEFAULT_RUNTIME_SOCKET_PATH, "/tmp/vehicle-framework.sock");
}

#[test]
fn addresses_by_transport() {
    assert_eq!(runtime_address(TransportKind::Uds), "/tmp/vehicle-framework.sock");
    assert_eq!(runtime_address(TransportKind::Tcp), "127.0.0.1:9000");
    assert_eq!(service_address(TransportKind::Uds, "logger"), "/tmp/vehicle-framework-logger.sock");
    assert_eq!(service_address(TransportKind::Tcp, "display"), "127.0.0.1:9001");
    assert_eq!(service_address(TransportKind::Tcp, "logger"), "127.0.0.1:9002");
    assert_eq!(service_address(TransportKind::Tcp, "door"), "127.0.0.1:9010");
    assert_eq!(service_address(TransportKind::Tcp, "displays"), "127.0.0.1:9010");
}

#[test]
fn intervals() {
    assert_eq!(health_check_interval(), Duration::from_secs(3));
    assert_eq!(heartbeat_interval(), Duration::from_secs(5));
    assert_eq!(heartbeat_timeout(), Duration::from_secs(10));
}

#[test]
fn message_sender() {
    let register = Message::Register {
        service_name: "display".to_string(),
        subscriptions: vec![Event::DoorOpened],
        socket_path: "/d".to_string(),
    };
    assert_eq!(register.sender(), "display");
    assert_eq!(Message::Publish { service_name: "door".to_string(), event: Event::DoorOpened }.sender(), "door");
    assert_eq!(Message::Dispatch { event: Event::DoorOpened }.sender(), "runtime");
    assert_eq!(Message::Heartbeat { service_name: "logger".to_string() }.sender(), "logger");
    assert_eq!(Message::Shutdown { service_name: "logger".to_string() }.sender(), "logger");
}

#[test]
fn service_context_builds_messages() {
    let context = ServiceContext::new("display", TransportKind::Uds);
    assert_eq!(context.service_name(), "display");
    assert_eq!(context.service_socket_path(), "/tmp/vehicle-framework-display.sock");
    let out = context.register(vec![Event::DoorOpened]);
    assert_eq!(out.target, "/tmp/vehicle-framework.sock");
    assert_eq!(
        out.message,
        Message::Register {
            service_name: "display".to_string(),
            subscriptions: vec![Event::DoorOpened],
            socket_path: "/tmp/vehicle-framework-display.sock".to_string(),
        }
    );
    let out = context.clone().publish(Event::FuelLow);
    assert_eq!(out.message, Message::Publish { service_name: "display".to_string(), event: Event::FuelLow });
    assert_eq!(context.heartbeat().message, Message::Heartbeat { service_name: "display".to_string() });
    assert_eq!(context.shutdown().message, Message::Shutdown { service_name: "display".to_string() });

    let tcp = ServiceContext::new("logger", TransportKind::Tcp);
    assert_eq!(tcp.service_socket_path(), "127.0.0.1:9002");
    assert_eq!(tcp.heartbeat().target, "127.0.0.1:9000");
}
