//! Where the runtime and the services listen, and the heartbeat timing.
use vstd::prelude::*;
use vstd::string::StringExecFns;
use std::time::Duration;
use crate::clock::{duration_nanos, from_secs};
use crate::text::{decimal, push_decimal, str_eq};

verus! {

/// The Unix socket on which the runtime listens.
pub const DEFAULT_RUNTIME_SOCKET_PATH: &'static str = "/tmp/vehicle-framework.sock";

/// How messages travel between processes.
#[derive(Debug, Clone, Copy, PartialEq, Eq, Structural)]
pub enum TransportKind {
    Uds,
    Tcp,
}

/// The Unix socket path of a service.
pub open spec fn service_socket_path_spec(service_name: Seq<char>) -> Seq<char> {
    "/tmp/vehicle-framework-"@ + service_name + ".sock"@
}

/// The TCP port of a service: fixed for the display and the logger, shared by
/// every other service.
pub open spec fn tcp_port_spec(service_name: Seq<char>) -> nat {
    if service_name == "display"@ {
        9001
    } else if service_name == "logger"@ {
        9002
    } else {
        9010
    }
}

/// The address of the runtime under a transport.
pub open spec fn runtime_address_spec(kind: TransportKind) -> Seq<char> {
    match kind {
        TransportKind::Uds => DEFAULT_RUNTIME_SOCKET_PATH@,
        TransportKind::Tcp => "127.0.0.1:9000"@,
    }
}

/// The address of a service under a transport.
pub open spec fn service_address_spec(kind: TransportKind, service_name: Seq<char>) -> Seq<char> {
    match kind {
        TransportKind::Uds => service_socket_path_spec(service_name),
        TransportKind::Tcp => "127.0.0.1:"@ + decimal(tcp_port_spec(service_name)),
    }
}

/// The Unix socket path on which the service `service_name` listens.
pub fn service_socket_path(service_name: &str) -> (r: String)
    ensures
        r@ == service_socket_path_spec(service_name@),
{
    let mut path = String::from_str("/tmp/vehicle-framework-");
    path.append(service_name);
    path.append(".sock");
    path
}

fn tcp_port(service_name: &str) -> (r: u16)
    ensures
        r as nat == tcp_port_spec(service_name@),
{
    if str_eq(service_name, "display") {
        9001
    } else if str_eq(service_name, "logger") {
        9002
    } else {
        9010
    }
}

/// The address of the runtime under the transport `kind`.
pub fn runtime_address(kind: TransportKind) -> (r: String)
    ensures
        r@ == runtime_address_spec(kind),
{
    match kind {
        TransportKind::Uds => String::from_str(DEFAULT_RUNTIME_SOCKET_PATH),
        TransportKind::Tcp => String::from_str("127.0.0.1:9000"),
    }
}

/// The address of the service `service_name` under the transport `kind`.
pub fn service_address(kind: TransportKind, service_name: &str) -> (r: String)
    ensures
        r@ == service_address_spec(kind, service_name@),
{
    match kind {
        TransportKind::Uds => service_socket_path(service_name),
        TransportKind::Tcp => {
            let mut address = String::from_str("127.0.0.1:");
            push_decimal(&mut address, tcp_port(service_name));
            address
        },
    }
}

/// How often the runtime checks service health: three seconds.
pub fn health_check_interval() -> (d: Duration)
    ensures
        duration_nanos(d) == 3_000_000_000,
{
    from_secs(3)
}

/// How often a service sends a heartbeat: five seconds.
pub fn heartbeat_interval() -> (d: Duration)
    ensures
        duration_nanos(d) == 5_000_000_000,
{
    from_secs(5)
}

/// How long a service may stay silent before it counts as down: ten seconds.
pub fn heartbeat_timeout() -> (d: Duration)
    ensures
        duration_nanos(d) == 10_000_000_000,
{
    from_secs(10)
}

} // verus!
