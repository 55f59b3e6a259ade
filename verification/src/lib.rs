//! A small event-driven service framework: services register with a runtime,
//! publish events, and receive the events they subscribed to; the runtime tracks
//! heartbeats and reports services whose heartbeat has stopped.
pub mod event;
pub mod text;
pub mod clock;
pub mod config;
pub mod registry;
pub mod message;
pub mod event_bus;
pub mod runtime;
pub mod service_api;
