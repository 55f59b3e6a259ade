# framework

An event-driven service framework: services register with a runtime, publish
events, and receive the events they subscribed to; the runtime tracks heartbeats
and reports services whose heartbeat has stopped.

- `src/` is the library, verified with Verus: events and messages, the service
  registry and its rules, the fan-out of events to subscribers, the runtime's
  handling of each message, and the addresses and messages of a service.
- `app/` is the program around it: sockets, JSON encoding, threads, the
  environment and printing. `app launcher|door|display|logger` runs the runtime
  or one of the example services.
- `tests/` exercise the library.
