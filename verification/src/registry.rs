//! The runtime's record of which services exist, what they subscribe to, where
//! they listen, and whether their heartbeat is still coming.
use vstd::prelude::*;
use vstd::string::StringExecFns;
use std::time::{Duration, Instant};
use crate::clock::{duration_nanos, instant_since, nanos_of, now, since};
use crate::event::{event_name, same_kind_spec, Event};
use crate::text::str_eq;

verus! {

/// Whether a service is still sending heartbeats.
#[derive(Debug, Clone, Copy, PartialEq, Eq, Structural)]
pub enum ServiceStatus {
    Alive,
    Down,
}

/// What a registration did: add a new service, refresh a live one, or bring a
/// service that had been marked down back.
#[derive(Debug, Clone, Copy, PartialEq, Eq, Structural)]
pub enum RegisterResult {
    New,
    Updated,
    Recovered,
}

/// The mathematical content of a [`ServiceInfo`].
pub struct ServiceRecord {
    pub name: Seq<char>,
    pub subscriptions: Seq<Event>,
    pub socket_path: Seq<char>,
    pub last_heartbeat: Instant,
    pub status: ServiceStatus,
}

/// A registered service.
#[derive(Debug)]
pub struct ServiceInfo {
    pub name: String,
    pub subscriptions: Vec<Event>,
    pub socket_path: String,
    pub last_heartbeat: Instant,
    pub status: ServiceStatus,
}

impl View for ServiceInfo {
    type V = ServiceRecord;

    open spec fn view(&self) -> ServiceRecord {
        ServiceRecord {
            name: self.name@,
            subscriptions: self.subscriptions@,
            socket_path: self.socket_path@,
            last_heartbeat: self.last_heartbeat,
            status: self.status,
        }
    }
}

/// The records of a sequence of services, in order.
pub open spec fn records(v: Seq<ServiceInfo>) -> Seq<ServiceRecord> {
    v.map_values(|s: ServiceInfo| s@)
}

fn clone_events(v: &Vec<Event>) -> (r: Vec<Event>)
    ensures
        r@ == v@,
{
    let mut r: Vec<Event> = Vec::new();
    let mut i: usize = 0;
    while i < v.len()
        invariant
            i <= v.len(),
            r@ == v@.take(i as int),
        decreases v.len() - i,
    {
        r.push(v[i].clone());
        i = i + 1;
        assert(r@ =~= v@.take(i as int));
    }
    assert(v@.take(v.len() as int) =~= v@);
    r
}

impl Clone for ServiceInfo {
    fn clone(&self) -> (r: Self)
        ensures
            r@ == self@,
    {
        ServiceInfo {
            name: self.name.clone(),
            subscriptions: clone_events(&self.subscriptions),
            socket_path: self.socket_path.clone(),
            last_heartbeat: self.last_heartbeat,
            status: self.status,
        }
    }
}

/// No two services share a name.
pub open spec fn names_distinct(s: Seq<ServiceRecord>) -> bool {
    forall|i: int, j: int|
        0 <= i < s.len() && 0 <= j < s.len() && i != j ==> #[trigger] s[i].name != #[trigger] s[j].name
}

/// Whether a service named `name` is registered.
pub open spec fn has_service(s: Seq<ServiceRecord>, name: Seq<char>) -> bool {
    exists|i: int| 0 <= i < s.len() && #[trigger] s[i].name == name
}

/// The position of the service named `name`, or -1 where there is none.
pub open spec fn index_of(s: Seq<ServiceRecord>, name: Seq<char>) -> int {
    if has_service(s, name) {
        choose|i: int| 0 <= i < s.len() && #[trigger] s[i].name == name
    } else {
        -1
    }
}

/// A live service as registration leaves it.
pub open spec fn fresh_record(
    name: Seq<char>,
    subscriptions: Seq<Event>,
    socket_path: Seq<char>,
    at: Instant,
) -> ServiceRecord {
    ServiceRecord {
        name,
        subscriptions,
        socket_path,
        last_heartbeat: at,
        status: ServiceStatus::Alive,
    }
}

/// The services after registering `name` at time `at`: an existing entry is
/// replaced in place, otherwise the new one goes at the end.
pub open spec fn registered(
    s: Seq<ServiceRecord>,
    name: Seq<char>,
    subscriptions: Seq<Event>,
    socket_path: Seq<char>,
    at: Instant,
) -> Seq<ServiceRecord> {
    let i = index_of(s, name);
    if i >= 0 {
        s.update(i, fresh_record(name, subscriptions, socket_path, at))
    } else {
        s.push(fresh_record(name, subscriptions, socket_path, at))
    }
}

/// What registering `name` reports.
pub open spec fn register_outcome(s: Seq<ServiceRecord>, name: Seq<char>) -> RegisterResult {
    let i = index_of(s, name);
    if i < 0 {
        RegisterResult::New
    } else if s[i].status == ServiceStatus::Down {
        RegisterResult::Recovered
    } else {
        RegisterResult::Updated
    }
}

/// The services after a heartbeat from `name` at time `at`.
pub open spec fn heartbeat_marked(s: Seq<ServiceRecord>, name: Seq<char>, at: Instant) -> Seq<
    ServiceRecord,
> {
    let i = index_of(s, name);
    if i >= 0 {
        s.update(
            i,
            ServiceRecord {
                name: s[i].name,
                subscriptions: s[i].subscriptions,
                socket_path: s[i].socket_path,
                last_heartbeat: at,
                status: ServiceStatus::Alive,
            },
        )
    } else {
        s
    }
}

/// The services after `name` unregisters.
pub open spec fn unregistered(s: Seq<ServiceRecord>, name: Seq<char>) -> Seq<ServiceRecord> {
    let i = index_of(s, name);
    if i >= 0 {
        s.remove(i)
    } else {
        s
    }
}

/// Whether a service subscribed to events of the kind of `e`.
pub open spec fn subscribes(r: ServiceRecord, e: Event) -> bool {
    exists|k: int| 0 <= k < r.subscriptions.len() && same_kind_spec(#[trigger] r.subscriptions[k], e)
}

/// Whether a service is to receive `e`: it is alive and subscribed to its kind.
pub open spec fn receives(r: ServiceRecord, e: Event) -> bool {
    r.status == ServiceStatus::Alive && subscribes(r, e)
}

/// The services that receive `e`, in registration order.
pub open spec fn subscribers(s: Seq<ServiceRecord>, e: Event) -> Seq<ServiceRecord> {
    s.filter(|r: ServiceRecord| receives(r, e))
}

/// A service after a health check: a live one whose heartbeat has expired is
/// marked down; any other is left as it was.
pub open spec fn marked_record(r: ServiceRecord, expired: bool) -> ServiceRecord {
    if r.status == ServiceStatus::Alive && expired {
        ServiceRecord {
            name: r.name,
            subscriptions: r.subscriptions,
            socket_path: r.socket_path,
            last_heartbeat: r.last_heartbeat,
            status: ServiceStatus::Down,
        }
    } else {
        r
    }
}

/// The services after a health check in which `expired[i]` tells whether the
/// heartbeat of service `i` is too old.
pub open spec fn marked_down(s: Seq<ServiceRecord>, expired: Seq<bool>) -> Seq<ServiceRecord> {
    Seq::new(s.len(), |i: int| marked_record(s[i], expired[i]))
}

/// The services that a health check marks down, in order, as they are after it.
pub open spec fn timed_out(s: Seq<ServiceRecord>, expired: Seq<bool>) -> Seq<ServiceRecord>
    decreases s.len(),
{
    if s.len() == 0 {
        seq![]
    } else {
        let i = s.len() - 1;
        let rest = timed_out(s.drop_last(), expired);
        if s[i].status == ServiceStatus::Alive && expired[i] {
            rest.push(marked_record(s[i], true))
        } else {
            rest
        }
    }
}

/// Which services' last heartbeat lies more than `limit` nanoseconds before the
/// clock reading `at`.
pub open spec fn expiry_flags(s: Seq<ServiceRecord>, at: Instant, limit: nat) -> Seq<bool> {
    Seq::new(s.len(), |i: int| duration_nanos(instant_since(at, s[i].last_heartbeat)) > limit)
}

proof fn lemma_index_of_found(s: Seq<ServiceRecord>, name: Seq<char>, i: int)
    requires
        names_distinct(s),
        0 <= i < s.len(),
        s[i].name == name,
    ensures
        index_of(s, name) == i,
{
    assert(has_service(s, name));
}

/// The services that the runtime knows of.
#[derive(Debug)]
pub struct ServiceRegistry {
    services: Vec<ServiceInfo>,
}

impl View for ServiceRegistry {
    type V = Seq<ServiceRecord>;

    closed spec fn view(&self) -> Seq<ServiceRecord> {
        records(self.services@)
    }
}

impl Clone for ServiceRegistry {
    fn clone(&self) -> (r: Self)
        ensures
            r@ == self@,
    {
        proof {
            use_type_invariant(self);
        }
        let mut services: Vec<ServiceInfo> = Vec::new();
        let mut i: usize = 0;
        while i < self.services.len()
            invariant
                i <= self.services@.len(),
                records(services@) == records(self.services@.take(i as int)),
            decreases self.services.len() - i,
        {
            let ghost prev = services@;
            services.push(self.services[i].clone());
            assert(records(services@) =~= records(prev).push(self.services@[i as int]@));
            i = i + 1;
            assert(records(self.services@.take(i as int)) =~= records(self.services@.take(i - 1)).push(
                self.services@[i - 1]@,
            ));
        }
        assert(self.services@.take(self.services@.len() as int) =~= self.services@);
        assert(records(services@) == self@);
        ServiceRegistry { services }
    }
}

impl ServiceRegistry {
    /// The registry's invariant: service names are unique.
    #[verifier::type_invariant]
    pub open spec fn wf(&self) -> bool {
        names_distinct(self@)
    }

    /// An empty registry.
    pub fn new() -> (r: Self)
        ensures
            r.wf(),
            r@ == Seq::<ServiceRecord>::empty(),
    {
        let r = ServiceRegistry { services: Vec::new() };
        assert(r@ =~= Seq::<ServiceRecord>::empty());
        r
    }

    /// Moves the services out, leaving the registry empty.
    fn take_services(&mut self) -> (v: Vec<ServiceInfo>)
        ensures
            records(v@) == old(self)@,
            final(self)@ == Seq::<ServiceRecord>::empty(),
    {
        let mut v: Vec<ServiceInfo> = Vec::new();
        assert(records(v@) =~= Seq::<ServiceRecord>::empty());
        std::mem::swap(&mut v, &mut self.services);
        v
    }

    fn find(&self, name: &str) -> (r: Option<usize>)
        requires
            self.wf(),
        ensures
            match r {
                Some(i) => i < self@.len() && i == index_of(self@, name@),
                None => index_of(self@, name@) == -1 && !has_service(self@, name@),
            },
    {
        let mut i: usize = 0;
        while i < self.services.len()
            invariant
                self.wf(),
                i <= self.services@.len(),
                self@.len() == self.services@.len(),
                forall|k: int| 0 <= k < i ==> self@[k].name != name@,
            decreases self.services.len() - i,
        {
            assert(self@[i as int] == self.services@[i as int]@);
            if str_eq(self.services[i].name.as_str(), name) {
                proof {
                    lemma_index_of_found(self@, name@, i as int);
                }
                return Some(i);
            }
            i = i + 1;
        }
        None
    }

    /// Registers `name` as of time `at`, replacing what an existing entry of
    /// that name held, and reports whether the service is new, was alive, or was
    /// down.
    pub fn register_at(
        &mut self,
        name: &str,
        subscriptions: Vec<Event>,
        socket_path: &str,
        at: Instant,
    ) -> (r: RegisterResult)
        ensures
            final(self).wf(),
            final(self)@ == registered(old(self)@, name@, subscriptions@, socket_path@, at),
            r == register_outcome(old(self)@, name@),
    {
        proof {
            use_type_invariant(&*self);
        }
        let ghost old_s = self@;
        let ghost subs = subscriptions@;
        proof {
            register_installs_service(old_s, name@, subs, socket_path@, at);
        }
        match self.find(name) {
            Some(i) => {
                let was_down = self.services[i].status == ServiceStatus::Down;
                let service = ServiceInfo {
                    name: self.services[i].name.clone(),
                    subscriptions,
                    socket_path: String::from_str(socket_path),
                    last_heartbeat: at,
                    status: ServiceStatus::Alive,
                };
                assert(old_s[i as int] == self.services@[i as int]@);
                let mut services = self.take_services();
                services.set(i, service);
                assert(records(services@) =~= registered(old_s, name@, subs, socket_path@, at));
                self.services = services;
                if was_down {
                    RegisterResult::Recovered
                } else {
                    RegisterResult::Updated
                }
            },
            None => {
                let service = ServiceInfo {
                    name: String::from_str(name),
                    subscriptions,
                    socket_path: String::from_str(socket_path),
                    last_heartbeat: at,
                    status: ServiceStatus::Alive,
                };
                let mut services = self.take_services();
                services.push(service);
                assert(records(services@) =~= registered(old_s, name@, subs, socket_path@, at));
                self.services = services;
                RegisterResult::New
            },
        }
    }

    /// Registers `name`, stamping it with the current time.
    pub fn register(&mut self, name: &str, subscriptions: Vec<Event>, socket_path: &str) -> (r:
        RegisterResult)
        ensures
            final(self).wf(),
            exists|at: Instant|
                final(self)@ == #[trigger] registered(
                    old(self)@,
                    name@,
                    subscriptions@,
                    socket_path@,
                    at,
                ),
            r == register_outcome(old(self)@, name@),
    {
        let ghost subs = subscriptions@;
        let at = now();
        let r = self.register_at(name, subscriptions, socket_path, at);
        assert(self@ == registered(old(self)@, name@, subs, socket_path@, at));
        r
    }

    /// The live services that subscribed to the kind of `event`, in
    /// registration order.
    pub fn subscribers_for(&self, event: &Event) -> (r: Vec<ServiceInfo>)
        ensures
            records(r@) == subscribers(self@, *event),
    {
        let mut result: Vec<ServiceInfo> = Vec::new();
        let mut i: usize = 0;
        while i < self.services.len()
            invariant
                i <= self.services@.len(),
                self@.len() == self.services@.len(),
                records(result@) == subscribers(self@.take(i as int), *event),
            decreases self.services.len() - i,
        {
            let service = &self.services[i];
            assert(self@[i as int] == service@);
            let wanted = service.status == ServiceStatus::Alive && service.subscribes_to(event);
            if wanted {
                let copy = service.clone();
                result.push(copy);
            }
            assert(self@.take(i + 1).drop_last() =~= self@.take(i as int));
            proof {
                reveal(Seq::filter);
            }
            assert(records(result@) =~= subscribers(self@.take(i + 1), *event));
            i = i + 1;
        }
        assert(self@.take(self.services@.len() as int) =~= self@);
        result
    }

    /// The registered services, in registration order.
    pub fn services(&self) -> (r: &[ServiceInfo])
        ensures
            records(r@) == self@,
    {
        self.services.as_slice()
    }

    /// How many services are registered.
    pub fn service_count(&self) -> (r: usize)
        ensures
            r == self@.len(),
    {
        self.services.len()
    }

    /// Records a heartbeat from `name` at time `at`, which makes the service
    /// alive again; returns whether such a service is registered.
    pub fn mark_heartbeat_at(&mut self, name: &str, at: Instant) -> (r: bool)
        ensures
            final(self).wf(),
            final(self)@ == heartbeat_marked(old(self)@, name@, at),
            r == has_service(old(self)@, name@),
    {
        proof {
            use_type_invariant(&*self);
        }
        let ghost old_s = self@;
        match self.find(name) {
            Some(i) => {
                let old_service = &self.services[i];
                let service = ServiceInfo {
                    name: old_service.name.clone(),
                    subscriptions: clone_events(&old_service.subscriptions),
                    socket_path: old_service.socket_path.clone(),
                    last_heartbeat: at,
                    status: ServiceStatus::Alive,
                };
                assert(old_s[i as int] == self.services@[i as int]@);
                let mut services = self.take_services();
                services.set(i, service);
                assert(records(services@) =~= heartbeat_marked(old_s, name@, at));
                proof {
                    lemma_names_kept(old_s, heartbeat_marked(old_s, name@, at));
                }
                self.services = services;
                true
            },
            None => false,
        }
    }

    /// Records a heartbeat from `name` at the current time; returns whether
    /// such a service is registered.
    pub fn mark_heartbeat(&mut self, name: &str) -> (r: bool)
        ensures
            final(self).wf(),
            exists|at: Instant| final(self)@ == #[trigger] heartbeat_marked(old(self)@, name@, at),
            r == has_service(old(self)@, name@),
    {
        let at = now();
        let r = self.mark_heartbeat_at(name, at);
        assert(self@ == heartbeat_marked(old(self)@, name@, at));
        r
    }

    /// Marks down every live service `i` with `expired[i]`, and returns those
    /// services, in order, as they are afterwards.
    pub fn mark_services_down(&mut self, expired: &Vec<bool>) -> (r: Vec<ServiceInfo>)
        requires
            expired@.len() == old(self)@.len(),
        ensures
            final(self).wf(),
            final(self)@ == marked_down(old(self)@, expired@),
            records(r@) == timed_out(old(self)@, expired@),
    {
        proof {
            use_type_invariant(&*self);
        }
        let ghost old_s = self@;
        let mut services = self.take_services();
        let mut result: Vec<ServiceInfo> = Vec::new();
        let mut i: usize = 0;
        while i < services.len()
            invariant
                i <= services@.len(),
                services@.len() == old_s.len(),
                expired@.len() == old_s.len(),
                forall|k: int|
                    0 <= k < i ==> #[trigger] records(services@)[k] == marked_record(old_s[k], expired@[k]),
                forall|k: int| i <= k < old_s.len() ==> #[trigger] records(services@)[k] == old_s[k],
                records(result@) == timed_out(old_s.take(i as int), expired@),
            decreases services.len() - i,
        {
            assert(records(services@)[i as int] == services@[i as int]@);
            let ghost before = records(services@);
            if services[i].status == ServiceStatus::Alive && expired[i] {
                let mut service = services[i].clone();
                service.status = ServiceStatus::Down;
                let copy = service.clone();
                result.push(copy);
                services.set(i, service);
            }
            assert(records(services@) =~= before.update(
                i as int,
                marked_record(old_s[i as int], expired@[i as int]),
            ));
            assert(old_s.take(i + 1).drop_last() =~= old_s.take(i as int));
            assert(records(result@) =~= timed_out(old_s.take(i + 1), expired@));
            i = i + 1;
        }
        assert(old_s.take(old_s.len() as int) =~= old_s);
        assert(records(services@) =~= marked_down(old_s, expired@));
        proof {
            lemma_names_kept(old_s, marked_down(old_s, expired@));
        }
        self.services = services;
        result
    }

    /// Reads the clock once and marks down every live service whose last
    /// heartbeat is more than `timeout` before that reading; returns those
    /// services as they are afterwards.
    pub fn mark_timed_out_services_down(&mut self, timeout: Duration) -> (r: Vec<ServiceInfo>)
        ensures
            final(self).wf(),
            exists|at: Instant|
                final(self)@ == marked_down(
                    old(self)@,
                    #[trigger] expiry_flags(old(self)@, at, duration_nanos(timeout)),
                ) && records(r@) == timed_out(
                    old(self)@,
                    expiry_flags(old(self)@, at, duration_nanos(timeout)),
                ),
    {
        let limit = nanos_of(&timeout);
        let at = now();
        let mut expired: Vec<bool> = Vec::new();
        let mut i: usize = 0;
        while i < self.services.len()
            invariant
                i <= self.services@.len(),
                self@.len() == self.services@.len(),
                limit as nat == duration_nanos(timeout),
                expired@ =~= expiry_flags(self@, at, duration_nanos(timeout)).take(i as int),
            decreases self.services.len() - i,
        {
            assert(self@[i as int] == self.services@[i as int]@);
            let age = nanos_of(&since(&at, &self.services[i].last_heartbeat));
            expired.push(age > limit);
            i = i + 1;
            assert(expired@ =~= expiry_flags(self@, at, duration_nanos(timeout)).take(i as int));
        }
        assert(expired@ =~= expiry_flags(self@, at, duration_nanos(timeout)));
        self.mark_services_down(&expired)
    }

    /// Removes the service named `name` and returns it, or returns `None` where
    /// there is none.
    pub fn unregister(&mut self, name: &str) -> (r: Option<ServiceInfo>)
        ensures
            final(self).wf(),
            final(self)@ == unregistered(old(self)@, name@),
            match r {
                Some(service) => has_service(old(self)@, name@) && service@ == old(self)@[index_of(
                    old(self)@,
                    name@,
                )],
                None => !has_service(old(self)@, name@),
            },
    {
        proof {
            use_type_invariant(&*self);
        }
        let ghost old_s = self@;
        match self.find(name) {
            Some(i) => {
                assert(old_s[i as int] == self.services@[i as int]@);
                let mut services = self.take_services();
                let service = services.remove(i);
                assert(records(services@) =~= unregistered(old_s, name@));
                proof {
                    unregister_removes_service(old_s, name@);
                }
                self.services = services;
                Some(service)
            },
            None => None,
        }
    }
}

/// The name of a status, as it is printed.
pub open spec fn status_name(s: ServiceStatus) -> Seq<char> {
    match s {
        ServiceStatus::Alive => "Alive"@,
        ServiceStatus::Down => "Down"@,
    }
}

/// The names of events, separated by `", "`.
pub open spec fn joined_names(events: Seq<Event>) -> Seq<char>
    decreases events.len(),
{
    if events.len() == 0 {
        seq![]
    } else if events.len() == 1 {
        event_name(events[0])
    } else {
        joined_names(events.drop_last()) + ", "@ + event_name(events.last())
    }
}

/// The line that lists a service: `- name [subscriptions] at path (status)`.
pub open spec fn service_line(r: ServiceRecord) -> Seq<char> {
    "- "@ + r.name + " ["@ + joined_names(r.subscriptions) + "] at "@ + r.socket_path + " ("@
        + status_name(r.status) + ")"@
}

impl ServiceInfo {
    /// The line that lists this service: its name, the names of the events it
    /// subscribed to separated by `", "`, its socket path and its status.
    pub fn summary_line(&self) -> (r: String)
        ensures
            r@ == service_line(self@),
    {
        let mut line = String::from_str("- ");
        line.append(self.name.as_str());
        line.append(" [");
        let ghost start = line@;
        let mut i: usize = 0;
        while i < self.subscriptions.len()
            invariant
                i <= self.subscriptions@.len(),
                line@ == start + joined_names(self.subscriptions@.take(i as int)),
            decreases self.subscriptions.len() - i,
        {
            let ghost before = line@;
            if i > 0 {
                line.append(", ");
            }
            line.append(self.subscriptions[i].name());
            let ghost taken = self.subscriptions@.take(i + 1);
            assert(taken.drop_last() =~= self.subscriptions@.take(i as int));
            assert(taken.last() == self.subscriptions@[i as int]);
            if i == 0 {
                assert(taken.len() == 1);
                assert(line@ =~= start + joined_names(taken));
            } else {
                assert(line@ =~= start + joined_names(taken));
            }
            i = i + 1;
        }
        assert(self.subscriptions@.take(self.subscriptions@.len() as int) =~= self.subscriptions@);
        line.append("] at ");
        line.append(self.socket_path.as_str());
        line.append(" (");
        match self.status {
            ServiceStatus::Alive => line.append("Alive"),
            ServiceStatus::Down => line.append("Down"),
        }
        line.append(")");
        assert(line@ =~= service_line(self@));
        line
    }

    /// Whether this service subscribed to the kind of `event`.
    pub fn subscribes_to(&self, event: &Event) -> (r: bool)
        ensures
            r == subscribes(self@, *event),
    {
        let mut i: usize = 0;
        while i < self.subscriptions.len()
            invariant
                i <= self.subscriptions@.len(),
                forall|k: int| 0 <= k < i ==> !same_kind_spec(#[trigger] self.subscriptions@[k], *event),
            decreases self.subscriptions.len() - i,
        {
            if self.subscriptions[i].same_kind(event) {
                assert(same_kind_spec(self@.subscriptions[i as int], *event));
                return true;
            }
            i = i + 1;
        }
        false
    }
}

/// Registering a service leaves exactly one entry under its name, alive, with
/// the subscriptions and socket path just given, and registering the same name
/// again then reports an update.
pub proof fn register_installs_service(
    s: Seq<ServiceRecord>,
    name: Seq<char>,
    subscriptions: Seq<Event>,
    socket_path: Seq<char>,
    at: Instant,
)
    requires
        names_distinct(s),
    ensures
        ({
            let t = registered(s, name, subscriptions, socket_path, at);
            &&& names_distinct(t)
            &&& has_service(t, name)
            &&& t[index_of(t, name)] == fresh_record(name, subscriptions, socket_path, at)
            &&& register_outcome(t, name) == RegisterResult::Updated
            &&& t.len() == if has_service(s, name) { s.len() } else { s.len() + 1 }
        }),
{
    let t = registered(s, name, subscriptions, socket_path, at);
    let i = index_of(s, name);
    if has_service(s, name) {
        assert(0 <= i < s.len() && s[i].name == name);
        assert forall|a: int, b: int|
            0 <= a < t.len() && 0 <= b < t.len() && a != b implies #[trigger] t[a].name
            != #[trigger] t[b].name by {
            assert(t[a].name == s[a].name);
            assert(t[b].name == s[b].name);
        }
        lemma_index_of_found(t, name, i);
    } else {
        assert forall|a: int, b: int|
            0 <= a < t.len() && 0 <= b < t.len() && a != b implies #[trigger] t[a].name
            != #[trigger] t[b].name by {
            if a < s.len() && b < s.len() {
                assert(t[a] == s[a] && t[b] == s[b]);
            } else if a < s.len() {
                assert(t[a] == s[a]);
                if s[a].name == name {
                    assert(has_service(s, name));
                }
            } else {
                assert(t[b] == s[b]);
                if s[b].name == name {
                    assert(has_service(s, name));
                }
            }
        }
        lemma_index_of_found(t, name, s.len() as int);
    }
}

/// Registering a name that was not registered and then unregistering it gives
/// back the registry as it was.
pub proof fn register_then_unregister_restores(
    s: Seq<ServiceRecord>,
    name: Seq<char>,
    subscriptions: Seq<Event>,
    socket_path: Seq<char>,
    at: Instant,
)
    requires
        names_distinct(s),
        !has_service(s, name),
    ensures
        unregistered(registered(s, name, subscriptions, socket_path, at), name) == s,
{
    let t = registered(s, name, subscriptions, socket_path, at);
    register_installs_service(s, name, subscriptions, socket_path, at);
    lemma_index_of_found(t, name, s.len() as int);
    assert(t.remove(s.len() as int) =~= s);
}

/// After `name` unregisters no service of that name is left, and the registry
/// shrank by one exactly when there was one.
pub proof fn unregister_removes_service(s: Seq<ServiceRecord>, name: Seq<char>)
    requires
        names_distinct(s),
    ensures
        !has_service(unregistered(s, name), name),
        names_distinct(unregistered(s, name)),
        unregistered(s, name).len() == if has_service(s, name) { s.len() - 1 } else { s.len() as int },
{
    let t = unregistered(s, name);
    if has_service(s, name) {
        let i = index_of(s, name);
        assert(0 <= i < s.len() && s[i].name == name);
        assert forall|k: int| 0 <= k < t.len() implies #[trigger] t[k].name != name by {
            let k0 = if k < i { k } else { k + 1 };
            assert(t[k] == s[k0]);
        }
        assert forall|a: int, b: int|
            0 <= a < t.len() && 0 <= b < t.len() && a != b implies #[trigger] t[a].name
            != #[trigger] t[b].name by {
            let a0 = if a < i { a } else { a + 1 };
            let b0 = if b < i { b } else { b + 1 };
            assert(t[a] == s[a0]);
            assert(t[b] == s[b0]);
        }
    }
}

/// A live service whose heartbeat a health check finds expired reports
/// `Recovered` when it registers again.
pub proof fn register_after_down_recovers(s: Seq<ServiceRecord>, expired: Seq<bool>, name: Seq<char>)
    requires
        names_distinct(s),
        expired.len() == s.len(),
        has_service(s, name),
        s[index_of(s, name)].status == ServiceStatus::Alive,
        expired[index_of(s, name)],
    ensures
        register_outcome(marked_down(s, expired), name) == RegisterResult::Recovered,
{
    let i = index_of(s, name);
    let t = marked_down(s, expired);
    assert(0 <= i < s.len() && s[i].name == name);
    assert forall|a: int, b: int|
        0 <= a < t.len() && 0 <= b < t.len() && a != b implies #[trigger] t[a].name
        != #[trigger] t[b].name by {
        assert(t[a].name == s[a].name);
        assert(t[b].name == s[b].name);
    }
    lemma_index_of_found(t, name, i);
}

/// The receivers of an event are exactly the registered services that are alive
/// and subscribed to its kind; in particular no service that is down receives
/// anything.
pub proof fn subscribers_are_live_and_interested(s: Seq<ServiceRecord>, e: Event, r: ServiceRecord)
    ensures
        subscribers(s, e).contains(r) <==> (s.contains(r) && receives(r, e)),
        subscribers(s, e).contains(r) ==> r.status == ServiceStatus::Alive,
    decreases s.len(),
{
    reveal(Seq::filter);
    if s.len() > 0 {
        subscribers_are_live_and_interested(s.drop_last(), e, r);
        let rest = subscribers(s.drop_last(), e);
        assert(s =~= s.drop_last().push(s.last()));
        if s.contains(r) && receives(r, e) && r != s.last() {
            let k = choose|k: int| 0 <= k < s.len() && s[k] == r;
            assert(s.drop_last()[k] == r);
        }
        if rest.contains(r) {
            let k = choose|k: int| 0 <= k < rest.len() && rest[k] == r;
            if receives(s.last(), e) {
                assert(rest.push(s.last())[k] == r);
            }
        }
        if s.drop_last().contains(r) {
            let k = choose|k: int| 0 <= k < s.drop_last().len() && s.drop_last()[k] == r;
            assert(s[k] == r);
        }
        if receives(s.last(), e) {
            assert(rest.push(s.last())[rest.len() as int] == s.last());
            if rest.push(s.last()).contains(r) {
                let k = choose|k: int| 0 <= k < rest.len() + 1 && rest.push(s.last())[k] == r;
                if k < rest.len() {
                    assert(rest[k] == r);
                }
            }
        }
        assert(s[s.len() - 1] == s.last());
    }
}

proof fn lemma_marked_down_prefix(s: Seq<ServiceRecord>, e: Seq<bool>)
    requires
        s.len() > 0,
    ensures
        marked_down(s, e).drop_last() == marked_down(s.drop_last(), e),
{
    assert(marked_down(s, e).drop_last() =~= marked_down(s.drop_last(), e));
}

/// A health check reports a service down at most once: on a registry that a
/// first check (`first`) left, a second check (`second`) reports just the live
/// services that the first check did not find expired and the second does, and
/// repeating a check with the same findings changes nothing.
pub proof fn services_reported_down_once(s: Seq<ServiceRecord>, first: Seq<bool>, second: Seq<bool>)
    requires
        first.len() == s.len(),
        second.len() == s.len(),
    ensures
        timed_out(marked_down(s, first), second) == timed_out(
            s,
            Seq::new(s.len(), |i: int| !first[i] && second[i]),
        ),
        marked_down(marked_down(s, first), first) == marked_down(s, first),
    decreases s.len(),
{
    let both = Seq::new(s.len(), |i: int| !first[i] && second[i]);
    lemma_timed_out_twice(s, first, second, both);
    assert(marked_down(marked_down(s, first), first) =~= marked_down(s, first));
}

proof fn lemma_timed_out_twice(
    s: Seq<ServiceRecord>,
    first: Seq<bool>,
    second: Seq<bool>,
    both: Seq<bool>,
)
    requires
        first.len() >= s.len(),
        second.len() >= s.len(),
        both.len() >= s.len(),
        forall|i: int| 0 <= i < s.len() ==> #[trigger] both[i] == (!first[i] && second[i]),
    ensures
        timed_out(marked_down(s, first), second) == timed_out(s, both),
    decreases s.len(),
{
    if s.len() > 0 {
        let m = marked_down(s, first);
        lemma_marked_down_prefix(s, first);
        lemma_timed_out_twice(s.drop_last(), first, second, both);
        let i = s.len() - 1;
        assert(m[i] == marked_record(s[i], first[i]));
        assert(both[i] == (!first[i] && second[i]));
    }
}

/// A service that a health check marks down receives no event afterwards.
pub proof fn marked_down_service_receives_nothing(
    s: Seq<ServiceRecord>,
    expired: Seq<bool>,
    e: Event,
    i: int,
)
    requires
        expired.len() == s.len(),
        0 <= i < s.len(),
        expired[i],
    ensures
        !subscribers(marked_down(s, expired), e).contains(marked_down(s, expired)[i]),
{
    subscribers_are_live_and_interested(marked_down(s, expired), e, marked_down(s, expired)[i]);
}

/// A heartbeat brings a service back: afterwards it receives every event of a
/// kind it subscribed to, whether or not it had been marked down.
pub proof fn heartbeat_restores_delivery(s: Seq<ServiceRecord>, name: Seq<char>, at: Instant, e: Event)
    requires
        names_distinct(s),
        has_service(s, name),
        subscribes(s[index_of(s, name)], e),
    ensures
        ({
            let t = heartbeat_marked(s, name, at);
            subscribers(t, e).contains(t[index_of(s, name)])
        }),
{
    let t = heartbeat_marked(s, name, at);
    let i = index_of(s, name);
    assert(0 <= i < s.len() && s[i].name == name);
    assert(t.contains(t[i]));
    let k = choose|k: int| 0 <= k < s[i].subscriptions.len() && same_kind_spec(#[trigger] s[i].subscriptions[k], e);
    assert(same_kind_spec(t[i].subscriptions[k], e));
    subscribers_are_live_and_interested(t, e, t[i]);
}

proof fn lemma_timed_out_members(s: Seq<ServiceRecord>, expired: Seq<bool>, r: ServiceRecord)
    requires
        expired.len() >= s.len(),
    ensures
        timed_out(s, expired).contains(r) <==> exists|j: int|
            0 <= j < s.len() && s[j].status == ServiceStatus::Alive && expired[j] && r
                == #[trigger] marked_record(s[j], true),
    decreases s.len(),
{
    if s.len() > 0 {
        let i = s.len() - 1;
        let p = s.drop_last();
        let rest = timed_out(p, expired);
        lemma_timed_out_members(p, expired, r);
        if rest.contains(r) {
            let j = choose|j: int|
                0 <= j < p.len() && p[j].status == ServiceStatus::Alive && expired[j] && r
                    == #[trigger] marked_record(p[j], true);
            assert(s[j] == p[j]);
            if s[i].status == ServiceStatus::Alive && expired[i] {
                let k = choose|k: int| 0 <= k < rest.len() && rest[k] == r;
                assert(rest.push(marked_record(s[i], true))[k] == r);
            }
        }
        if exists|j: int|
            0 <= j < s.len() && s[j].status == ServiceStatus::Alive && expired[j] && r
                == #[trigger] marked_record(s[j], true) {
            let j = choose|j: int|
                0 <= j < s.len() && s[j].status == ServiceStatus::Alive && expired[j] && r
                    == #[trigger] marked_record(s[j], true);
            if j < i {
                assert(p[j] == s[j]);
                assert(rest.contains(r));
                let k = choose|k: int| 0 <= k < rest.len() && rest[k] == r;
                if s[i].status == ServiceStatus::Alive && expired[i] {
                    assert(rest.push(marked_record(s[i], true))[k] == r);
                }
            } else {
                assert(rest.push(marked_record(s[i], true))[rest.len() as int] == r);
            }
        }
        if s[i].status == ServiceStatus::Alive && expired[i] {
            let t = rest.push(marked_record(s[i], true));
            if t.contains(r) {
                let k = choose|k: int| 0 <= k < t.len() && t[k] == r;
                if k < rest.len() {
                    assert(rest[k] == r);
                } else {
                    assert(r == marked_record(s[i], true));
                }
            }
        }
    }
}

/// At one clock reading, a longer timeout never marks more services down: every
/// service that a health check with timeout `longer` reports is also reported
/// with timeout `shorter`, and a service already down is reported by neither.
pub proof fn longer_timeout_reports_fewer(
    s: Seq<ServiceRecord>,
    at: Instant,
    shorter: Duration,
    longer: Duration,
    r: ServiceRecord,
)
    requires
        names_distinct(s),
        duration_nanos(shorter) <= duration_nanos(longer),
    ensures
        timed_out(s, expiry_flags(s, at, duration_nanos(longer))).contains(r) ==> timed_out(
            s,
            expiry_flags(s, at, duration_nanos(shorter)),
        ).contains(r),
        forall|i: int|
            0 <= i < s.len() && s[i].status == ServiceStatus::Down ==> r.name != s[i].name || (
            !timed_out(s, expiry_flags(s, at, duration_nanos(shorter))).contains(r) && !timed_out(
                s,
                expiry_flags(s, at, duration_nanos(longer)),
            ).contains(r)),
{
    let fs = expiry_flags(s, at, duration_nanos(shorter));
    let fl = expiry_flags(s, at, duration_nanos(longer));
    lemma_timed_out_members(s, fs, r);
    lemma_timed_out_members(s, fl, r);
    if timed_out(s, fl).contains(r) {
        let j = choose|j: int|
            0 <= j < s.len() && s[j].status == ServiceStatus::Alive && fl[j] && r
                == #[trigger] marked_record(s[j], true);
        assert(fs[j]);
    }
    assert forall|i: int|
        0 <= i < s.len() && s[i].status == ServiceStatus::Down implies r.name != s[i].name || (
        !timed_out(s, fs).contains(r) && !timed_out(s, fl).contains(r)) by {
        if timed_out(s, fs).contains(r) {
            let j = choose|j: int|
                0 <= j < s.len() && s[j].status == ServiceStatus::Alive && fs[j] && r
                    == #[trigger] marked_record(s[j], true);
            assert(s[j].name != s[i].name);
        }
    }
}

/// One change to the registry: what `register_at`, `mark_heartbeat_at`,
/// `mark_services_down` and `unregister` (and the runtime calls built on them)
/// each do.
pub enum RegistryOp {
    Register { name: Seq<char>, subscriptions: Seq<Event>, socket_path: Seq<char>, at: Instant },
    Heartbeat { name: Seq<char>, at: Instant },
    HealthCheck { expired: Seq<bool> },
    Unregister { name: Seq<char> },
}

/// The services after one change.
pub open spec fn apply_op(s: Seq<ServiceRecord>, op: RegistryOp) -> Seq<ServiceRecord> {
    match op {
        RegistryOp::Register { name, subscriptions, socket_path, at } => registered(
            s,
            name,
            subscriptions,
            socket_path,
            at,
        ),
        RegistryOp::Heartbeat { name, at } => heartbeat_marked(s, name, at),
        RegistryOp::HealthCheck { expired } => marked_down(s, expired),
        RegistryOp::Unregister { name } => unregistered(s, name),
    }
}

/// The services after a sequence of changes, applied in order.
pub open spec fn run_ops(s: Seq<ServiceRecord>, ops: Seq<RegistryOp>) -> Seq<ServiceRecord>
    decreases ops.len(),
{
    if ops.len() == 0 {
        s
    } else {
        apply_op(run_ops(s, ops.drop_last()), ops.last())
    }
}

/// The names registered by a sequence of changes and not unregistered since.
pub open spec fn live_names(ops: Seq<RegistryOp>) -> Set<Seq<char>>
    decreases ops.len(),
{
    if ops.len() == 0 {
        Set::empty()
    } else {
        let prev = live_names(ops.drop_last());
        match ops.last() {
            RegistryOp::Register { name, .. } => prev.insert(name),
            RegistryOp::Unregister { name } => prev.remove(name),
            _ => prev,
        }
    }
}

/// The names of the registered services.
pub open spec fn name_set(s: Seq<ServiceRecord>) -> Set<Seq<char>> {
    s.map_values(|r: ServiceRecord| r.name).to_set()
}

proof fn lemma_name_set_contains(s: Seq<ServiceRecord>, n: Seq<char>)
    ensures
        name_set(s).contains(n) <==> has_service(s, n),
{
    let m = s.map_values(|r: ServiceRecord| r.name);
    if m.contains(n) {
        let k = choose|k: int| 0 <= k < m.len() && m[k] == n;
        assert(s[k].name == n);
    }
    if has_service(s, n) {
        let k = choose|k: int| 0 <= k < s.len() && #[trigger] s[k].name == n;
        assert(m[k] == n);
    }
}

proof fn lemma_name_set_len(s: Seq<ServiceRecord>)
    requires
        names_distinct(s),
    ensures
        s.len() == name_set(s).len(),
        name_set(s).finite(),
{
    let m = s.map_values(|r: ServiceRecord| r.name);
    assert(m.no_duplicates()) by {
        assert forall|i: int, j: int| 0 <= i < m.len() && 0 <= j < m.len() && i != j implies m[i] != m[j] by {
            assert(s[i].name != s[j].name);
        }
    }
    m.unique_seq_to_set();
    vstd::seq_lib::seq_to_set_is_finite(m);
}

proof fn lemma_names_kept(s: Seq<ServiceRecord>, t: Seq<ServiceRecord>)
    requires
        names_distinct(s),
        t.len() == s.len(),
        forall|i: int| 0 <= i < s.len() ==> #[trigger] t[i].name == s[i].name,
    ensures
        names_distinct(t),
        name_set(t) == name_set(s),
{
    assert forall|a: int, b: int|
        0 <= a < t.len() && 0 <= b < t.len() && a != b implies #[trigger] t[a].name
        != #[trigger] t[b].name by {
        assert(s[a].name != s[b].name);
    }
    assert forall|n: Seq<char>| name_set(t).contains(n) <==> name_set(s).contains(n) by {
        lemma_name_set_contains(s, n);
        lemma_name_set_contains(t, n);
        if has_service(t, n) {
            let k = choose|k: int| 0 <= k < t.len() && #[trigger] t[k].name == n;
            assert(s[k].name == n);
        }
        if has_service(s, n) {
            let k = choose|k: int| 0 <= k < s.len() && #[trigger] s[k].name == n;
            assert(t[k].name == n);
        }
    }
    assert(name_set(t) =~= name_set(s));
}

proof fn lemma_apply_op_names(s: Seq<ServiceRecord>, op: RegistryOp)
    requires
        names_distinct(s),
    ensures
        names_distinct(apply_op(s, op)),
        name_set(apply_op(s, op)) == match op {
            RegistryOp::Register { name, .. } => name_set(s).insert(name),
            RegistryOp::Unregister { name } => name_set(s).remove(name),
            _ => name_set(s),
        },
{
    let t = apply_op(s, op);
    match op {
        RegistryOp::Register { name, subscriptions, socket_path, at } => {
            register_installs_service(s, name, subscriptions, socket_path, at);
            assert forall|n: Seq<char>| name_set(t).contains(n) <==> name_set(s).insert(name).contains(n) by {
                lemma_name_set_contains(s, n);
                lemma_name_set_contains(t, n);
                if has_service(t, n) && n != name {
                    let k = choose|k: int| 0 <= k < t.len() && #[trigger] t[k].name == n;
                    if has_service(s, name) {
                        assert(s[k].name == n);
                    } else {
                        assert(k < s.len());
                        assert(s[k].name == n);
                    }
                }
                if has_service(s, n) {
                    let k = choose|k: int| 0 <= k < s.len() && #[trigger] s[k].name == n;
                    assert(t[k].name == n);
                }
            }
            assert(name_set(t) =~= name_set(s).insert(name));
        },
        RegistryOp::Heartbeat { name, at } => {
            lemma_names_kept(s, t);
        },
        RegistryOp::HealthCheck { expired } => {
            lemma_names_kept(s, t);
        },
        RegistryOp::Unregister { name } => {
            unregister_removes_service(s, name);
            assert forall|n: Seq<char>| name_set(t).contains(n) <==> name_set(s).remove(name).contains(n) by {
                lemma_name_set_contains(s, n);
                lemma_name_set_contains(t, n);
                if has_service(s, name) {
                    let i = index_of(s, name);
                    assert(0 <= i < s.len() && s[i].name == name);
                    if has_service(t, n) {
                        let k = choose|k: int| 0 <= k < t.len() && #[trigger] t[k].name == n;
                        let k0 = if k < i { k } else { k + 1 };
                        assert(t[k] == s[k0]);
                    }
                    if has_service(s, n) && n != name {
                        let k = choose|k: int| 0 <= k < s.len() && #[trigger] s[k].name == n;
                        let k1 = if k < i { k } else { k - 1 };
                        assert(t[k1] == s[k]);
                    }
                }
            }
            assert(name_set(t) =~= name_set(s).remove(name));
        },
    }
}

/// Starting from an empty registry, after any sequence of registrations,
/// heartbeats, health checks and unregistrations, the registered names are
/// exactly those registered and not unregistered since, each once, so the
/// service count is their number: heartbeats and health checks never change
/// it.
pub proof fn service_count_tracks_live_names(ops: Seq<RegistryOp>)
    ensures
        names_distinct(run_ops(Seq::empty(), ops)),
        name_set(run_ops(Seq::empty(), ops)) == live_names(ops),
        run_ops(Seq::empty(), ops).len() == live_names(ops).len(),
    decreases ops.len(),
{
    let t = run_ops(Seq::empty(), ops);
    if ops.len() == 0 {
        assert(name_set(t) =~= Set::<Seq<char>>::empty());
    } else {
        service_count_tracks_live_names(ops.drop_last());
        lemma_apply_op_names(run_ops(Seq::empty(), ops.drop_last()), ops.last());
    }
    lemma_name_set_len(t);
}

/// A heartbeat from the service at position `i` at time `at` sets that
/// service's last heartbeat to `at` and makes it alive, keeps its name,
/// subscriptions and socket path, and leaves every other service as it was; a
/// heartbeat from a name that is not registered changes nothing. So a health
/// check that finds at most `limit` nanoseconds since `at` leaves the service
/// alive.
pub proof fn heartbeat_refreshes_service(
    s: Seq<ServiceRecord>,
    name: Seq<char>,
    at: Instant,
    i: int,
    check: Instant,
    limit: nat,
)
    requires
        names_distinct(s),
        0 <= i < s.len(),
        s[i].name == name,
    ensures
        ({
            let t = heartbeat_marked(s, name, at);
            &&& t.len() == s.len()
            &&& t[i].last_heartbeat == at
            &&& t[i].status == ServiceStatus::Alive
            &&& t[i].name == s[i].name
            &&& t[i].subscriptions == s[i].subscriptions
            &&& t[i].socket_path == s[i].socket_path
            &&& forall|j: int| 0 <= j < s.len() && j != i ==> #[trigger] t[j] == s[j]
            &&& duration_nanos(instant_since(check, at)) <= limit ==> marked_down(
                t,
                expiry_flags(t, check, limit),
            )[i].status == ServiceStatus::Alive
        }),
{
    lemma_index_of_found(s, name, i);
}

/// A heartbeat from a name that is not registered changes nothing.
pub proof fn heartbeat_from_unknown_changes_nothing(s: Seq<ServiceRecord>, name: Seq<char>, at: Instant)
    requires
        forall|j: int| 0 <= j < s.len() ==> #[trigger] s[j].name != name,
    ensures
        heartbeat_marked(s, name, at) == s,
{
}

/// A health check at clock reading `at` with timeout `timeout` marks the
/// service at position `i` down exactly when it is alive and more than the
/// timeout has passed since its last heartbeat; nothing else about any service
/// changes. It reports exactly the services it marks down, each as it is
/// afterwards.
pub proof fn health_check_marks_exactly_the_expired(
    s: Seq<ServiceRecord>,
    at: Instant,
    timeout: Duration,
    i: int,
    r: ServiceRecord,
)
    requires
        0 <= i < s.len(),
    ensures
        ({
            let t = marked_down(s, expiry_flags(s, at, duration_nanos(timeout)));
            let age = duration_nanos(instant_since(at, s[i].last_heartbeat));
            &&& t.len() == s.len()
            &&& t[i].name == s[i].name
            &&& t[i].subscriptions == s[i].subscriptions
            &&& t[i].socket_path == s[i].socket_path
            &&& t[i].last_heartbeat == s[i].last_heartbeat
            &&& (s[i].status == ServiceStatus::Alive && age > duration_nanos(timeout)) ==> t[i].status
                == ServiceStatus::Down
            &&& (age <= duration_nanos(timeout) || s[i].status == ServiceStatus::Down) ==> t[i].status
                == s[i].status
        }),
        timed_out(s, expiry_flags(s, at, duration_nanos(timeout))).contains(r) <==> exists|j: int|
            #![trigger s[j]]
            0 <= j < s.len() && s[j].status == ServiceStatus::Alive && duration_nanos(
                instant_since(at, s[j].last_heartbeat),
            ) > duration_nanos(timeout) && r == (ServiceRecord {
                name: s[j].name,
                subscriptions: s[j].subscriptions,
                socket_path: s[j].socket_path,
                last_heartbeat: s[j].last_heartbeat,
                status: ServiceStatus::Down,
            }),
{
    let f = expiry_flags(s, at, duration_nanos(timeout));
    lemma_timed_out_members(s, f, r);
    if timed_out(s, f).contains(r) {
        let j = choose|j: int|
            0 <= j < s.len() && s[j].status == ServiceStatus::Alive && f[j] && r
                == #[trigger] marked_record(s[j], true);
    }
    if exists|j: int|
        #![trigger s[j]]
        0 <= j < s.len() && s[j].status == ServiceStatus::Alive && duration_nanos(
            instant_since(at, s[j].last_heartbeat),
        ) > duration_nanos(timeout) && r == (ServiceRecord {
            name: s[j].name,
            subscriptions: s[j].subscriptions,
            socket_path: s[j].socket_path,
            last_heartbeat: s[j].last_heartbeat,
            status: ServiceStatus::Down,
        }) {
        let j = choose|j: int|
            #![trigger s[j]]
            0 <= j < s.len() && s[j].status == ServiceStatus::Alive && duration_nanos(
                instant_since(at, s[j].last_heartbeat),
            ) > duration_nanos(timeout) && r == (ServiceRecord {
                name: s[j].name,
                subscriptions: s[j].subscriptions,
                socket_path: s[j].socket_path,
                last_heartbeat: s[j].last_heartbeat,
                status: ServiceStatus::Down,
            });
        assert(r == marked_record(s[j], true));
    }
}

/// Registering a name that no service has reports `New`; registering the name
/// of a live service reports `Updated`, and that of a service marked down
/// reports `Recovered`, whatever else the registry holds.
pub proof fn register_outcome_follows_the_entry(s: Seq<ServiceRecord>, name: Seq<char>)
    requires
        names_distinct(s),
    ensures
        (forall|j: int| 0 <= j < s.len() ==> #[trigger] s[j].name != name) ==> register_outcome(s, name)
            == RegisterResult::New,
        forall|j: int|
            0 <= j < s.len() && #[trigger] s[j].name == name ==> register_outcome(s, name) == if s[j].status
                == ServiceStatus::Down {
                RegisterResult::Recovered
            } else {
                RegisterResult::Updated
            },
{
    assert forall|j: int| 0 <= j < s.len() && #[trigger] s[j].name == name implies register_outcome(s, name)
        == if s[j].status == ServiceStatus::Down {
        RegisterResult::Recovered
    } else {
        RegisterResult::Updated
    } by {
        lemma_index_of_found(s, name, j);
    }
}

/// The receivers of an event are exactly the registered services that are alive
/// and have, at some position of their subscription list, an event of the same
/// kind.
pub proof fn subscribers_are_those_with_a_matching_subscription(
    s: Seq<ServiceRecord>,
    e: Event,
    r: ServiceRecord,
)
    ensures
        subscribers(s, e).contains(r) <==> (s.contains(r) && r.status == ServiceStatus::Alive
            && exists|k: int|
            0 <= k < r.subscriptions.len() && same_kind_spec(#[trigger] r.subscriptions[k], e)),
{
    subscribers_are_live_and_interested(s, e, r);
}

/// Listing two nonempty runs of subscriptions one after the other gives their
/// listings with `", "` between; a single subscription is listed by its name.
pub proof fn joined_names_concatenate(a: Seq<Event>, b: Seq<Event>)
    requires
        a.len() > 0,
        b.len() > 0,
    ensures
        joined_names(a + b) == joined_names(a) + ", "@ + joined_names(b),
        joined_names(seq![b[0]]) == event_name(b[0]),
    decreases b.len(),
{
    let ab = a + b;
    assert(ab.drop_last() =~= a + b.drop_last());
    assert(ab.last() == b.last());
    if b.len() == 1 {
        assert(b.drop_last() =~= Seq::<Event>::empty());
        assert(ab.drop_last() =~= a);
        assert(b[0] == b.last());
    } else {
        joined_names_concatenate(a, b.drop_last());
        assert(joined_names(a + b) =~= joined_names(a) + ", "@ + joined_names(b));
    }
    assert(seq![b[0]][0] == b[0]);
}

/// Registering `name` with the service at position `i` holding it replaces that
/// entry in place, alive, with the given subscriptions, socket path and time,
/// and leaves every other entry as it was; registering a name that no service
/// has appends such an entry after all the others.
pub proof fn register_places_entry(
    s: Seq<ServiceRecord>,
    name: Seq<char>,
    subscriptions: Seq<Event>,
    socket_path: Seq<char>,
    at: Instant,
)
    requires
        names_distinct(s),
    ensures
        ({
            let t = registered(s, name, subscriptions, socket_path, at);
            let placed = |r: ServiceRecord|
                r.name == name && r.subscriptions == subscriptions && r.socket_path == socket_path
                    && r.last_heartbeat == at && r.status == ServiceStatus::Alive;
            &&& forall|i: int|
                0 <= i < s.len() && #[trigger] s[i].name == name ==> t.len() == s.len() && placed(t[i])
                    && forall|j: int| 0 <= j < s.len() && j != i ==> #[trigger] t[j] == s[j]
            &&& (forall|j: int| 0 <= j < s.len() ==> #[trigger] s[j].name != name) ==> t.len() == s.len()
                + 1 && placed(t[s.len() as int]) && forall|j: int| 0 <= j < s.len() ==> #[trigger] t[j]
                == s[j]
        }),
{
    assert forall|i: int| 0 <= i < s.len() && #[trigger] s[i].name == name implies index_of(s, name)
        == i by {
        lemma_index_of_found(s, name, i);
    }
    if forall|j: int| 0 <= j < s.len() ==> #[trigger] s[j].name != name {
        assert(!has_service(s, name));
    }
}

/// Unregistering the service at position `i` removes just that entry: the
/// entries before it keep their positions and those after it move up by one.
pub proof fn unregister_keeps_others_in_order(s: Seq<ServiceRecord>, name: Seq<char>, i: int)
    requires
        names_distinct(s),
        0 <= i < s.len(),
        s[i].name == name,
    ensures
        ({
            let t = unregistered(s, name);
            &&& t.len() == s.len() - 1
            &&& forall|j: int| 0 <= j < i ==> #[trigger] t[j] == s[j]
            &&& forall|j: int| i < j < s.len() ==> t[j - 1] == #[trigger] s[j]
        }),
{
    lemma_index_of_found(s, name, i);
}

/// Adding a service after the others adds it after the other receivers of an
/// event when it receives the event, and leaves the receivers as they were
/// otherwise: receivers come in registration order.
pub proof fn subscribers_keep_registration_order(s: Seq<ServiceRecord>, x: ServiceRecord, e: Event)
    ensures
        subscribers(s.push(x), e) == if x.status == ServiceStatus::Alive && exists|k: int|
            0 <= k < x.subscriptions.len() && same_kind_spec(#[trigger] x.subscriptions[k], e) {
            subscribers(s, e).push(x)
        } else {
            subscribers(s, e)
        },
{
    reveal(Seq::filter);
    assert(s.push(x).drop_last() =~= s);
}

/// A health check reports services in registration order: a service added
/// after the others is reported after them, when it is reported.
pub proof fn timed_out_keeps_registration_order(s: Seq<ServiceRecord>, x: ServiceRecord, expired: Seq<bool>)
    requires
        expired.len() > s.len(),
    ensures
        timed_out(s.push(x), expired) == if x.status == ServiceStatus::Alive && expired[s.len() as int] {
            timed_out(s, expired).push(
                ServiceRecord {
                    name: x.name,
                    subscriptions: x.subscriptions,
                    socket_path: x.socket_path,
                    last_heartbeat: x.last_heartbeat,
                    status: ServiceStatus::Down,
                },
            )
        } else {
            timed_out(s, expired)
        },
{
    assert(s.push(x).drop_last() =~= s);
    assert(s.push(x)[s.len() as int] == x);
}

} // verus!
