//! The registry of supervised services: one status for each service
//! identifier, changed only by the registry's single owner.

use vstd::prelude::*;
use vstd::string::*;
use crate::status::Status;

verus! {

/// The registry as a mathematical value: the status of each tracked service.
pub type Services = Map<Seq<char>, Status>;

/// The status of the service `id`. A service that was never started is not
/// tracked, and is `Shutdown`.
pub open spec fn status_in(services: Services, id: Seq<char>) -> Status {
    if services.dom().contains(id) {
        services[id]
    } else {
        Status::Shutdown
    }
}

/// What a request to start a service came to.
#[derive(Clone, Copy, Debug, PartialEq, Eq, Structural)]
pub enum StartOutcome {
    /// The service was shut down: its run loop is to be spawned now.
    Spawned,
    /// The service is starting or started already: nothing was done.
    AlreadyRunning,
    /// The service is shutting down and cannot be started before it has
    /// stopped: nothing was done.
    Refused,
}

/// An event that changes the registry.
pub enum Event {
    /// A request to start the service.
    Start(Seq<char>),
    /// The run loop of the service has begun to read its mailbox.
    Started(Seq<char>),
    /// A request to stop the service.
    Stop(Seq<char>),
    /// The run loop of the service has returned.
    Stopped(Seq<char>),
    /// A request to stop every service.
    Shutdown,
}

/// What a request to start `id` comes to in `services`.
pub open spec fn start_outcome(services: Services, id: Seq<char>) -> StartOutcome {
    match status_in(services, id) {
        Status::Shutdown => StartOutcome::Spawned,
        Status::Starting => StartOutcome::AlreadyRunning,
        Status::Started => StartOutcome::AlreadyRunning,
        Status::ShuttingDown => StartOutcome::Refused,
    }
}

/// The status of a service after it was told to stop: a live service is
/// shutting down, any other is as it was.
pub open spec fn told_to_stop(status: Status) -> Status {
    if status.is_live() {
        Status::ShuttingDown
    } else {
        status
    }
}

/// Sets the status of `id` to `to` if it is `from`, and changes nothing if not.
pub open spec fn moved(services: Services, id: Seq<char>, from: Status, to: Status) -> Services {
    if status_in(services, id) == from {
        services.insert(id, to)
    } else {
        services
    }
}

/// The registry after `event`.
pub open spec fn apply(services: Services, event: Event) -> Services {
    match event {
        Event::Start(id) => moved(services, id, Status::Shutdown, Status::Starting),
        Event::Started(id) => moved(services, id, Status::Starting, Status::Started),
        Event::Stop(id) => if services.dom().contains(id) {
            services.insert(id, told_to_stop(services[id]))
        } else {
            services
        },
        Event::Stopped(id) => moved(services, id, Status::ShuttingDown, Status::Shutdown),
        Event::Shutdown => services.map_values(|status: Status| told_to_stop(status)),
    }
}

/// The run loops that `calls` requests in a row to start `id` spawn.
pub open spec fn spawned(services: Services, id: Seq<char>, calls: nat) -> nat
    decreases calls,
{
    if calls == 0 {
        0
    } else {
        let first: nat = if start_outcome(services, id) is Spawned {
            1
        } else {
            0
        };
        first + spawned(apply(services, Event::Start(id)), id, (calls - 1) as nat)
    }
}

/// The registry after `calls` requests in a row to start `id`.
pub open spec fn started_times(services: Services, id: Seq<char>, calls: nat) -> Services
    decreases calls,
{
    if calls == 0 {
        services
    } else {
        started_times(apply(services, Event::Start(id)), id, (calls - 1) as nat)
    }
}

/// Starting is idempotent: however many requests to start one service come
/// in a row, they spawn one run loop if the service was shut down and none if
/// it was not, and they leave the registry as the first of them left it.
pub proof fn lemma_start_is_idempotent(services: Services, id: Seq<char>, calls: nat)
    requires
        calls >= 1,
    ensures
        spawned(services, id, calls) == (if status_in(services, id) == Status::Shutdown {
            1nat
        } else {
            0nat
        }),
        started_times(services, id, calls) == apply(services, Event::Start(id)),
    decreases calls,
{
    let next = apply(services, Event::Start(id));
    assert(status_in(next, id) != Status::Shutdown);
    assert(apply(next, Event::Start(id)) == next);
    if calls > 1 {
        lemma_start_is_idempotent(next, id, (calls - 1) as nat);
    } else {
        assert(spawned(next, id, 0) == 0);
        assert(started_times(next, id, 0) == next);
    }
}

/// A request to stop a service that has been asked to start but whose run
/// loop has not begun takes it from `Starting` to `ShuttingDown` at once.
pub open spec fn stops_a_starting_service(services: Services, event: Event, id: Seq<char>) -> bool {
    status_in(services, id) == Status::Starting && (event is Shutdown || event == Event::Stop(id))
}

/// The status of a service changes only along the lifecycle: whatever the
/// event, the status of each service stays as it is or moves to its
/// successor. The one event left out is a request to stop a service that is
/// still `Starting`.
pub proof fn lemma_status_follows_lifecycle(services: Services, event: Event, id: Seq<char>)
    requires
        !stops_a_starting_service(services, event, id),
    ensures
        status_in(services, id).may_become(status_in(apply(services, event), id)),
{
}

/// An event changes the status of no service but the one it names, unless it
/// is the request to stop them all.
pub proof fn lemma_event_is_local(services: Services, event: Event, id: Seq<char>, other: Seq<char>)
    requires
        other != id,
        event == Event::Start(id) || event == Event::Started(id) || event == Event::Stop(id)
            || event == Event::Stopped(id),
    ensures
        status_in(apply(services, event), other) == status_in(services, other),
{
}

/// The record that the registry keeps of one service.
struct ServiceHandle {
    identifier: String,
    status: Status,
}

/// The status of a service, as the registry reports it.
#[derive(Debug)]
pub struct StatusReport {
    pub identifier: String,
    pub status: Status,
}

/// Some handle in `handles` is that of the service `id`.
spec fn tracks(handles: Seq<ServiceHandle>, id: Seq<char>) -> bool {
    exists|i: int| 0 <= i < handles.len() && #[trigger] handles[i].identifier@ == id
}

/// The place of a handle of the service `id`.
spec fn place_of(handles: Seq<ServiceHandle>, id: Seq<char>) -> int {
    choose|i: int| 0 <= i < handles.len() && #[trigger] handles[i].identifier@ == id
}

/// No two handles are of one service.
spec fn distinct(handles: Seq<ServiceHandle>) -> bool {
    forall|i: int, j: int|
        0 <= i < handles.len() && 0 <= j < handles.len() && #[trigger] handles[i].identifier@
            == #[trigger] handles[j].identifier@ ==> i == j
}

/// The statuses that the handles record.
spec fn services_of(handles: Seq<ServiceHandle>) -> Services {
    Map::new(
        |id: Seq<char>| tracks(handles, id),
        |id: Seq<char>| handles[place_of(handles, id)].status,
    )
}

/// Where no two handles are of one service, each handle gives the status of
/// its service.
proof fn lemma_handle_gives_status(handles: Seq<ServiceHandle>, i: int)
    requires
        distinct(handles),
        0 <= i < handles.len(),
    ensures
        services_of(handles).dom().contains(handles[i].identifier@),
        services_of(handles)[handles[i].identifier@] == handles[i].status,
        status_in(services_of(handles), handles[i].identifier@) == handles[i].status,
{
    let id = handles[i].identifier@;
    assert(tracks(handles, id));
    assert(place_of(handles, id) == i);
}

/// One of the first `upto` handles is that of the service `id`, and records
/// it as live.
spec fn live_among(handles: Seq<ServiceHandle>, upto: int, id: Seq<char>) -> bool {
    exists|j: int|
        0 <= j < upto && j < handles.len() && handles[j].status.is_live()
            && #[trigger] handles[j].identifier@ == id
}

/// One of `names` is `id`.
spec fn names(names: Seq<String>, id: Seq<char>) -> bool {
    exists|k: int| 0 <= k < names.len() && #[trigger] names[k]@ == id
}

/// Owns the handles of all services and serialises every change of status.
pub struct Registry {
    handles: Vec<ServiceHandle>,
}

impl View for Registry {
    type V = Services;

    closed spec fn view(&self) -> Services {
        services_of(self.handles@)
    }
}

impl Registry {
    /// At most one handle exists for each service identifier.
    pub closed spec fn wf(&self) -> bool {
        distinct(self.handles@)
    }

    /// The status of the service `id`.
    pub open spec fn status_of(&self, id: Seq<char>) -> Status {
        status_in(self@, id)
    }

    /// A registry that tracks no service.
    pub fn new() -> (registry: Self)
        ensures
            registry.wf(),
            registry@ == Map::<Seq<char>, Status>::empty(),
    {
        let registry = Registry { handles: Vec::new() };
        assert(registry@ =~= Map::<Seq<char>, Status>::empty());
        registry
    }

    /// The number of services that the registry tracks.
    pub fn len(&self) -> (count: usize)
        requires
            self.wf(),
        ensures
            count == self@.dom().len(),
            self@.dom().finite(),
    {
        proof {
            lemma_tracked_count(self.handles@);
        }
        self.handles.len()
    }

    fn find(&self, key: &String) -> (place: Option<usize>)
        ensures
            match place {
                Some(i) => i < self.handles.len() && self.handles@[i as int].identifier@ == key@,
                None => !tracks(self.handles@, key@),
            },
    {
        let mut i: usize = 0;
        while i < self.handles.len()
            invariant
                i <= self.handles.len(),
                forall|j: int| 0 <= j < i ==> self.handles@[j].identifier@ != key@,
            decreases self.handles.len() - i,
        {
            if self.handles[i].identifier == *key {
                return Some(i);
            }
            i = i + 1;
        }
        None
    }

    fn put(&mut self, i: usize, key: String, status: Status)
        requires
            old(self).wf(),
            i < old(self).handles.len(),
            old(self).handles@[i as int].identifier@ == key@,
        ensures
            final(self).wf(),
            final(self)@ == old(self)@.insert(key@, status),
    {
        let ghost before = self.handles@;
        self.handles.set(i, ServiceHandle { identifier: key, status });
        proof {
            let after = self.handles@;
            assert(distinct(after)) by {
                assert forall|a: int, b: int|
                    0 <= a < after.len() && 0 <= b < after.len() && #[trigger] after[a].identifier@
                        == #[trigger] after[b].identifier@ implies a == b by {
                    assert(after[a].identifier@ == before[a].identifier@);
                    assert(after[b].identifier@ == before[b].identifier@);
                }
            }
            assert forall|id: Seq<char>| tracks(after, id) <==> tracks(before, id) by {
                if tracks(after, id) {
                    let a = place_of(after, id);
                    assert(before[a].identifier@ == id);
                }
                if tracks(before, id) {
                    let a = place_of(before, id);
                    assert(after[a].identifier@ == id);
                }
            }
            assert forall|id: Seq<char>| tracks(after, id) implies #[trigger] services_of(
                after,
            )[id] == services_of(before).insert(key@, status)[id] by {
                let a = place_of(after, id);
                lemma_handle_gives_status(after, a);
                lemma_handle_gives_status(before, a);
            }
            assert(tracks(before, key@));
            assert(services_of(after) =~= services_of(before).insert(key@, status));
        }
    }

    /// The status of the service `identifier` at this moment. The report may
    /// be stale by the time the caller acts on it.
    pub fn status(&self, identifier: &str) -> (report: StatusReport)
        requires
            self.wf(),
        ensures
            report.identifier@ == identifier@,
            report.status == self.status_of(identifier@),
    {
        let key = String::from_str(identifier);
        let status = match self.find(&key) {
            Some(i) => {
                proof {
                    lemma_handle_gives_status(self.handles@, i as int);
                }
                self.handles[i].status
            },
            None => Status::Shutdown,
        };
        StatusReport { identifier: key, status }
    }

    /// Whether the mailbox of the service `identifier` takes messages: it
    /// does while the service is live, and it is closed from the moment the
    /// service is told to stop until it is started again.
    pub fn accepts_messages(&self, identifier: &str) -> (open: bool)
        requires
            self.wf(),
        ensures
            open == self.status_of(identifier@).is_live(),
    {
        self.status(identifier).status.is_running()
    }

    /// Asks for the service `identifier` to be started. Where the service is
    /// shut down, or was never started, it becomes `Starting` and the caller
    /// spawns its run loop; where it is starting or started, nothing happens.
    pub fn start(&mut self, identifier: &str) -> (outcome: StartOutcome)
        requires
            old(self).wf(),
        ensures
            final(self).wf(),
            final(self)@ == apply(old(self)@, Event::Start(identifier@)),
            outcome == start_outcome(old(self)@, identifier@),
    {
        let key = String::from_str(identifier);
        match self.find(&key) {
            Some(i) => {
                proof {
                    lemma_handle_gives_status(self.handles@, i as int);
                }
                match self.handles[i].status {
                    Status::Shutdown => {
                        self.put(i, key, Status::Starting);
                        StartOutcome::Spawned
                    },
                    Status::Starting => StartOutcome::AlreadyRunning,
                    Status::Started => StartOutcome::AlreadyRunning,
                    Status::ShuttingDown => StartOutcome::Refused,
                }
            },
            None => {
                let ghost before = self.handles@;
                self.handles.push(ServiceHandle { identifier: key, status: Status::Starting });
                proof {
                    let after = self.handles@;
                    let last = before.len() as int;
                    assert(distinct(after)) by {
                        assert forall|a: int, b: int|
                            0 <= a < after.len() && 0 <= b < after.len()
                                && #[trigger] after[a].identifier@
                                == #[trigger] after[b].identifier@ implies a == b by {
                            if a < last {
                                assert(before[a].identifier@ == after[a].identifier@);
                            }
                            if b < last {
                                assert(before[b].identifier@ == after[b].identifier@);
                            }
                        }
                    }
                    assert forall|id: Seq<char>| tracks(after, id) <==> (id == identifier@
                        || tracks(before, id)) by {
                        if tracks(after, id) {
                            let a = place_of(after, id);
                            if a < last {
                                assert(before[a].identifier@ == id);
                            }
                        }
                        if tracks(before, id) {
                            let a = place_of(before, id);
                            assert(after[a].identifier@ == id);
                        }
                        if id == identifier@ {
                            assert(after[last].identifier@ == id);
                        }
                    }
                    assert forall|id: Seq<char>| tracks(after, id) implies #[trigger] services_of(
                        after,
                    )[id] == services_of(before).insert(identifier@, Status::Starting)[id] by {
                        let a = place_of(after, id);
                        lemma_handle_gives_status(after, a);
                        if a < last {
                            assert(before[a].identifier@ == id);
                            lemma_handle_gives_status(before, a);
                        }
                    }
                    assert(services_of(after) =~= services_of(before).insert(
                        identifier@,
                        Status::Starting,
                    ));
                }
                StartOutcome::Spawned
            },
        }
    }

    /// Records that the run loop of the service `identifier` has begun to
    /// read its mailbox: a `Starting` service is `Started`. Says whether the
    /// status changed.
    pub fn mark_started(&mut self, identifier: &str) -> (changed: bool)
        requires
            old(self).wf(),
        ensures
            final(self).wf(),
            final(self)@ == apply(old(self)@, Event::Started(identifier@)),
            changed == (old(self).status_of(identifier@) == Status::Starting),
    {
        self.advance(identifier, Status::Starting, Status::Started)
    }

    /// Records that the run loop of the service `identifier` has returned: a
    /// service that was `ShuttingDown` is `Shutdown`, and its handle is kept
    /// for a later start. Says whether the status changed.
    pub fn mark_stopped(&mut self, identifier: &str) -> (changed: bool)
        requires
            old(self).wf(),
        ensures
            final(self).wf(),
            final(self)@ == apply(old(self)@, Event::Stopped(identifier@)),
            changed == (old(self).status_of(identifier@) == Status::ShuttingDown),
    {
        self.advance(identifier, Status::ShuttingDown, Status::Shutdown)
    }

    /// Records that the run loop of the service `identifier` has returned,
    /// whether it was told to stop or gave up by itself: a service that was
    /// still live is told to stop first, so that it passes through
    /// `ShuttingDown` on its way to `Shutdown`. Says whether the status changed.
    pub fn mark_exited(&mut self, identifier: &str) -> (changed: bool)
        requires
            old(self).wf(),
        ensures
            final(self).wf(),
            final(self)@ == apply(
                apply(old(self)@, Event::Stop(identifier@)),
                Event::Stopped(identifier@),
            ),
            final(self).status_of(identifier@) == Status::Shutdown,
            changed == (old(self).status_of(identifier@) != Status::Shutdown),
    {
        let told = self.stop(identifier);
        let stopped = self.mark_stopped(identifier);
        told || stopped
    }

    fn advance(&mut self, identifier: &str, from: Status, to: Status) -> (changed: bool)
        requires
            old(self).wf(),
            from != Status::Shutdown,
        ensures
            final(self).wf(),
            final(self)@ == moved(old(self)@, identifier@, from, to),
            changed == (old(self).status_of(identifier@) == from),
    {
        let key = String::from_str(identifier);
        match self.find(&key) {
            Some(i) => {
                proof {
                    lemma_handle_gives_status(self.handles@, i as int);
                }
                if self.handles[i].status == from {
                    self.put(i, key, to);
                    true
                } else {
                    false
                }
            },
            None => false,
        }
    }

    /// Asks the service `identifier` to stop: a live service is
    /// `ShuttingDown`, and the caller closes its mailbox. Says whether the
    /// status changed.
    pub fn stop(&mut self, identifier: &str) -> (changed: bool)
        requires
            old(self).wf(),
        ensures
            final(self).wf(),
            final(self)@ == apply(old(self)@, Event::Stop(identifier@)),
            changed == old(self).status_of(identifier@).is_live(),
    {
        let key = String::from_str(identifier);
        match self.find(&key) {
            Some(i) => {
                proof {
                    lemma_handle_gives_status(self.handles@, i as int);
                }
                let status = self.handles[i].status;
                if status.is_running() {
                    self.put(i, key, Status::ShuttingDown);
                    true
                } else {
                    assert(self@ =~= self@.insert(identifier@, status));
                    false
                }
            },
            None => false,
        }
    }

    /// Asks every service to stop: each live service is `ShuttingDown`. The
    /// identifiers returned are those of the services that were live, in the
    /// order in which they were first started: the caller closes their
    /// mailboxes, and their run loops exit in their own time.
    pub fn shutdown(&mut self) -> (signalled: Vec<String>)
        requires
            old(self).wf(),
        ensures
            final(self).wf(),
            final(self)@ == apply(old(self)@, Event::Shutdown),
            forall|id: Seq<char>|
                (exists|k: int| 0 <= k < signalled.len() && #[trigger] signalled@[k]@ == id)
                    <==> (old(self)@.dom().contains(id) && old(self)@[id].is_live()),
            forall|a: int, b: int|
                0 <= a < signalled.len() && 0 <= b < signalled.len() && #[trigger] signalled@[a]@
                    == #[trigger] signalled@[b]@ ==> a == b,
    {
        let ghost before = self.handles@;
        let mut signalled: Vec<String> = Vec::new();
        let mut i: usize = 0;
        while i < self.handles.len()
            invariant
                i <= self.handles.len(),
                self.handles.len() == before.len(),
                distinct(before),
                forall|j: int|
                    0 <= j < before.len() ==> #[trigger] self.handles@[j].identifier@
                        == before[j].identifier@,
                forall|j: int|
                    0 <= j < i ==> #[trigger] self.handles@[j].status == told_to_stop(
                        before[j].status,
                    ),
                forall|j: int|
                    i <= j < before.len() ==> #[trigger] self.handles@[j].status
                        == before[j].status,
                forall|k: int|
                    0 <= k < signalled.len() ==> live_among(before, i as int, #[trigger] signalled@[k]@),
                forall|j: int|
                    0 <= j < i && before[j].status.is_live() ==> names(
                        signalled@,
                        #[trigger] before[j].identifier@,
                    ),
                forall|a: int, b: int|
                    0 <= a < signalled.len() && 0 <= b < signalled.len()
                        && #[trigger] signalled@[a]@ == #[trigger] signalled@[b]@ ==> a == b,
            decreases self.handles.len() - i,
        {
            let ghost sent = signalled@;
            if self.handles[i].status.is_running() {
                let key = self.handles[i].identifier.clone();
                let name = self.handles[i].identifier.clone();
                self.handles.set(i, ServiceHandle { identifier: key, status: Status::ShuttingDown });
                signalled.push(name);
                proof {
                    let last = sent.len() as int;
                    let here = before[i as int].identifier@;
                    assert(signalled@[last]@ == here);
                    assert(!names(sent, here)) by {
                        if names(sent, here) {
                            let k = choose|k: int| 0 <= k < sent.len() && #[trigger] sent[k]@ == here;
                            assert(live_among(before, i as int, sent[k]@));
                            let j = choose|j: int|
                                0 <= j < i && j < before.len() && before[j].status.is_live()
                                    && #[trigger] before[j].identifier@ == sent[k]@;
                            assert(before[j].identifier@ == before[i as int].identifier@);
                        }
                    }
                    assert forall|a: int, b: int|
                        0 <= a < signalled.len() && 0 <= b < signalled.len()
                            && #[trigger] signalled@[a]@
                            == #[trigger] signalled@[b]@ implies a == b by {
                        if a < last {
                            assert(signalled@[a] == sent[a]);
                        }
                        if b < last {
                            assert(signalled@[b] == sent[b]);
                        }
                    }
                }
            }
            proof {
                assert forall|k: int| 0 <= k < signalled.len() implies live_among(
                    before,
                    i + 1,
                    #[trigger] signalled@[k]@,
                ) by {
                    if k < sent.len() {
                        assert(signalled@[k] == sent[k]);
                        assert(live_among(before, i as int, sent[k]@));
                        let j = choose|j: int|
                            0 <= j < i && j < before.len() && before[j].status.is_live()
                                && #[trigger] before[j].identifier@ == sent[k]@;
                        assert(before[j].identifier@ == signalled@[k]@);
                    } else {
                        assert(before[i as int].identifier@ == signalled@[k]@);
                    }
                }
                assert forall|j: int| 0 <= j < i + 1 && before[j].status.is_live() implies names(
                    signalled@,
                    #[trigger] before[j].identifier@,
                ) by {
                    if j < i {
                        assert(names(sent, before[j].identifier@));
                        let k = choose|k: int|
                            0 <= k < sent.len() && #[trigger] sent[k]@ == before[j].identifier@;
                        assert(signalled@[k]@ == before[j].identifier@);
                    } else {
                        assert(signalled@[sent.len() as int]@ == before[j].identifier@);
                    }
                }
            }
            i = i + 1;
        }
        proof {
            let after = self.handles@;
            assert(distinct(after)) by {
                assert forall|a: int, b: int|
                    0 <= a < after.len() && 0 <= b < after.len() && #[trigger] after[a].identifier@
                        == #[trigger] after[b].identifier@ implies a == b by {
                    assert(after[a].identifier@ == before[a].identifier@);
                    assert(after[b].identifier@ == before[b].identifier@);
                }
            }
            assert forall|id: Seq<char>| tracks(after, id) <==> tracks(before, id) by {
                if tracks(after, id) {
                    let a = place_of(after, id);
                    assert(before[a].identifier@ == id);
                }
                if tracks(before, id) {
                    let a = place_of(before, id);
                    assert(after[a].identifier@ == id);
                }
            }
            let target = services_of(before).map_values(|status: Status| told_to_stop(status));
            assert forall|id: Seq<char>| tracks(after, id) implies #[trigger] services_of(
                after,
            )[id] == target[id] by {
                let a = place_of(after, id);
                lemma_handle_gives_status(after, a);
                lemma_handle_gives_status(before, a);
            }
            assert(services_of(after) =~= target);
            assert forall|id: Seq<char>|
                (exists|k: int| 0 <= k < signalled.len() && #[trigger] signalled@[k]@ == id) <==> (
                services_of(before).dom().contains(id) && services_of(before)[id].is_live()) by {
                if exists|k: int| 0 <= k < signalled.len() && #[trigger] signalled@[k]@ == id {
                    let k = choose|k: int| 0 <= k < signalled.len() && #[trigger] signalled@[k]@ == id;
                    assert(live_among(before, i as int, signalled@[k]@));
                    let j = choose|j: int|
                        0 <= j < i && j < before.len() && before[j].status.is_live()
                            && #[trigger] before[j].identifier@ == signalled@[k]@;
                    lemma_handle_gives_status(before, j);
                }
                if services_of(before).dom().contains(id) && services_of(before)[id].is_live() {
                    let j = place_of(before, id);
                    lemma_handle_gives_status(before, j);
                    assert(before[j].status.is_live());
                    assert(names(signalled@, before[j].identifier@));
                }
            }
        }
        signalled
    }
}

/// Where no two handles are of one service, the services tracked are as many
/// as the handles.
proof fn lemma_tracked_count(handles: Seq<ServiceHandle>)
    requires
        distinct(handles),
    ensures
        services_of(handles).dom().finite(),
        services_of(handles).dom().len() == handles.len(),
    decreases handles.len(),
{
    let dom = services_of(handles).dom();
    if handles.len() == 0 {
        assert(dom =~= Set::<Seq<char>>::empty());
    } else {
        let front = handles.drop_last();
        let id = handles.last().identifier@;
        assert forall|i: int, j: int|
            0 <= i < front.len() && 0 <= j < front.len() && #[trigger] front[i].identifier@
                == #[trigger] front[j].identifier@ implies i == j by {
            assert(handles[i].identifier@ == handles[j].identifier@);
        }
        lemma_tracked_count(front);
        let rest = services_of(front).dom();
        assert(!rest.contains(id)) by {
            if tracks(front, id) {
                let a = place_of(front, id);
                assert(handles[a].identifier@ == handles[handles.len() - 1].identifier@);
            }
        }
        assert(dom =~= rest.insert(id)) by {
            assert forall|k: Seq<char>| dom.contains(k) <==> rest.insert(id).contains(k) by {
                if tracks(handles, k) {
                    let a = place_of(handles, k);
                    if a < front.len() {
                        assert(front[a].identifier@ == k);
                    }
                }
                if tracks(front, k) {
                    let a = place_of(front, k);
                    assert(handles[a].identifier@ == k);
                }
                if k == id {
                    assert(handles[handles.len() - 1].identifier@ == k);
                }
            }
        }
    }
}

} // verus!
