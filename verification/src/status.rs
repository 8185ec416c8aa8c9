//! The lifecycle of a supervised service.

use vstd::prelude::*;
use vstd::string::*;

verus! {

/// Lifecycle state of a service.
///
/// A service moves through the states in one fixed cycle:
/// `Shutdown`, `Starting`, `Started`, `ShuttingDown`, and back to `Shutdown`.
#[derive(Clone, Copy, Debug, PartialEq, Eq, Structural)]
pub enum Status {
    Shutdown,
    Starting,
    Started,
    ShuttingDown,
}

impl Status {
    /// The one state that follows `self` in the lifecycle.
    pub open spec fn successor(self) -> Status {
        match self {
            Status::Shutdown => Status::Starting,
            Status::Starting => Status::Started,
            Status::Started => Status::ShuttingDown,
            Status::ShuttingDown => Status::Shutdown,
        }
    }

    /// A status may stay as it is or move to its successor, and nothing else.
    pub open spec fn may_become(self, next: Status) -> bool {
        next == self || next == self.successor()
    }

    /// A live service has a run loop that was spawned and has not been told to stop.
    pub open spec fn is_live(self) -> bool {
        self == Status::Starting || self == Status::Started
    }

    /// The text that names the status in reports.
    pub open spec fn label(self) -> Seq<char> {
        match self {
            Status::Shutdown => "shutdown"@,
            Status::Starting => "starting"@,
            Status::Started => "started"@,
            Status::ShuttingDown => "shutting down"@,
        }
    }

    /// The state a freshly known service is in.
    pub fn initial() -> (status: Status)
        ensures
            status == Status::Shutdown,
    {
        Status::Shutdown
    }

    /// Moves one edge along the lifecycle.
    pub fn next(self) -> (next: Status)
        ensures
            next == self.successor(),
            self.may_become(next),
    {
        match self {
            Status::Shutdown => Status::Starting,
            Status::Starting => Status::Started,
            Status::Started => Status::ShuttingDown,
            Status::ShuttingDown => Status::Shutdown,
        }
    }

    /// Whether `next` is reachable from `self` by at most one edge.
    pub fn can_become(self, next: Status) -> (allowed: bool)
        ensures
            allowed == self.may_become(next),
    {
        next == self || next == self.next()
    }

    pub fn is_shutdown(&self) -> (b: bool)
        ensures
            b == (*self == Status::Shutdown),
    {
        *self == Status::Shutdown
    }

    pub fn is_started(&self) -> (b: bool)
        ensures
            b == (*self == Status::Started),
    {
        *self == Status::Started
    }

    /// Whether the service has a run loop that has not been told to stop.
    pub fn is_running(&self) -> (b: bool)
        ensures
            b == self.is_live(),
    {
        *self == Status::Starting || *self == Status::Started
    }

    /// The status by name, as it is written in reports.
    pub fn name(&self) -> (text: String)
        ensures
            text@ == self.label(),
    {
        match self {
            Status::Shutdown => String::from_str("shutdown"),
            Status::Starting => String::from_str("starting"),
            Status::Started => String::from_str("started"),
            Status::ShuttingDown => String::from_str("shutting down"),
        }
    }
}

/// Following the lifecycle from any state for four edges returns to that state,
/// and no shorter walk does.
pub proof fn lemma_lifecycle_is_a_cycle(status: Status)
    ensures
        status.successor() != status,
        status.successor().successor() != status,
        status.successor().successor().successor() != status,
        status.successor().successor().successor().successor() == status,
{
}

} // verus!
