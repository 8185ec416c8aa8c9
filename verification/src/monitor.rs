//! The boot policy: bring a service to `Started` within a fixed number of
//! attempts, or fail and take the whole process down.

use vstd::prelude::*;
use vstd::string::*;
use crate::status::Status;

verus! {

/// The name under which the registry knows the service.
pub const SERVICE_IDENTIFIER: &'static str = "monitoring";

/// How many times the monitor acts on a service before it gives up.
pub const MAX_NUMBER_ATTEMPTS: usize = 2;

/// How long the monitor waits before it polls a service in transition again.
pub const RETRY_DELAY_MILLIS: u64 = 100;

/// What the monitor decides after one status poll, without the data it carries.
pub enum Decision {
    /// Ask the registry to start the service, then poll again.
    Start,
    /// Wait for the retry delay, then poll again.
    Wait,
    /// The service is started: stop polling.
    Succeed,
    /// The attempts are used up and the service is not started.
    Fail,
}

/// The decision of the policy for `attempts` attempts already consumed and the
/// status just observed.
pub open spec fn decide(attempts: nat, status: Status) -> Decision {
    if attempts >= MAX_NUMBER_ATTEMPTS && status != Status::Started {
        Decision::Fail
    } else {
        match status {
            Status::Shutdown => Decision::Start,
            Status::Starting => Decision::Wait,
            Status::ShuttingDown => Decision::Wait,
            Status::Started => Decision::Succeed,
        }
    }
}

/// The attempts consumed after one poll: every poll that does not fail costs one.
pub open spec fn attempts_after(attempts: nat, status: Status) -> nat {
    if decide(attempts, status) is Fail {
        attempts
    } else {
        attempts + 1
    }
}

/// The start requests that the monitor issues while it observes `observations`
/// in order, with `attempts` attempts already consumed. It stops reading at
/// the first observation on which it succeeds or fails.
pub open spec fn start_requests(attempts: nat, observations: Seq<Status>) -> nat
    decreases observations.len(),
{
    if observations.len() == 0 {
        0
    } else {
        match decide(attempts, observations[0]) {
            Decision::Fail => 0,
            Decision::Succeed => 0,
            Decision::Start => 1 + start_requests(attempts + 1, observations.skip(1)),
            Decision::Wait => start_requests(attempts + 1, observations.skip(1)),
        }
    }
}

/// How the boot of one service ends.
pub enum Outcome {
    /// The observations ran out before the monitor succeeded or failed.
    Polling,
    /// The service was seen started.
    Started,
    /// The monitor gave up after `attempts` attempts, on seeing `status`.
    Failed { status: Status, attempts: nat },
}

/// How the boot ends when the monitor observes `observations` in order, with
/// `attempts` attempts already consumed.
pub open spec fn outcome(attempts: nat, observations: Seq<Status>) -> Outcome
    decreases observations.len(),
{
    if observations.len() == 0 {
        Outcome::Polling
    } else {
        match decide(attempts, observations[0]) {
            Decision::Fail => Outcome::Failed { status: observations[0], attempts },
            Decision::Succeed => Outcome::Started,
            Decision::Start => outcome(attempts + 1, observations.skip(1)),
            Decision::Wait => outcome(attempts + 1, observations.skip(1)),
        }
    }
}

/// The service could not be brought to `Started` within the attempts allowed.
#[derive(Debug)]
pub struct StartFailure {
    /// The service that did not start.
    pub identifier: String,
    /// The status that was observed last.
    pub status: Status,
    /// The attempts that were made.
    pub attempts: usize,
}

/// What the host does next for the service that is being booted.
#[derive(Debug)]
pub enum BootStep {
    /// Ask the registry to start the service, then poll its status again.
    Start,
    /// Sleep for `millis` milliseconds, then poll the status again.
    Wait { millis: u64 },
    /// The service is started.
    Started,
    /// Give up: the boot has failed.
    Fail(StartFailure),
}

impl BootStep {
    /// The decision that the step carries out.
    pub open spec fn decision(self) -> Decision {
        match self {
            BootStep::Start => Decision::Start,
            BootStep::Wait { .. } => Decision::Wait,
            BootStep::Started => Decision::Succeed,
            BootStep::Fail(_) => Decision::Fail,
        }
    }
}

/// What the monitor does once the boot of the services it manages has ended.
#[derive(Clone, Copy, Debug, PartialEq, Eq, Structural)]
pub enum Reaction {
    /// Every service is started: nothing is left to do.
    KeepRunning,
    /// A service failed to start: shut every service down.
    ShutdownAll,
}

/// Boots one service: polls its status and decides what to do about it, at
/// most `MAX_NUMBER_ATTEMPTS` times.
pub struct MonitorService {
    number_attempts: usize,
}

impl MonitorService {
    /// The attempts consumed so far.
    pub closed spec fn attempts(&self) -> nat {
        self.number_attempts as nat
    }

    /// A monitor that has not polled yet.
    pub fn prepare() -> (monitor: Self)
        ensures
            monitor.attempts() == 0,
    {
        MonitorService { number_attempts: 0 }
    }

    /// The attempts consumed so far.
    pub fn number_attempts(&self) -> (attempts: usize)
        ensures
            attempts == self.attempts(),
    {
        self.number_attempts
    }

    /// Takes the status that a poll of `identifier` returned and decides the
    /// next step. A poll that does not fail consumes one attempt.
    pub fn observe(&mut self, identifier: &str, status: Status) -> (step: BootStep)
        requires
            old(self).attempts() < usize::MAX,
        ensures
            step.decision() == decide(old(self).attempts(), status),
            final(self).attempts() == attempts_after(old(self).attempts(), status),
            step matches BootStep::Wait { millis } ==> millis == RETRY_DELAY_MILLIS,
            step matches BootStep::Fail(failure) ==> failure.identifier@ == identifier@
                && failure.status == status && failure.attempts == old(self).attempts(),
    {
        if self.number_attempts >= MAX_NUMBER_ATTEMPTS && !status.is_started() {
            return BootStep::Fail(
                StartFailure {
                    identifier: String::from_str(identifier),
                    status,
                    attempts: self.number_attempts,
                },
            );
        }
        self.number_attempts = self.number_attempts + 1;
        match status {
            Status::Shutdown => BootStep::Start,
            Status::ShuttingDown => BootStep::Wait { millis: RETRY_DELAY_MILLIS },
            Status::Starting => BootStep::Wait { millis: RETRY_DELAY_MILLIS },
            Status::Started => BootStep::Started,
        }
    }

    /// A failed boot is fatal to the whole process: the monitor answers it by
    /// shutting every service down.
    pub fn react<E>(result: &Result<(), E>) -> (reaction: Reaction)
        ensures
            reaction == (if result is Ok {
                Reaction::KeepRunning
            } else {
                Reaction::ShutdownAll
            }),
    {
        match result {
            Ok(_) => Reaction::KeepRunning,
            Err(_) => Reaction::ShutdownAll,
        }
    }
}

/// However the observed statuses run, the monitor issues at most
/// `MAX_NUMBER_ATTEMPTS` start requests, less the attempts already consumed.
pub proof fn lemma_start_requests_bounded(attempts: nat, observations: Seq<Status>)
    ensures
        attempts <= MAX_NUMBER_ATTEMPTS ==> start_requests(attempts, observations)
            <= MAX_NUMBER_ATTEMPTS - attempts,
        attempts >= MAX_NUMBER_ATTEMPTS ==> start_requests(attempts, observations) == 0,
    decreases observations.len(),
{
    if observations.len() > 0 {
        lemma_start_requests_bounded(attempts + 1, observations.skip(1));
    }
}

/// A monitor that starts fresh issues at most `MAX_NUMBER_ATTEMPTS` start
/// requests, whatever it observes.
pub proof fn lemma_at_most_max_start_requests(observations: Seq<Status>)
    ensures
        start_requests(0, observations) <= MAX_NUMBER_ATTEMPTS,
{
    lemma_start_requests_bounded(0, observations);
}

/// A fresh monitor has made up its mind after `MAX_NUMBER_ATTEMPTS + 1` polls:
/// it has seen the service started, or it has failed with exactly
/// `MAX_NUMBER_ATTEMPTS` attempts made and with the status it saw last.
pub proof fn lemma_boot_ends(observations: Seq<Status>)
    requires
        observations.len() > MAX_NUMBER_ATTEMPTS,
    ensures
        outcome(0, observations) is Started || (outcome(0, observations) matches Outcome::Failed {
            status,
            attempts,
        } && attempts == MAX_NUMBER_ATTEMPTS && status == observations[MAX_NUMBER_ATTEMPTS as int]
            && status != Status::Started),
{
    let rest = observations.skip(1);
    let last = rest.skip(1);
    assert(rest[0] == observations[1]);
    assert(last[0] == observations[2]);
    reveal_with_fuel(outcome, 4);
}

} // verus!
