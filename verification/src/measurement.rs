//! Pacing of progress reports while a measurement runs.

use vstd::prelude::*;

verus! {

/// How many rounds of a measurement pass between two reports.
#[derive(Debug, Clone, Copy)]
pub enum MeasurementReportInterval {
    Standard,
    Long,
}

impl MeasurementReportInterval {
    /// The number of rounds that the interval stands for.
    pub open spec fn rounds(self) -> u32 {
        match self {
            MeasurementReportInterval::Standard => 20,
            MeasurementReportInterval::Long => 100,
        }
    }
}

impl From<MeasurementReportInterval> for u32 {
    fn from(interval: MeasurementReportInterval) -> (rounds: u32) {
        match interval {
            MeasurementReportInterval::Standard => 20,
            MeasurementReportInterval::Long => 100,
        }
    }
}

impl vstd::std_specs::convert::FromSpecImpl<MeasurementReportInterval> for u32 {
    open spec fn obeys_from_spec() -> bool {
        true
    }

    open spec fn from_spec(interval: MeasurementReportInterval) -> u32 {
        interval.rounds()
    }
}

/// Counts the rounds of a measurement and tells when a report is due.
pub struct MeasurementReporter {
    interval: u32,
    counter: u32,
}

impl MeasurementReporter {
    /// The number of rounds after which a report is due.
    pub closed spec fn interval(&self) -> nat {
        self.interval as nat
    }

    /// The rounds counted since the counter was last at zero.
    pub closed spec fn counter(&self) -> nat {
        self.counter as nat
    }

    /// A report is due once the counter has reached the interval.
    pub open spec fn interval_reached(&self) -> bool {
        self.counter() >= self.interval()
    }

    pub fn new(interval: MeasurementReportInterval) -> (reporter: Self)
        ensures
            reporter.interval() == interval.rounds(),
            reporter.counter() == 0,
    {
        Self { interval: u32::from(interval), counter: 0u32 }
    }

    /// The rounds counted since the counter was last at zero.
    pub fn rounds(&self) -> (rounds: u32)
        ensures
            rounds == self.counter(),
    {
        self.counter
    }

    pub fn is_interval_reached(&self) -> (reached: bool)
        ensures
            reached == self.interval_reached(),
    {
        self.counter >= self.interval
    }

    /// Runs `method` if a report is due, and leaves the counter as it is.
    pub fn do_if_interval_reached<F: std::marker::Send>(&self, method: F) where F: Fn()
        requires
            self.interval_reached() ==> call_requires(method, ()),
        ensures
            self.interval_reached() ==> call_ensures(method, (), ()),
    {
        if self.is_interval_reached() {
            method();
        }
    }

    /// Runs `method` and starts the count again if a report is due; counts one
    /// more round if it is not.
    pub fn do_if_interval_reached_and_inc<F: std::marker::Send>(&mut self, method: F) where
        F: Fn(),

        requires
            old(self).interval_reached() ==> call_requires(method, ()),
        ensures
            final(self).interval() == old(self).interval(),
            old(self).interval_reached() ==> final(self).counter() == 0 && call_ensures(
                method,
                (),
                (),
            ),
            !old(self).interval_reached() ==> final(self).counter() == old(self).counter() + 1,
    {
        if self.is_interval_reached() {
            method();
            self.counter = 0;
        } else {
            self.increment();
        }
    }

    /// Counts one more round.
    pub fn increment(&mut self)
        requires
            old(self).counter() < u32::MAX,
        ensures
            final(self).counter() == old(self).counter() + 1,
            final(self).interval() == old(self).interval(),
    {
        self.counter = self.counter + 1;
    }
}

} // verus!
