use jormungandr_services::measurement::{MeasurementReportInterval, MeasurementReporter};
use std::sync::atomic::{AtomicU32, Ordering};

#[test]
fn standard_interval_is_twenty_rounds() {
    let rounds: u32 = MeasurementReportInterval::Standard.into();
    assert_eq!(rounds, 20);
}

#[test]
fn long_interval_is_a_hundred_rounds() {
    let rounds: u32 = MeasurementReportInterval::Long.into();
    assert_eq!(rounds, 100);
}

#[test]
fn new_reporter_has_not_reached_its_interval() {
    let reporter = MeasurementReporter::new(MeasurementReportInterval::Standard);
    assert!(!reporter.is_interval_reached());
}

#[test]
fn interval_is_reached_after_twenty_increments() {
    let mut reporter = MeasurementReporter::new(MeasurementReportInterval::Standard);
    for _ in 0..19 {
        reporter.increment();
        assert!(!reporter.is_interval_reached());
    }
    reporter.increment();
    assert!(reporter.is_interval_reached());
    reporter.increment();
    assert!(reporter.is_interval_reached());
}

#[test]
fn do_if_interval_reached_runs_the_method_only_when_due() {
    let calls = AtomicU32::new(0);
    let mut reporter = MeasurementReporter::new(MeasurementReportInterval::Standard);
    reporter.do_if_interval_reached(|| {
        calls.fetch_add(1, Ordering::SeqCst);
    });
    assert_eq!(calls.load(Ordering::SeqCst), 0);
    for _ in 0..20 {
        reporter.increment();
    }
    reporter.do_if_interval_reached(|| {
        calls.fetch_add(1, Ordering::SeqCst);
    });
    reporter.do_if_interval_reached(|| {
        calls.fetch_add(1, Ordering::SeqCst);
    });
    assert_eq!(calls.load(Ordering::SeqCst), 2);
}

#[test]
fn do_if_interval_reached_and_inc_counts_and_starts_again() {
    let calls = AtomicU32::new(0);
    let mut reporter = MeasurementReporter::new(MeasurementReportInterval::Standard);
    for round in 0..63 {
        reporter.do_if_interval_reached_and_inc(|| {
            calls.fetch_add(1, Ordering::SeqCst);
        });
        let expected = (round + 1) / 21;
        assert_eq!(calls.load(Ordering::SeqCst), expected);
    }
    assert_eq!(calls.load(Ordering::SeqCst), 3);
    assert!(!reporter.is_interval_reached());
}

#[test]
fn long_interval_is_reached_after_a_hundred_rounds() {
    let mut reporter = MeasurementReporter::new(MeasurementReportInterval::Long);
    for _ in 0..99 {
        reporter.do_if_interval_reached_and_inc(|| panic!("too early"));
    }
    assert!(!reporter.is_interval_reached());
    reporter.increment();
    assert!(reporter.is_interval_reached());
}
