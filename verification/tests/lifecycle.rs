use jormungandr_services::registry::{Registry, StartOutcome};
use jormungandr_services::status::Status;

#[test]
fn status_cycle_has_four_edges() {
    assert_eq!(Status::initial(), Status::Shutdown);
    assert_eq!(Status::Shutdown.next(), Status::Starting);
    assert_eq!(Status::Starting.next(), Status::Started);
    assert_eq!(Status::Started.next(), Status::ShuttingDown);
    assert_eq!(Status::ShuttingDown.next(), Status::Shutdown);
}

#[test]
fn status_may_stay_or_move_one_edge() {
    let all = [Status::Shutdown, Status::Starting, Status::Started, Status::ShuttingDown];
    for from in all {
        for to in all {
            let expected = to == from || to == from.next();
            assert_eq!(from.can_become(to), expected, "{:?} -> {:?}", from, to);
        }
    }
    assert!(!Status::Shutdown.can_become(Status::Started));
    assert!(!Status::Starting.can_become(Status::ShuttingDown));
    assert!(!Status::Started.can_become(Status::Shutdown));
    assert!(!Status::Started.can_become(Status::Starting));
}

#[test]
fn status_predicates_and_names() {
    assert!(Status::Shutdown.is_shutdown());
    assert!(!Status::Starting.is_shutdown());
    assert!(Status::Started.is_started());
    assert!(!Status::ShuttingDown.is_started());
    assert!(Status::Starting.is_running());
    assert!(Status::Started.is_running());
    assert!(!Status::Shutdown.is_running());
    assert!(!Status::ShuttingDown.is_running());
    assert_eq!(Status::Shutdown.name(), "shutdown");
    assert_eq!(Status::Starting.name(), "starting");
    assert_eq!(Status::Started.name(), "started");
    assert_eq!(Status::ShuttingDown.name(), "shutting down");
}

#[test]
fn unknown_service_is_shutdown() {
    let registry = Registry::new();
    let report = registry.status("configuration");
    assert_eq!(report.identifier, "configuration");
    assert_eq!(report.status, Status::Shutdown);
    assert_eq!(registry.len(), 0);
}

#[test]
fn start_is_idempotent() {
    let mut registry = Registry::new();
    let mut spawned = 0;
    for _ in 0..10 {
        if registry.start("configuration") == StartOutcome::Spawned {
            spawned += 1;
        }
    }
    assert_eq!(spawned, 1);
    assert_eq!(registry.len(), 1);
    assert_eq!(registry.status("configuration").status, Status::Starting);
}

#[test]
fn start_outcomes_by_status() {
    let mut registry = Registry::new();
    assert_eq!(registry.start("console"), StartOutcome::Spawned);
    assert_eq!(registry.start("console"), StartOutcome::AlreadyRunning);
    assert!(registry.mark_started("console"));
    assert_eq!(registry.start("console"), StartOutcome::AlreadyRunning);
    assert_eq!(registry.status("console").status, Status::Started);
    assert!(registry.stop("console"));
    assert_eq!(registry.start("console"), StartOutcome::Refused);
    assert_eq!(registry.status("console").status, Status::ShuttingDown);
    assert!(registry.mark_stopped("console"));
    assert_eq!(registry.status("console").status, Status::Shutdown);
    assert_eq!(registry.len(), 1);
    assert_eq!(registry.start("console"), StartOutcome::Spawned);
    assert_eq!(registry.status("console").status, Status::Starting);
    assert_eq!(registry.len(), 1);
}

#[test]
fn full_lifecycle_follows_the_edges() {
    let mut registry = Registry::new();
    let mut seen = vec![registry.status("monitoring").status];
    registry.start("monitoring");
    seen.push(registry.status("monitoring").status);
    registry.mark_started("monitoring");
    seen.push(registry.status("monitoring").status);
    registry.shutdown();
    seen.push(registry.status("monitoring").status);
    registry.mark_stopped("monitoring");
    seen.push(registry.status("monitoring").status);
    assert_eq!(
        seen,
        vec![
            Status::Shutdown,
            Status::Starting,
            Status::Started,
            Status::ShuttingDown,
            Status::Shutdown
        ]
    );
    for pair in seen.windows(2) {
        assert!(pair[0].can_become(pair[1]));
    }
}

#[test]
fn events_out_of_turn_change_nothing() {
    let mut registry = Registry::new();
    assert!(!registry.mark_started("configuration"));
    assert!(!registry.mark_stopped("configuration"));
    assert!(!registry.stop("configuration"));
    assert_eq!(registry.len(), 0);
    registry.start("configuration");
    assert!(!registry.mark_stopped("configuration"));
    assert_eq!(registry.status("configuration").status, Status::Starting);
    registry.mark_started("configuration");
    assert!(!registry.mark_started("configuration"));
    assert!(!registry.mark_stopped("configuration"));
    assert_eq!(registry.status("configuration").status, Status::Started);
    registry.stop("configuration");
    assert!(!registry.stop("configuration"));
    assert!(!registry.mark_started("configuration"));
    assert_eq!(registry.status("configuration").status, Status::ShuttingDown);
}

#[test]
fn shutdown_signals_every_live_service() {
    let mut registry = Registry::new();
    registry.start("monitoring");
    registry.mark_started("monitoring");
    registry.start("configuration");
    registry.start("console");
    registry.mark_started("console");
    registry.stop("console");
    registry.mark_stopped("console");
    registry.start("network");
    registry.mark_started("network");
    registry.stop("network");

    let signalled = registry.shutdown();
    assert_eq!(signalled, vec!["monitoring".to_string(), "configuration".to_string()]);
    assert_eq!(registry.status("monitoring").status, Status::ShuttingDown);
    assert_eq!(registry.status("configuration").status, Status::ShuttingDown);
    assert_eq!(registry.status("console").status, Status::Shutdown);
    assert_eq!(registry.status("network").status, Status::ShuttingDown);
    assert_eq!(registry.status("unknown").status, Status::Shutdown);
    assert_eq!(registry.len(), 4);

    let again = registry.shutdown();
    assert!(again.is_empty());
}

#[test]
fn services_do_not_disturb_each_other() {
    let mut registry = Registry::new();
    registry.start("configuration");
    registry.start("console");
    registry.mark_started("configuration");
    assert_eq!(registry.status("console").status, Status::Starting);
    registry.stop("configuration");
    assert_eq!(registry.status("console").status, Status::Starting);
    assert_eq!(registry.status("configuration").status, Status::ShuttingDown);
}

#[test]
fn run_loop_that_gives_up_passes_through_shutting_down() {
    let mut registry = Registry::new();
    assert!(!registry.mark_exited("network"));
    registry.start("network");
    registry.mark_started("network");
    assert!(registry.accepts_messages("network"));
    assert!(registry.mark_exited("network"));
    assert_eq!(registry.status("network").status, Status::Shutdown);
    assert!(!registry.accepts_messages("network"));
    assert!(!registry.mark_exited("network"));
    registry.start("network");
    registry.mark_started("network");
    registry.stop("network");
    assert!(!registry.accepts_messages("network"));
    assert!(registry.mark_exited("network"));
    assert_eq!(registry.status("network").status, Status::Shutdown);
    assert!(!registry.accepts_messages("unknown"));
}
