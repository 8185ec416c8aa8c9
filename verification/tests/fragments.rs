use jormungandr_services::digest::Digest;
use jormungandr_services::fragment::{
    find_status, BlockDate, FragmentLog, FragmentNodeError, FragmentNodeReport, FragmentStatus,
    MemPoolCheck,
};
use jormungandr_services::fragment_verifier::{FragmentVerifier, FragmentVerifierError, MAX_TRY};

fn digest(seed: u8) -> Digest {
    Digest::from_bytes([seed; 32])
}

fn in_a_block() -> FragmentStatus {
    FragmentStatus::InABlock { date: BlockDate { epoch: 2, slot_id: 5 }, block: digest(200) }
}

fn rejected() -> FragmentStatus {
    FragmentStatus::Rejected { reason: "not enough funds".to_string() }
}

fn report(alias: &str, logs: Vec<(u8, FragmentStatus)>) -> FragmentNodeReport {
    FragmentNodeReport {
        alias: alias.to_string(),
        log_content: format!("log of {}", alias),
        fragment_logs: Ok(logs
            .into_iter()
            .map(|(seed, status)| FragmentLog::new(digest(seed), status))
            .collect()),
    }
}

fn unreachable_node(alias: &str) -> FragmentNodeReport {
    FragmentNodeReport {
        alias: alias.to_string(),
        log_content: format!("log of {}", alias),
        fragment_logs: Err(FragmentNodeError { message: "connection refused".to_string() }),
    }
}

fn same_status(a: &FragmentStatus, b: &FragmentStatus) -> bool {
    format!("{:?}", a) == format!("{:?}", b)
}

#[test]
fn status_kinds() {
    assert!(FragmentStatus::Pending.is_pending());
    assert!(!FragmentStatus::Pending.is_in_a_block());
    assert!(rejected().is_rejected());
    assert!(!rejected().is_in_a_block());
    assert!(in_a_block().is_in_a_block());
    assert!(!in_a_block().is_pending());
    assert!(same_status(&rejected().clone(), &rejected()));
    assert!(same_status(&in_a_block().clone(), &in_a_block()));
}

#[test]
fn log_and_check_accessors() {
    let log = FragmentLog::new(digest(1), rejected());
    assert!(log.fragment_id().same(&digest(1)));
    assert!(log.status().is_rejected());
    let check = MemPoolCheck::new(digest(4));
    assert!(check.fragment_id().same(&digest(4)));
}

#[test]
fn find_status_takes_the_first_entry_of_the_fragment() {
    let logs = vec![
        FragmentLog::new(digest(1), FragmentStatus::Pending),
        FragmentLog::new(digest(2), rejected()),
        FragmentLog::new(digest(2), in_a_block()),
    ];
    assert!(find_status(&logs, &digest(1)).unwrap().is_pending());
    assert!(find_status(&logs, &digest(2)).unwrap().is_rejected());
    assert!(find_status(&logs, &digest(3)).is_none());
    assert!(find_status(&vec![], &digest(1)).is_none());
}

#[test]
fn fragment_status_of_a_logged_fragment() {
    let node = report("leader1", vec![(1, FragmentStatus::Pending), (2, in_a_block())]);
    let verifier = FragmentVerifier;
    let status = verifier.fragment_status(MemPoolCheck::new(digest(2)), &node).unwrap();
    assert!(same_status(&status, &in_a_block()));
    let status = verifier.fragment_status(MemPoolCheck::new(digest(1)), &node).unwrap();
    assert!(status.is_pending());
}

#[test]
fn fragment_status_of_an_unknown_fragment() {
    let node = report("leader1", vec![(1, FragmentStatus::Pending)]);
    let error = FragmentVerifier.fragment_status(MemPoolCheck::new(digest(9)), &node).unwrap_err();
    match error {
        FragmentVerifierError::FragmentNoInMemPoolLogs { alias, fragment_id, logs } => {
            assert_eq!(alias, "leader1");
            assert!(fragment_id.same(&digest(9)));
            assert_eq!(logs, "log of leader1");
        }
        other => panic!("{:?}", other),
    }
}

#[test]
fn fragment_status_of_an_unreachable_node() {
    let node = unreachable_node("leader2");
    let error = FragmentVerifier.fragment_status(MemPoolCheck::new(digest(1)), &node).unwrap_err();
    match error {
        FragmentVerifierError::FragmentVerifierError(cause) => {
            assert_eq!(cause.message, "connection refused");
        }
        other => panic!("{:?}", other),
    }
}

#[test]
fn is_in_block_accepts_only_fragments_in_a_block() {
    let node = report("passive", vec![]);
    assert!(FragmentVerifier.is_in_block(in_a_block(), &node).is_ok());
    for status in [FragmentStatus::Pending, rejected()] {
        let shown = format!("{:?}", status);
        match FragmentVerifier.is_in_block(status, &node).unwrap_err() {
            FragmentVerifierError::FragmentNotInBlock { alias, status, logs } => {
                assert_eq!(alias, "passive");
                assert_eq!(format!("{:?}", status), shown);
                assert_eq!(logs, "log of passive");
            }
            other => panic!("{:?}", other),
        }
    }
}

#[test]
fn conclusive_status_is_rejected_or_in_a_block() {
    let check = MemPoolCheck::new(digest(1));
    let verifier = FragmentVerifier;
    assert!(verifier.conclusive_status(&check, &report("a", vec![(1, FragmentStatus::Pending)])).is_none());
    assert!(verifier.conclusive_status(&check, &report("a", vec![(2, in_a_block())])).is_none());
    assert!(verifier.conclusive_status(&check, &unreachable_node("a")).is_none());
    assert!(verifier.conclusive_status(&check, &report("a", vec![(1, rejected())])).unwrap().is_rejected());
    assert!(verifier.conclusive_status(&check, &report("a", vec![(1, in_a_block())])).unwrap().is_in_a_block());
}

#[test]
fn wait_ends_on_the_first_conclusive_poll() {
    let check = MemPoolCheck::new(digest(1));
    let polls = vec![
        unreachable_node("n"),
        report("n", vec![]),
        report("n", vec![(1, FragmentStatus::Pending)]),
        report("n", vec![(1, rejected())]),
        report("n", vec![(1, in_a_block())]),
    ];
    let (at, status) = FragmentVerifier.first_conclusive_poll(&check, &polls).unwrap();
    assert_eq!(at, 3);
    assert!(status.is_rejected());
    let status = FragmentVerifier.wait_fragment(1, check, &polls).unwrap();
    assert!(same_status(&status, &rejected()));
}

#[test]
fn wait_gives_up_after_the_polls_with_the_time_allowed() {
    let check = MemPoolCheck::new(digest(1));
    let polls = vec![
        report("first", vec![(1, FragmentStatus::Pending)]),
        unreachable_node("middle"),
        report("last", vec![(1, FragmentStatus::Pending)]),
    ];
    assert!(FragmentVerifier.first_conclusive_poll(&check, &polls).is_none());
    match FragmentVerifier.wait_fragment(3, check, &polls).unwrap_err() {
        FragmentVerifierError::FragmentIsPendingForTooLong { fragment_id, timeout_secs, alias, logs } => {
            assert!(fragment_id.same(&digest(1)));
            assert_eq!(timeout_secs, 150);
            assert_eq!(alias, "last");
            assert_eq!(logs, "log of last");
        }
        other => panic!("{:?}", other),
    }
}

#[test]
fn wait_reads_at_most_fifty_polls() {
    assert_eq!(MAX_TRY, 50);
    let check = MemPoolCheck::new(digest(1));
    let mut polls = Vec::new();
    for n in 0..50 {
        polls.push(report(&format!("poll{}", n), vec![(1, FragmentStatus::Pending)]));
    }
    polls.push(report("poll50", vec![(1, in_a_block())]));
    match FragmentVerifier.wait_fragment(2, check, &polls).unwrap_err() {
        FragmentVerifierError::FragmentIsPendingForTooLong { timeout_secs, alias, .. } => {
            assert_eq!(timeout_secs, 100);
            assert_eq!(alias, "poll49");
        }
        other => panic!("{:?}", other),
    }
    polls[49] = report("poll49", vec![(1, in_a_block())]);
    assert!(FragmentVerifier.wait_fragment(2, check, &polls).unwrap().is_in_a_block());
}

#[test]
fn wait_and_verify_accepts_a_fragment_in_a_block() {
    let check = MemPoolCheck::new(digest(1));
    let polls = vec![
        report("n", vec![(1, FragmentStatus::Pending)]),
        report("n", vec![(1, in_a_block())]),
    ];
    assert!(FragmentVerifier.wait_and_verify_is_in_block(1, check, &polls).is_ok());
}

#[test]
fn wait_and_verify_refuses_a_rejected_fragment() {
    let check = MemPoolCheck::new(digest(1));
    let polls = vec![
        report("before", vec![(1, FragmentStatus::Pending)]),
        report("at", vec![(1, rejected())]),
        report("after", vec![(1, in_a_block())]),
    ];
    match FragmentVerifier.wait_and_verify_is_in_block(1, check, &polls).unwrap_err() {
        FragmentVerifierError::FragmentNotInBlock { alias, status, logs } => {
            assert_eq!(alias, "at");
            assert!(same_status(&status, &rejected()));
            assert_eq!(logs, "log of at");
        }
        other => panic!("{:?}", other),
    }
}

#[test]
fn wait_and_verify_gives_up_on_a_pending_fragment() {
    let check = MemPoolCheck::new(digest(1));
    let polls = vec![report("n", vec![(1, FragmentStatus::Pending)])];
    match FragmentVerifier.wait_and_verify_is_in_block(10, check, &polls).unwrap_err() {
        FragmentVerifierError::FragmentIsPendingForTooLong { timeout_secs, alias, .. } => {
            assert_eq!(timeout_secs, 500);
            assert_eq!(alias, "n");
        }
        other => panic!("{:?}", other),
    }
}
