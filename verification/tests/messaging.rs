use jormungandr_services::config::{ConfigApi, ConfigLoadFailure, ConfigService};
use jormungandr_services::console::{ConsoleApi, ConsoleService};
use jormungandr_services::intercom::{
    answer_all, IntercomError, IntercomMessage, Mailbox, Received, ReplySlot,
};
use std::sync::Arc;

#[derive(Debug, PartialEq)]
struct Settings {
    storage: String,
    peers: u32,
}

fn settings() -> Settings {
    Settings { storage: "/var/lib/node".to_string(), peers: 7 }
}

#[test]
fn reply_slot_is_filled_at_most_once() {
    let mut slot: ReplySlot<u32> = ReplySlot::new(9);
    assert_eq!(slot.addressee(), 9);
    assert!(!slot.is_filled());
    assert_eq!(slot.fill(1), Ok(()));
    assert!(slot.is_filled());
    assert_eq!(slot.fill(2), Err(2));
    assert_eq!(slot.addressee(), 9);
    assert_eq!(slot.take(), Ok(1));
}

#[test]
fn empty_reply_slot_gives_reply_lost() {
    let slot: ReplySlot<u32> = ReplySlot::new(3);
    assert_eq!(slot.take(), Err(IntercomError::ReplyLost));
    let message: IntercomMessage<&str, u32> = IntercomMessage::new(4, "ping");
    let slot = message.abandon();
    assert_eq!(slot.addressee(), 4);
    assert_eq!(slot.take(), Err(IntercomError::ReplyLost));
}

#[test]
fn message_is_answered_to_its_sender() {
    let message: IntercomMessage<&str, usize> = IntercomMessage::new(11, "ping");
    assert_eq!(message.sender(), 11);
    assert_eq!(*message.request(), "ping");
    let slot = message.answer(4);
    assert_eq!(slot.addressee(), 11);
    assert_eq!(slot.take(), Ok(4));
}

#[test]
fn mailbox_is_first_in_first_out() {
    let mut mailbox: Mailbox<u32> = Mailbox::new();
    assert!(mailbox.is_open());
    assert_eq!(mailbox.len(), 0);
    assert!(matches!(mailbox.recv(), Received::Empty));
    for n in [5, 3, 8] {
        assert_eq!(mailbox.send(n), Ok(()));
    }
    assert_eq!(mailbox.len(), 3);
    assert!(matches!(mailbox.recv(), Received::Message(5)));
    assert_eq!(mailbox.send(1), Ok(()));
    assert!(matches!(mailbox.recv(), Received::Message(3)));
    assert!(matches!(mailbox.recv(), Received::Message(8)));
    assert!(matches!(mailbox.recv(), Received::Message(1)));
    assert!(matches!(mailbox.recv(), Received::Empty));
}

#[test]
fn closed_mailbox_takes_nothing_but_hands_out_what_waits() {
    let mut mailbox: Mailbox<u32> = Mailbox::new();
    assert_eq!(mailbox.send(1), Ok(()));
    assert_eq!(mailbox.send(2), Ok(()));
    mailbox.close();
    assert!(!mailbox.is_open());
    assert_eq!(mailbox.send(3), Err(3));
    assert_eq!(mailbox.len(), 2);
    assert!(matches!(mailbox.recv(), Received::Message(1)));
    assert!(matches!(mailbox.recv(), Received::Message(2)));
    assert!(matches!(mailbox.recv(), Received::Closed));
    assert!(matches!(mailbox.recv(), Received::Closed));
}

#[test]
fn every_request_gets_one_reply_for_its_own_caller_in_order() {
    let mut mailbox: Mailbox<IntercomMessage<u32, u32>> = Mailbox::new();
    let callers = [40u64, 7, 40, 19, 7];
    for (n, caller) in callers.iter().enumerate() {
        assert!(mailbox.send(IntercomMessage::new(*caller, n as u32)).is_ok());
    }
    let replies = answer_all(&mut mailbox, |payload: &u32| payload * 10);
    assert_eq!(mailbox.len(), 0);
    assert!(mailbox.is_open());
    assert_eq!(replies.len(), callers.len());
    for (n, slot) in replies.into_iter().enumerate() {
        assert_eq!(slot.addressee(), callers[n]);
        assert_eq!(slot.take(), Ok(n as u32 * 10));
    }
    assert!(answer_all(&mut mailbox, |payload: &u32| payload * 10).is_empty());
}

#[test]
fn queries_before_the_load_resolve_to_one_snapshot() {
    let mut intercom: Mailbox<ConfigApi<Settings>> = Mailbox::new();
    for caller in [1u64, 2, 3] {
        assert_eq!(ConfigApi::query_settings(&mut intercom, caller), Ok(()));
    }
    let mut service: ConfigService<Settings> = ConfigService::prepare();
    assert!(service.needs_load());
    assert!(service.settings().is_none());

    let early = service.serve(&mut intercom);
    assert!(early.is_empty());
    assert_eq!(intercom.len(), 3);

    assert!(service.load(Ok(settings())).is_ok());
    assert!(!service.needs_load());
    let replies = service.serve(&mut intercom);
    assert_eq!(intercom.len(), 0);
    assert_eq!(replies.len(), 3);
    let published = service.settings().unwrap();
    let mut callers = Vec::new();
    for slot in replies {
        callers.push(slot.addressee());
        let snapshot = ConfigApi::settings(slot).unwrap();
        assert!(Arc::ptr_eq(&snapshot, &published));
        assert_eq!(*snapshot, settings());
    }
    assert_eq!(callers, vec![1, 2, 3]);
}

#[test]
fn settings_are_published_once() {
    let mut service: ConfigService<Settings> = ConfigService::prepare();
    assert!(service.load(Ok(settings())).is_ok());
    let first = service.settings().unwrap();
    assert_eq!(Arc::strong_count(&first), 2);

    let other = Settings { storage: "/tmp".to_string(), peers: 0 };
    assert!(service.load(Ok(other)).is_ok());
    assert!(service.load(Err("no such file".to_string())).is_ok());
    let second = service.settings().unwrap();
    assert!(Arc::ptr_eq(&first, &second));
    assert_eq!(*second, settings());

    let mut intercom: Mailbox<ConfigApi<Settings>> = Mailbox::new();
    for round in 0..4u64 {
        for caller in 0..5u64 {
            assert!(ConfigApi::query_settings(&mut intercom, round * 5 + caller).is_ok());
        }
        for slot in service.serve(&mut intercom) {
            assert!(Arc::ptr_eq(&ConfigApi::settings(slot).unwrap(), &first));
        }
    }
}

#[test]
fn failed_load_publishes_nothing() {
    let mut service: ConfigService<Settings> = ConfigService::prepare();
    let result = service.load(Err("invalid storage path".to_string()));
    let ConfigLoadFailure { reason } = result.unwrap_err();
    assert_eq!(reason, "invalid storage path");
    assert!(service.needs_load());
    assert!(service.settings().is_none());
    assert!(service.load(Ok(settings())).is_ok());
    assert_eq!(*service.settings().unwrap(), settings());
}

#[test]
fn query_to_a_closed_mailbox_is_refused() {
    let mut intercom: Mailbox<ConfigApi<Settings>> = Mailbox::new();
    intercom.close();
    assert_eq!(ConfigApi::query_settings(&mut intercom, 1), Err(IntercomError::MailboxClosed));
    assert_eq!(intercom.len(), 0);
    let slot: ReplySlot<Arc<Settings>> = ReplySlot::new(1);
    assert_eq!(ConfigApi::settings(slot).unwrap_err(), IntercomError::ReplyLost);
}

#[test]
fn console_writes_one_line_for_each_report() {
    let services = 4usize;
    let each = 6usize;
    let mut intercom: Mailbox<ConsoleApi> = Mailbox::new();
    let mut expected = Vec::new();
    for round in 0..each {
        for service in 0..services {
            let text = format!("service {} failed: error number {}", service, round);
            assert_eq!(ConsoleApi::error(&mut intercom, &text), Ok(()));
            expected.push(text);
        }
    }
    let lines = ConsoleService.start(&mut intercom);
    assert_eq!(lines.len(), services * each);
    assert_eq!(lines, expected);
    assert_eq!(intercom.len(), 0);
    for service in 0..services {
        let prefix = format!("service {} failed", service);
        let own: Vec<&String> = lines.iter().filter(|line| line.starts_with(&prefix)).collect();
        assert_eq!(own.len(), each);
        for (round, line) in own.iter().enumerate() {
            assert!(line.ends_with(&format!("error number {}", round)));
        }
    }
}

#[test]
fn console_report_to_a_closed_mailbox_is_refused() {
    let mut intercom: Mailbox<ConsoleApi> = Mailbox::new();
    assert_eq!(ConsoleApi::error(&mut intercom, "disk full"), Ok(()));
    intercom.close();
    assert_eq!(
        ConsoleApi::error(&mut intercom, "too late"),
        Err(IntercomError::MailboxClosed)
    );
    let lines = ConsoleService.start(&mut intercom);
    assert_eq!(lines, vec!["disk full".to_string()]);
    assert!(matches!(intercom.recv(), Received::Closed));
}
