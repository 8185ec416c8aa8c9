//! The console service: it writes the errors that other services report,
//! one whole line for each, in the order in which they arrive.

use vstd::prelude::*;
use vstd::string::*;
use crate::intercom::{IntercomError, Mailbox, Received};

verus! {

/// The name under which the registry knows the service.
pub const SERVICE_IDENTIFIER: &'static str = "console";

/// What a service asks the console to show.
#[derive(Debug)]
pub enum Message {
    /// An error, by its text.
    Error { error: String },
}

/// A message to the console service.
#[derive(Debug)]
pub struct ConsoleApi {
    message: Message,
}

impl ConsoleApi {
    /// The line that the console writes for the message.
    pub closed spec fn text(&self) -> Seq<char> {
        match self.message {
            Message::Error { error } => error@,
        }
    }

    /// Reports `error` to the console. The report waits in the mailbox until
    /// the console writes it; a closed mailbox takes no report.
    pub fn error(intercom: &mut Mailbox<ConsoleApi>, error: &str) -> (result: Result<
        (),
        IntercomError,
    >)
        ensures
            final(intercom)@.open == old(intercom)@.open,
            result is Ok <==> old(intercom)@.open,
            result is Err ==> result == Err::<(), IntercomError>(IntercomError::MailboxClosed)
                && final(intercom)@.pending == old(intercom)@.pending,
            result is Ok ==> final(intercom)@.pending.len() == old(intercom)@.pending.len() + 1
                && final(intercom)@.pending.drop_last() == old(intercom)@.pending && final(intercom)@.pending.last().text() == error@,
    {
        let message = Message::Error { error: String::from_str(error) };
        match intercom.send(ConsoleApi { message }) {
            Ok(_) => {
                assert(final(intercom)@.pending.drop_last() =~= old(intercom)@.pending);
                Ok(())
            },
            Err(_) => Err(IntercomError::MailboxClosed),
        }
    }

    /// The line that the console writes for the message.
    pub fn line(&self) -> (line: String)
        ensures
            line@ == self.text(),
    {
        match &self.message {
            Message::Error { error } => error.clone(),
        }
    }
}

/// The lines that the console writes for `messages`: one for each, in order.
pub open spec fn written(messages: Seq<ConsoleApi>) -> Seq<Seq<char>> {
    Seq::new(messages.len(), |i: int| messages[i].text())
}

/// Where `services` services report `each` errors apiece, the console
/// writes `services * each` lines, however the reports interleave on their
/// way: one whole line for each report, in the order of arrival.
pub proof fn lemma_one_line_for_each_report(arrivals: Seq<ConsoleApi>, services: nat, each: nat)
    requires
        arrivals.len() == services * each,
    ensures
        written(arrivals).len() == services * each,
        forall|i: int| 0 <= i < arrivals.len() ==> written(arrivals)[i] == arrivals[i].text(),
{
}

/// Writes what other services report.
#[derive(Debug)]
pub struct ConsoleService;

impl ConsoleService {
    /// Takes every report that waits in `intercom`, oldest first, and gives
    /// the lines to write: one for each report, in the order of arrival.
    pub fn start(&self, intercom: &mut Mailbox<ConsoleApi>) -> (lines: Vec<String>)
        ensures
            final(intercom)@.open == old(intercom)@.open,
            final(intercom)@.pending.len() == 0,
            lines.len() == old(intercom)@.pending.len(),
            forall|i: int|
                0 <= i < lines.len() ==> (#[trigger] lines@[i])@ == written(
                    old(intercom)@.pending,
                )[i],
    {
        let ghost reports = intercom@.pending;
        let mut lines: Vec<String> = Vec::new();
        while intercom.len() > 0
            invariant
                intercom@.open == old(intercom)@.open,
                lines.len() + intercom@.pending.len() == reports.len(),
                intercom@.pending == reports.skip(lines.len() as int),
                forall|i: int|
                    0 <= i < lines.len() ==> (#[trigger] lines@[i])@ == reports[i].text(),
            decreases intercom@.pending.len(),
        {
            let ghost done = lines.len() as int;
            match intercom.recv() {
                Received::Message(report) => {
                    assert(report == reports[done]);
                    assert(reports.skip(done).skip(1) =~= reports.skip(done + 1));
                    lines.push(report.line());
                },
                _ => {},
            }
        }
        lines
    }
}

} // verus!
