//! The configuration service: it publishes the settings once, and answers
//! every query with the same snapshot of them.

use vstd::prelude::*;
use vstd::string::*;
use std::sync::Arc;
use crate::intercom::{IntercomError, IntercomMessage, Mailbox, Received, ReplySlot};

verus! {

/// The name under which the registry knows the service.
pub const SERVICE_IDENTIFIER: &'static str = "configuration";

/// The settings could not be loaded, or were not valid.
#[derive(Debug)]
pub struct ConfigLoadFailure {
    pub reason: String,
}

/// A query for the settings: a request without a payload, whose reply is the
/// snapshot that the configuration service has published.
#[derive(Debug)]
pub struct ConfigApi<S> {
    query: IntercomMessage<(), Arc<S>>,
}

impl<S> ConfigApi<S> {
    /// The caller that sent the query.
    pub closed spec fn caller(&self) -> u64 {
        self.query.caller()
    }

    /// Sends a query for the settings on behalf of `caller`. The query waits
    /// in the mailbox until the service answers it; a closed mailbox takes no
    /// query.
    pub fn query_settings(intercom: &mut Mailbox<ConfigApi<S>>, caller: u64) -> (result: Result<
        (),
        IntercomError,
    >)
        ensures
            final(intercom)@.open == old(intercom)@.open,
            result is Ok <==> old(intercom)@.open,
            result is Err ==> result == Err::<(), IntercomError>(IntercomError::MailboxClosed)
                && final(intercom)@.pending == old(intercom)@.pending,
            result is Ok ==> final(intercom)@.pending.len() == old(intercom)@.pending.len() + 1
                && final(intercom)@.pending.drop_last() == old(intercom)@.pending && final(intercom)@.pending.last().caller() == caller,
    {
        let query = ConfigApi { query: IntercomMessage::new(caller, ()) };
        match intercom.send(query) {
            Ok(_) => {
                assert(final(intercom)@.pending.drop_last() =~= old(intercom)@.pending);
                Ok(())
            },
            Err(_) => Err(IntercomError::MailboxClosed),
        }
    }

    /// Reads the settings out of the slot of a query. A slot that the service
    /// never filled gives `ReplyLost`.
    pub fn settings(slot: ReplySlot<Arc<S>>) -> (result: Result<Arc<S>, IntercomError>)
        ensures
            result == (match slot.reply() {
                Some(settings) => Ok::<Arc<S>, IntercomError>(settings),
                None => Err::<Arc<S>, IntercomError>(IntercomError::ReplyLost),
            }),
    {
        slot.take()
    }
}

/// `Arc::clone`: a second pointer to the allocation that `snapshot` points to.
/// Nothing is copied, so the two point to one and the same value.
#[verifier::external_body]
fn share<S>(snapshot: &Arc<S>) -> (copy: Arc<S>)
    ensures
        copy == *snapshot,
{
    Arc::clone(snapshot)
}

/// The snapshot that is published after `loaded` comes in: the first
/// settings that load stay for good, and a failure publishes nothing.
pub open spec fn after_load<S>(snapshot: Option<Arc<S>>, loaded: Result<S, String>) -> Option<
    Arc<S>,
> {
    match snapshot {
        Some(_) => snapshot,
        None => match loaded {
            Ok(settings) => Some(Arc::new(settings)),
            Err(_) => None,
        },
    }
}

/// The snapshot that is published after each of `loads` came in, in order.
pub open spec fn after_loads<S>(snapshot: Option<Arc<S>>, loads: Seq<Result<S, String>>) -> Option<
    Arc<S>,
>
    decreases loads.len(),
{
    if loads.len() == 0 {
        snapshot
    } else {
        after_loads(after_load(snapshot, loads[0]), loads.skip(1))
    }
}

/// Settings that are published are never replaced: whatever comes in after
/// the first load that succeeded, the snapshot is the same.
pub proof fn lemma_snapshot_is_published_once<S>(
    snapshot: Option<Arc<S>>,
    loads: Seq<Result<S, String>>,
)
    requires
        snapshot is Some,
    ensures
        after_loads(snapshot, loads) == snapshot,
    decreases loads.len(),
{
    if loads.len() > 0 {
        lemma_snapshot_is_published_once(snapshot, loads.skip(1));
    }
}

/// Loads the settings once and serves them to whoever asks.
#[derive(Debug)]
pub struct ConfigService<S> {
    settings: Option<Arc<S>>,
}

impl<S> ConfigService<S> {
    /// The snapshot that the service has published, if it has.
    pub closed spec fn snapshot(&self) -> Option<Arc<S>> {
        self.settings
    }

    /// A service that has published nothing yet.
    pub fn prepare() -> (service: Self)
        ensures
            service.snapshot() is None,
    {
        ConfigService { settings: None }
    }

    /// Whether the settings are still to be loaded. It is so until the first
    /// load has succeeded, and never again.
    pub fn needs_load(&self) -> (needed: bool)
        ensures
            needed == self.snapshot() is None,
    {
        self.settings.is_none()
    }

    /// Takes what loading and validating the settings gave. The first
    /// settings that come in are published; a service that has published
    /// keeps its snapshot and drops what comes in. A failure is handed on.
    pub fn load(&mut self, loaded: Result<S, String>) -> (result: Result<(), ConfigLoadFailure>)
        ensures
            final(self).snapshot() == after_load(old(self).snapshot(), loaded),
            result is Err <==> old(self).snapshot() is None && loaded is Err,
            result matches Err(failure) ==> loaded matches Err(reason) && failure.reason@
                == reason@,
    {
        if self.settings.is_some() {
            return Ok(());
        }
        match loaded {
            Ok(settings) => {
                self.settings = Some(Arc::new(settings));
                Ok(())
            },
            Err(reason) => Err(ConfigLoadFailure { reason }),
        }
    }

    /// The published snapshot, shared with the caller.
    pub fn settings(&self) -> (snapshot: Option<Arc<S>>)
        ensures
            snapshot == self.snapshot(),
    {
        match &self.settings {
            Some(snapshot) => Some(share(snapshot)),
            None => None,
        }
    }

    /// Answers the queries that wait in `intercom`, oldest first, each with
    /// the published snapshot. A service that has published nothing answers
    /// nothing: the queries wait until it has.
    pub fn serve(&self, intercom: &mut Mailbox<ConfigApi<S>>) -> (replies: Vec<ReplySlot<Arc<S>>>)
        ensures
            final(intercom)@.open == old(intercom)@.open,
            self.snapshot() is None ==> replies.len() == 0 && final(intercom)@.pending == old(intercom)@.pending,
            self.snapshot() is Some ==> final(intercom)@.pending.len() == 0 && replies.len()
                == old(intercom)@.pending.len(),
            forall|i: int|
                0 <= i < replies.len() ==> (#[trigger] replies@[i]).caller() == old(intercom)@.pending[i].caller() && replies@[i].reply() == self.snapshot(),
    {
        let mut replies: Vec<ReplySlot<Arc<S>>> = Vec::new();
        let snapshot = match &self.settings {
            Some(snapshot) => snapshot,
            None => {
                return replies;
            },
        };
        let ghost queries = intercom@.pending;
        while intercom.len() > 0
            invariant
                intercom@.open == old(intercom)@.open,
                self.snapshot() == Some(*snapshot),
                replies.len() + intercom@.pending.len() == queries.len(),
                intercom@.pending == queries.skip(replies.len() as int),
                forall|i: int|
                    0 <= i < replies.len() ==> (#[trigger] replies@[i]).caller()
                        == queries[i].caller() && replies@[i].reply() == Some(*snapshot),
            decreases intercom@.pending.len(),
        {
            let ghost done = replies.len() as int;
            match intercom.recv() {
                Received::Message(query) => {
                    assert(query == queries[done]);
                    assert(queries.skip(done).skip(1) =~= queries.skip(done + 1));
                    replies.push(query.query.answer(share(snapshot)));
                },
                _ => {},
            }
        }
        replies
    }
}

} // verus!
