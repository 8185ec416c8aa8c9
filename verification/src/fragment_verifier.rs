//! Waiting for a fragment to leave a node's pool, and checking where it went.

use vstd::prelude::*;
use vstd::string::*;
use crate::digest::Digest;
use crate::fragment::{
    find_status, logged_status, FragmentNodeError, FragmentNodeReport, FragmentStatus,
    FragmentStatusView, MemPoolCheck,
};

verus! {

/// How many times a node is polled for a fragment before the wait is given up.
pub const MAX_TRY: u64 = 50;

/// Why a fragment could not be confirmed.
#[derive(Debug)]
pub enum FragmentVerifierError {
    /// The fragment is known to the node but is not in a block.
    FragmentNotInBlock { alias: String, status: FragmentStatus, logs: String },
    /// Every poll found the fragment pending, or not at all; `timeout_secs` is
    /// the time that was allowed, in seconds.
    FragmentIsPendingForTooLong { fragment_id: Digest, timeout_secs: u64, alias: String, logs: String },
    /// The node's fragment logs have no entry for the fragment.
    FragmentNoInMemPoolLogs { alias: String, fragment_id: Digest, logs: String },
    /// The node could not be asked.
    FragmentVerifierError(FragmentNodeError),
}

/// What one poll of a node says of the fragment `id`, where it says anything.
pub open spec fn status_seen(node: FragmentNodeReport, id: Seq<u8>) -> Option<FragmentStatusView> {
    match node.fragment_logs {
        Ok(logs) => logged_status(logs@, id),
        Err(_) => None,
    }
}

/// A poll is conclusive when it finds the fragment rejected or in a block.
pub open spec fn conclusive(node: FragmentNodeReport, id: Seq<u8>) -> Option<FragmentStatusView> {
    match status_seen(node, id) {
        Some(status) => if status is Pending {
            None
        } else {
            Some(status)
        },
        None => None,
    }
}

/// The number of polls that a wait makes of `polls`: all of them, up to `MAX_TRY`.
pub open spec fn polls_made(polls: Seq<FragmentNodeReport>) -> int {
    if polls.len() < MAX_TRY {
        polls.len() as int
    } else {
        MAX_TRY as int
    }
}

/// The wait ends at poll `i`: that poll is conclusive and none before it was.
pub open spec fn concluded_at(polls: Seq<FragmentNodeReport>, id: Seq<u8>, i: int) -> bool {
    &&& 0 <= i < polls_made(polls)
    &&& conclusive(polls[i], id) is Some
    &&& forall|j: int| 0 <= j < i ==> conclusive(#[trigger] polls[j], id) is None
}

/// No poll that the wait makes is conclusive.
pub open spec fn never_concluded(polls: Seq<FragmentNodeReport>, id: Seq<u8>) -> bool {
    forall|j: int| 0 <= j < polls_made(polls) ==> conclusive(#[trigger] polls[j], id) is None
}

/// Checks fragments against what nodes report of them.
pub struct FragmentVerifier;

impl FragmentVerifier {
    /// Waits for the fragment of `check` to be rejected or added to a block,
    /// then confirms that it is in a block. `polls` holds what the node showed
    /// at each poll, in order; the node that is named in an error is the one
    /// of the poll on which the wait ended.
    pub fn wait_and_verify_is_in_block(
        &self,
        duration_secs: u64,
        check: MemPoolCheck,
        polls: &Vec<FragmentNodeReport>,
    ) -> (result: Result<(), FragmentVerifierError>)
        requires
            polls.len() > 0,
            duration_secs * MAX_TRY <= u64::MAX,
        ensures
            result is Ok <==> exists|i: int| #[trigger]
                concluded_at(polls@, check@, i) && conclusive(polls@[i], check@).unwrap()
                    is InABlock,
            result matches Err(FragmentVerifierError::FragmentNotInBlock { alias, status, logs })
                ==> exists|i: int| #[trigger]
                concluded_at(polls@, check@, i) && conclusive(polls@[i], check@) == Some(status@)
                    && status@ is Rejected && alias@ == polls@[i].alias@ && logs@
                    == polls@[i].log_content@,
            result is Err ==> (result matches Err(
                FragmentVerifierError::FragmentIsPendingForTooLong { .. },
            ) || result matches Err(FragmentVerifierError::FragmentNotInBlock { .. })),
            result matches Err(
                FragmentVerifierError::FragmentIsPendingForTooLong {
                    fragment_id,
                    timeout_secs,
                    alias,
                    logs,
                },
            ) ==> never_concluded(polls@, check@) && fragment_id@ == check@ && timeout_secs
                == duration_secs * MAX_TRY && alias@ == polls@[polls_made(polls@) - 1].alias@
                && logs@ == polls@[polls_made(polls@) - 1].log_content@,
    {
        match self.first_conclusive_poll(&check, polls) {
            Some((i, status)) => {
                let result = self.is_in_block(status, &polls[i]);
                proof {
                    if result is Ok {
                        assert(concluded_at(polls@, check@, i as int));
                    } else {
                        assert(concluded_at(polls@, check@, i as int));
                        assert forall|k: int| #[trigger]
                            concluded_at(polls@, check@, k) implies k == i by {}
                    }
                }
                result
            },
            None => {
                proof {
                    assert forall|k: int| !#[trigger] concluded_at(polls@, check@, k) by {}
                }
                Err(self.pending_for_too_long(duration_secs, &check, polls))
            },
        }
    }

    /// Confirms that `status` is that of a fragment in a block.
    pub fn is_in_block(&self, status: FragmentStatus, node: &FragmentNodeReport) -> (result: Result<
        (),
        FragmentVerifierError,
    >)
        ensures
            result is Ok <==> status@ is InABlock,
            result matches Err(error) ==> (error matches FragmentVerifierError::FragmentNotInBlock {
                alias,
                status: refused,
                logs,
            } && alias@ == node.alias@ && refused@ == status@ && logs@ == node.log_content@),
    {
        if !status.is_in_a_block() {
            return Err(
                FragmentVerifierError::FragmentNotInBlock {
                    alias: node.alias.clone(),
                    status,
                    logs: node.log_content.clone(),
                },
            );
        }
        Ok(())
    }

    /// Looks the fragment of `check` up in what the node reported.
    pub fn fragment_status(&self, check: MemPoolCheck, node: &FragmentNodeReport) -> (result:
        Result<FragmentStatus, FragmentVerifierError>)
        ensures
            match result {
                Ok(status) => status_seen(*node, check@) == Some(status@),
                Err(FragmentVerifierError::FragmentVerifierError(error)) => node.fragment_logs
                    matches Err(cause) && error.message@ == cause.message@,
                Err(FragmentVerifierError::FragmentNoInMemPoolLogs { alias, fragment_id, logs }) => {
                    &&& node.fragment_logs is Ok
                    &&& status_seen(*node, check@) is None
                    &&& alias@ == node.alias@
                    &&& fragment_id@ == check@
                    &&& logs@ == node.log_content@
                },
                Err(_) => false,
            },
    {
        match &node.fragment_logs {
            Err(cause) => Err(
                FragmentVerifierError::FragmentVerifierError(
                    FragmentNodeError { message: cause.message.clone() },
                ),
            ),
            Ok(logs) => match find_status(logs, check.fragment_id()) {
                Some(status) => Ok(status.clone()),
                None => Err(
                    FragmentVerifierError::FragmentNoInMemPoolLogs {
                        alias: node.alias.clone(),
                        fragment_id: *check.fragment_id(),
                        logs: node.log_content.clone(),
                    },
                ),
            },
        }
    }

    /// What one poll settles: the status of the fragment if the node shows it
    /// rejected or in a block, nothing if the wait has to go on.
    pub fn conclusive_status(&self, check: &MemPoolCheck, node: &FragmentNodeReport) -> (settled:
        Option<FragmentStatus>)
        ensures
            match settled {
                Some(status) => conclusive(*node, check@) == Some(status@),
                None => conclusive(*node, check@) is None,
            },
    {
        match self.fragment_status(*check, node) {
            Err(_) => None,
            Ok(status) => match status {
                FragmentStatus::Rejected { .. } => Some(status),
                FragmentStatus::InABlock { .. } => Some(status),
                FragmentStatus::Pending => None,
            },
        }
    }

    /// The first poll that is conclusive, among those that a wait makes, and
    /// what it settles.
    pub fn first_conclusive_poll(&self, check: &MemPoolCheck, polls: &Vec<FragmentNodeReport>) -> (found:
        Option<(usize, FragmentStatus)>)
        ensures
            match found {
                Some((i, status)) => concluded_at(polls@, check@, i as int) && conclusive(
                    polls@[i as int],
                    check@,
                ) == Some(status@),
                None => never_concluded(polls@, check@),
            },
    {
        let mut i: usize = 0;
        while i < polls.len() && i < 50
            invariant
                i <= polls_made(polls@),
                forall|j: int| 0 <= j < i ==> conclusive(#[trigger] polls@[j], check@) is None,
            decreases polls.len() - i,
        {
            match self.conclusive_status(check, &polls[i]) {
                Some(status) => {
                    return Some((i, status));
                },
                None => {},
            }
            i = i + 1;
        }
        None
    }

    /// Waits for the fragment of `check` to be rejected or added to a block.
    /// `polls` holds what the node showed at each poll, in order; at most
    /// `MAX_TRY` of them are read.
    pub fn wait_fragment(
        &self,
        duration_secs: u64,
        check: MemPoolCheck,
        polls: &Vec<FragmentNodeReport>,
    ) -> (result: Result<FragmentStatus, FragmentVerifierError>)
        requires
            polls.len() > 0,
            duration_secs * MAX_TRY <= u64::MAX,
        ensures
            result matches Ok(status) ==> exists|i: int| #[trigger]
                concluded_at(polls@, check@, i) && conclusive(polls@[i], check@) == Some(status@),
            result is Err <==> never_concluded(polls@, check@),
            result matches Err(error) ==> (error
                matches FragmentVerifierError::FragmentIsPendingForTooLong {
                fragment_id,
                timeout_secs,
                alias,
                logs,
            } && fragment_id@ == check@ && timeout_secs == duration_secs * MAX_TRY && alias@
                == polls@[polls_made(polls@) - 1].alias@ && logs@ == polls@[polls_made(polls@)
                - 1].log_content@),
    {
        match self.first_conclusive_poll(&check, polls) {
            Some((i, status)) => {
                assert(concluded_at(polls@, check@, i as int));
                Ok(status)
            },
            None => Err(self.pending_for_too_long(duration_secs, &check, polls)),
        }
    }

    /// The error of a wait that no poll has ended: it names the fragment, the
    /// time allowed, and the node as the last poll showed it.
    pub fn pending_for_too_long(
        &self,
        duration_secs: u64,
        check: &MemPoolCheck,
        polls: &Vec<FragmentNodeReport>,
    ) -> (error: FragmentVerifierError)
        requires
            polls.len() > 0,
            duration_secs * MAX_TRY <= u64::MAX,
        ensures
            error matches FragmentVerifierError::FragmentIsPendingForTooLong {
                fragment_id,
                timeout_secs,
                alias,
                logs,
            } && fragment_id@ == check@ && timeout_secs == duration_secs * MAX_TRY && alias@
                == polls@[polls_made(polls@) - 1].alias@ && logs@ == polls@[polls_made(polls@)
                - 1].log_content@,
    {
        let last: usize = if polls.len() < 50 {
            polls.len() - 1
        } else {
            49
        };
        let node = &polls[last];
        FragmentVerifierError::FragmentIsPendingForTooLong {
            fragment_id: *check.fragment_id(),
            timeout_secs: duration_secs * MAX_TRY,
            alias: node.alias.clone(),
            logs: node.log_content.clone(),
        }
    }
}

} // verus!
