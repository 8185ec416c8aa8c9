//! What a node reports of the fragments it was sent, and the errors that a
//! check of those reports gives.

use vstd::prelude::*;
use vstd::string::*;
use crate::digest::Digest;

verus! {

/// The place of a block in time: an epoch and a slot in it.
#[derive(Clone, Copy, Debug, PartialEq, Eq, Structural)]
pub struct BlockDate {
    pub epoch: u32,
    pub slot_id: u32,
}

/// What became of a fragment that a node received.
#[derive(Debug)]
pub enum FragmentStatus {
    /// The fragment waits in the pool.
    Pending,
    /// The fragment was refused, for the reason given.
    Rejected { reason: String },
    /// The fragment was added to the block `block`, made at `date`.
    InABlock { date: BlockDate, block: Digest },
}

/// A `FragmentStatus` as a mathematical value.
pub enum FragmentStatusView {
    Pending,
    Rejected { reason: Seq<char> },
    InABlock { date: BlockDate, block: Seq<u8> },
}

impl View for FragmentStatus {
    type V = FragmentStatusView;

    open spec fn view(&self) -> FragmentStatusView {
        match self {
            FragmentStatus::Pending => FragmentStatusView::Pending,
            FragmentStatus::Rejected { reason } => FragmentStatusView::Rejected {
                reason: reason@,
            },
            FragmentStatus::InABlock { date, block } => FragmentStatusView::InABlock {
                date: *date,
                block: block@,
            },
        }
    }
}

impl Clone for FragmentStatus {
    fn clone(&self) -> (copy: Self)
        ensures
            copy@ == self@,
    {
        match self {
            FragmentStatus::Pending => FragmentStatus::Pending,
            FragmentStatus::Rejected { reason } => FragmentStatus::Rejected {
                reason: reason.clone(),
            },
            FragmentStatus::InABlock { date, block } => FragmentStatus::InABlock {
                date: *date,
                block: *block,
            },
        }
    }
}

impl FragmentStatus {
    pub fn is_pending(&self) -> (b: bool)
        ensures
            b == (self@ is Pending),
    {
        match self {
            FragmentStatus::Pending => true,
            _ => false,
        }
    }

    pub fn is_rejected(&self) -> (b: bool)
        ensures
            b == (self@ is Rejected),
    {
        match self {
            FragmentStatus::Rejected { .. } => true,
            _ => false,
        }
    }

    pub fn is_in_a_block(&self) -> (b: bool)
        ensures
            b == (self@ is InABlock),
    {
        match self {
            FragmentStatus::InABlock { .. } => true,
            _ => false,
        }
    }
}

/// One entry of a node's fragment log: a fragment and what became of it.
#[derive(Debug)]
pub struct FragmentLog {
    pub fragment_id: Digest,
    pub status: FragmentStatus,
}

impl FragmentLog {
    pub fn new(fragment_id: Digest, status: FragmentStatus) -> (log: Self)
        ensures
            log.fragment_id@ == fragment_id@,
            log.status@ == status@,
    {
        FragmentLog { fragment_id, status }
    }

    pub fn fragment_id(&self) -> (id: &Digest)
        ensures
            id@ == self.fragment_id@,
    {
        &self.fragment_id
    }

    pub fn status(&self) -> (status: &FragmentStatus)
        ensures
            status@ == self.status@,
    {
        &self.status
    }
}

/// The receipt for a fragment that was sent to a node.
#[derive(Clone, Copy, Debug)]
pub struct MemPoolCheck {
    fragment_id: Digest,
}

impl View for MemPoolCheck {
    type V = Seq<u8>;

    closed spec fn view(&self) -> Seq<u8> {
        self.fragment_id@
    }
}

impl MemPoolCheck {
    pub fn new(fragment_id: Digest) -> (check: Self)
        ensures
            check@ == fragment_id@,
    {
        MemPoolCheck { fragment_id }
    }

    pub fn fragment_id(&self) -> (id: &Digest)
        ensures
            id@ == self@,
    {
        &self.fragment_id
    }
}

/// The node could not be asked for its fragment logs.
#[derive(Debug)]
pub struct FragmentNodeError {
    pub message: String,
}

/// What a node shows when it is polled: its name, its log, and its fragment
/// logs or the reason why they could not be had.
#[derive(Debug)]
pub struct FragmentNodeReport {
    pub alias: String,
    pub log_content: String,
    pub fragment_logs: Result<Vec<FragmentLog>, FragmentNodeError>,
}

/// The status in the first entry of `logs` that is about the fragment `id`.
pub open spec fn logged_status(logs: Seq<FragmentLog>, id: Seq<u8>) -> Option<FragmentStatusView>
    decreases logs.len(),
{
    if logs.len() == 0 {
        None
    } else if logs[0].fragment_id@ == id {
        Some(logs[0].status@)
    } else {
        logged_status(logs.skip(1), id)
    }
}

/// What the entries of `logs` from place `i` on say of `id`: the status in
/// entry `i` where that entry is about `id`, and what the entries behind it
/// say where it is not.
pub proof fn lemma_logged_status_skip(logs: Seq<FragmentLog>, id: Seq<u8>, i: int)
    requires
        0 <= i < logs.len(),
    ensures
        logs[i].fragment_id@ == id ==> logged_status(logs.skip(i), id) == Some(logs[i].status@),
        logs[i].fragment_id@ != id ==> logged_status(logs.skip(i), id) == logged_status(
            logs.skip(i + 1),
            id,
        ),
{
    assert(logs.skip(i)[0] == logs[i]);
    assert(logs.skip(i).skip(1) =~= logs.skip(i + 1));
}

/// Finds the entry about `id` that comes first in `logs`.
pub fn find_status<'a>(logs: &'a Vec<FragmentLog>, id: &Digest) -> (found: Option<&'a FragmentStatus>)
    ensures
        match found {
            Some(status) => logged_status(logs@, id@) == Some(status@),
            None => logged_status(logs@, id@) is None,
        },
{
    let mut i: usize = 0;
    assert(logs@.skip(0) =~= logs@);
    while i < logs.len()
        invariant
            i <= logs.len(),
            logged_status(logs@, id@) == logged_status(logs@.skip(i as int), id@),
        decreases logs.len() - i,
    {
        proof {
            lemma_logged_status_skip(logs@, id@, i as int);
        }
        if logs[i].fragment_id.same(id) {
            return Some(&logs[i].status);
        }
        i = i + 1;
    }
    None
}

} // verus!
