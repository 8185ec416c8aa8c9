//! Checks that the nodes of a network agree on the chain, and the bookkeeping
//! of the leaders that a measurement still waits for.

use vstd::prelude::*;
use vstd::string::*;
use crate::checks::{debug_text, mismatch_message, mismatch_text, ErrorKind};
use crate::digest::{digests_view, same_digests, Digest};
use crate::fragment::FragmentStatus;

verus! {

/// What a node shows of itself when it is asked: its name, its log, the
/// height of its last block, the hashes of all its blocks, and whether it runs.
#[derive(Debug)]
pub struct SyncNodeReport {
    pub alias: String,
    pub log_content: String,
    pub last_block_height: u32,
    pub all_blocks_hashes: Vec<Digest>,
    pub is_running: bool,
}

impl SyncNodeReport {
    /// The two nodes hold the same blocks.
    pub open spec fn same_blocks(self, other: SyncNodeReport) -> bool {
        digests_view(self.all_blocks_hashes@) == digests_view(other.all_blocks_hashes@)
    }

    /// The two nodes hold the same blocks and stand at the same height.
    pub open spec fn in_sync_with(self, other: SyncNodeReport) -> bool {
        self.same_blocks(other) && self.last_block_height == other.last_block_height
    }
}

/// The text that says that a fragment is not in a block: the node, the status
/// as rendered, and the node's log.
pub open spec fn not_in_block_text(alias: Seq<char>, status: Seq<char>, logs: Seq<char>) -> Seq<
    char,
> {
    "fragment status sent to node: "@ + alias + " is not in block :("@ + status + "). logs: "@
        + logs
}

/// Writes the text that says that a fragment is not in a block.
pub fn not_in_block_message(alias: &str, status: &str, logs: &str) -> (message: String)
    ensures
        message@ == not_in_block_text(alias@, status@, logs@),
{
    let mut message = String::from_str("fragment status sent to node: ");
    message.append(alias);
    message.append(" is not in block :(");
    message.append(status);
    message.append("). logs: ");
    message.append(logs);
    message
}

/// Fails unless `status` is that of a fragment in a block. The error names
/// the node and carries its log.
pub fn assert_is_in_block(status: FragmentStatus, node: &SyncNodeReport) -> (result: Result<
    (),
    ErrorKind,
>)
    ensures
        result is Ok <==> status@ is InABlock,
        result matches Err(error) ==> exists|shown: Seq<char>|
            error.message() == not_in_block_text(node.alias@, shown, node.log_content@),
{
    if !status.is_in_a_block() {
        let shown = debug_text(&status);
        return Err(
            ErrorKind::AssertionFailed(
                not_in_block_message(
                    node.alias.as_str(),
                    shown.as_str(),
                    node.log_content.as_str(),
                ),
            ),
        );
    }
    Ok(())
}

/// The text that says that two nodes differ in `what` after the grace period
/// `grace`; it names both nodes and carries both logs.
pub open spec fn out_of_sync_text(
    what: Seq<char>,
    grace: Seq<char>,
    left: SyncNodeReport,
    right: SyncNodeReport,
) -> Seq<char> {
    "nodes are out of sync (different "@ + what + ") after sync grace period: ("@ + grace
        + ") . Left node: alias: "@ + left.alias@ + ", content: "@ + left.log_content@
        + ", Right node: alias: "@ + right.alias@ + ", content: "@ + right.log_content@
}

/// Writes the text that says that two nodes differ in `what`.
pub fn out_of_sync_message(what: &str, grace: &str, left: &SyncNodeReport, right: &SyncNodeReport) -> (message:
    String)
    ensures
        message@ == out_of_sync_text(what@, grace@, *left, *right),
{
    let mut message = String::from_str("nodes are out of sync (different ");
    message.append(what);
    message.append(") after sync grace period: (");
    message.append(grace);
    message.append(") . Left node: alias: ");
    message.append(left.alias.as_str());
    message.append(", content: ");
    message.append(left.log_content.as_str());
    message.append(", Right node: alias: ");
    message.append(right.alias.as_str());
    message.append(", content: ");
    message.append(right.log_content.as_str());
    message
}

/// Node `i` is the first that is not in sync with the first node.
pub open spec fn first_out_of_sync(nodes: Seq<SyncNodeReport>, i: int) -> bool {
    &&& 1 <= i < nodes.len()
    &&& !nodes[0].in_sync_with(nodes[i])
    &&& forall|j: int| 1 <= j < i ==> nodes[0].in_sync_with(#[trigger] nodes[j])
}

/// Every node is in sync with the first.
pub open spec fn all_in_sync(nodes: Seq<SyncNodeReport>) -> bool {
    forall|j: int| 1 <= j < nodes.len() ==> nodes[0].in_sync_with(#[trigger] nodes[j])
}

/// The text of the error about the node `other`, which is not in sync with
/// `first`: it is about the blocks where they differ, else about the height;
/// `left` and `right` are the two values as rendered.
pub open spec fn difference_text(
    grace: Seq<char>,
    first: SyncNodeReport,
    other: SyncNodeReport,
    left: Seq<char>,
    right: Seq<char>,
) -> Seq<char> {
    let what = if first.same_blocks(other) {
        "block height"@
    } else {
        "block hashes"@
    };
    mismatch_text(out_of_sync_text(what, grace, first, other), left, right)
}

/// Fails unless every node holds the blocks of the first node and stands at
/// its height. The error is about the first node that differs, and about its
/// blocks before its height; `grace` is the grace period that the nodes were
/// given, as it is to be shown.
pub fn assert_are_in_sync(grace: &str, nodes: &Vec<SyncNodeReport>) -> (result: Result<
    (),
    ErrorKind,
>)
    ensures
        result is Ok <==> all_in_sync(nodes@),
        result matches Err(error) ==> exists|i: int, left: Seq<char>, right: Seq<char>|
            first_out_of_sync(nodes@, i) && error.message() == #[trigger] difference_text(
                grace@,
                nodes@[0],
                nodes@[i],
                left,
                right,
            ),
{
    if nodes.len() < 2 {
        return Ok(());
    }
    let first_node = &nodes[0];
    let mut i: usize = 1;
    while i < nodes.len()
        invariant
            1 <= i <= nodes.len(),
            *first_node == nodes@[0],
            forall|j: int| 1 <= j < i ==> nodes@[0].in_sync_with(#[trigger] nodes@[j]),
        decreases nodes.len() - i,
    {
        let node = &nodes[i];
        if !same_digests(&first_node.all_blocks_hashes, &node.all_blocks_hashes) {
            let info = out_of_sync_message("block hashes", grace, first_node, node);
            let left = debug_text(&first_node.all_blocks_hashes);
            let right = debug_text(&node.all_blocks_hashes);
            let message = mismatch_message(info.as_str(), left.as_str(), right.as_str());
            assert(first_out_of_sync(nodes@, i as int));
            assert(message@ == difference_text(grace@, nodes@[0], nodes@[i as int], left@, right@));
            return Err(ErrorKind::AssertionFailed(message));
        }
        if first_node.last_block_height != node.last_block_height {
            let info = out_of_sync_message("block height", grace, first_node, node);
            let left = debug_text(&first_node.last_block_height);
            let right = debug_text(&node.last_block_height);
            let message = mismatch_message(info.as_str(), left.as_str(), right.as_str());
            assert(first_out_of_sync(nodes@, i as int));
            assert(message@ == difference_text(grace@, nodes@[0], nodes@[i as int], left@, right@));
            return Err(ErrorKind::AssertionFailed(message));
        }
        i = i + 1;
    }
    Ok(())
}

/// The greatest of `heights`, and 0 where there is none.
pub open spec fn highest(heights: Seq<u32>) -> u32
    decreases heights.len(),
{
    if heights.len() == 0 {
        0
    } else if heights.last() >= highest(heights.drop_last()) {
        heights.last()
    } else {
        highest(heights.drop_last())
    }
}

/// Every height is the greatest one: the nodes stand at one height.
pub open spec fn at_one_height(heights: Seq<u32>) -> bool {
    forall|i: int| 0 <= i < heights.len() ==> #[trigger] heights[i] == highest(heights)
}

/// `highest` is an upper bound of the heights, and one of them where there is any.
pub proof fn lemma_highest(heights: Seq<u32>)
    ensures
        forall|i: int| 0 <= i < heights.len() ==> #[trigger] heights[i] <= highest(heights),
        heights.len() > 0 ==> exists|i: int| 0 <= i < heights.len() && #[trigger] heights[i]
            == highest(heights),
    decreases heights.len(),
{
    if heights.len() > 0 {
        let front = heights.drop_last();
        lemma_highest(front);
        assert forall|i: int| 0 <= i < heights.len() implies #[trigger] heights[i] <= highest(
            heights,
        ) by {
            if i < front.len() {
                assert(front[i] == heights[i]);
            }
        }
        if heights.last() >= highest(front) {
            assert(heights[heights.len() - 1] == highest(heights));
        } else {
            let i = choose|i: int| 0 <= i < front.len() && #[trigger] front[i] == highest(front);
            assert(heights[i] == highest(heights));
        }
    }
}

/// The nodes stand at one height exactly when any two of them stand at the same.
pub proof fn lemma_at_one_height_means_equal(heights: Seq<u32>)
    ensures
        at_one_height(heights) <==> forall|i: int, j: int|
            0 <= i < heights.len() && 0 <= j < heights.len() ==> heights[i] == heights[j],
{
    lemma_highest(heights);
    if forall|i: int, j: int|
        0 <= i < heights.len() && 0 <= j < heights.len() ==> heights[i] == heights[j] {
        if heights.len() > 0 {
            let k = choose|k: int| 0 <= k < heights.len() && #[trigger] heights[k] == highest(
                heights,
            );
            assert forall|i: int| 0 <= i < heights.len() implies #[trigger] heights[i] == highest(
                heights,
            ) by {
                assert(heights[i] == heights[k]);
            }
        }
    }
}

/// The height of the node that is furthest.
pub fn max_block_height(heights: &Vec<u32>) -> (max: u32)
    ensures
        max == highest(heights@),
{
    let mut max: u32 = 0;
    let mut i: usize = 0;
    assert(heights@.take(0) =~= Seq::<u32>::empty());
    while i < heights.len()
        invariant
            i <= heights.len(),
            max == highest(heights@.take(i as int)),
        decreases heights.len() - i,
    {
        assert(heights@.take(i + 1).drop_last() =~= heights@.take(i as int));
        assert(heights@.take(i + 1).last() == heights@[i as int]);
        if heights[i] >= max {
            max = heights[i];
        }
        i = i + 1;
    }
    assert(heights@.take(heights.len() as int) =~= heights@);
    max
}

/// Whether every node has reached the height of the node that is furthest:
/// the sign that the nodes have synchronised.
pub fn have_reached_max_height(heights: &Vec<u32>) -> (synced: bool)
    requires
        heights.len() > 0,
    ensures
        synced == at_one_height(heights@),
{
    let max = max_block_height(heights);
    let mut i: usize = 0;
    while i < heights.len()
        invariant
            i <= heights.len(),
            max == highest(heights@),
            forall|j: int| 0 <= j < i ==> #[trigger] heights@[j] == max,
        decreases heights.len() - i,
    {
        if heights[i] != max {
            return false;
        }
        i = i + 1;
    }
    true
}

} // verus!
