//! The leaders that a measurement still waits for.
//!
//! Leaders are numbered from 1, in the order in which they were given.

use vstd::prelude::*;

verus! {

/// The numbers of `count` leaders: 1, 2, and so on up to `count`.
pub open spec fn numbered(count: nat) -> Seq<u32> {
    Seq::new(count, |i: int| (i + 1) as u32)
}

/// The leader `id` is one of those that `finished` speaks of.
pub open spec fn is_leader(id: u32, finished: Seq<bool>) -> bool {
    1 <= id <= finished.len()
}

/// The leader `id` has not finished yet.
pub open spec fn is_waited_for(finished: Seq<bool>) -> spec_fn(u32) -> bool {
    |id: u32| !finished[id - 1]
}

/// The numbers of `leaders_nodes_count` leaders, all of them still waited for.
pub fn leaders_ids(leaders_nodes_count: u32) -> (ids: Vec<u32>)
    ensures
        ids@ == numbered(leaders_nodes_count as nat),
{
    let mut ids: Vec<u32> = Vec::new();
    let mut id: u32 = 0;
    while id < leaders_nodes_count
        invariant
            id <= leaders_nodes_count,
            ids@ == numbered(id as nat),
        decreases leaders_nodes_count - id,
    {
        id = id + 1;
        ids.push(id);
        assert(ids@ =~= numbered(id as nat));
    }
    ids
}

/// The place of the leader `leader_id` among the leaders.
pub fn leader_index(leader_id: u32) -> (index: usize)
    requires
        leader_id >= 1,
    ensures
        index == leader_id - 1,
{
    let index: u32 = leader_id - 1;
    index as usize
}

/// Keeps the leaders that have not finished, in their order. `finished` says
/// of each leader, by its place, whether it has.
pub fn retain_waited_for(leaders_ids: &Vec<u32>, finished: &Vec<bool>) -> (kept: Vec<u32>)
    requires
        forall|i: int| 0 <= i < leaders_ids.len() ==> is_leader(#[trigger] leaders_ids@[i], finished@),
    ensures
        kept@ == leaders_ids@.filter(is_waited_for(finished@)),
{
    let mut kept: Vec<u32> = Vec::new();
    let mut i: usize = 0;
    proof {
        reveal(Seq::filter);
        assert(leaders_ids@.take(0) =~= Seq::<u32>::empty());
    }
    while i < leaders_ids.len()
        invariant
            i <= leaders_ids.len(),
            forall|k: int|
                0 <= k < leaders_ids.len() ==> is_leader(#[trigger] leaders_ids@[k], finished@),
            kept@ == leaders_ids@.take(i as int).filter(is_waited_for(finished@)),
        decreases leaders_ids.len() - i,
    {
        let leader_id = leaders_ids[i];
        proof {
            reveal(Seq::filter);
            assert(is_leader(leaders_ids@[i as int], finished@));
            assert(leaders_ids@.take(i + 1).drop_last() =~= leaders_ids@.take(i as int));
            assert(leaders_ids@.take(i + 1).last() == leader_id);
        }
        if !finished[leader_index(leader_id)] {
            kept.push(leader_id);
        }
        i = i + 1;
    }
    assert(leaders_ids@.take(leaders_ids.len() as int) =~= leaders_ids@);
    kept
}

/// A leader stays exactly when it was waited for and has not finished, and
/// no leader is added.
pub proof fn lemma_retained(leaders_ids: Seq<u32>, finished: Seq<bool>)
    ensures
        forall|id: u32|
            leaders_ids.filter(is_waited_for(finished)).contains(id) <==> (leaders_ids.contains(id)
                && !finished[id - 1]),
        leaders_ids.filter(is_waited_for(finished)).len() <= leaders_ids.len(),
{
    let pred = is_waited_for(finished);
    let kept = leaders_ids.filter(pred);
    broadcast use vstd::seq_lib::group_filter_ensures;
    leaders_ids.lemma_filter_len(pred);
    assert forall|id: u32| kept.contains(id) <==> (leaders_ids.contains(id) && !finished[id - 1]) by {
        if kept.contains(id) {
            let j = choose|j: int| 0 <= j < kept.len() && kept[j] == id;
            leaders_ids.lemma_filter_pred(pred, j);
            leaders_ids.lemma_filter_contains_rev(pred, id);
        }
        if leaders_ids.contains(id) && !finished[id - 1] {
            let j = choose|j: int| 0 <= j < leaders_ids.len() && leaders_ids[j] == id;
            leaders_ids.lemma_filter_contains(pred, j);
        }
    }
}

} // verus!
