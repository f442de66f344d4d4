//! What holds of every walk of a graph of tasks: a run goes on until it is
//! finished, and it is finished when nothing is left to do.

use vstd::prelude::*;
use crate::results::db::{ResultKey, StoredResult};
use crate::runner::graph::{
    after_failure, is_first_pending_of_crate, is_runnable, pending_crates, positions, settled,
    walk, well_formed, work_is_left, NodeState, NodeView, WalkView,
};
use crate::seqs::{
    count_where, first_match, lemma_count_where_fewer, lemma_count_where_none, lemma_first_match,
};

verus! {

/// The nodes that are not finished.
pub open spec fn not_finished() -> spec_fn(NodeView) -> bool {
    |node: NodeView| !node.state.finished()
}

/// Number of nodes that are not finished.
pub open spec fn unfinished(g: Seq<NodeView>) -> nat {
    count_where(g, not_finished())
}

/// Completing a task that is in flight leaves one unfinished node less.
pub proof fn lemma_completion_is_progress(g: Seq<NodeView>, id: int)
    requires
        0 <= id < g.len(),
        g[id].state == NodeState::Running,
    ensures
        unfinished(g.update(id, NodeView { state: NodeState::Completed, ..g[id] })) < unfinished(
            g,
        ),
{
    let h = g.update(id, NodeView { state: NodeState::Completed, ..g[id] });
    lemma_count_where_fewer(g, not_finished(), h, not_finished(), id);
}

/// The failure of a task that is in flight leaves fewer unfinished nodes.
pub proof fn lemma_failure_is_progress(g: Seq<NodeView>, id: int)
    requires
        0 <= id < g.len(),
        g[id].state == NodeState::Running,
    ensures
        unfinished(after_failure(g, id)) < unfinished(g),
{
    lemma_count_where_fewer(g, not_finished(), after_failure(g, id), not_finished(), id);
}

/// A walk leaves no more unfinished nodes than it found.
pub proof fn lemma_walk_keeps_progress(
    g: Seq<NodeView>,
    experiment: Seq<char>,
    results: Map<ResultKey, StoredResult>,
)
    ensures
        unfinished(walk(g, experiment, results).graph) <= unfinished(g),
{
    let h = walk(g, experiment, results).graph;
    lemma_first_match(positions(g.len()), is_runnable(g, experiment, results));
    let at = first_match(positions(g.len()), is_runnable(g, experiment, results));
    assert forall|i: int| 0 <= i < g.len() && not_finished()(#[trigger] h[i]) implies not_finished()(
        g[i],
    ) by {
        if i == at {
            assert(is_runnable(g, experiment, results)(positions(g.len())[at]));
        }
    }
    lemma_count_where_fewer(g, not_finished(), h, not_finished(), 0);
}

/// A walk that is blocked leaves a task in flight: as long as tasks are left
/// and none is in flight, a walk hands one out.
pub proof fn lemma_blocked_means_in_flight(
    g: Seq<NodeView>,
    experiment: Seq<char>,
    results: Map<ResultKey, StoredResult>,
)
    requires
        well_formed(g),
        walk(g, experiment, results).result == WalkView::Blocked,
    ensures
        exists|i: int|
            0 <= i < g.len() && g[i].state == NodeState::Running && (#[trigger] walk(
                g,
                experiment,
                results,
            ).graph[i]).state == NodeState::Running,
{
    let h = walk(g, experiment, results).graph;
    lemma_first_match(positions(g.len()), is_runnable(g, experiment, results));
    if !exists|i: int|
        0 <= i < g.len() && g[i].state == NodeState::Running && (#[trigger] h[i]).state
            == NodeState::Running {
        assert forall|i: int| 0 <= i < g.len() implies (#[trigger] g[i]).state
            != NodeState::Running by {
            if g[i].state == NodeState::Running {
                assert(h[i].state == NodeState::Running);
            }
        }
        lemma_settled_graph_is_finished(g, experiment, results, g.len() as int);
        assert(!work_is_left(h));
    }
}

/// Where a walk hands nothing out and no task is in flight, it leaves every
/// node finished.
proof fn lemma_settled_graph_is_finished(
    g: Seq<NodeView>,
    experiment: Seq<char>,
    results: Map<ResultKey, StoredResult>,
    upto: int,
)
    requires
        well_formed(g),
        0 <= upto <= g.len(),
        first_match(positions(g.len()), is_runnable(g, experiment, results)) == g.len(),
        forall|i: int| 0 <= i < g.len() ==> (#[trigger] g[i]).state != NodeState::Running,
    ensures
        forall|i: int|
            0 <= i < upto ==> (#[trigger] walk(g, experiment, results).graph[i]).state.finished(),
        forall|i: int|
            0 <= i < upto ==> settled(g, experiment, results, i) != NodeState::Failed || g[i].state
                == NodeState::Failed,
    decreases upto,
{
    if upto > 0 {
        lemma_settled_graph_is_finished(g, experiment, results, upto - 1);
        let m = upto - 1;
        let h = walk(g, experiment, results).graph;
        lemma_first_match(positions(g.len()), is_runnable(g, experiment, results));
        assert(!is_runnable(g, experiment, results)(positions(g.len())[m]));
        assert(h[m].state == settled(g, experiment, results, m));
        if g[m].state == NodeState::Pending {
            assert forall|k: int| 0 <= k < g[m].deps.len() implies 0 <= #[trigger] g[m].deps[k]
                < m && settled(g, experiment, results, g[m].deps[k]).satisfied() by {
                let d = g[m].deps[k];
                assert(0 <= d < m);
                assert(h[d].state.finished());
                assert(h[d].state == settled(g, experiment, results, d));
                if settled(g, experiment, results, d) == NodeState::Failed {
                    assert(g[d].state == NodeState::Failed);
                    assert(g[m].state.finished());
                }
            }
        }
    }
}

/// A walk says that the run is finished exactly when it leaves no node
/// unfinished; no crate is pending then.
pub proof fn lemma_finished_means_drained(
    g: Seq<NodeView>,
    experiment: Seq<char>,
    results: Map<ResultKey, StoredResult>,
)
    ensures
        walk(g, experiment, results).result == WalkView::Finished <==> !work_is_left(
            walk(g, experiment, results).graph,
        ),
        walk(g, experiment, results).result == WalkView::Finished ==> pending_crates(
            walk(g, experiment, results).graph,
        ) == 0 && unfinished(walk(g, experiment, results).graph) == 0,
{
    let h = walk(g, experiment, results).graph;
    lemma_first_match(positions(g.len()), is_runnable(g, experiment, results));
    let at = first_match(positions(g.len()), is_runnable(g, experiment, results));
    if at < g.len() {
        assert(!h[at].state.finished());
    }
    if !work_is_left(h) {
        lemma_drained(h);
    }
}

/// A graph without unfinished nodes has no pending crate.
pub proof fn lemma_drained(g: Seq<NodeView>)
    requires
        !work_is_left(g),
    ensures
        pending_crates(g) == 0,
        unfinished(g) == 0,
{
    assert forall|i: int| 0 <= i < g.len() implies !is_first_pending_of_crate(g)(
        #[trigger] positions(g.len())[i],
    ) by {
        assert(g[i].state.finished());
    }
    lemma_count_where_none(positions(g.len()), is_first_pending_of_crate(g));
    assert forall|i: int| 0 <= i < g.len() implies !not_finished()(#[trigger] g[i]) by {
        assert(g[i].state.finished());
    }
    lemma_count_where_none(g, not_finished());
}

} // verus!
