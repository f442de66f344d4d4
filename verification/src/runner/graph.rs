//! The graph of the tasks of a chunk. Each task waits for the tasks it
//! depends on; a task that fails takes the tasks that wait for it with it.

use vstd::prelude::*;
use crate::experiments::ExperimentChunk;
use crate::results::db::{DatabaseDB, ResultKey, StoredResult};
use crate::results::TestResult;
use crate::runner::tasks::{failure_notice, Task, TaskView};
use crate::config::Config;
use crate::crates::{listed, Crate};
use crate::runner::tasks::{TaskStep, TaskStepView};
use crate::seqs::{
    count_where, first_match, lemma_count_where_step, lemma_first_match_is, lemma_put_all_push,
    put_all,
};

verus! {

/// Where a node of the graph stands.
#[derive(Debug, PartialEq, Eq, Clone, Copy, Structural)]
pub enum NodeState {
    /// Not handed out yet.
    Pending,
    /// Handed out and not reported back: in flight.
    Running,
    /// Run with success.
    Completed,
    /// Failed, or waiting for a task that failed.
    Failed,
    /// Not run, because its result was stored before.
    Skipped,
}

impl NodeState {
    /// Whether nothing is left to do for the node.
    pub open spec fn finished(self) -> bool {
        self is Completed || self is Failed || self is Skipped
    }

    /// Whether the nodes that depend on the node may go ahead.
    pub open spec fn satisfied(self) -> bool {
        self is Completed || self is Skipped
    }

    /// Exec counterpart of [`NodeState::finished`].
    pub fn is_finished(self) -> (done: bool)
        ensures
            done == self.finished(),
    {
        match self {
            NodeState::Completed | NodeState::Failed | NodeState::Skipped => true,
            NodeState::Pending | NodeState::Running => false,
        }
    }

    /// Exec counterpart of [`NodeState::satisfied`].
    pub fn is_satisfied(self) -> (done: bool)
        ensures
            done == self.satisfied(),
    {
        match self {
            NodeState::Completed | NodeState::Skipped => true,
            NodeState::Pending | NodeState::Running | NodeState::Failed => false,
        }
    }
}

/// A node of the graph: the root, which has no task, or a task.
#[derive(Debug)]
pub struct Node {
    task: Option<Task>,
    deps: Vec<usize>,
    state: NodeState,
}

/// What a [`Node`] holds, as plain values.
pub struct NodeView {
    pub task: Option<TaskView>,
    /// The nodes that this one waits for, by their positions.
    pub deps: Seq<int>,
    pub state: NodeState,
}

impl View for Node {
    type V = NodeView;

    closed spec fn view(&self) -> NodeView {
        NodeView {
            task: match self.task {
                Some(task) => Some(task@),
                None => None,
            },
            deps: self.deps@.map_values(|d: usize| d as int),
            state: self.state,
        }
    }
}

/// The graph of the tasks of a chunk. The node at position 0 is the root.
#[derive(Debug)]
pub struct TasksGraph {
    nodes: Vec<Node>,
}

impl View for TasksGraph {
    type V = Seq<NodeView>;

    closed spec fn view(&self) -> Seq<NodeView> {
        Seq::new(self.nodes@.len(), |i: int| self.nodes@[i]@)
    }
}

/// Whether each node that `node` waits for lets it go ahead.
pub open spec fn ready(g: Seq<NodeView>, node: NodeView) -> bool {
    forall|k: int|
        0 <= k < node.deps.len() ==> 0 <= #[trigger] node.deps[k] < g.len()
            && g[node.deps[k]].state.satisfied()
}

/// What holds of every graph: the root stands first, is completed and waits
/// for nothing; every other node has a task and waits only for nodes before
/// it. A node that waits for a failed node is finished, and a node that runs
/// or ran waited for nodes that let it go ahead.
pub open spec fn well_formed(g: Seq<NodeView>) -> bool {
    &&& g.len() >= 1
    &&& g[0].task is None
    &&& g[0].state == NodeState::Completed
    &&& g[0].deps.len() == 0
    &&& forall|i: int| 1 <= i < g.len() ==> (#[trigger] g[i]).task is Some
    &&& forall|i: int, k: int|
        0 <= i < g.len() && 0 <= k < g[i].deps.len() ==> 0 <= #[trigger] g[i].deps[k] < i
    &&& forall|i: int, k: int|
        0 <= i < g.len() && 0 <= k < g[i].deps.len() && g[#[trigger] g[i].deps[k]].state
            == NodeState::Failed ==> g[i].state.finished()
    &&& forall|i: int, k: int|
        0 <= i < g.len() && 0 <= k < g[i].deps.len() && (g[i].state == NodeState::Running
            || g[i].state == NodeState::Completed) ==> g[#[trigger] g[i].deps[k]].state.satisfied()
}

/// Whether the result of the task of a node is stored already for the
/// experiment named `experiment`.
pub open spec fn stored_before(
    node: NodeView,
    experiment: Seq<char>,
    results: Map<ResultKey, StoredResult>,
) -> bool {
    node.task is Some && !node.task->0.needs_exec(experiment, results)
}

/// Where the node at position `i` stands once the walk has passed it without
/// handing it out: a pending node whose result is stored already, and which
/// waits for nothing that holds it back, is skipped.
pub open spec fn settled(
    g: Seq<NodeView>,
    experiment: Seq<char>,
    results: Map<ResultKey, StoredResult>,
    i: int,
) -> NodeState
    decreases i,
{
    if i < 0 || i >= g.len() {
        NodeState::Pending
    } else if g[i].state == NodeState::Pending && stored_before(g[i], experiment, results)
        && forall|k: int|
        0 <= k < g[i].deps.len() ==> 0 <= #[trigger] g[i].deps[k] < i && settled(
            g,
            experiment,
            results,
            g[i].deps[k],
        ).satisfied() {
        NodeState::Skipped
    } else {
        g[i].state
    }
}

/// Whether the node at position `i` is one to hand out: it is pending, its
/// result is not stored yet, and the nodes it waits for let it go ahead.
pub open spec fn runnable(
    g: Seq<NodeView>,
    experiment: Seq<char>,
    results: Map<ResultKey, StoredResult>,
    i: int,
) -> bool {
    &&& 0 <= i < g.len()
    &&& g[i].state == NodeState::Pending
    &&& !stored_before(g[i], experiment, results)
    &&& forall|k: int|
        0 <= k < g[i].deps.len() ==> 0 <= #[trigger] g[i].deps[k] < i && settled(
            g,
            experiment,
            results,
            g[i].deps[k],
        ).satisfied()
}

/// The positions of the nodes to hand out.
pub open spec fn is_runnable(
    g: Seq<NodeView>,
    experiment: Seq<char>,
    results: Map<ResultKey, StoredResult>,
) -> spec_fn(int) -> bool {
    |i: int| runnable(g, experiment, results, i)
}

/// The positions from 0 up to, and without, `n`.
pub open spec fn positions(n: nat) -> Seq<int> {
    Seq::new(n, |i: int| i)
}

/// What a walk gives.
#[derive(Debug)]
pub enum WalkResult {
    /// A task to run, with the position of its node: the node is in flight
    /// from now on.
    Task(usize, Task),
    /// Tasks are left, and none of them can be handed out now.
    Blocked,
    /// Never given by a walk.
    NotBlocked,
    /// Nothing is left but the root.
    Finished,
}

/// What a [`WalkResult`] holds, as plain values.
pub enum WalkView {
    Task(int, TaskView),
    Blocked,
    NotBlocked,
    Finished,
}

impl View for WalkResult {
    type V = WalkView;

    open spec fn view(&self) -> WalkView {
        match self {
            WalkResult::Task(id, task) => WalkView::Task(*id as int, task@),
            WalkResult::Blocked => WalkView::Blocked,
            WalkResult::NotBlocked => WalkView::NotBlocked,
            WalkResult::Finished => WalkView::Finished,
        }
    }
}

impl WalkResult {
    /// Whether the walk found nothing left to do.
    pub fn is_finished(&self) -> (finished: bool)
        ensures
            finished == (self@ == WalkView::Finished),
    {
        match self {
            WalkResult::Finished => true,
            _ => false,
        }
    }
}

/// A walk: what it gives, and the graph as it leaves it.
pub struct Walk {
    pub result: WalkView,
    pub graph: Seq<NodeView>,
}

/// Whether a node of `g` is not finished.
pub open spec fn work_is_left(g: Seq<NodeView>) -> bool {
    exists|i: int| 0 <= i < g.len() && !(#[trigger] g[i]).state.finished()
}

/// The walk of a graph for the experiment named `experiment`. The nodes are
/// passed in the order of their positions. The first one to hand out is
/// handed out, and is in flight from then on; the nodes passed before it
/// are settled. Where there is none to hand out, every node is settled, and
/// the walk is blocked as long as a node is not finished.
pub open spec fn walk(
    g: Seq<NodeView>,
    experiment: Seq<char>,
    results: Map<ResultKey, StoredResult>,
) -> Walk {
    let at = first_match(positions(g.len()), is_runnable(g, experiment, results));
    let graph = Seq::new(
        g.len(),
        |i: int|
            NodeView {
                state: if i < at {
                    settled(g, experiment, results, i)
                } else if i == at {
                    NodeState::Running
                } else {
                    g[i].state
                },
                ..g[i]
            },
    );
    Walk {
        graph,
        result: if at < g.len() {
            WalkView::Task(at, g[at].task->0)
        } else if work_is_left(graph) {
            WalkView::Blocked
        } else {
            WalkView::Finished
        },
    }
}

impl TasksGraph {
    /// Whether the graph is well formed.
    pub open spec fn wf(&self) -> bool {
        well_formed(self@)
    }

    /// A graph with the root alone.
    pub fn new() -> (graph: TasksGraph)
        ensures
            graph.wf(),
            graph@ == seq![
                NodeView { task: None, deps: Seq::<int>::empty(), state: NodeState::Completed },
            ],
    {
        let mut nodes: Vec<Node> = Vec::new();
        nodes.push(Node { task: None, deps: Vec::new(), state: NodeState::Completed });
        let graph = TasksGraph { nodes };
        assert(graph@[0].deps =~= Seq::<int>::empty());
        assert(graph@ =~= seq![
            NodeView { task: None, deps: Seq::<int>::empty(), state: NodeState::Completed },
        ]);
        graph
    }

    /// Number of nodes, the root included.
    pub fn len(&self) -> (n: usize)
        ensures
            n == self@.len(),
    {
        self.nodes.len()
    }

    /// Where the node at position `id` stands.
    pub fn state(&self, id: usize) -> (state: NodeState)
        requires
            id < self@.len(),
        ensures
            state == self@[id as int].state,
    {
        self.nodes[id].state
    }

    /// The task of the node at position `id`; the root has none.
    pub fn task(&self, id: usize) -> (task: Option<Task>)
        requires
            id < self@.len(),
        ensures
            match (task, self@[id as int].task) {
                (Some(t), Some(v)) => t@ == v,
                (None, None) => true,
                _ => false,
            },
    {
        match &self.nodes[id].task {
            Some(task) => Some(task.clone()),
            None => None,
        }
    }

    /// Whether `id` is the position of a task that is in flight.
    pub fn is_running(&self, id: usize) -> (running: bool)
        ensures
            running == (id < self@.len() && self@[id as int].state == NodeState::Running),
    {
        id < self.nodes.len() && self.nodes[id].state == NodeState::Running
    }

    /// Adds a pending task that waits for the nodes at the positions `deps`,
    /// and gives the position of the new node. Tasks are added before any of
    /// the tasks they wait for is finished.
    pub fn add_task(&mut self, task: Task, deps: &Vec<usize>) -> (id: usize)
        requires
            old(self).wf(),
            forall|k: int|
                0 <= k < deps@.len() ==> (#[trigger] deps@[k]) < old(self)@.len() && (!old(
                    self,
                )@[deps@[k] as int].state.finished() || deps@[k] == 0),
        ensures
            final(self).wf(),
            id == old(self)@.len(),
            final(self)@ == old(self)@.push(
                NodeView {
                    task: Some(task@),
                    deps: deps@.map_values(|d: usize| d as int),
                    state: NodeState::Pending,
                },
            ),
    {
        let id = self.nodes.len();
        let mut kept: Vec<usize> = Vec::new();
        let mut k: usize = 0;
        while k < deps.len()
            invariant
                k <= deps.len(),
                kept@ == deps@.take(k as int),
            decreases deps.len() - k,
        {
            kept.push(deps[k]);
            assert(kept@ =~= deps@.take(k + 1));
            k += 1;
        }
        assert(deps@.take(k as int) =~= deps@);
        let ghost node = NodeView {
            task: Some(task@),
            deps: deps@.map_values(|d: usize| d as int),
            state: NodeState::Pending,
        };
        self.nodes.push(Node { task: Some(task), deps: kept, state: NodeState::Pending });
        proof {
            assert(self@ =~= old(self)@.push(node));
            lemma_push_keeps_wf(old(self)@, node);
        }
        id
    }

    /// Sets the state of the node at position `id`.
    fn set_state(&mut self, id: usize, state: NodeState)
        requires
            id < old(self)@.len(),
        ensures
            final(self)@ == old(self)@.update(
                id as int,
                NodeView { state, ..old(self)@[id as int] },
            ),
    {
        self.nodes[id].state = state;
        assert(self@ =~= old(self)@.update(id as int, NodeView { state, ..old(self)@[id as int] }));
    }

    /// Whether each node that the node at position `id` waits for lets it go
    /// ahead.
    fn is_ready(&self, id: usize) -> (go: bool)
        requires
            self.wf(),
            id < self@.len(),
        ensures
            go == ready(self@, self@[id as int]),
    {
        let deps = &self.nodes[id].deps;
        let ghost node = self@[id as int];
        let mut k: usize = 0;
        while k < deps.len()
            invariant
                self.wf(),
                id < self@.len(),
                node == self@[id as int],
                deps@ == self.nodes@[id as int].deps@,
                k <= deps.len(),
                forall|j: int|
                    0 <= j < k ==> 0 <= #[trigger] node.deps[j] < self@.len()
                        && self@[node.deps[j]].state.satisfied(),
            decreases deps.len() - k,
        {
            let d = deps[k];
            assert(node.deps[k as int] == d);
            assert(0 <= node.deps[k as int] < id);
            if !self.nodes[d].state.is_satisfied() {
                return false;
            }
            k += 1;
        }
        true
    }
}

impl TasksGraph {
    /// Gives the next task to run, if there is one now, and marks it as in
    /// flight, so that no other walk gives it. A task whose result is stored
    /// for the parent of the chunk is not run again.
    pub fn next_task(&mut self, ex: &ExperimentChunk, db: &DatabaseDB) -> (result: WalkResult)
        requires
            old(self).wf(),
        ensures
            final(self).wf(),
            final(self)@ == walk(old(self)@, ex.parent_name@, db@.results).graph,
            result@ == walk(old(self)@, ex.parent_name@, db@.results).result,
            !(result is NotBlocked),
    {
        let ghost g = self@;
        let ghost experiment = ex.parent_name@;
        let ghost results = db@.results;
        let n = self.nodes.len();
        let mut i: usize = 0;
        while i < n
            invariant
                i <= n,
                n == g.len(),
                self@.len() == n,
                g == old(self)@,
                experiment == ex.parent_name@,
                results == db@.results,
                self.wf(),
                well_formed(g),
                forall|j: int|
                    0 <= j < n ==> (#[trigger] self@[j]).task == g[j].task && self@[j].deps
                        == g[j].deps,
                forall|j: int|
                    0 <= j < i ==> (#[trigger] self@[j]).state == settled(
                        g,
                        experiment,
                        results,
                        j,
                    ),
                forall|j: int| 0 <= j < i ==> !#[trigger] runnable(g, experiment, results, j),
                forall|j: int| i <= j < n ==> (#[trigger] self@[j]).state == g[j].state,
            decreases n - i,
        {
            let ghost here = self@;
            assert(here[i as int].state == g[i as int].state);
            if self.nodes[i].state == NodeState::Pending {
                let go = self.is_ready(i);
                proof {
                    assert(go == (forall|k: int|
                        0 <= k < g[i as int].deps.len() ==> 0 <= #[trigger] g[i as int].deps[k]
                            < i && settled(
                            g,
                            experiment,
                            results,
                            g[i as int].deps[k],
                        ).satisfied())) by {
                        assert(here[i as int].deps == g[i as int].deps);
                        if go {
                            assert forall|k: int| 0 <= k < g[i as int].deps.len() implies 0
                                <= #[trigger] g[i as int].deps[k] < i && settled(
                                g,
                                experiment,
                                results,
                                g[i as int].deps[k],
                            ).satisfied() by {
                                let d = g[i as int].deps[k];
                                assert(here[i as int].deps[k] == d);
                                assert(here[d].state.satisfied());
                            }
                        } else {
                            let k = choose|k: int|
                                0 <= k < here[i as int].deps.len() && !(0
                                    <= #[trigger] here[i as int].deps[k] < here.len()
                                    && here[here[i as int].deps[k]].state.satisfied());
                            let d = g[i as int].deps[k];
                            assert(here[i as int].deps[k] == d);
                            assert(0 <= d < i);
                            assert(!settled(g, experiment, results, d).satisfied());
                        }
                    }
                }
                if go {
                    let needed = match &self.nodes[i].task {
                        Some(task) => task.needs_exec(ex, db),
                        None => true,
                    };
                    assert(needed == !stored_before(g[i as int], experiment, results)) by {
                        assert(here[i as int].task == g[i as int].task);
                        assert(i >= 1);
                    }
                    if needed {
                        let task = match &self.nodes[i].task {
                            Some(task) => task.clone(),
                            None => {
                                assert(false);
                                return WalkResult::NotBlocked;
                            },
                        };
                        proof {
                            lemma_update_keeps_wf(here, i as int, NodeState::Running);
                            assert(runnable(g, experiment, results, i as int));
                            assert forall|j: int| 0 <= j < i implies !is_runnable(
                                g,
                                experiment,
                                results,
                            )(#[trigger] positions(n as nat)[j]) by {
                                assert(!runnable(g, experiment, results, j));
                            }
                            lemma_first_match_is(
                                positions(n as nat),
                                is_runnable(g, experiment, results),
                                i as int,
                            );
                        }
                        self.set_state(i, NodeState::Running);
                        assert(self@ =~= walk(g, experiment, results).graph);
                        return WalkResult::Task(i, task);
                    } else {
                        proof {
                            lemma_update_keeps_wf(here, i as int, NodeState::Skipped);
                        }
                        self.set_state(i, NodeState::Skipped);
                    }
                }
            }
            i += 1;
        }
        proof {
            assert forall|j: int| 0 <= j < n implies !is_runnable(g, experiment, results)(
                #[trigger] positions(n as nat)[j],
            ) by {
                assert(!runnable(g, experiment, results, j));
            }
            lemma_first_match_is(
                positions(n as nat),
                is_runnable(g, experiment, results),
                n as int,
            );
            assert(self@ =~= walk(g, experiment, results).graph);
        }
        let mut k: usize = 0;
        while k < n
            invariant
                k <= n,
                n == self@.len(),
                n == self.nodes.len(),
                n == g.len(),
                self.wf(),
                self@ == walk(g, experiment, results).graph,
                first_match(positions(n as nat), is_runnable(g, experiment, results)) == n,
                g == old(self)@,
                experiment == ex.parent_name@,
                results == db@.results,
                forall|j: int| 0 <= j < k ==> (#[trigger] self@[j]).state.finished(),
            decreases n - k,
        {
            if !self.nodes[k].state.is_finished() {
                assert(!self@[k as int].state.finished());
                return WalkResult::Blocked;
            }
            k += 1;
        }
        WalkResult::Finished
    }
}

/// Whether the failure of the node at position `id` takes the node at
/// position `j` with it: `j` is that node, or a pending node that waits for a
/// node that the failure takes with it.
pub open spec fn fails_with(g: Seq<NodeView>, id: int, j: int) -> bool
    decreases j,
{
    j == id || (0 <= j < g.len() && g[j].state == NodeState::Pending && exists|k: int|
        0 <= k < g[j].deps.len() && 0 <= #[trigger] g[j].deps[k] < j && fails_with(
            g,
            id,
            g[j].deps[k],
        ))
}

/// The graph after the node at position `id` failed.
pub open spec fn after_failure(g: Seq<NodeView>, id: int) -> Seq<NodeView> {
    Seq::new(
        g.len(),
        |j: int|
            NodeView {
                state: if fails_with(g, id, j) {
                    NodeState::Failed
                } else {
                    g[j].state
                },
                ..g[j]
            },
    )
}

/// Whether `key` is the key of the result of a node before position `upto`
/// that the failure of the node at position `id` takes with it.
pub open spec fn fails_key(
    g: Seq<NodeView>,
    id: int,
    experiment: Seq<char>,
    key: ResultKey,
    upto: int,
) -> bool {
    exists|j: int|
        0 <= j < upto && j < g.len() && fails_with(g, id, j) && (#[trigger] g[j]).task is Some
            && g[j].task->0.result_key(experiment) == Some(key)
}

/// The results after `stored` was recorded for each node before position
/// `upto` that the failure of the node at position `id` takes with it.
pub open spec fn failed_results(
    results: Map<ResultKey, StoredResult>,
    g: Seq<NodeView>,
    id: int,
    experiment: Seq<char>,
    stored: StoredResult,
    upto: int,
) -> Map<ResultKey, StoredResult> {
    Map::new(
        |key: ResultKey| results.dom().contains(key) || fails_key(g, id, experiment, key, upto),
        |key: ResultKey|
            if fails_key(g, id, experiment, key, upto) {
                stored
            } else {
                results[key]
            },
    )
}

/// What a failure writes: `stored`, under the key of each node before
/// position `upto` that the failure of the node at position `id` takes with
/// it and that has a result, in the order of their positions.
pub open spec fn failed_entries(
    g: Seq<NodeView>,
    id: int,
    experiment: Seq<char>,
    stored: StoredResult,
    upto: int,
) -> Seq<(ResultKey, StoredResult)>
    decreases upto,
{
    if upto <= 0 {
        Seq::empty()
    } else {
        let before = failed_entries(g, id, experiment, stored, upto - 1);
        if upto - 1 < g.len() && fails_with(g, id, upto - 1) && g[upto - 1].task is Some
            && g[upto - 1].task->0.result_key(experiment) is Some {
            before.push((g[upto - 1].task->0.result_key(experiment)->0, stored))
        } else {
            before
        }
    }
}

/// The rows of results after a failure: what [`failed_entries`] lists is
/// written, one after the other, each in place of the first row of its
/// crate and toolchain or, where there is no such row, at the end.
pub open spec fn failed_rows(
    rows: Seq<(ResultKey, StoredResult)>,
    g: Seq<NodeView>,
    id: int,
    experiment: Seq<char>,
    stored: StoredResult,
    upto: int,
) -> Seq<(ResultKey, StoredResult)> {
    put_all(rows, failed_entries(g, id, experiment, stored, upto))
}

/// A failure writes nothing for the nodes before the one that failed.
proof fn lemma_no_rows_before_failure(
    g: Seq<NodeView>,
    id: int,
    experiment: Seq<char>,
    stored: StoredResult,
    upto: int,
)
    requires
        upto <= id,
    ensures
        failed_entries(g, id, experiment, stored, upto) == Seq::<
            (ResultKey, StoredResult),
        >::empty(),
    decreases upto,
{
    if upto > 0 {
        lemma_no_rows_before_failure(g, id, experiment, stored, upto - 1);
        if fails_with(g, id, upto - 1) {
            lemma_fails_with_is_later(g, id, upto - 1);
        }
    }
}

impl TasksGraph {
    /// Marks a task that is in flight as run with success.
    pub fn mark_as_completed(&mut self, id: usize)
        requires
            old(self).wf(),
            id < old(self)@.len(),
            old(self)@[id as int].state == NodeState::Running,
        ensures
            final(self).wf(),
            final(self)@ == old(self)@.update(
                id as int,
                NodeView { state: NodeState::Completed, ..old(self)@[id as int] },
            ),
    {
        proof {
            let g = self@;
            assert(ready(g, g[id as int])) by {
                assert forall|k: int| 0 <= k < g[id as int].deps.len() implies 0
                    <= #[trigger] g[id as int].deps[k] < g.len()
                    && g[g[id as int].deps[k]].state.satisfied() by {
                    assert(0 <= g[id as int].deps[k] < id);
                }
            }
            lemma_update_keeps_wf(g, id as int, NodeState::Completed);
        }
        self.set_state(id, NodeState::Completed);
    }

    /// Whether the node at position `j` waits for a node that has failed.
    fn waits_for_failed(&self, j: usize) -> (yes: bool)
        requires
            j < self@.len(),
            forall|k: int|
                0 <= k < self@[j as int].deps.len() ==> 0 <= #[trigger] self@[j as int].deps[k]
                    < self@.len(),
        ensures
            yes == exists|k: int|
                0 <= k < self@[j as int].deps.len() && self@[#[trigger] self@[j as int].deps[k]].state
                    == NodeState::Failed,
    {
        let deps = &self.nodes[j].deps;
        let ghost node = self@[j as int];
        let mut k: usize = 0;
        while k < deps.len()
            invariant
                j < self@.len(),
                node == self@[j as int],
                deps@ == self.nodes@[j as int].deps@,
                k <= deps.len(),
                forall|m: int| 0 <= m < node.deps.len() ==> 0 <= #[trigger] node.deps[m] < self@.len(),
                forall|m: int|
                    0 <= m < k ==> self@[#[trigger] node.deps[m]].state != NodeState::Failed,
            decreases deps.len() - k,
        {
            let d = deps[k];
            assert(node.deps[k as int] == d);
            if self.nodes[d].state == NodeState::Failed {
                return true;
            }
            k += 1;
        }
        false
    }

    /// Marks a task that is in flight as failed, and with it every task that
    /// waits for it, directly or through other tasks. For each of them that
    /// has a result, `result` is recorded for the parent of the chunk, with a
    /// log that holds the notice of the failure and `error`.
    pub fn mark_as_failed(
        &mut self,
        id: usize,
        ex: &ExperimentChunk,
        db: &mut DatabaseDB,
        error: &str,
        result: TestResult,
    )
        requires
            old(self).wf(),
            id < old(self)@.len(),
            old(self)@[id as int].state == NodeState::Running,
        ensures
            final(self).wf(),
            final(self)@ == after_failure(old(self)@, id as int),
            final(db).shas == old(db).shas,
            final(db)@.results == failed_results(
                old(db)@.results,
                old(self)@,
                id as int,
                ex.parent_name@,
                StoredResult {
                    result,
                    log: vstd::utf8::encode_utf8(failure_notice() + error@),
                },
                old(self)@.len() as int,
            ),
            final(db)@.result_rows == failed_rows(
                old(db)@.result_rows,
                old(self)@,
                id as int,
                ex.parent_name@,
                StoredResult {
                    result,
                    log: vstd::utf8::encode_utf8(failure_notice() + error@),
                },
                old(self)@.len() as int,
            ),
    {
        let ghost g = self@;
        let ghost experiment = ex.parent_name@;
        let ghost before = db@.results;
        let ghost rows = db@.result_rows;
        let ghost stored = StoredResult {
            result,
            log: vstd::utf8::encode_utf8(failure_notice() + error@),
        };
        let n = self.nodes.len();
        proof {
            assert(db@.results =~= failed_results(before, g, id as int, experiment, stored, id as int)) by {
                assert forall|key: ResultKey| !fails_key(g, id as int, experiment, key, id as int) by {
                    if fails_key(g, id as int, experiment, key, id as int) {
                        let j = choose|j: int|
                            0 <= j < id && j < g.len() && fails_with(g, id as int, j) && (
                            #[trigger] g[j]).task is Some && g[j].task->0.result_key(experiment)
                                == Some(key);
                        lemma_fails_with_is_later(g, id as int, j);
                    }
                }
            }
        }
        proof {
            lemma_no_rows_before_failure(g, id as int, experiment, stored, id as int);
            assert forall|m: int| 0 <= m < id implies !fails_with(g, id as int, m) by {
                if fails_with(g, id as int, m) {
                    lemma_fails_with_is_later(g, id as int, m);
                }
            }
        }
        let mut j: usize = id;
        while j < n
            invariant
                id <= j <= n,
                n == g.len(),
                self@.len() == n,
                g == old(self)@,
                well_formed(g),
                g[id as int].state == NodeState::Running,
                experiment == ex.parent_name@,
                before == old(db)@.results,
                stored == (StoredResult {
                    result,
                    log: vstd::utf8::encode_utf8(failure_notice() + error@),
                }),
                db.shas == old(db).shas,
                db@.results == failed_results(before, g, id as int, experiment, stored, j as int),
                rows == old(db)@.result_rows,
                db@.result_rows == failed_rows(rows, g, id as int, experiment, stored, j as int),
                forall|m: int|
                    0 <= m < n ==> (#[trigger] self@[m]).task == g[m].task && self@[m].deps
                        == g[m].deps,
                forall|m: int|
                    0 <= m < j ==> (#[trigger] self@[m]).state == after_failure(
                        g,
                        id as int,
                    )[m].state,
                forall|m: int| j <= m < n ==> (#[trigger] self@[m]).state == g[m].state,
            decreases n - j,
        {
            let ghost here = self@;
            assert(here[j as int].deps == g[j as int].deps);
            assert forall|k: int| 0 <= k < here[j as int].deps.len() implies 0
                <= #[trigger] here[j as int].deps[k] < here.len() by {
                assert(0 <= g[j as int].deps[k] < j);
            }
            let waits = if j != id && self.nodes[j].state == NodeState::Pending {
                self.waits_for_failed(j)
            } else {
                false
            };
            let taken = j == id || waits;
            proof {
                assert(taken == fails_with(g, id as int, j as int)) by {
                    if j != id {
                        assert(here[j as int].state == g[j as int].state);
                        if g[j as int].state == NodeState::Pending {
                            if waits {
                                let k = choose|k: int|
                                    0 <= k < here[j as int].deps.len()
                                        && here[#[trigger] here[j as int].deps[k]].state
                                        == NodeState::Failed;
                                let d = g[j as int].deps[k];
                                assert(here[j as int].deps[k] == d);
                                assert(0 <= d < j);
                                assert(here[d].state == after_failure(g, id as int)[d].state);
                                if !fails_with(g, id as int, d) {
                                    assert(g[d].state == NodeState::Failed);
                                    assert(g[j as int].state.finished());
                                }
                                assert(fails_with(g, id as int, j as int));
                            } else {
                                if fails_with(g, id as int, j as int) {
                                    let k = choose|k: int|
                                        0 <= k < g[j as int].deps.len() && 0
                                            <= #[trigger] g[j as int].deps[k] < j && fails_with(
                                            g,
                                            id as int,
                                            g[j as int].deps[k],
                                        );
                                    let d = g[j as int].deps[k];
                                    assert(here[j as int].deps[k] == d);
                                    assert(here[d].state == after_failure(g, id as int)[d].state);
                                    assert(here[here[j as int].deps[k]].state == NodeState::Failed);
                                }
                            }
                        }
                    }
                }
            }
            if taken {
                match &self.nodes[j].task {
                    Some(task) => {
                        task.mark_as_failed(ex, db, error, result);
                    },
                    None => {},
                }
                self.set_state(j, NodeState::Failed);
            }
            proof {
                assert(self@[j as int].task == g[j as int].task);
                lemma_put_all_push(
                    rows,
                    failed_entries(g, id as int, experiment, stored, j as int),
                    (g[j as int].task->0.result_key(experiment)->0, stored),
                );
                assert(db@.result_rows == failed_rows(
                    rows,
                    g,
                    id as int,
                    experiment,
                    stored,
                    j + 1,
                ));
                assert(db@.results =~= failed_results(
                    before,
                    g,
                    id as int,
                    experiment,
                    stored,
                    j + 1,
                )) by {
                    let prev = failed_results(before, g, id as int, experiment, stored, j as int);
                    let next = failed_results(before, g, id as int, experiment, stored, j + 1);
                    assert forall|key: ResultKey|
                        fails_key(g, id as int, experiment, key, j + 1) == (fails_key(
                            g,
                            id as int,
                            experiment,
                            key,
                            j as int,
                        ) || (taken && g[j as int].task is Some && g[j as int].task->0.result_key(
                            experiment,
                        ) == Some(key))) by {
                        if fails_key(g, id as int, experiment, key, j + 1) {
                            let m = choose|m: int|
                                0 <= m < j + 1 && m < g.len() && fails_with(g, id as int, m) && (
                                #[trigger] g[m]).task is Some && g[m].task->0.result_key(
                                    experiment,
                                ) == Some(key);
                            if m < j {
                                assert(fails_key(g, id as int, experiment, key, j as int));
                            }
                        }
                        if fails_key(g, id as int, experiment, key, j as int) {
                            let m = choose|m: int|
                                0 <= m < j && m < g.len() && fails_with(g, id as int, m) && (
                                #[trigger] g[m]).task is Some && g[m].task->0.result_key(
                                    experiment,
                                ) == Some(key);
                            assert(0 <= m < j + 1);
                        }
                        if taken && g[j as int].task is Some && g[j as int].task->0.result_key(
                            experiment,
                        ) == Some(key) {
                            assert(g[j as int].task is Some);
                        }
                    }
                }
            }
            j += 1;
        }
        proof {
            assert(self@ =~= after_failure(g, id as int));
            lemma_failure_keeps_wf(g, id as int);
        }
    }
}

/// A failure takes with it only the node that failed and nodes after it.
pub proof fn lemma_fails_with_is_later(g: Seq<NodeView>, id: int, j: int)
    requires
        fails_with(g, id, j),
    ensures
        id <= j,
    decreases j,
{
    if j != id {
        let k = choose|k: int|
            0 <= k < g[j].deps.len() && 0 <= #[trigger] g[j].deps[k] < j && fails_with(
                g,
                id,
                g[j].deps[k],
            );
        lemma_fails_with_is_later(g, id, g[j].deps[k]);
    }
}

/// The failure of a task that is in flight leaves the graph well formed.
proof fn lemma_failure_keeps_wf(g: Seq<NodeView>, id: int)
    requires
        well_formed(g),
        0 <= id < g.len(),
        g[id].state == NodeState::Running,
    ensures
        well_formed(after_failure(g, id)),
{
    let h = after_failure(g, id);
    assert(!fails_with(g, id, 0)) by {
        if fails_with(g, id, 0) {
            lemma_fails_with_is_later(g, id, 0);
        }
    }
    assert forall|i: int| 1 <= i < h.len() implies (#[trigger] h[i]).task is Some by {
        assert(g[i].task is Some);
    }
    assert forall|i: int, k: int| 0 <= i < h.len() && 0 <= k < h[i].deps.len() implies 0
        <= #[trigger] h[i].deps[k] < i by {
        assert(h[i].deps == g[i].deps);
        assert(0 <= g[i].deps[k] < i);
    }
    assert forall|i: int, k: int|
        0 <= i < h.len() && 0 <= k < h[i].deps.len() && h[#[trigger] h[i].deps[k]].state
            == NodeState::Failed implies h[i].state.finished() by {
        assert(h[i].deps == g[i].deps);
        let d = g[i].deps[k];
        assert(0 <= d < i);
        if g[d].state == NodeState::Failed {
            assert(g[i].state.finished());
        } else {
            assert(fails_with(g, id, d));
            if g[i].state == NodeState::Pending {
                assert(fails_with(g, id, i));
            } else if g[i].state == NodeState::Running || g[i].state == NodeState::Completed {
                assert(g[d].state.satisfied());
            }
        }
    }
    assert forall|i: int, k: int|
        0 <= i < h.len() && 0 <= k < h[i].deps.len() && (h[i].state == NodeState::Running
            || h[i].state == NodeState::Completed) implies h[#[trigger] h[i].deps[k]].state.satisfied() by {
        assert(h[i].deps == g[i].deps);
        let d = g[i].deps[k];
        assert(0 <= d < i);
        assert(g[d].state.satisfied());
    }
}

/// A pending node that waits for nodes that are in the graph and not
/// finished, or for the root, can be added to a graph.
proof fn lemma_push_keeps_wf(g: Seq<NodeView>, node: NodeView)
    requires
        well_formed(g),
        node.task is Some,
        node.state == NodeState::Pending,
        forall|k: int|
            0 <= k < node.deps.len() ==> 0 <= #[trigger] node.deps[k] < g.len() && (
            !g[node.deps[k]].state.finished() || node.deps[k] == 0),
    ensures
        well_formed(g.push(node)),
{
    let h = g.push(node);
    assert forall|i: int, k: int| 0 <= i < h.len() && 0 <= k < h[i].deps.len() implies 0
        <= #[trigger] h[i].deps[k] < i by {
        if i < g.len() {
            assert(h[i] == g[i]);
        }
    }
    assert forall|i: int, k: int|
        0 <= i < h.len() && 0 <= k < h[i].deps.len() && h[#[trigger] h[i].deps[k]].state
            == NodeState::Failed implies h[i].state.finished() by {
        if i < g.len() {
            assert(h[i] == g[i]);
            assert(h[h[i].deps[k]] == g[g[i].deps[k]]);
        }
    }
    assert forall|i: int, k: int|
        0 <= i < h.len() && 0 <= k < h[i].deps.len() && (h[i].state == NodeState::Running
            || h[i].state == NodeState::Completed) implies h[#[trigger] h[i].deps[k]].state.satisfied() by {
        if i < g.len() {
            assert(h[i] == g[i]);
            assert(h[h[i].deps[k]] == g[g[i].deps[k]]);
        }
    }
}

/// Changing the state of one node keeps a graph well formed, where the new
/// state is no less finished than the old one, the node does not start or
/// complete before the nodes it waits for let it, and no node that runs or
/// ran waits for it unless the new state lets them.
proof fn lemma_update_keeps_wf(g: Seq<NodeView>, at: int, state: NodeState)
    requires
        well_formed(g),
        1 <= at < g.len(),
        g[at].state.finished() ==> state.finished(),
        state != NodeState::Failed || forall|i: int, k: int|
            0 <= i < g.len() && 0 <= k < g[i].deps.len() && #[trigger] g[i].deps[k] == at
                ==> g[i].state.finished(),
        (state == NodeState::Running || state == NodeState::Completed) ==> ready(g, g[at]),
        g[at].state.satisfied() ==> state.satisfied(),
        state.finished() || forall|k: int|
            0 <= k < g[at].deps.len() ==> g[#[trigger] g[at].deps[k]].state != NodeState::Failed,
    ensures
        well_formed(g.update(at, NodeView { state, ..g[at] })),
{
    let h = g.update(at, NodeView { state, ..g[at] });
    assert forall|i: int| 1 <= i < h.len() implies (#[trigger] h[i]).task is Some by {
        assert(g[i].task is Some);
    }
    assert forall|i: int, k: int| 0 <= i < h.len() && 0 <= k < h[i].deps.len() implies 0
        <= #[trigger] h[i].deps[k] < i by {
        assert(h[i].deps == g[i].deps);
        assert(0 <= g[i].deps[k] < i);
    }
    assert forall|i: int, k: int|
        0 <= i < h.len() && 0 <= k < h[i].deps.len() && h[#[trigger] h[i].deps[k]].state
            == NodeState::Failed implies h[i].state.finished() by {
        assert(h[i].deps == g[i].deps);
        let d = g[i].deps[k];
        assert(0 <= d < i);
        if d == at {
            assert(g[i].state.finished());
        } else {
            assert(g[d].state == NodeState::Failed);
            assert(g[i].state.finished());
        }
    }
    assert forall|i: int, k: int|
        0 <= i < h.len() && 0 <= k < h[i].deps.len() && (h[i].state == NodeState::Running
            || h[i].state == NodeState::Completed) implies h[#[trigger] h[i].deps[k]].state.satisfied() by {
        assert(h[i].deps == g[i].deps);
        let d = g[i].deps[k];
        assert(0 <= d < i);
        if i == at {
            if g[at].state == NodeState::Running || g[at].state == NodeState::Completed {
                assert(g[d].state.satisfied());
            }
        } else {
            assert(g[d].state.satisfied());
        }
    }
}

/// Whether the node at position `i` is the first node of its crate that is
/// not finished.
pub open spec fn first_pending_of_crate(g: Seq<NodeView>, i: int) -> bool {
    &&& 0 <= i < g.len()
    &&& g[i].task is Some
    &&& !g[i].state.finished()
    &&& forall|j: int|
        0 <= j < i && (#[trigger] g[j]).task is Some && !g[j].state.finished()
            ==> g[j].task->0.krate != g[i].task->0.krate
}

/// The positions of the first unfinished node of each crate.
pub open spec fn is_first_pending_of_crate(g: Seq<NodeView>) -> spec_fn(int) -> bool {
    |i: int| first_pending_of_crate(g, i)
}

/// Number of crates that have a task that is not finished.
pub open spec fn pending_crates(g: Seq<NodeView>) -> nat {
    count_where(positions(g.len()), is_first_pending_of_crate(g))
}

/// The three nodes of a crate in the graph of a chunk: the task that
/// prepares the crate, which waits for the root, and one task for each of the
/// two toolchains, which wait for the first. `at` is the position of the
/// first of the three.
pub open spec fn crate_nodes(ex: ExperimentChunk, config: Config, krate: Crate, at: int) -> Seq<
    NodeView,
> {
    let quiet = listed(config.quiet@, krate);
    seq![
        NodeView {
            task: Some(TaskView { krate: krate@, step: TaskStepView::Prepare }),
            deps: seq![0int],
            state: NodeState::Pending,
        },
        NodeView {
            task: Some(
                TaskView {
                    krate: krate@,
                    step: TaskStepView::Execute {
                        mode: ex.experiment.mode,
                        tc: ex.experiment.toolchains[0]@,
                        quiet,
                    },
                },
            ),
            deps: seq![at],
            state: NodeState::Pending,
        },
        NodeView {
            task: Some(
                TaskView {
                    krate: krate@,
                    step: TaskStepView::Execute {
                        mode: ex.experiment.mode,
                        tc: ex.experiment.toolchains[1]@,
                        quiet,
                    },
                },
            ),
            deps: seq![at],
            state: NodeState::Pending,
        },
    ]
}

/// The graph of the first `n` crates of a chunk: the root, and then the
/// nodes of each crate that is run. A crate on the blacklist is left out,
/// unless the experiment ignores the blacklist.
pub open spec fn built(ex: ExperimentChunk, config: Config, n: int) -> Seq<NodeView>
    decreases n,
{
    if n <= 0 {
        seq![NodeView { task: None, deps: Seq::<int>::empty(), state: NodeState::Completed }]
    } else {
        let before = built(ex, config, n - 1);
        let krate = ex.experiment.crates@[n - 1].krate;
        if !ex.experiment.ignore_blacklist && config.skips(krate) {
            before
        } else {
            before + crate_nodes(ex, config, krate, before.len() as int)
        }
    }
}

/// The graph of the tasks of a chunk.
pub fn build_graph(ex: &ExperimentChunk, config: &Config) -> (graph: TasksGraph)
    ensures
        graph.wf(),
        graph@ == built(*ex, *config, ex.experiment.crates@.len() as int),
{
    let mut graph = TasksGraph::new();
    let crates = &ex.experiment.crates;
    let mut i: usize = 0;
    while i < crates.len()
        invariant
            i <= crates.len(),
            crates@ == ex.experiment.crates@,
            graph.wf(),
            graph@ == built(*ex, *config, i as int),
            forall|j: int| 1 <= j < graph@.len() ==> (#[trigger] graph@[j]).state == NodeState::Pending,
        decreases crates.len() - i,
    {
        let krate = &crates[i].krate;
        if ex.experiment.ignore_blacklist || !config.should_skip(krate) {
            let quiet = config.is_quiet(krate);
            let ghost before = graph@;
            let mut on_root: Vec<usize> = Vec::new();
            on_root.push(0);
            let prepare = graph.add_task(
                Task { krate: krate.clone(), step: TaskStep::Prepare },
                &on_root,
            );
            let mut on_prepare: Vec<usize> = Vec::new();
            on_prepare.push(prepare);
            let first = graph.add_task(
                Task {
                    krate: krate.clone(),
                    step: TaskStep::Execute {
                        mode: ex.experiment.mode,
                        tc: ex.experiment.toolchains[0].clone(),
                        quiet,
                    },
                },
                &on_prepare,
            );
            let second = graph.add_task(
                Task {
                    krate: krate.clone(),
                    step: TaskStep::Execute {
                        mode: ex.experiment.mode,
                        tc: ex.experiment.toolchains[1].clone(),
                        quiet,
                    },
                },
                &on_prepare,
            );
            proof {
                let nodes = crate_nodes(*ex, *config, *krate, before.len() as int);
                assert(on_root@.map_values(|d: usize| d as int) =~= seq![0int]);
                assert(on_prepare@.map_values(|d: usize| d as int) =~= seq![before.len() as int]);
                assert(graph@ =~= before + nodes);
            }
        }
        i += 1;
    }
    graph
}

impl TasksGraph {
    /// Number of crates that still have a task to run or in flight.
    pub fn pending_crates_count(&self) -> (count: usize)
        ensures
            count == pending_crates(self@),
    {
        let n = self.nodes.len();
        let ghost marks = is_first_pending_of_crate(self@);
        let mut count: usize = 0;
        let mut i: usize = 0;
        while i < n
            invariant
                i <= n,
                n == self@.len(),
                n == self.nodes.len(),
                marks == is_first_pending_of_crate(self@),
                count == count_where(positions(n as nat).take(i as int), marks),
                count <= i,
            decreases n - i,
        {
            proof {
                lemma_count_where_step(positions(n as nat), marks, i as int);
            }
            let first = match &self.nodes[i].task {
                None => false,
                Some(task) => {
                    if self.nodes[i].state.is_finished() {
                        false
                    } else {
                        let mut j: usize = 0;
                        let mut seen = false;
                        while j < i && !seen
                            invariant
                                j <= i,
                                i < n,
                                n == self@.len(),
                                n == self.nodes.len(),
                                self.nodes@[i as int].task == Some(*task),
                                seen ==> exists|m: int|
                                    0 <= m < i && (#[trigger] self@[m]).task is Some
                                        && !self@[m].state.finished() && self@[m].task->0.krate
                                        == task@.krate,
                                !seen ==> forall|m: int|
                                    0 <= m < j && (#[trigger] self@[m]).task is Some
                                        && !self@[m].state.finished() ==> self@[m].task->0.krate
                                        != task@.krate,
                            decreases i - j + if seen {
                                0int
                            } else {
                                1int
                            },
                        {
                            let same = match &self.nodes[j].task {
                                Some(other) => !self.nodes[j].state.is_finished() && other.krate
                                    == task.krate,
                                None => false,
                            };
                            if same {
                                assert(self@[j as int].task is Some);
                                seen = true;
                            } else {
                                j += 1;
                            }
                        }
                        !seen
                    }
                },
            };
            assert(first == marks(positions(n as nat)[i as int])) by {
                assert(self@[i as int] == self.nodes@[i as int]@);
            }
            if first {
                count += 1;
            }
            i += 1;
        }
        assert(positions(n as nat).take(i as int) =~= positions(n as nat));
        count
    }
}

} // verus!
