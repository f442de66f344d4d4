//! What holds of the results that a run of the tasks of a chunk leaves: a
//! crate on which nothing fails has, for each toolchain, the result that the
//! run of its task gave, whatever happens to the other crates.

use vstd::prelude::*;
use crate::config::Config;
use crate::crates::{listed, CrateView};
use crate::experiments::ExperimentChunk;
use crate::results::db::{ResultKey, StoredResult};
use crate::runner::graph::{
    built, crate_nodes, well_formed, work_is_left, NodeState, NodeView,
};
use crate::runner::tasks::{Task, TaskStepView, TaskView};
use crate::runner::{
    completed_as_run, failed_as_run, failure_record, given_by, key_in_state, lemma_built_is_fresh,
    may_fail, may_give, no_holes, recorded_failure, results_of_run, same_tasks, TaskOutcome,
};

verus! {

/// Whether the crate at position `c` of a chunk is run: it is not on the
/// blacklist, or the experiment ignores the blacklist.
pub open spec fn is_run(ex: ExperimentChunk, config: Config, c: int) -> bool {
    ex.experiment.ignore_blacklist || !config.skips(ex.experiment.crates@[c].krate)
}

/// The task that runs the crate at position `c` of a chunk with the
/// toolchain number `tc` of the experiment, which is 0 or 1.
pub open spec fn run_of(ex: ExperimentChunk, config: Config, c: int, tc: int) -> TaskView {
    TaskView {
        krate: ex.experiment.crates@[c].krate@,
        step: TaskStepView::Execute {
            mode: ex.experiment.mode,
            tc: ex.experiment.toolchains[tc]@,
            quiet: listed(config.quiet@, ex.experiment.crates@[c].krate),
        },
    }
}

/// The key under which the result of the crate at position `c` of a chunk
/// with the toolchain number `tc` is stored.
pub open spec fn key_of_run(ex: ExperimentChunk, c: int, tc: int) -> ResultKey {
    ResultKey {
        experiment: ex.parent_name@,
        krate: ex.experiment.crates@[c].krate@,
        toolchain: ex.experiment.toolchains[tc]@,
    }
}

/// The graph of a chunk holds, for each crate that is run, the task that
/// runs it with each of the two toolchains.
pub proof fn lemma_built_holds_each_run(
    ex: ExperimentChunk,
    config: Config,
    n: int,
    c: int,
    tc: int,
)
    requires
        0 <= c < n <= ex.experiment.crates@.len(),
        tc == 0 || tc == 1,
        is_run(ex, config, c),
    ensures
        exists|p: int|
            0 <= p < built(ex, config, n).len() && (#[trigger] built(ex, config, n)[p]).task
                == Some(run_of(ex, config, c, tc)),
    decreases n,
{
    let before = built(ex, config, n - 1);
    let g = built(ex, config, n);
    if c == n - 1 {
        let nodes = crate_nodes(
            ex,
            config,
            ex.experiment.crates@[n - 1].krate,
            before.len() as int,
        );
        let p = before.len() + 1 + tc;
        assert(g[p] == nodes[1 + tc]);
    } else {
        lemma_built_holds_each_run(ex, config, n - 1, c, tc);
        let p = choose|p: int|
            0 <= p < before.len() && (#[trigger] before[p]).task == Some(
                run_of(ex, config, c, tc),
            );
        assert(g[p] == before[p]);
    }
}

/// Whether `task` is a task of the crate at position `c` of a chunk: the
/// task that prepares it, or one of the two that run it.
pub open spec fn is_task_of(ex: ExperimentChunk, config: Config, task: Option<TaskView>, c: int)
    -> bool {
    ||| task == Some(
        TaskView { krate: ex.experiment.crates@[c].krate@, step: TaskStepView::Prepare },
    )
    ||| task == Some(run_of(ex, config, c, 0))
    ||| task == Some(run_of(ex, config, c, 1))
}

/// The graph of a chunk holds, besides the root, only tasks of the crates
/// of the chunk that are run.
pub proof fn lemma_built_holds_only_runs(ex: ExperimentChunk, config: Config, n: int, p: int)
    requires
        0 <= n <= ex.experiment.crates@.len(),
        1 <= p < built(ex, config, n).len(),
    ensures
        exists|c: int|
            0 <= c < n && is_run(ex, config, c) && #[trigger] is_task_of(
                ex,
                config,
                built(ex, config, n)[p].task,
                c,
            ),
    decreases n,
{
    if n > 0 {
        let before = built(ex, config, n - 1);
        let g = built(ex, config, n);
        if p < before.len() {
            lemma_built_holds_only_runs(ex, config, n - 1, p);
            let c = choose|c: int|
                0 <= c < n - 1 && is_run(ex, config, c) && #[trigger] is_task_of(
                    ex,
                    config,
                    before[p].task,
                    c,
                );
            assert(g[p] == before[p]);
            assert(is_task_of(ex, config, g[p].task, c));
        } else {
            let nodes = crate_nodes(
                ex,
                config,
                ex.experiment.crates@[n - 1].krate,
                before.len() as int,
            );
            assert(g[p] == nodes[p - before.len()]);
            assert(is_task_of(ex, config, g[p].task, n - 1));
        }
    }
}

/// Whether `run` succeeds on every task for the crate `krate`, and gives a
/// result for each that runs with a toolchain.
pub open spec fn never_fails_on<F: Fn(&Task) -> TaskOutcome>(run: F, krate: CrateView) -> bool {
    forall|t: &Task, outcome: TaskOutcome| #[trigger]
        call_ensures(run, (t,), outcome) && t@.krate == krate ==> outcome is Ok && (
        t@.step.toolchain() is Some ==> outcome->Ok_0 is Some)
}

/// After a run, no task failed for a crate on which `run` never fails.
proof fn lemma_no_failure_without_cause<F: Fn(&Task) -> TaskOutcome>(
    run: F,
    config: Config,
    g: Seq<NodeView>,
    experiment: Seq<char>,
    before: Map<ResultKey, StoredResult>,
    results: Map<ResultKey, StoredResult>,
    j: int,
)
    requires
        results_of_run(run, config, g, experiment, before, results),
        0 <= j < g.len(),
        g[j].task is Some,
        never_fails_on(run, g[j].task->0.krate),
    ensures
        g[j].state != NodeState::Failed,
{
    if g[j].state == NodeState::Failed {
        assert(failed_as_run(run, config, g, experiment, results, j));
        let stored = choose|stored: StoredResult| #[trigger]
            recorded_failure(run, config, g, g[j].task->0.krate, stored);
        let c = choose|c: int|
            0 <= c < g.len() && (#[trigger] g[c]).state == NodeState::Failed && g[c].task is Some
                && g[c].task->0.krate == g[j].task->0.krate && may_fail(
                run,
                config,
                g[c].task->0,
                stored,
            );
        let (t, outcome) = choose|t: &Task, outcome: TaskOutcome| #[trigger]
            call_ensures(run, (t,), outcome) && t@ == g[c].task->0 && outcome is Err && stored
                == failure_record(config, t.krate, outcome->Err_0);
        assert(false);
    }
}

/// After a run of the tasks of a chunk, a crate on which `run` never fails
/// has a result for each toolchain, whatever happened to the other crates
/// of the chunk: the result that was stored before the run, if one was,
/// and else a result that `run` gave for the crate with that toolchain.
pub proof fn lemma_crate_without_failure_is_stored<F: Fn(&Task) -> TaskOutcome>(
    run: F,
    ex: ExperimentChunk,
    config: Config,
    g: Seq<NodeView>,
    before: Map<ResultKey, StoredResult>,
    results: Map<ResultKey, StoredResult>,
    c: int,
    tc: int,
)
    requires
        same_tasks(built(ex, config, ex.experiment.crates@.len() as int), g),
        !work_is_left(g),
        no_holes(g, ex.parent_name@, results),
        results_of_run(run, config, g, ex.parent_name@, before, results),
        0 <= c < ex.experiment.crates@.len(),
        tc == 0 || tc == 1,
        is_run(ex, config, c),
        never_fails_on(run, ex.experiment.crates@[c].krate@),
    ensures
        results.dom().contains(key_of_run(ex, c, tc)),
        before.dom().contains(key_of_run(ex, c, tc)) ==> results[key_of_run(ex, c, tc)]
            == before[key_of_run(ex, c, tc)],
        !before.dom().contains(key_of_run(ex, c, tc)) ==> exists|task: TaskView|
            task.result_key(ex.parent_name@) == Some(key_of_run(ex, c, tc)) && #[trigger] may_give(
                run,
                task,
                Some(results[key_of_run(ex, c, tc)]),
            ),
{
    let experiment = ex.parent_name@;
    let key = key_of_run(ex, c, tc);
    let krate = ex.experiment.crates@[c].krate@;
    assert(!key_in_state(g, experiment, key, NodeState::Failed)) by {
        if key_in_state(g, experiment, key, NodeState::Failed) {
            let j = choose|j: int|
                0 <= j < g.len() && (#[trigger] g[j]).state == NodeState::Failed && g[j].task
                    is Some && g[j].task->0.result_key(experiment) == Some(key);
            lemma_no_failure_without_cause(run, config, g, experiment, before, results, j);
        }
    }
    lemma_built_holds_each_run(ex, config, ex.experiment.crates@.len() as int, c, tc);
    let all = built(ex, config, ex.experiment.crates@.len() as int);
    let p = choose|p: int|
        0 <= p < all.len() && (#[trigger] all[p]).task == Some(run_of(ex, config, c, tc));
    assert(g[p].task == all[p].task);
    assert(g[p].task->0.result_key(experiment) == Some(key));
    assert(g[p].state.finished());
    lemma_no_failure_without_cause(run, config, g, experiment, before, results, p);
    if g[p].state == NodeState::Completed {
        lemma_completed_gave(run, config, g, experiment, before, results, p);
    } else {
        assert(g[p].state == NodeState::Skipped);
        assert(results.dom().contains(key));
        if !before.dom().contains(key) {
            assert(key_in_state(g, experiment, key, NodeState::Completed));
            let i = choose|i: int|
                0 <= i < g.len() && (#[trigger] g[i]).state == NodeState::Completed && g[i].task
                    is Some && g[i].task->0.result_key(experiment) == Some(key);
            lemma_completed_gave(run, config, g, experiment, before, results, i);
        }
    }
    if before.dom().contains(key) {
        assert(results[key] == before[key]);
    }
}

/// A run stores results for the crates of the chunk that are run, and for
/// no other: each result that is stored after the run, and was not before,
/// is that of a crate of the chunk with one of the two toolchains.
pub proof fn lemma_results_are_of_the_chunk<F: Fn(&Task) -> TaskOutcome>(
    run: F,
    ex: ExperimentChunk,
    config: Config,
    g: Seq<NodeView>,
    before: Map<ResultKey, StoredResult>,
    results: Map<ResultKey, StoredResult>,
    key: ResultKey,
)
    requires
        same_tasks(built(ex, config, ex.experiment.crates@.len() as int), g),
        results_of_run(run, config, g, ex.parent_name@, before, results),
        results.dom().contains(key),
        !before.dom().contains(key),
    ensures
        exists|c: int, tc: int|
            0 <= c < ex.experiment.crates@.len() && (tc == 0 || tc == 1) && is_run(ex, config, c)
                && key == #[trigger] key_of_run(ex, c, tc),
{
    let experiment = ex.parent_name@;
    let n = ex.experiment.crates@.len() as int;
    let all = built(ex, config, n);
    lemma_built_is_fresh(ex, config, n);
    let j = if key_in_state(g, experiment, key, NodeState::Failed) {
        choose|j: int|
            0 <= j < g.len() && (#[trigger] g[j]).state == NodeState::Failed && g[j].task is Some
                && g[j].task->0.result_key(experiment) == Some(key)
    } else {
        choose|j: int|
            0 <= j < g.len() && (#[trigger] g[j]).state == NodeState::Completed && g[j].task
                is Some && g[j].task->0.result_key(experiment) == Some(key)
    };
    assert(g[j].task == all[j].task);
    lemma_built_holds_only_runs(ex, config, n, j);
    let c = choose|c: int|
        0 <= c < n && is_run(ex, config, c) && #[trigger] is_task_of(ex, config, all[j].task, c);
    if all[j].task == Some(run_of(ex, config, c, 0)) {
        assert(key == key_of_run(ex, c, 0));
    } else {
        assert(all[j].task == Some(run_of(ex, config, c, 1)));
        assert(key == key_of_run(ex, c, 1));
    }
}

/// After a run, a task that is completed, for a crate on which `run` never
/// fails, has its result stored, and it is the result that `run` gave.
proof fn lemma_completed_gave<F: Fn(&Task) -> TaskOutcome>(
    run: F,
    config: Config,
    g: Seq<NodeView>,
    experiment: Seq<char>,
    before: Map<ResultKey, StoredResult>,
    results: Map<ResultKey, StoredResult>,
    i: int,
)
    requires
        results_of_run(run, config, g, experiment, before, results),
        0 <= i < g.len(),
        g[i].state == NodeState::Completed,
        g[i].task is Some,
        g[i].task->0.result_key(experiment) is Some,
        never_fails_on(run, g[i].task->0.krate),
        !key_in_state(
            g,
            experiment,
            g[i].task->0.result_key(experiment)->0,
            NodeState::Failed,
        ),
    ensures
        results.dom().contains(g[i].task->0.result_key(experiment)->0),
        may_give(run, g[i].task->0, Some(results[g[i].task->0.result_key(experiment)->0])),
{
    assert(completed_as_run(run, g, experiment, results, i));
    let key = g[i].task->0.result_key(experiment)->0;
    let given = choose|given: Option<StoredResult>|
        {
            &&& #[trigger] may_give(run, g[i].task->0, given)
            &&& given is Some && g[i].task->0.result_key(experiment) is Some && !key_in_state(
                g,
                experiment,
                key,
                NodeState::Failed,
            ) ==> {
                &&& results.dom().contains(key)
                &&& results[key] == given->0
            }
        };
    let (t, outcome) = choose|t: &Task, outcome: TaskOutcome| #[trigger]
        call_ensures(run, (t,), outcome) && t@ == g[i].task->0 && outcome is Ok && given
            == given_by(outcome->Ok_0);
    assert(given is Some);
}

/// In the graph of a chunk, a task that runs a crate waits for one task:
/// the one that prepares that crate.
pub proof fn lemma_built_runs_wait_for_preparation(
    ex: ExperimentChunk,
    config: Config,
    n: int,
    p: int,
)
    requires
        0 <= n <= ex.experiment.crates@.len(),
        0 <= p < built(ex, config, n).len(),
        built(ex, config, n)[p].task is Some,
        built(ex, config, n)[p].task->0.step is Execute,
    ensures
        built(ex, config, n)[p].deps.len() == 1,
        0 <= built(ex, config, n)[p].deps[0] < p,
        built(ex, config, n)[built(ex, config, n)[p].deps[0]].task == Some(
            TaskView { krate: built(ex, config, n)[p].task->0.krate, step: TaskStepView::Prepare },
        ),
    decreases n,
{
    if n > 0 {
        let before = built(ex, config, n - 1);
        let g = built(ex, config, n);
        if p < before.len() {
            assert(g[p] == before[p]);
            lemma_built_runs_wait_for_preparation(ex, config, n - 1, p);
            assert(g[before[p].deps[0]] == before[before[p].deps[0]]);
        } else {
            let nodes = crate_nodes(
                ex,
                config,
                ex.experiment.crates@[n - 1].krate,
                before.len() as int,
            );
            assert(g[p] == nodes[p - before.len()]);
            assert(g[before.len() as int] == nodes[0]);
        }
    }
}

/// Whether `run` fails whenever it prepares the crate `krate`.
pub open spec fn never_prepares<F: Fn(&Task) -> TaskOutcome>(run: F, krate: CrateView) -> bool {
    forall|t: &Task, outcome: TaskOutcome| #[trigger]
        call_ensures(run, (t,), outcome) && t@.krate == krate && t@.step is Prepare
            ==> outcome is Err
}

/// After a run, no task that runs a crate which `run` fails to prepare is
/// completed.
proof fn lemma_unprepared_is_not_completed<F: Fn(&Task) -> TaskOutcome>(
    run: F,
    ex: ExperimentChunk,
    config: Config,
    g: Seq<NodeView>,
    before: Map<ResultKey, StoredResult>,
    results: Map<ResultKey, StoredResult>,
    i: int,
)
    requires
        same_tasks(built(ex, config, ex.experiment.crates@.len() as int), g),
        well_formed(g),
        no_holes(g, ex.parent_name@, results),
        results_of_run(run, config, g, ex.parent_name@, before, results),
        0 <= i < g.len(),
        g[i].task is Some,
        g[i].task->0.step is Execute,
        never_prepares(run, g[i].task->0.krate),
    ensures
        g[i].state != NodeState::Completed,
{
    if g[i].state == NodeState::Completed {
        let experiment = ex.parent_name@;
        let all = built(ex, config, ex.experiment.crates@.len() as int);
        assert(g[i].task == all[i].task && g[i].deps == all[i].deps);
        lemma_built_runs_wait_for_preparation(
            ex,
            config,
            ex.experiment.crates@.len() as int,
            i,
        );
        let q = g[i].deps[0];
        assert(g[q].task == all[q].task);
        assert(g[q].state.satisfied());
        assert(g[q].task->0.result_key(experiment) is None);
        assert(g[q].state == NodeState::Completed);
        assert(completed_as_run(run, g, experiment, results, q));
        let given = choose|given: Option<StoredResult>| #[trigger]
            may_give(run, g[q].task->0, given);
        let (t, outcome) = choose|t: &Task, outcome: TaskOutcome| #[trigger]
            call_ensures(run, (t,), outcome) && t@ == g[q].task->0 && outcome is Ok && given
                == given_by(outcome->Ok_0);
        assert(false);
    }
}

/// After a run of the tasks of a chunk, a crate that `run` fails to prepare
/// has a result for each toolchain: the result that was stored before the
/// run, if one was, and else what is recorded for a failure of `run` on a
/// task of that crate.
pub proof fn lemma_crate_that_fails_is_recorded<F: Fn(&Task) -> TaskOutcome>(
    run: F,
    ex: ExperimentChunk,
    config: Config,
    g: Seq<NodeView>,
    before: Map<ResultKey, StoredResult>,
    results: Map<ResultKey, StoredResult>,
    c: int,
    tc: int,
)
    requires
        same_tasks(built(ex, config, ex.experiment.crates@.len() as int), g),
        well_formed(g),
        !work_is_left(g),
        no_holes(g, ex.parent_name@, results),
        results_of_run(run, config, g, ex.parent_name@, before, results),
        0 <= c < ex.experiment.crates@.len(),
        tc == 0 || tc == 1,
        is_run(ex, config, c),
        never_prepares(run, ex.experiment.crates@[c].krate@),
    ensures
        results.dom().contains(key_of_run(ex, c, tc)),
        !before.dom().contains(key_of_run(ex, c, tc)) ==> recorded_failure(
            run,
            config,
            g,
            ex.experiment.crates@[c].krate@,
            results[key_of_run(ex, c, tc)],
        ),
{
    let experiment = ex.parent_name@;
    let key = key_of_run(ex, c, tc);
    lemma_built_holds_each_run(ex, config, ex.experiment.crates@.len() as int, c, tc);
    let all = built(ex, config, ex.experiment.crates@.len() as int);
    let p = choose|p: int|
        0 <= p < all.len() && (#[trigger] all[p]).task == Some(run_of(ex, config, c, tc));
    assert(g[p].task == all[p].task);
    assert(g[p].task->0.result_key(experiment) == Some(key));
    assert(g[p].state.finished());
    lemma_unprepared_is_not_completed(run, ex, config, g, before, results, p);
    let j = if g[p].state == NodeState::Failed {
        p
    } else if before.dom().contains(key) {
        p
    } else {
        assert(results.dom().contains(key));
        if key_in_state(g, experiment, key, NodeState::Completed) {
            let i = choose|i: int|
                0 <= i < g.len() && (#[trigger] g[i]).state == NodeState::Completed && g[i].task
                    is Some && g[i].task->0.result_key(experiment) == Some(key);
            lemma_unprepared_is_not_completed(run, ex, config, g, before, results, i);
        }
        choose|j: int|
            0 <= j < g.len() && (#[trigger] g[j]).state == NodeState::Failed && g[j].task is Some
                && g[j].task->0.result_key(experiment) == Some(key)
    };
    if g[j].state == NodeState::Failed {
        assert(failed_as_run(run, config, g, experiment, results, j));
    }
}

} // verus!
