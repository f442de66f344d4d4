//! Running the tasks of a chunk in the order that their dependencies ask
//! for.

pub mod graph;
pub mod laws;
pub mod outcomes;
pub mod tasks;

use vstd::prelude::*;
use vstd::string::StringExecFns;
use crate::config::Config;
use crate::crates::{Crate, CrateView};
use crate::experiments::ExperimentChunk;
use crate::results::db::{DatabaseDB, ResultKey, StoredResult};
use crate::results::{FailureReason, TestResult};
use crate::runner::graph::{
    after_failure, build_graph, built, crate_nodes, failed_entries, failed_results, failed_rows, fails_key,
    fails_with, is_runnable,
    pending_crates, positions, walk, well_formed, work_is_left, NodeState, NodeView, TasksGraph,
    WalkResult, WalkView,
};
use crate::runner::laws::{
    lemma_blocked_means_in_flight, lemma_completion_is_progress, lemma_drained,
    lemma_failure_is_progress, lemma_walk_keeps_progress, unfinished,
};
use crate::runner::tasks::{failure_notice, Task, TaskView};
use crate::seqs::{
    first_match, lemma_first_match, lemma_first_match_is, lemma_put_all_add, lemma_put_all_push,
    put, put_all,
};

verus! {

/// Carried by the error of a task that fails: the result to record in place
/// of the plain error.
#[derive(Debug, PartialEq, Eq, Clone, Copy, Structural)]
pub struct OverrideResult(pub TestResult);

impl OverrideResult {
    /// The message of this error.
    pub fn to_string(&self) -> (s: String)
        ensures
            s@ == "overridden task result to "@ + self.0.format(),
    {
        String::from_str("overridden task result to ").concat(self.0.to_string().as_str())
    }
}

/// One link of the chain of causes of an error.
#[derive(Debug)]
pub enum Cause {
    /// Something that went wrong, in words.
    Message(String),
    /// The result to record for the task.
    Override(OverrideResult),
}

/// The causes that carry a result.
pub open spec fn carries_result() -> spec_fn(Cause) -> bool {
    |cause: Cause| cause is Override
}

/// The result to record for a task that failed, and for the tasks that it
/// takes with it. A crate that is known as broken has a broken build. For
/// any other crate, the first cause in the chain that carries a result
/// decides; where none does, the result is an error.
pub open spec fn decided_result(broken: bool, chain: Seq<Cause>) -> TestResult {
    let at = first_match(chain, carries_result());
    if broken {
        TestResult::BuildFail(FailureReason::Broken)
    } else if at < chain.len() {
        chain[at]->Override_0.0
    } else {
        TestResult::Error
    }
}

/// Exec counterpart of [`decided_result`].
pub fn failure_result(config: &Config, krate: &Crate, chain: &Vec<Cause>) -> (result: TestResult)
    ensures
        result == decided_result(config.knows_broken(*krate), chain@),
{
    if config.is_broken(krate) {
        return TestResult::BuildFail(FailureReason::Broken);
    }
    let mut i: usize = 0;
    while i < chain.len()
        invariant
            i <= chain.len(),
            !config.knows_broken(*krate),
            forall|j: int| 0 <= j < i ==> !carries_result()(#[trigger] chain@[j]),
        decreases chain.len() - i,
    {
        match &chain[i] {
            Cause::Override(carried) => {
                proof {
                    lemma_first_match_is(chain@, carries_result(), i as int);
                }
                return carried.0;
            },
            Cause::Message(_) => {},
        }
        i += 1;
    }
    proof {
        lemma_first_match_is(chain@, carries_result(), i as int);
    }
    TestResult::Error
}

/// What a worker does when the task at position `id` failed with the chain
/// of causes `chain`: it decides the result, marks the task and the tasks
/// that wait for it as failed, and records the result for each of them that
/// has one. The decided result is handed back.
pub fn fail_task(
    graph: &mut TasksGraph,
    id: usize,
    ex: &ExperimentChunk,
    db: &mut DatabaseDB,
    config: &Config,
    krate: &Crate,
    chain: &Vec<Cause>,
    error: &str,
) -> (result: TestResult)
    requires
        old(graph).wf(),
        id < old(graph)@.len(),
        old(graph)@[id as int].state == NodeState::Running,
    ensures
        result == decided_result(config.knows_broken(*krate), chain@),
        final(graph).wf(),
        final(graph)@ == after_failure(old(graph)@, id as int),
        final(db).shas == old(db).shas,
        final(db)@.results == failed_results(
            old(db)@.results,
            old(graph)@,
            id as int,
            ex.parent_name@,
            StoredResult { result, log: vstd::utf8::encode_utf8(failure_notice() + error@) },
            old(graph)@.len() as int,
        ),
        final(db)@.result_rows == failed_rows(
            old(db)@.result_rows,
            old(graph)@,
            id as int,
            ex.parent_name@,
            StoredResult { result, log: vstd::utf8::encode_utf8(failure_notice() + error@) },
            old(graph)@.len() as int,
        ),
{
    let result = failure_result(config, krate, chain);
    graph.mark_as_failed(id, ex, db, error, result);
    result
}

/// A task that failed: the chain of its causes, and what it left to read.
#[derive(Debug)]
pub struct TaskFailure {
    pub chain: Vec<Cause>,
    pub error: String,
}

/// What the run of a task gives: the result and the log of a task that has a
/// result, nothing for a task that has none, or the failure.
pub type TaskOutcome = Result<Option<(TestResult, Vec<u8>)>, TaskFailure>;

/// What a task that succeeded gave, as it is stored.
pub open spec fn given_by(outcome: Option<(TestResult, Vec<u8>)>) -> Option<StoredResult> {
    match outcome {
        Some((result, log)) => Some(StoredResult { result, log: log@ }),
        None => None,
    }
}

/// The results after a task succeeded and gave `given`: where the task runs
/// with a toolchain and gave a result, the result is stored for the
/// experiment named `experiment`, in place of the one that was stored for
/// the crate with that toolchain, if any.
pub open spec fn completed_results(
    results: Map<ResultKey, StoredResult>,
    task: TaskView,
    experiment: Seq<char>,
    given: Option<StoredResult>,
) -> Map<ResultKey, StoredResult> {
    match (given, task.result_key(experiment)) {
        (Some(stored), Some(key)) => results.insert(key, stored),
        _ => results,
    }
}

/// The rows of results after a task succeeded and gave `given`: what
/// [`completed_results`] stores is written in place of the first row of its
/// crate and toolchain or, where there is no such row, at the end.
pub open spec fn completed_rows(
    rows: Seq<(ResultKey, StoredResult)>,
    task: TaskView,
    experiment: Seq<char>,
    given: Option<StoredResult>,
) -> Seq<(ResultKey, StoredResult)> {
    match (given, task.result_key(experiment)) {
        (Some(stored), Some(key)) => put(rows, (key, stored)),
        _ => rows,
    }
}

/// What a worker does when the task at position `id`, which is `task`,
/// succeeded with `outcome`: it records the result that the task gave, if
/// it gave one and runs with a toolchain, and marks the task as completed.
pub fn complete_task(
    graph: &mut TasksGraph,
    id: usize,
    ex: &ExperimentChunk,
    db: &mut DatabaseDB,
    task: &Task,
    outcome: Option<(TestResult, Vec<u8>)>,
)
    requires
        old(graph).wf(),
        id < old(graph)@.len(),
        old(graph)@[id as int].state == NodeState::Running,
    ensures
        final(graph).wf(),
        final(graph)@ == old(graph)@.update(
            id as int,
            NodeView { state: NodeState::Completed, ..old(graph)@[id as int] },
        ),
        final(db).shas == old(db).shas,
        final(db)@.results == completed_results(
            old(db)@.results,
            task@,
            ex.parent_name@,
            given_by(outcome),
        ),
        final(db)@.result_rows == completed_rows(
            old(db)@.result_rows,
            task@,
            ex.parent_name@,
            given_by(outcome),
        ),
{
    match (outcome, task.step.toolchain()) {
        (Some((result, log)), Some(tc)) => {
            db.record_result_chunk(ex, tc, &task.krate, result, log);
        },
        _ => {},
    }
    graph.mark_as_completed(id);
}

/// What is recorded for a task of `krate` that failed with `failure`.
pub open spec fn failure_record(config: Config, krate: Crate, failure: TaskFailure)
    -> StoredResult {
    StoredResult {
        result: decided_result(config.knows_broken(krate), failure.chain@),
        log: vstd::utf8::encode_utf8(failure_notice() + failure.error@),
    }
}

/// Whether `run` may succeed on the task `task` and give `given`.
pub open spec fn may_give<F: Fn(&Task) -> TaskOutcome>(
    run: F,
    task: TaskView,
    given: Option<StoredResult>,
) -> bool {
    exists|t: &Task, outcome: TaskOutcome| #[trigger]
        call_ensures(run, (t,), outcome) && t@ == task && outcome is Ok && given == given_by(
            outcome->Ok_0,
        )
}

/// Whether `run` may fail on the task `task`, with `stored` as what is
/// recorded for the failure.
pub open spec fn may_fail<F: Fn(&Task) -> TaskOutcome>(
    run: F,
    config: Config,
    task: TaskView,
    stored: StoredResult,
) -> bool {
    exists|t: &Task, outcome: TaskOutcome| #[trigger]
        call_ensures(run, (t,), outcome) && t@ == task && outcome is Err && stored
            == failure_record(config, t.krate, outcome->Err_0)
}

/// Whether `key` is the key of the result of a task of `g` in the state
/// `state`.
pub open spec fn key_in_state(
    g: Seq<NodeView>,
    experiment: Seq<char>,
    key: ResultKey,
    state: NodeState,
) -> bool {
    exists|j: int|
        0 <= j < g.len() && (#[trigger] g[j]).state == state && g[j].task is Some
            && g[j].task->0.result_key(experiment) == Some(key)
}

/// Whether the task at position `i` of `g`, if it is completed, succeeded
/// as `run` may succeed on it, and what it gave is what is stored for it,
/// unless a task that failed has the same crate and toolchain.
pub open spec fn completed_as_run<F: Fn(&Task) -> TaskOutcome>(
    run: F,
    g: Seq<NodeView>,
    experiment: Seq<char>,
    results: Map<ResultKey, StoredResult>,
    i: int,
) -> bool {
    g[i].state == NodeState::Completed && g[i].task is Some ==> exists|
        given: Option<StoredResult>,
    |
        {
            &&& #[trigger] may_give(run, g[i].task->0, given)
            &&& given is Some && g[i].task->0.result_key(experiment) is Some && !key_in_state(
                g,
                experiment,
                g[i].task->0.result_key(experiment)->0,
                NodeState::Failed,
            ) ==> {
                &&& results.dom().contains(g[i].task->0.result_key(experiment)->0)
                &&& results[g[i].task->0.result_key(experiment)->0] == given->0
            }
        }
}

/// Whether `stored` is what is recorded for the failure of a task of `g`
/// for the crate `krate` that failed as `run` may fail on it.
pub open spec fn recorded_failure<F: Fn(&Task) -> TaskOutcome>(
    run: F,
    config: Config,
    g: Seq<NodeView>,
    krate: CrateView,
    stored: StoredResult,
) -> bool {
    exists|c: int|
        0 <= c < g.len() && (#[trigger] g[c]).state == NodeState::Failed && g[c].task is Some
            && g[c].task->0.krate == krate && may_fail(run, config, g[c].task->0, stored)
}

/// Whether the task at position `i` of `g`, if it failed, did so because
/// `run` failed on a task of `g` for the same crate, and what is stored for
/// it is what is recorded for such a failure.
pub open spec fn failed_as_run<F: Fn(&Task) -> TaskOutcome>(
    run: F,
    config: Config,
    g: Seq<NodeView>,
    experiment: Seq<char>,
    results: Map<ResultKey, StoredResult>,
    i: int,
) -> bool {
    g[i].state == NodeState::Failed && g[i].task is Some ==> exists|stored: StoredResult|
        {
            &&& #[trigger] recorded_failure(run, config, g, g[i].task->0.krate, stored)
            &&& g[i].task->0.result_key(experiment) is Some ==> {
                &&& results.dom().contains(g[i].task->0.result_key(experiment)->0)
                &&& results[g[i].task->0.result_key(experiment)->0] == stored
            }
        }
}

/// Whether the rows `after` are the rows `before` with results written to
/// them, each in place of the first row of its crate and toolchain or, where
/// there was no such row, at the end: no row is removed or moved, and no
/// crate and toolchain gets a second row.
pub open spec fn only_written(
    before: Seq<(ResultKey, StoredResult)>,
    after: Seq<(ResultKey, StoredResult)>,
) -> bool {
    exists|written: Seq<(ResultKey, StoredResult)>| after == #[trigger] put_all(before, written)
}

/// Whether the results `results` are what a run of the tasks of `g` with
/// `run` leaves of the results `before`:
/// - each task that is completed succeeded as `run` may, and each task that
///   failed did so because `run` failed, as [`completed_as_run`] and
///   [`failed_as_run`] say;
/// - a result that was stored before is still stored, and is the same
///   unless a task with its crate and toolchain failed;
/// - a result that was not stored before is that of a task that is
///   completed or failed.
pub open spec fn results_of_run<F: Fn(&Task) -> TaskOutcome>(
    run: F,
    config: Config,
    g: Seq<NodeView>,
    experiment: Seq<char>,
    before: Map<ResultKey, StoredResult>,
    results: Map<ResultKey, StoredResult>,
) -> bool {
    &&& forall|i: int|
        0 <= i < g.len() ==> #[trigger] completed_as_run(run, g, experiment, results, i)
    &&& forall|i: int|
        0 <= i < g.len() ==> #[trigger] failed_as_run(run, config, g, experiment, results, i)
    &&& forall|key: ResultKey| #[trigger]
        before.dom().contains(key) ==> results.dom().contains(key) && (!key_in_state(
            g,
            experiment,
            key,
            NodeState::Failed,
        ) ==> results[key] == before[key])
    &&& forall|key: ResultKey| #[trigger]
        results.dom().contains(key) ==> before.dom().contains(key) || key_in_state(
            g,
            experiment,
            key,
            NodeState::Failed,
        ) || key_in_state(g, experiment, key, NodeState::Completed)
}

/// Whether no task of a graph is in flight.
pub open spec fn nothing_in_flight(g: Seq<NodeView>) -> bool {
    forall|i: int| 0 <= i < g.len() ==> (#[trigger] g[i]).state != NodeState::Running
}

/// Whether the result of every task of a graph that failed or was skipped
/// is stored for the experiment named `experiment`: no such task is without
/// its row. Only a task that has a result is skipped.
pub open spec fn no_holes(
    g: Seq<NodeView>,
    experiment: Seq<char>,
    results: Map<ResultKey, StoredResult>,
) -> bool {
    &&& forall|i: int|
        0 <= i < g.len() && ((#[trigger] g[i]).state == NodeState::Failed || g[i].state
            == NodeState::Skipped) && g[i].task is Some && g[i].task->0.result_key(experiment)
            is Some ==> results.dom().contains(g[i].task->0.result_key(experiment)->0)
    &&& forall|i: int|
        0 <= i < g.len() && (#[trigger] g[i]).state == NodeState::Skipped ==> g[i].task is Some
            && g[i].task->0.result_key(experiment) is Some
}

/// Runs the tasks of a chunk one after the other, each with `run`, until
/// none is left, and hands back the graph, which is drained: it holds the
/// tasks that were built for the chunk, every task is finished, no crate is
/// pending, and a walk finds nothing more to do. A task is run once the
/// tasks that it waits for have succeeded. What a task that succeeds gave
/// is recorded for the parent of the chunk, as [`complete_task`] says; a
/// task that fails takes the tasks that wait for it with it, as
/// [`fail_task`] says, so that each task that failed has its result
/// stored. The results after the run are what [`results_of_run`] says.
pub fn run_tasks<F: Fn(&Task) -> TaskOutcome>(
    ex: &ExperimentChunk,
    db: &mut DatabaseDB,
    config: &Config,
    run: F,
) -> (drained: TasksGraph)
    requires
        forall|task: &Task| call_requires(run, (task,)),
    ensures
        final(db).shas == old(db).shas,
        drained.wf(),
        drained@.len() == built(*ex, *config, ex.experiment.crates@.len() as int).len(),
        !work_is_left(drained@),
        pending_crates(drained@) == 0,
        walk(drained@, ex.parent_name@, final(db)@.results).result == WalkView::Finished,
        no_holes(drained@, ex.parent_name@, final(db)@.results),
        same_tasks(built(*ex, *config, ex.experiment.crates@.len() as int), drained@),
        results_of_run(
            run,
            *config,
            drained@,
            ex.parent_name@,
            old(db)@.results,
            final(db)@.results,
        ),
        only_written(old(db)@.result_rows, final(db)@.result_rows),
{
    let mut graph = build_graph(ex, config);
    let ghost mut written = Seq::<(ResultKey, StoredResult)>::empty();
    proof {
        lemma_built_is_fresh(*ex, *config, ex.experiment.crates@.len() as int);
        lemma_built_waits_within_crate(*ex, *config, ex.experiment.crates@.len() as int);
        assert(results_of_run(
            run,
            *config,
            graph@,
            ex.parent_name@,
            old(db)@.results,
            db@.results,
        ));
    }
    loop
        invariant
            graph.wf(),
            graph@.len() == built(*ex, *config, ex.experiment.crates@.len() as int).len(),
            nothing_in_flight(graph@),
            no_holes(graph@, ex.parent_name@, db@.results),
            same_tasks(built(*ex, *config, ex.experiment.crates@.len() as int), graph@),
            waits_within_crate(graph@),
            results_of_run(run, *config, graph@, ex.parent_name@, old(db)@.results, db@.results),
            db@.result_rows == put_all(old(db)@.result_rows, written),
            db.shas == old(db).shas,
            forall|task: &Task| call_requires(run, (task,)),
        ensures
            graph.wf(),
            graph@.len() == built(*ex, *config, ex.experiment.crates@.len() as int).len(),
            !work_is_left(graph@),
            pending_crates(graph@) == 0,
            walk(graph@, ex.parent_name@, db@.results).result == WalkView::Finished,
            no_holes(graph@, ex.parent_name@, db@.results),
            same_tasks(built(*ex, *config, ex.experiment.crates@.len() as int), graph@),
            results_of_run(run, *config, graph@, ex.parent_name@, old(db)@.results, db@.results),
            only_written(old(db)@.result_rows, db@.result_rows),
            db.shas == old(db).shas,
        decreases unfinished(graph@),
    {
        let ghost before = graph@;
        let ghost results = db@.results;
        let walked = graph.next_task(ex, db);
        proof {
            lemma_walk_keeps_progress(before, ex.parent_name@, results);
            lemma_walk_leaves_no_holes(before, ex.parent_name@, results);
            lemma_walk_keeps_outcomes(before, ex.parent_name@, results);
            lemma_same_outcomes(
                run,
                *config,
                before,
                graph@,
                ex.parent_name@,
                old(db)@.results,
                results,
            );
        }
        match walked {
            WalkResult::Task(id, task) => {
                proof {
                    lemma_walk_starts_one(before, ex.parent_name@, results);
                }
                let ghost started = graph@;
                let gave = run(&task);
                let ghost seen = gave;
                match gave {
                    Ok(outcome) => {
                        let ghost given = given_by(outcome);
                        proof {
                            lemma_completion_is_progress(started, id as int);
                            assert(call_ensures(run, (&task,), seen));
                            assert(may_give(run, task@, given));
                        }
                        complete_task(&mut graph, id, ex, db, &task, outcome);
                        proof {
                            if given is Some && task@.result_key(ex.parent_name@) is Some {
                                let entry = (task@.result_key(ex.parent_name@)->0, given->0);
                                lemma_put_all_push(old(db)@.result_rows, written, entry);
                                written = written.push(entry);
                            }
                            lemma_success_is_recorded(
                                run,
                                *config,
                                started,
                                id as int,
                                ex.parent_name@,
                                old(db)@.results,
                                results,
                                given,
                            );
                        }
                    },
                    Err(failure) => {
                        proof {
                            lemma_failure_is_progress(started, id as int);
                            assert(call_ensures(run, (&task,), seen));
                            assert(may_fail(
                                run,
                                *config,
                                task@,
                                failure_record(*config, task.krate, failure),
                            ));
                        }
                        fail_task(
                            &mut graph,
                            id,
                            ex,
                            db,
                            config,
                            &task.krate,
                            &failure.chain,
                            failure.error.as_str(),
                        );
                        proof {
                            let entries = failed_entries(
                                started,
                                id as int,
                                ex.parent_name@,
                                failure_record(*config, task.krate, failure),
                                started.len() as int,
                            );
                            lemma_put_all_add(old(db)@.result_rows, written, entries);
                            written = written + entries;
                            lemma_failure_is_recorded(
                                run,
                                *config,
                                started,
                                id as int,
                                ex.parent_name@,
                                old(db)@.results,
                                results,
                                failure_record(*config, task.krate, failure),
                            );
                        }
                    },
                }
            },
            WalkResult::Blocked => {
                proof {
                    lemma_blocked_means_in_flight(before, ex.parent_name@, results);
                }
                assert(false);
                break ;
            },
            WalkResult::NotBlocked => {
                assert(false);
                break ;
            },
            WalkResult::Finished => {
                proof {
                    lemma_drained(graph@);
                    lemma_drained_stays_finished(graph@, ex.parent_name@, db@.results);
                }
                break ;
            },
        }
    }
    graph
}

/// Whether each task waits only for the root and for tasks of its own
/// crate.
pub open spec fn waits_within_crate(g: Seq<NodeView>) -> bool {
    forall|i: int, k: int|
        0 <= i < g.len() && 0 <= k < g[i].deps.len() && g[i].task is Some ==> 0
            <= #[trigger] g[i].deps[k] < g.len() && (g[g[i].deps[k]].task is Some
            ==> g[g[i].deps[k]].task->0.krate == g[i].task->0.krate)
}

/// In a graph in which each task waits only for tasks of its own crate, a
/// failure takes with it only tasks of the crate of the task that failed.
pub proof fn lemma_failure_stays_in_crate(g: Seq<NodeView>, id: int, j: int)
    requires
        well_formed(g),
        waits_within_crate(g),
        0 <= id < g.len(),
        g[id].task is Some,
        0 <= j < g.len(),
        fails_with(g, id, j),
    ensures
        g[j].task is Some,
        g[j].task->0.krate == g[id].task->0.krate,
    decreases j,
{
    if j != id {
        let k = choose|k: int|
            0 <= k < g[j].deps.len() && 0 <= #[trigger] g[j].deps[k] < j && fails_with(
                g,
                id,
                g[j].deps[k],
            );
        lemma_failure_stays_in_crate(g, id, g[j].deps[k]);
        assert(g[j].task is Some);
    }
}

/// In the graph of a chunk each task waits only for the root and for tasks
/// of its own crate.
pub proof fn lemma_built_waits_within_crate(ex: ExperimentChunk, config: Config, n: int)
    ensures
        waits_within_crate(built(ex, config, n)),
    decreases n,
{
    if n > 0 {
        lemma_built_waits_within_crate(ex, config, n - 1);
        lemma_built_is_fresh(ex, config, n - 1);
        let before = built(ex, config, n - 1);
        let g = built(ex, config, n);
        let krate = ex.experiment.crates@[n - 1].krate;
        if !(!ex.experiment.ignore_blacklist && config.skips(krate)) {
            let nodes = crate_nodes(ex, config, krate, before.len() as int);
            assert forall|i: int, k: int|
                0 <= i < g.len() && 0 <= k < g[i].deps.len() && g[i].task is Some implies 0
                    <= #[trigger] g[i].deps[k] < g.len() && (g[g[i].deps[k]].task is Some
                    ==> g[g[i].deps[k]].task->0.krate == g[i].task->0.krate) by {
                if i < before.len() {
                    assert(g[i] == before[i]);
                    assert(0 <= before[i].deps[k] < before.len());
                    assert(g[before[i].deps[k]] == before[before[i].deps[k]]);
                } else {
                    assert(g[i] == nodes[i - before.len()]);
                    if i == before.len() {
                        assert(g[i].deps[k] == 0);
                        assert(g[0] == before[0]);
                        assert(before[0].task is None);
                    } else {
                        assert(g[i].deps[k] == before.len());
                        assert(g[before.len() as int] == nodes[0]);
                    }
                }
            }
        }
    }
}

/// Whether two graphs hold the same tasks, each waiting for the same tasks.
pub open spec fn same_tasks(g: Seq<NodeView>, after: Seq<NodeView>) -> bool {
    &&& after.len() == g.len()
    &&& forall|i: int|
        0 <= i < g.len() ==> (#[trigger] after[i]).task == g[i].task && after[i].deps == g[i].deps
}

/// Whether the tasks of `after` that are completed or failed are those of
/// `g` that are.
spec fn same_outcomes(g: Seq<NodeView>, after: Seq<NodeView>) -> bool {
    &&& same_tasks(g, after)
    &&& forall|i: int|
        0 <= i < g.len() ==> ((#[trigger] after[i]).state == NodeState::Failed <==> g[i].state
            == NodeState::Failed) && (after[i].state == NodeState::Completed <==> g[i].state
            == NodeState::Completed)
}

/// A walk completes no task and fails none, and hands out a task that is
/// still to be run.
proof fn lemma_walk_keeps_outcomes(
    g: Seq<NodeView>,
    experiment: Seq<char>,
    results: Map<ResultKey, StoredResult>,
)
    requires
        well_formed(g),
    ensures
        same_outcomes(g, walk(g, experiment, results).graph),
        walk(g, experiment, results).result is Task ==> ({
            let id = walk(g, experiment, results).result->Task_0;
            &&& 0 <= id < g.len()
            &&& g[id].task == Some(walk(g, experiment, results).result->Task_1)
            &&& g[id].task->0.needs_exec(experiment, results)
        }),
{
    let after = walk(g, experiment, results).graph;
    lemma_first_match(positions(g.len()), is_runnable(g, experiment, results));
    assert forall|i: int| 0 <= i < g.len() implies ((#[trigger] after[i]).state
        == NodeState::Failed <==> g[i].state == NodeState::Failed) && (after[i].state
        == NodeState::Completed <==> g[i].state == NodeState::Completed) by {
        assert(after[i].task == g[i].task);
    }
    if walk(g, experiment, results).result is Task {
        let id = walk(g, experiment, results).result->Task_0;
        assert(is_runnable(g, experiment, results)(positions(g.len())[id]));
        assert(g[id].task is Some);
    }
}

/// The keys of the tasks in the state `state` are the same in two graphs
/// that hold the same tasks and the same tasks in that state.
proof fn lemma_keys_in_state(
    g: Seq<NodeView>,
    after: Seq<NodeView>,
    experiment: Seq<char>,
    state: NodeState,
)
    requires
        same_tasks(g, after),
        forall|i: int|
            0 <= i < g.len() ==> ((#[trigger] after[i]).state == state <==> g[i].state == state),
    ensures
        forall|key: ResultKey|
            key_in_state(after, experiment, key, state) == key_in_state(g, experiment, key, state),
{
    assert forall|key: ResultKey|
        key_in_state(after, experiment, key, state) == key_in_state(
            g,
            experiment,
            key,
            state,
        ) by {
        if key_in_state(g, experiment, key, state) {
            let j = choose|j: int|
                0 <= j < g.len() && (#[trigger] g[j]).state == state && g[j].task is Some
                    && g[j].task->0.result_key(experiment) == Some(key);
            assert(after[j].state == state && after[j].task == g[j].task);
        }
        if key_in_state(after, experiment, key, state) {
            let j = choose|j: int|
                0 <= j < after.len() && (#[trigger] after[j]).state == state && after[j].task
                    is Some && after[j].task->0.result_key(experiment) == Some(key);
            assert(g[j].state == state && after[j].task == g[j].task);
        }
    }
}

/// A failure that is recorded in a graph is recorded in a graph that holds
/// the same tasks, in which the tasks that failed are still failed.
proof fn lemma_failure_stays_recorded<F: Fn(&Task) -> TaskOutcome>(
    run: F,
    config: Config,
    g: Seq<NodeView>,
    after: Seq<NodeView>,
    krate: CrateView,
    stored: StoredResult,
)
    requires
        same_tasks(g, after),
        forall|i: int|
            0 <= i < g.len() && g[i].state == NodeState::Failed ==> (#[trigger] after[i]).state
                == NodeState::Failed,
        recorded_failure(run, config, g, krate, stored),
    ensures
        recorded_failure(run, config, after, krate, stored),
{
    let c = choose|c: int|
        0 <= c < g.len() && (#[trigger] g[c]).state == NodeState::Failed && g[c].task is Some
            && g[c].task->0.krate == krate && may_fail(run, config, g[c].task->0, stored);
    assert(after[c].state == NodeState::Failed && after[c].task == g[c].task);
}

/// What holds of the results of a run holds of them in a graph that holds
/// the same tasks, the same of them completed and the same of them failed.
proof fn lemma_same_outcomes<F: Fn(&Task) -> TaskOutcome>(
    run: F,
    config: Config,
    g: Seq<NodeView>,
    after: Seq<NodeView>,
    experiment: Seq<char>,
    before: Map<ResultKey, StoredResult>,
    results: Map<ResultKey, StoredResult>,
)
    requires
        same_outcomes(g, after),
        results_of_run(run, config, g, experiment, before, results),
    ensures
        results_of_run(run, config, after, experiment, before, results),
{
    lemma_keys_in_state(g, after, experiment, NodeState::Failed);
    lemma_keys_in_state(g, after, experiment, NodeState::Completed);
    assert forall|i: int| 0 <= i < after.len() implies #[trigger] completed_as_run(
        run,
        after,
        experiment,
        results,
        i,
    ) by {
        assert(completed_as_run(run, g, experiment, results, i));
        assert(after[i].task == g[i].task);
        if after[i].state == NodeState::Completed && after[i].task is Some {
            let given = choose|given: Option<StoredResult>|
                {
                    &&& #[trigger] may_give(run, g[i].task->0, given)
                    &&& given is Some && g[i].task->0.result_key(experiment) is Some
                        && !key_in_state(
                        g,
                        experiment,
                        g[i].task->0.result_key(experiment)->0,
                        NodeState::Failed,
                    ) ==> {
                        &&& results.dom().contains(g[i].task->0.result_key(experiment)->0)
                        &&& results[g[i].task->0.result_key(experiment)->0] == given->0
                    }
                };
            assert(may_give(run, after[i].task->0, given));
        }
    }
    assert forall|i: int| 0 <= i < after.len() implies #[trigger] failed_as_run(
        run,
        config,
        after,
        experiment,
        results,
        i,
    ) by {
        assert(failed_as_run(run, config, g, experiment, results, i));
        assert(after[i].task == g[i].task);
        if after[i].state == NodeState::Failed && after[i].task is Some {
            let stored = choose|stored: StoredResult|
                {
                    &&& #[trigger] recorded_failure(run, config, g, g[i].task->0.krate, stored)
                    &&& g[i].task->0.result_key(experiment) is Some ==> {
                        &&& results.dom().contains(g[i].task->0.result_key(experiment)->0)
                        &&& results[g[i].task->0.result_key(experiment)->0] == stored
                    }
                };
            lemma_failure_stays_recorded(run, config, g, after, g[i].task->0.krate, stored);
        }
    }
}

/// What holds of the results of a run still holds once a task that was in
/// flight, and still to be run, has succeeded and what it gave is recorded.
proof fn lemma_success_is_recorded<F: Fn(&Task) -> TaskOutcome>(
    run: F,
    config: Config,
    g: Seq<NodeView>,
    id: int,
    experiment: Seq<char>,
    before: Map<ResultKey, StoredResult>,
    results: Map<ResultKey, StoredResult>,
    given: Option<StoredResult>,
)
    requires
        0 <= id < g.len(),
        g[id].state == NodeState::Running,
        g[id].task is Some,
        g[id].task->0.needs_exec(experiment, results),
        may_give(run, g[id].task->0, given),
        results_of_run(run, config, g, experiment, before, results),
    ensures
        results_of_run(
            run,
            config,
            g.update(id, NodeView { state: NodeState::Completed, ..g[id] }),
            experiment,
            before,
            completed_results(results, g[id].task->0, experiment, given),
        ),
{
    let after = g.update(id, NodeView { state: NodeState::Completed, ..g[id] });
    let stored = completed_results(results, g[id].task->0, experiment, given);
    assert(same_tasks(g, after));
    lemma_keys_in_state(g, after, experiment, NodeState::Failed);
    assert forall|i: int| 0 <= i < after.len() implies #[trigger] completed_as_run(
        run,
        after,
        experiment,
        stored,
        i,
    ) by {
        if i == id {
            assert(may_give(run, after[i].task->0, given));
        } else if after[i].state == NodeState::Completed && after[i].task is Some {
            assert(completed_as_run(run, g, experiment, results, i));
            let was = choose|was: Option<StoredResult>|
                {
                    &&& #[trigger] may_give(run, g[i].task->0, was)
                    &&& was is Some && g[i].task->0.result_key(experiment) is Some
                        && !key_in_state(
                        g,
                        experiment,
                        g[i].task->0.result_key(experiment)->0,
                        NodeState::Failed,
                    ) ==> {
                        &&& results.dom().contains(g[i].task->0.result_key(experiment)->0)
                        &&& results[g[i].task->0.result_key(experiment)->0] == was->0
                    }
                };
            assert(may_give(run, after[i].task->0, was));
        }
    }
    assert forall|i: int| 0 <= i < after.len() implies #[trigger] failed_as_run(
        run,
        config,
        after,
        experiment,
        stored,
        i,
    ) by {
        if after[i].state == NodeState::Failed && after[i].task is Some {
            assert(failed_as_run(run, config, g, experiment, results, i));
            let was = choose|was: StoredResult|
                {
                    &&& #[trigger] recorded_failure(run, config, g, g[i].task->0.krate, was)
                    &&& g[i].task->0.result_key(experiment) is Some ==> {
                        &&& results.dom().contains(g[i].task->0.result_key(experiment)->0)
                        &&& results[g[i].task->0.result_key(experiment)->0] == was
                    }
                };
            lemma_failure_stays_recorded(run, config, g, after, g[i].task->0.krate, was);
        }
    }
    assert forall|key: ResultKey| #[trigger] stored.dom().contains(key) implies before.dom().contains(
        key,
    ) || key_in_state(after, experiment, key, NodeState::Failed) || key_in_state(
        after,
        experiment,
        key,
        NodeState::Completed,
    ) by {
        if results.dom().contains(key) {
            if key_in_state(g, experiment, key, NodeState::Completed) {
                let j = choose|j: int|
                    0 <= j < g.len() && (#[trigger] g[j]).state == NodeState::Completed
                        && g[j].task is Some && g[j].task->0.result_key(experiment) == Some(key);
                assert(after[j].state == NodeState::Completed && after[j].task == g[j].task);
            }
        } else {
            assert(after[id].state == NodeState::Completed && after[id].task == g[id].task);
        }
    }
}

/// What holds of the results of a run still holds once a task that was in
/// flight has failed, and the failure is recorded for it and for the tasks
/// that it takes with it.
proof fn lemma_failure_is_recorded<F: Fn(&Task) -> TaskOutcome>(
    run: F,
    config: Config,
    g: Seq<NodeView>,
    id: int,
    experiment: Seq<char>,
    before: Map<ResultKey, StoredResult>,
    results: Map<ResultKey, StoredResult>,
    stored: StoredResult,
)
    requires
        0 <= id < g.len(),
        g[id].state == NodeState::Running,
        g[id].task is Some,
        well_formed(g),
        waits_within_crate(g),
        may_fail(run, config, g[id].task->0, stored),
        results_of_run(run, config, g, experiment, before, results),
    ensures
        results_of_run(
            run,
            config,
            after_failure(g, id),
            experiment,
            before,
            failed_results(results, g, id, experiment, stored, g.len() as int),
        ),
{
    let after = after_failure(g, id);
    let held = failed_results(results, g, id, experiment, stored, g.len() as int);
    assert(same_tasks(g, after));
    assert forall|i: int| 0 <= i < g.len() implies ((#[trigger] after[i]).state
        == NodeState::Completed <==> g[i].state == NodeState::Completed) by {}
    lemma_keys_in_state(g, after, experiment, NodeState::Completed);
    assert forall|key: ResultKey|
        key_in_state(after, experiment, key, NodeState::Failed) == (key_in_state(
            g,
            experiment,
            key,
            NodeState::Failed,
        ) || fails_key(g, id, experiment, key, g.len() as int)) by {
        if key_in_state(after, experiment, key, NodeState::Failed) {
            let j = choose|j: int|
                0 <= j < after.len() && (#[trigger] after[j]).state == NodeState::Failed
                    && after[j].task is Some && after[j].task->0.result_key(experiment) == Some(
                    key,
                );
            assert(after[j].task == g[j].task);
            if fails_with(g, id, j) {
                assert(fails_key(g, id, experiment, key, g.len() as int));
            } else {
                assert(g[j].state == NodeState::Failed);
            }
        }
        if key_in_state(g, experiment, key, NodeState::Failed) {
            let j = choose|j: int|
                0 <= j < g.len() && (#[trigger] g[j]).state == NodeState::Failed && g[j].task
                    is Some && g[j].task->0.result_key(experiment) == Some(key);
            assert(after[j].state == NodeState::Failed && after[j].task == g[j].task);
        }
        if fails_key(g, id, experiment, key, g.len() as int) {
            let j = choose|j: int|
                0 <= j < g.len() && j < g.len() && fails_with(g, id, j) && (#[trigger] g[j]).task
                    is Some && g[j].task->0.result_key(experiment) == Some(key);
            assert(after[j].state == NodeState::Failed && after[j].task == g[j].task);
        }
    }
    assert(after[id].state == NodeState::Failed && after[id].task == g[id].task);
    assert(recorded_failure(run, config, after, g[id].task->0.krate, stored));
    assert forall|i: int| 0 <= i < after.len() implies #[trigger] completed_as_run(
        run,
        after,
        experiment,
        held,
        i,
    ) by {
        if after[i].state == NodeState::Completed && after[i].task is Some {
            assert(completed_as_run(run, g, experiment, results, i));
            let was = choose|was: Option<StoredResult>|
                {
                    &&& #[trigger] may_give(run, g[i].task->0, was)
                    &&& was is Some && g[i].task->0.result_key(experiment) is Some
                        && !key_in_state(
                        g,
                        experiment,
                        g[i].task->0.result_key(experiment)->0,
                        NodeState::Failed,
                    ) ==> {
                        &&& results.dom().contains(g[i].task->0.result_key(experiment)->0)
                        &&& results[g[i].task->0.result_key(experiment)->0] == was->0
                    }
                };
            assert(may_give(run, after[i].task->0, was));
        }
    }
    assert forall|i: int| 0 <= i < after.len() implies #[trigger] failed_as_run(
        run,
        config,
        after,
        experiment,
        held,
        i,
    ) by {
        if after[i].state == NodeState::Failed && after[i].task is Some {
            let key = after[i].task->0.result_key(experiment);
            assert(g[i].task == after[i].task);
            if fails_with(g, id, i) {
                lemma_failure_stays_in_crate(g, id, i);
                if key is Some {
                    assert(fails_key(g, id, experiment, key->0, g.len() as int));
                }
            } else if key is Some && fails_key(g, id, experiment, key->0, g.len() as int) {
                let m = choose|m: int|
                    0 <= m < g.len() && m < g.len() && fails_with(g, id, m) && (#[trigger] g[m]).task
                        is Some && g[m].task->0.result_key(experiment) == key;
                lemma_failure_stays_in_crate(g, id, m);
            } else {
                assert(failed_as_run(run, config, g, experiment, results, i));
                let was = choose|was: StoredResult|
                    {
                        &&& #[trigger] recorded_failure(run, config, g, g[i].task->0.krate, was)
                        &&& g[i].task->0.result_key(experiment) is Some ==> {
                            &&& results.dom().contains(g[i].task->0.result_key(experiment)->0)
                            &&& results[g[i].task->0.result_key(experiment)->0] == was
                        }
                    };
                lemma_failure_stays_recorded(run, config, g, after, g[i].task->0.krate, was);
            }
        }
    }
}

/// A graph that was just built has no task in flight, and none that failed
/// or was skipped.
proof fn lemma_built_is_fresh(ex: ExperimentChunk, config: Config, n: int)
    ensures
        built(ex, config, n).len() >= 1,
        forall|i: int|
            0 <= i < built(ex, config, n).len() ==> (#[trigger] built(ex, config, n)[i]).state
                == NodeState::Pending || i == 0,
        built(ex, config, n)[0].state == NodeState::Completed,
        built(ex, config, n)[0].task is None,
        nothing_in_flight(built(ex, config, n)),
        forall|experiment: Seq<char>, results: Map<ResultKey, StoredResult>|
            #[trigger] no_holes(built(ex, config, n), experiment, results),
    decreases n,
{
    if n > 0 {
        lemma_built_is_fresh(ex, config, n - 1);
        assert(built(ex, config, n)[0] == built(ex, config, n - 1)[0]);
    }
}

/// A walk skips only tasks whose result is stored.
proof fn lemma_walk_leaves_no_holes(
    g: Seq<NodeView>,
    experiment: Seq<char>,
    results: Map<ResultKey, StoredResult>,
)
    requires
        no_holes(g, experiment, results),
    ensures
        no_holes(walk(g, experiment, results).graph, experiment, results),
{
    let after = walk(g, experiment, results).graph;
    assert forall|i: int|
        0 <= i < after.len() && ((#[trigger] after[i]).state == NodeState::Failed
            || after[i].state == NodeState::Skipped) && after[i].task is Some
            && after[i].task->0.result_key(experiment) is Some implies results.dom().contains(
        after[i].task->0.result_key(experiment)->0,
    ) by {
        if g[i].state == NodeState::Failed || g[i].state == NodeState::Skipped {
            assert(after[i].task == g[i].task);
        }
    }
    assert forall|i: int|
        0 <= i < after.len() && (#[trigger] after[i]).state == NodeState::Skipped implies after[i].task
        is Some && after[i].task->0.result_key(experiment) is Some by {
        assert(after[i].task == g[i].task);
        if g[i].state == NodeState::Skipped {
        }
    }
}

/// A walk of a graph without unfinished nodes finds the run finished.
proof fn lemma_drained_stays_finished(
    g: Seq<NodeView>,
    experiment: Seq<char>,
    results: Map<ResultKey, StoredResult>,
)
    requires
        !work_is_left(g),
    ensures
        walk(g, experiment, results).result == WalkView::Finished,
{
    let at = first_match(
        positions(g.len()),
        is_runnable(g, experiment, results),
    );
    lemma_first_match(
        positions(g.len()),
        is_runnable(g, experiment, results),
    );
    if at < g.len() {
        assert(is_runnable(g, experiment, results)(
            positions(g.len())[at],
        ));
        assert(g[at].state.finished());
    }
    let after = walk(g, experiment, results).graph;
    assert forall|i: int| 0 <= i < after.len() implies (#[trigger] after[i]).state.finished() by {
        assert(g[i].state.finished());
    }
}

/// A walk that hands out a task, in a graph without a task in flight,
/// leaves that task in flight and no other.
proof fn lemma_walk_starts_one(
    g: Seq<NodeView>,
    experiment: Seq<char>,
    results: Map<ResultKey, StoredResult>,
)
    requires
        nothing_in_flight(g),
        walk(g, experiment, results).result is Task,
    ensures
        ({
            let id = walk(g, experiment, results).result->Task_0;
            let after = walk(g, experiment, results).graph;
            &&& 0 <= id < g.len()
            &&& after[id].state == NodeState::Running
            &&& nothing_in_flight(
                after.update(id, NodeView { state: NodeState::Completed, ..after[id] }),
            )
            &&& nothing_in_flight(after_failure(after, id))
        }),
{
    let id = walk(g, experiment, results).result->Task_0;
    let after = walk(g, experiment, results).graph;
    lemma_first_match(
        positions(g.len()),
        is_runnable(g, experiment, results),
    );
    assert forall|i: int| 0 <= i < after.len() && i != id implies (#[trigger] after[i]).state
        != NodeState::Running by {
        assert(g[i].state != NodeState::Running);
    }
}

} // verus!
