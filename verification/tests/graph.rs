use crater::actions::CreateExperiment;
use crater::config::Config;
use crater::crates::{Crate, GitHubRepo, RegistryCrate};
use crater::db::Database;
use crater::experiments::{Assignee, ExperimentChunk, Mode};
use crater::results::{DatabaseDB, FailureReason, TestResult};
use crater::runner::graph::{build_graph, NodeState, TasksGraph, WalkResult};
use crater::runner::tasks::{Task, TaskStep};
use crater::runner::{complete_task, fail_task, failure_result, Cause, OverrideResult};
use crater::time::Timestamp;
use crater::toolchain::Toolchain;

fn registry(name: &str) -> Crate {
    Crate::Registry(RegistryCrate {
        name: name.to_string(),
        version: "1.0.0".to_string(),
    })
}

fn chunk_of(crates: Vec<Crate>) -> ExperimentChunk {
    let mut db = Database::new();
    let mut create = CreateExperiment::dummy("foo");
    create.crates = crates;
    create
        .apply_chunked(
            &mut db,
            &Config::default(),
            Timestamp { secs: 1, nanos: 0 },
            100,
        )
        .unwrap();
    let agent = Assignee::Agent("agent".into());
    ExperimentChunk::next(&mut db, &agent, Timestamp { secs: 2, nanos: 0 })
        .unwrap()
        .1
}

fn take(graph: &mut TasksGraph, ex: &ExperimentChunk, db: &DatabaseDB) -> (usize, Task) {
    match graph.next_task(ex, db) {
        WalkResult::Task(id, task) => (id, task),
        other => panic!("expected a task, got {:?}", other),
    }
}

#[test]
fn the_graph_of_a_chunk_has_three_tasks_for_each_crate() {
    let ex = chunk_of(vec![registry("a"), registry("b")]);
    let graph = build_graph(&ex, &Config::default());
    assert_eq!(graph.len(), 7);
    assert_eq!(graph.state(0), NodeState::Completed);
    assert!(graph.task(0).is_none());
    for id in 1..7 {
        assert_eq!(graph.state(id), NodeState::Pending);
    }
    assert_eq!(graph.task(1).unwrap().describe(), "prepare of crate a-1.0.0");
    assert_eq!(
        graph.task(2).unwrap().describe(),
        "build and test stable of crate a-1.0.0"
    );
    assert_eq!(
        graph.task(6).unwrap().describe(),
        "build and test beta of crate b-1.0.0"
    );
    assert_eq!(graph.pending_crates_count(), 2);
}

#[test]
fn blacklisted_crates_are_left_out_of_the_graph() {
    let ex = chunk_of(vec![registry("a"), registry("b")]);
    let mut config = Config::default();
    config.blacklist.push(registry("a"));
    config.quiet.push(registry("b"));
    let graph = build_graph(&ex, &config);
    assert_eq!(graph.len(), 4);
    assert_eq!(
        graph.task(2).unwrap().describe(),
        "build and test stable (quiet) of crate b-1.0.0"
    );

    let mut ignoring = chunk_of(vec![registry("a"), registry("b")]);
    ignoring.experiment.ignore_blacklist = true;
    assert_eq!(build_graph(&ignoring, &config).len(), 7);
}

#[test]
fn tasks_wait_for_the_preparation_of_their_crate() {
    let ex = chunk_of(vec![registry("a"), registry("b")]);
    let db = DatabaseDB::new();
    let mut graph = build_graph(&ex, &Config::default());

    // Only the two preparations can start
    let (first, task) = take(&mut graph, &ex, &db);
    assert_eq!(first, 1);
    assert!(matches!(task.step, TaskStep::Prepare));
    assert!(graph.is_running(1));
    let (second, _) = take(&mut graph, &ex, &db);
    assert_eq!(second, 4);
    assert!(matches!(graph.next_task(&ex, &db), WalkResult::Blocked));
    assert!(matches!(graph.next_task(&ex, &db), WalkResult::Blocked));

    // Once a crate is prepared, both toolchains can run on it at once
    graph.mark_as_completed(4);
    let (third, task) = take(&mut graph, &ex, &db);
    assert_eq!(third, 5);
    match task.step {
        TaskStep::Execute { mode, tc, quiet } => {
            assert_eq!(mode, Mode::BuildAndTest);
            assert_eq!(tc, Toolchain::main());
            assert!(!quiet);
        }
        TaskStep::Prepare => panic!("expected a run"),
    }
    let (fourth, _) = take(&mut graph, &ex, &db);
    assert_eq!(fourth, 6);
    assert!(matches!(graph.next_task(&ex, &db), WalkResult::Blocked));

    graph.mark_as_completed(1);
    graph.mark_as_completed(5);
    graph.mark_as_completed(6);
    assert_eq!(graph.pending_crates_count(), 1);
    assert_eq!(take(&mut graph, &ex, &db).0, 2);
    assert_eq!(take(&mut graph, &ex, &db).0, 3);
    graph.mark_as_completed(2);
    assert!(!graph.next_task(&ex, &db).is_finished());
    graph.mark_as_completed(3);

    assert!(graph.next_task(&ex, &db).is_finished());
    assert_eq!(graph.pending_crates_count(), 0);
    assert!(!graph.is_running(3));
    assert!(!graph.is_running(99));
}

#[test]
fn a_failed_preparation_fails_both_runs_with_the_override() {
    let ex = chunk_of(vec![registry("a"), registry("b")]);
    let config = Config::default();
    let mut db = DatabaseDB::new();
    let mut graph = build_graph(&ex, &config);

    let (prepare_a, task_a) = take(&mut graph, &ex, &db);
    let (prepare_b, _) = take(&mut graph, &ex, &db);

    let chain = vec![
        Cause::Message("failed to fetch".to_string()),
        Cause::Override(OverrideResult(TestResult::BuildFail(FailureReason::OOM))),
        Cause::Override(OverrideResult(TestResult::TestSkipped)),
    ];
    let result = fail_task(
        &mut graph,
        prepare_a,
        &ex,
        &mut db,
        &config,
        &task_a.krate,
        &chain,
        "out of memory",
    );
    assert_eq!(result, TestResult::BuildFail(FailureReason::OOM));

    assert_eq!(graph.state(1), NodeState::Failed);
    assert_eq!(graph.state(2), NodeState::Failed);
    assert_eq!(graph.state(3), NodeState::Failed);
    assert_eq!(graph.state(4), NodeState::Running);
    assert_eq!(graph.state(5), NodeState::Pending);

    // Both runs of the failed crate have a row of their own
    assert_eq!(
        db.get_result_chunk(&ex, &Toolchain::main(), &registry("a")),
        Some(TestResult::BuildFail(FailureReason::OOM))
    );
    assert_eq!(
        db.get_result_chunk(&ex, &Toolchain::test(), &registry("a")),
        Some(TestResult::BuildFail(FailureReason::OOM))
    );
    assert_eq!(
        db.load_log_chunk(&ex, &Toolchain::test(), &registry("a")),
        Some(b"the task or one of its parents failed!\nout of memory".to_vec())
    );
    assert_eq!(db.results.len(), 2);

    // The other crate runs as if nothing had happened
    graph.mark_as_completed(prepare_b);
    let (run, task) = take(&mut graph, &ex, &db);
    assert_eq!(run, 5);
    db.record_result_chunk(
        &ex,
        &Toolchain::main(),
        &task.krate,
        TestResult::TestPass,
        vec![],
    );
    graph.mark_as_completed(5);
    let (run, task) = take(&mut graph, &ex, &db);
    assert_eq!(run, 6);
    db.record_result_chunk(
        &ex,
        &Toolchain::test(),
        &task.krate,
        TestResult::TestPass,
        vec![],
    );
    graph.mark_as_completed(6);

    assert!(graph.next_task(&ex, &db).is_finished());
    assert_eq!(graph.pending_crates_count(), 0);
    assert_eq!(db.results.len(), 4);
}

#[test]
fn a_failed_run_fails_alone() {
    let ex = chunk_of(vec![registry("a")]);
    let config = Config::default();
    let mut db = DatabaseDB::new();
    let mut graph = build_graph(&ex, &config);
    let (prepare, _) = take(&mut graph, &ex, &db);
    graph.mark_as_completed(prepare);
    let (first, task) = take(&mut graph, &ex, &db);
    let result = fail_task(&mut graph, first, &ex, &mut db, &config, &task.krate, &vec![], "boom");
    assert_eq!(result, TestResult::Error);
    assert_eq!(graph.state(1), NodeState::Completed);
    assert_eq!(graph.state(2), NodeState::Failed);
    assert_eq!(graph.state(3), NodeState::Pending);
    assert_eq!(
        db.get_result_chunk(&ex, &Toolchain::main(), &registry("a")),
        Some(TestResult::Error)
    );
    assert!(db
        .get_result_chunk(&ex, &Toolchain::test(), &registry("a"))
        .is_none());
    assert_eq!(take(&mut graph, &ex, &db).0, 3);
}

#[test]
fn a_stored_result_is_not_run_again() {
    let ex = chunk_of(vec![registry("a")]);
    let mut db = DatabaseDB::new();
    db.record_result_chunk(
        &ex,
        &Toolchain::main(),
        &registry("a"),
        TestResult::TestPass,
        vec![],
    );
    let mut graph = build_graph(&ex, &Config::default());
    let task = graph.task(2).unwrap();
    assert!(!task.needs_exec(&ex, &db));
    assert!(graph.task(1).unwrap().needs_exec(&ex, &db));
    assert!(graph.task(3).unwrap().needs_exec(&ex, &db));

    let (prepare, _) = take(&mut graph, &ex, &db);
    graph.mark_as_completed(prepare);
    let (run, task) = take(&mut graph, &ex, &db);
    assert_eq!(run, 3);
    assert_eq!(graph.state(2), NodeState::Skipped);
    assert_eq!(task.step.toolchain(), Some(&Toolchain::test()));
    graph.mark_as_completed(run);
    assert!(graph.next_task(&ex, &db).is_finished());
}

#[test]
fn the_result_of_a_failure_is_decided_by_the_crate_and_the_chain() {
    let mut config = Config::default();
    let broken = registry("broken");
    let fine = registry("fine");
    config.broken.push(broken.clone());
    let oom = Cause::Override(OverrideResult(TestResult::TestFail(FailureReason::Timeout)));

    assert!(config.is_broken(&broken));
    assert!(!config.is_broken(&fine));
    assert_eq!(
        failure_result(&config, &broken, &vec![]),
        TestResult::BuildFail(FailureReason::Broken)
    );
    assert_eq!(
        failure_result(&config, &fine, &vec![]),
        TestResult::Error
    );
    assert_eq!(
        failure_result(&config, &fine, &vec![Cause::Message("x".into())]),
        TestResult::Error
    );
    let chain = vec![Cause::Message("x".into()), oom];
    assert_eq!(
        failure_result(&config, &fine, &chain),
        TestResult::TestFail(FailureReason::Timeout)
    );
    assert_eq!(
        failure_result(&config, &broken, &chain),
        TestResult::BuildFail(FailureReason::Broken)
    );
    assert_eq!(
        OverrideResult(TestResult::BuildFail(FailureReason::OOM)).to_string(),
        "overridden task result to build-fail:oom"
    );
}

#[test]
fn steps_are_described_by_mode() {
    let tc = Toolchain::from_str("nightly-2018-01-01").unwrap();
    let step = |mode, quiet| TaskStep::Execute {
        mode,
        tc: tc.clone(),
        quiet,
    };
    assert_eq!(TaskStep::Prepare.describe(), "prepare");
    assert_eq!(
        step(Mode::BuildAndTest, false).describe(),
        "build and test nightly-2018-01-01"
    );
    assert_eq!(
        step(Mode::BuildOnly, true).describe(),
        "build nightly-2018-01-01 (quiet)"
    );
    assert_eq!(
        step(Mode::CheckOnly, false).describe(),
        "check nightly-2018-01-01"
    );
    assert_eq!(
        step(Mode::Clippy, false).describe(),
        "clippy nightly-2018-01-01"
    );
    assert_eq!(step(Mode::Rustdoc, true).describe(), "doc nightly-2018-01-01 (quiet)");
    assert_eq!(
        step(Mode::UnstableFeatures, true).describe(),
        "find unstable features on nightly-2018-01-01"
    );
    let task = Task {
        krate: Crate::GitHub {
            repo: GitHubRepo {
                org: "brson".into(),
                name: "hello-rs".into(),
            },
            sha: None,
        },
        step: TaskStep::Prepare,
    };
    assert_eq!(task.describe(), "prepare of crate brson/hello-rs");
}

#[test]
fn a_graph_by_hand_follows_its_edges() {
    let ex = chunk_of(vec![]);
    let db = DatabaseDB::new();
    let mut graph = TasksGraph::new();
    let prepare = |name: &str| Task {
        krate: registry(name),
        step: TaskStep::Prepare,
    };
    let a = graph.add_task(prepare("a"), &vec![0]);
    let b = graph.add_task(prepare("b"), &vec![0]);
    let c = graph.add_task(prepare("c"), &vec![a, b]);
    let d = graph.add_task(prepare("d"), &vec![c]);
    let e = graph.add_task(prepare("e"), &vec![b]);
    assert_eq!((a, b, c, d, e), (1, 2, 3, 4, 5));

    assert_eq!(take(&mut graph, &ex, &db).0, a);
    assert_eq!(take(&mut graph, &ex, &db).0, b);
    assert!(matches!(graph.next_task(&ex, &db), WalkResult::Blocked));
    graph.mark_as_completed(b);
    // c still waits for a
    assert_eq!(take(&mut graph, &ex, &db).0, e);
    assert!(matches!(graph.next_task(&ex, &db), WalkResult::Blocked));

    let mut results = DatabaseDB::new();
    graph.mark_as_failed(a, &ex, &mut results, "nope", TestResult::Error);
    assert_eq!(graph.state(a), NodeState::Failed);
    assert_eq!(graph.state(c), NodeState::Failed);
    assert_eq!(graph.state(d), NodeState::Failed);
    assert_eq!(graph.state(e), NodeState::Running);
    assert!(results.results.is_empty());
    assert_eq!(graph.pending_crates_count(), 1);

    graph.mark_as_completed(e);
    assert!(graph.next_task(&ex, &db).is_finished());
}

#[test]
fn tasks_run_one_after_the_other_until_none_is_left() {
    let ex = chunk_of(vec![registry("a"), registry("b"), registry("c")]);
    let config = Config::default();
    let mut db = DatabaseDB::new();
    // The second run of c is stored already
    db.record_result_chunk(
        &ex,
        &Toolchain::test(),
        &registry("c"),
        TestResult::TestSkipped,
        vec![],
    );

    let ran = std::cell::RefCell::new(Vec::new());
    let graph = crater::runner::run_tasks(&ex, &mut db, &config, |task: &Task| {
        ran.borrow_mut().push(task.describe());
        match (&task.step, task.krate == registry("a")) {
            (TaskStep::Prepare, true) => Err(crater::runner::TaskFailure {
                chain: vec![Cause::Override(OverrideResult(TestResult::BuildFail(
                    FailureReason::OOM,
                )))],
                error: "killed".to_string(),
            }),
            (TaskStep::Prepare, false) => Ok(None),
            (TaskStep::Execute { .. }, _) => Ok(Some((TestResult::TestPass, b"fine".to_vec()))),
        }
    });

    assert_eq!(
        ran.into_inner(),
        vec![
            "prepare of crate a-1.0.0",
            "prepare of crate b-1.0.0",
            "build and test stable of crate b-1.0.0",
            "build and test beta of crate b-1.0.0",
            "prepare of crate c-1.0.0",
            "build and test stable of crate c-1.0.0",
        ]
    );
    let states: Vec<NodeState> = (0..graph.len()).map(|id| graph.state(id)).collect();
    assert_eq!(
        states,
        vec![
            NodeState::Completed,
            NodeState::Failed,
            NodeState::Failed,
            NodeState::Failed,
            NodeState::Completed,
            NodeState::Completed,
            NodeState::Completed,
            NodeState::Completed,
            NodeState::Completed,
            NodeState::Skipped,
        ]
    );
    assert_eq!(graph.pending_crates_count(), 0);

    let result = |name: &str, tc: Toolchain| db.get_result_chunk(&ex, &tc, &registry(name));
    assert_eq!(
        result("a", Toolchain::main()),
        Some(TestResult::BuildFail(FailureReason::OOM))
    );
    assert_eq!(
        result("a", Toolchain::test()),
        Some(TestResult::BuildFail(FailureReason::OOM))
    );
    assert_eq!(result("b", Toolchain::main()), Some(TestResult::TestPass));
    assert_eq!(result("b", Toolchain::test()), Some(TestResult::TestPass));
    assert_eq!(result("c", Toolchain::main()), Some(TestResult::TestPass));
    assert_eq!(result("c", Toolchain::test()), Some(TestResult::TestSkipped));
    assert_eq!(db.results.len(), 6);
}

#[test]
fn a_task_that_succeeds_is_completed_and_what_it_gave_is_recorded() {
    let ex = chunk_of(vec![registry("a")]);
    let config = Config::default();
    let mut db = DatabaseDB::new();
    let mut graph = build_graph(&ex, &config);

    // Preparing gives no result: nothing is recorded
    let (id, task) = take(&mut graph, &ex, &db);
    assert!(matches!(task.step, TaskStep::Prepare));
    complete_task(&mut graph, id, &ex, &mut db, &task, None);
    assert_eq!(graph.state(id), NodeState::Completed);
    assert!(db.results.is_empty());

    // A run that gives a result: one row, under the parent of the chunk
    let (id, task) = take(&mut graph, &ex, &db);
    complete_task(
        &mut graph,
        id,
        &ex,
        &mut db,
        &task,
        Some((TestResult::TestFail(FailureReason::Timeout), b"slow".to_vec())),
    );
    assert_eq!(graph.state(id), NodeState::Completed);
    assert_eq!(db.results.len(), 1);
    assert_eq!(db.results[0].experiment, ex.parent_name);
    assert_eq!(db.results[0].krate, registry("a"));
    assert_eq!(db.results[0].toolchain, Toolchain::main());
    assert_eq!(db.results[0].result, TestResult::TestFail(FailureReason::Timeout));
    assert_eq!(db.results[0].log, b"slow".to_vec());

    // A run that gives nothing: completed, and nothing more recorded
    let (id, task) = take(&mut graph, &ex, &db);
    complete_task(&mut graph, id, &ex, &mut db, &task, None);
    assert_eq!(graph.state(id), NodeState::Completed);
    assert_eq!(db.results.len(), 1);
    assert!(graph.next_task(&ex, &db).is_finished());
}

#[test]
fn a_run_that_passes_leaves_one_row_for_each_toolchain() {
    let ex = chunk_of(vec![registry("lazy_static")]);
    let config = Config::default();
    let mut db = DatabaseDB::new();
    let graph = crater::runner::run_tasks(&ex, &mut db, &config, |task: &Task| {
        match &task.step {
            TaskStep::Prepare => Ok(None),
            TaskStep::Execute { .. } => Ok(Some((TestResult::TestPass, task.describe().into_bytes()))),
        }
    });
    assert!((1..graph.len()).all(|id| graph.state(id) == NodeState::Completed));
    assert_eq!(db.results.len(), 2);
    assert_eq!(db.results[0].toolchain, Toolchain::main());
    assert_eq!(db.results[0].result, TestResult::TestPass);
    assert_eq!(
        db.results[0].log,
        b"build and test stable of crate lazy_static-1.0.0".to_vec()
    );
    assert_eq!(db.results[1].toolchain, Toolchain::test());
    assert_eq!(db.results[1].result, TestResult::TestPass);
    assert_eq!(
        db.results[1].log,
        b"build and test beta of crate lazy_static-1.0.0".to_vec()
    );
}

#[test]
fn a_failure_overwrites_the_result_of_a_crate_that_is_listed_twice() {
    let ex = chunk_of(vec![registry("a"), registry("a")]);
    let config = Config::default();
    let mut db = DatabaseDB::new();
    let prepared = std::cell::Cell::new(0);
    let graph = crater::runner::run_tasks(&ex, &mut db, &config, |task: &Task| {
        match &task.step {
            TaskStep::Prepare => {
                prepared.set(prepared.get() + 1);
                if prepared.get() == 2 {
                    Err(crater::runner::TaskFailure {
                        chain: vec![],
                        error: "gone".to_string(),
                    })
                } else {
                    Ok(None)
                }
            }
            TaskStep::Execute { .. } => Ok(Some((TestResult::TestPass, b"fine".to_vec()))),
        }
    });
    assert_eq!(graph.pending_crates_count(), 0);
    // One row for each toolchain, each where it was first written
    assert_eq!(db.results.len(), 2);
    assert_eq!(db.results[0].toolchain, Toolchain::main());
    assert_eq!(db.results[1].toolchain, Toolchain::test());
    assert_eq!(db.results[0].result, TestResult::Error);
    assert_eq!(db.results[1].result, TestResult::Error);
}
