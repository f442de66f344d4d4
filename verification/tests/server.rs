use crater::actions::CreateExperiment;
use crater::agent::api::record_progress;
use crater::config::Config;
use crater::crates::{Crate, RegistryCrate};
use crater::db::Database;
use crater::experiments::{Experiment, GitHubIssue, Status};
use crater::report::{gen, Comparison};
use crater::results::{FailureReason, ProgressData, TestResult};
use crater::server::agents::Agents;
use crater::server::api_types::ApiResponse;
use crater::server::auth::{check_auth, parse_revision, parse_token, TokenType, Tokens};
use crater::server::messages::{Label, Line, Message};
use crater::server::reports::{
    next_report, report_completed, report_failed, retry_report, WorkerStep,
};
use crater::server::routes::agent::{
    route, routes, Action, Answer, Body, Endpoint, Method, Reply, Request,
};
use crater::server::Data;
use crater::experiments::ExperimentChunk;
use crater::time::Timestamp;
use crater::toolchain::Toolchain;

fn at(secs: i64) -> Timestamp {
    Timestamp { secs, nanos: 0 }
}

fn lazy_static() -> Crate {
    Crate::Registry(RegistryCrate {
        name: "lazy_static".into(),
        version: "1".into(),
    })
}

fn tokens() -> Tokens {
    let mut tokens = Tokens::default();
    tokens.agents.push(("token1".into(), "agent-1".into()));
    tokens.agents.push(("token2".into(), "agent-2".into()));
    tokens.admins.push("root".into());
    tokens
}

fn data() -> Data {
    let tokens = tokens();
    Data {
        config: Config::default(),
        agents: Agents::new(&tokens),
        tokens,
        db: Database::new(),
    }
}

fn issue() -> GitHubIssue {
    GitHubIssue {
        api_url: "https://api.github.com/repos/rust-lang/rust/issues/1".into(),
        html_url: "https://github.com/rust-lang/rust/issues/1".into(),
        number: 1,
    }
}

fn create(data: &mut Data, name: &str, crates: Vec<Crate>, issue: Option<GitHubIssue>) {
    let mut create = CreateExperiment::dummy(name);
    create.crates = crates;
    create.github_issue = issue;
    create
        .apply_chunked(&mut data.db, &data.config, at(1), 10)
        .unwrap();
}

fn request(method: Method, path: &str, token: &str, body: Body) -> Request {
    Request {
        method,
        path: format!("/agent-api/{}", path),
        authorization: Some(format!("CraterToken {}", token)),
        user_agent: Some("crater-agent/0123abc".to_string()),
        body,
    }
}

fn get(data: &mut Data, path: &str, token: &str, secs: i64) -> Reply {
    routes(data, &request(Method::Get, path, token, Body::Empty), at(secs))
}

fn post(data: &mut Data, path: &str, token: &str, body: Body, secs: i64) -> Reply {
    routes(data, &request(Method::Post, path, token, body), at(secs))
}

fn chunk_in(reply: Reply) -> Option<ExperimentChunk> {
    match reply.response {
        ApiResponse::Success {
            result: Answer::Chunk(chunk),
        } => chunk,
        other => panic!("unexpected answer: {:?}", other),
    }
}

fn assert_done(reply: &Reply) {
    match &reply.response {
        ApiResponse::Success {
            result: Answer::Done(true),
        } => {}
        other => panic!("unexpected answer: {:?}", other),
    }
}

fn error_in(reply: &Reply) -> &str {
    match &reply.response {
        ApiResponse::InternalError { error } => error.as_str(),
        other => panic!("unexpected answer: {:?}", other),
    }
}

fn progress(toolchain: Toolchain, result: TestResult) -> Body {
    Body::Progress(record_progress(
        &lazy_static(),
        &toolchain,
        b"log",
        result,
        &vec![],
    ))
}

#[test]
fn tokens_are_read_from_the_header() {
    assert_eq!(parse_token("CraterToken abc"), Some("abc"));
    assert_eq!(parse_token("CraterToken "), Some(""));
    assert_eq!(parse_token("CraterToken"), None);
    assert_eq!(parse_token("CraterToken a b"), None);
    assert_eq!(parse_token("Bearer abc"), None);
    assert_eq!(parse_token(" CraterToken abc"), None);
    assert_eq!(parse_token(""), None);

    assert_eq!(
        parse_revision("crater-agent/0123abc"),
        Some("0123abc".to_string())
    );
    assert_eq!(parse_revision("crater-agent/unknown"), None);
    assert_eq!(parse_revision("crater-agent/0123ab"), None);
    assert_eq!(parse_revision("crater-agent/0123ABC"), None);
    assert_eq!(parse_revision("curl/0123abc"), None);
    assert_eq!(parse_revision("crater-agent"), None);
    assert_eq!(
        parse_revision("crater-agent/0123456789012345678901234567890123456789"),
        Some("0123456789012345678901234567890123456789".to_string())
    );
    assert_eq!(
        parse_revision("crater-agent/01234567890123456789012345678901234567890"),
        None
    );
}

#[test]
fn senders_are_known_by_their_token() {
    let tokens = tokens();
    let auth = check_auth(
        &tokens,
        Some("CraterToken token2"),
        Some("crater-agent/0123abc"),
        TokenType::Agent,
    )
    .unwrap();
    assert_eq!(auth.name, "agent-2");
    assert_eq!(auth.git_revision.as_deref(), Some("0123abc"));

    let auth = check_auth(&tokens, Some("CraterToken token1"), None, TokenType::Agent).unwrap();
    assert_eq!(auth.name, "agent-1");
    assert_eq!(auth.git_revision, None);

    assert!(check_auth(&tokens, Some("CraterToken nope"), None, TokenType::Agent).is_none());
    assert!(check_auth(&tokens, Some("token1"), None, TokenType::Agent).is_none());
    assert!(check_auth(&tokens, None, None, TokenType::Agent).is_none());
    assert!(check_auth(&tokens, Some("CraterToken root"), None, TokenType::Agent).is_none());
    assert!(check_auth(&tokens, Some("CraterToken root"), None, TokenType::Admin).is_some());
    assert!(check_auth(&tokens, Some("CraterToken token1"), None, TokenType::Admin).is_none());
    assert!(tokens.is_admin("root"));
    assert_eq!(tokens.agent_name("token1").as_deref(), Some("agent-1"));
}

#[test]
fn requests_find_their_endpoint() {
    assert_eq!(route(Method::Get, "/agent-api/config"), Some(Endpoint::Config));
    assert_eq!(
        route(Method::Get, "/agent-api/next-experiment-chunk"),
        Some(Endpoint::NextExperimentChunk)
    );
    assert_eq!(
        route(Method::Post, "/agent-api/complete-experiment-chunk"),
        Some(Endpoint::CompleteExperimentChunk)
    );
    assert_eq!(
        route(Method::Post, "/agent-api/record-progress"),
        Some(Endpoint::RecordProgress)
    );
    assert_eq!(
        route(Method::Post, "/agent-api/heartbeat"),
        Some(Endpoint::Heartbeat)
    );
    assert_eq!(route(Method::Post, "/agent-api/error"), Some(Endpoint::Error));
    assert_eq!(route(Method::Post, "/agent-api/config"), None);
    assert_eq!(route(Method::Get, "/agent-api/heartbeat"), None);
    assert_eq!(route(Method::Other, "/agent-api/config"), None);
    assert_eq!(route(Method::Get, "/config"), None);
    assert_eq!(route(Method::Get, "/agent-api/config/"), None);
    assert_eq!(route(Method::Get, "/agent-api/next-experiment"), None);
}

#[test]
fn unknown_routes_and_senders_are_turned_away() {
    let mut data = data();
    let reply = get(&mut data, "nothing", "token1", 1);
    assert_eq!(reply.response.status_code(), 404);
    assert!(matches!(reply.response, ApiResponse::NotFound));

    let reply = get(&mut data, "config", "nope", 1);
    assert!(matches!(reply.response, ApiResponse::Unauthorized));
    assert_eq!(reply.response.status_code(), 401);

    // An endpoint that is not there is not found, whoever asks
    let reply = get(&mut data, "nothing", "nope", 1);
    assert!(matches!(reply.response, ApiResponse::NotFound));

    let reply = post(&mut data, "record-progress", "token1", Body::Empty, 1);
    assert_eq!(error_in(&reply), "invalid request body");
    let reply = post(&mut data, "error", "token1", Body::Empty, 1);
    assert_eq!(error_in(&reply), "invalid request body");

    match get(&mut data, "config", "token2", 1).response {
        ApiResponse::Success {
            result: Answer::Config(config),
        } => assert_eq!(config.agent_name, "agent-2"),
        other => panic!("unexpected answer: {:?}", other),
    }
}

#[test]
fn an_experiment_runs_from_the_queue_to_its_report() {
    let mut data = data();
    create(&mut data, "foo", vec![lazy_static()], Some(issue()));
    assert_eq!(Experiment::get(&data.db, "foo").unwrap().status, Status::Queued);

    // The agent obtains the chunk, and the experiment starts running
    let reply = get(&mut data, "next-experiment-chunk", "token1", 10);
    assert_eq!(reply.actions.len(), 1);
    match &reply.actions[0] {
        Action::Notify(notification) => {
            assert_eq!(notification.api_url, issue().api_url);
            assert_eq!(
                notification.message.lines,
                vec![Line {
                    emoji: "construction".to_string(),
                    content: "Experiment **`foo`** is now **running**.".to_string()
                }]
            );
        }
        other => panic!("unexpected action: {:?}", other),
    }
    let chunk = chunk_in(reply).unwrap();
    assert_eq!(chunk.experiment.name, "foo-0");
    assert_eq!(chunk.parent_name, "foo");
    assert_eq!(chunk.experiment.crates.len(), 1);
    let ex = Experiment::get(&data.db, "foo").unwrap();
    assert_eq!(ex.status, Status::Running);
    assert_eq!(ex.started_at, Some(at(10)));

    // Asking again gives the same chunk and posts nothing
    let reply = get(&mut data, "next-experiment-chunk", "token1", 11);
    assert!(reply.actions.is_empty());
    assert_eq!(chunk_in(reply).unwrap().experiment.name, "foo-0");
    // Nothing is left for another agent
    assert!(chunk_in(get(&mut data, "next-experiment-chunk", "token2", 12)).is_none());

    // Both toolchains pass
    let reply = post(
        &mut data,
        "record-progress",
        "token1",
        progress(Toolchain::main(), TestResult::TestPass),
        20,
    );
    assert_done(&reply);
    let reply = post(
        &mut data,
        "record-progress",
        "token1",
        progress(Toolchain::test(), TestResult::TestPass),
        21,
    );
    assert_done(&reply);
    // The same progress arrives again
    let reply = post(
        &mut data,
        "record-progress",
        "token1",
        progress(Toolchain::test(), TestResult::TestPass),
        22,
    );
    assert_done(&reply);
    assert_eq!(data.db.results.results.len(), 2);
    let ex = Experiment::get(&data.db, "foo").unwrap();
    assert_eq!(ex.raw_progress(&data.db), (2, 2));
    assert_eq!(ex.progress(&data.db), 100);

    // A chunk that is asked for again has lost the crate that is done
    let again = chunk_in(get(&mut data, "next-experiment-chunk", "token1", 23)).unwrap();
    assert!(again.experiment.crates.is_empty());

    // The chunk completes, and the experiment needs its report
    let reply = post(&mut data, "complete-experiment-chunk", "token1", Body::Empty, 30);
    assert_done(&reply);
    assert_eq!(reply.actions, vec![Action::WakeReportsWorker]);
    let ex = Experiment::get(&data.db, "foo").unwrap();
    assert_eq!(ex.status, Status::NeedsReport);
    assert_eq!(ex.children, 0);
    assert_eq!(ex.completed_at, Some(at(30)));
    assert_eq!(data.db.chunks[0].experiment.status, Status::Completed);

    // Completing again does not count again
    let reply = post(&mut data, "complete-experiment-chunk", "token1", Body::Empty, 31);
    assert_eq!(error_in(&reply), "no experiment chunk run by this agent");
    assert_eq!(Experiment::get(&data.db, "foo").unwrap().children, 0);

    // The worker makes the report
    let mut ex = match next_report(&mut data.db, at(40)) {
        WorkerStep::Generate(ex) => ex,
        WorkerStep::Wait(_) => panic!("nothing to report"),
    };
    assert_eq!(ex.name, "foo");
    assert_eq!(ex.status, Status::GeneratingReport);
    assert!(matches!(next_report(&mut data.db, at(41)), WorkerStep::Wait(600)));

    let report = gen(&data.db.results, &ex, &data.config).unwrap();
    assert_eq!(report.results.crates.len(), 1);
    assert_eq!(report.results.crates[0].res, Comparison::SameTestPass);
    assert_eq!(report.logs.len(), 2);

    let posts = report_completed(&mut ex, &mut data.db, "https://reports.example.com", at(50));
    assert_eq!(posts.len(), 1);
    assert_eq!(posts[0].message.new_label, Some(Label::ExperimentCompleted));
    assert_eq!(
        posts[0].message.lines[1].content,
        "[Open the full report](https://reports.example.com/foo/index.html)."
    );
    let ex = Experiment::get(&data.db, "foo").unwrap();
    assert_eq!(ex.status, Status::Completed);
    assert_eq!(
        ex.report_url.as_deref(),
        Some("https://reports.example.com/foo/index.html")
    );
    assert_eq!(ex.completed_at, Some(at(30)));
}

#[test]
fn an_experiment_waits_for_all_its_chunks() {
    let mut data = data();
    let crates: Vec<Crate> = (0..25)
        .map(|i| {
            Crate::Registry(RegistryCrate {
                name: format!("c{}", i),
                version: "1".into(),
            })
        })
        .collect();
    create(&mut data, "foo", crates, None);
    assert_eq!(Experiment::get(&data.db, "foo").unwrap().children, 3);

    for (round, left) in [2u32, 1, 0].iter().enumerate() {
        let secs = 10 * (round as i64 + 1);
        let reply = get(&mut data, "next-experiment-chunk", "token1", secs);
        // Only the first chunk starts the experiment, and there is no issue to tell
        assert!(reply.actions.is_empty());
        let chunk = chunk_in(reply).unwrap();
        assert_eq!(chunk.experiment.name, format!("foo-{}", round));
        let reply = post(&mut data, "complete-experiment-chunk", "token1", Body::Empty, secs + 1);
        assert_done(&reply);
        let ex = Experiment::get(&data.db, "foo").unwrap();
        assert_eq!(ex.children, *left);
        assert_eq!(
            ex.status,
            if *left == 0 {
                Status::NeedsReport
            } else {
                Status::Running
            }
        );
        assert_eq!(ex.started_at, Some(at(10)));
    }
    assert!(chunk_in(get(&mut data, "next-experiment-chunk", "token1", 99)).is_none());
}

#[test]
fn an_error_fails_the_experiment() {
    let mut data = data();
    create(&mut data, "foo", vec![lazy_static()], Some(issue()));

    let reply = post(&mut data, "error", "token1", Body::Error(None), 5);
    assert_eq!(error_in(&reply), "no experiment chunk run by this agent");

    chunk_in(get(&mut data, "next-experiment-chunk", "token1", 10)).unwrap();
    let reply = post(
        &mut data,
        "error",
        "token1",
        Body::Error(Some("docker is not running".to_string())),
        20,
    );
    assert_done(&reply);
    assert_eq!(reply.actions.len(), 1);
    match &reply.actions[0] {
        Action::Notify(notification) => {
            assert_eq!(
                notification.message.lines[0].content,
                "Experiment **`foo`** has encountered an error: docker is not running"
            );
            assert_eq!(notification.message.lines[0].emoji, "rotating_light");
            assert_eq!(notification.message.lines.len(), 2);
            assert_eq!(notification.message.notes.len(), 1);
        }
        other => panic!("unexpected action: {:?}", other),
    }
    let ex = Experiment::get(&data.db, "foo").unwrap();
    assert_eq!(ex.status, Status::Failed);
    assert_eq!(ex.completed_at, None);

    // A failed experiment is not started again by its chunk
    let reply = get(&mut data, "next-experiment-chunk", "token1", 30);
    assert!(reply.actions.is_empty());
    assert_eq!(Experiment::get(&data.db, "foo").unwrap().status, Status::Failed);

    let reply = post(&mut data, "error", "token1", Body::Error(None), 40);
    match &reply.actions[0] {
        Action::Notify(notification) => assert_eq!(
            notification.message.lines[0].content,
            "Experiment **`foo`** has encountered an error: no error"
        ),
        other => panic!("unexpected action: {:?}", other),
    }
}

#[test]
fn progress_needs_a_running_chunk_and_valid_logs() {
    let mut data = data();
    create(&mut data, "foo", vec![lazy_static()], None);
    let reply = post(
        &mut data,
        "record-progress",
        "token1",
        progress(Toolchain::main(), TestResult::TestPass),
        5,
    );
    assert_eq!(error_in(&reply), "no experiment chunk run by this agent");
    assert!(data.db.results.results.is_empty());

    chunk_in(get(&mut data, "next-experiment-chunk", "token1", 10)).unwrap();
    let mut broken = record_progress(
        &lazy_static(),
        &Toolchain::main(),
        b"log",
        TestResult::TestFail(FailureReason::Unknown),
        &vec![],
    );
    broken.results[0].log = "???".to_string();
    let reply = post(&mut data, "record-progress", "token1", Body::Progress(broken), 11);
    assert_eq!(error_in(&reply), "invalid base64 log provided");
    assert_eq!(reply.response.status_code(), 500);
    assert!(data.db.results.results.is_empty());

    let empty = ProgressData {
        results: vec![],
        shas: vec![],
    };
    assert_done(&post(&mut data, "record-progress", "token1", Body::Progress(empty), 12));
}

#[test]
fn heartbeats_are_recorded() {
    let mut data = data();
    assert_eq!(data.agents.agents.len(), 2);
    assert_eq!(data.agents.agents[0].last_heartbeat, None);

    let reply = post(&mut data, "heartbeat", "token2", Body::Empty, 77);
    assert_done(&reply);
    assert_eq!(data.agents.agents[0].last_heartbeat, None);
    assert_eq!(data.agents.agents[1].name, "agent-2");
    assert_eq!(data.agents.agents[1].last_heartbeat, Some(at(77)));
    assert_eq!(data.agents.agents[1].git_revision.as_deref(), Some("0123abc"));

    let mut plain = request(Method::Post, "heartbeat", "token1", Body::Empty);
    plain.user_agent = None;
    routes(&mut data, &plain, at(78));
    assert_eq!(data.agents.agents[0].last_heartbeat, Some(at(78)));
    assert_eq!(data.agents.agents[0].git_revision, None);
}

#[test]
fn agents_follow_the_tokens() {
    let mut tokens = tokens();
    let mut agents = Agents::new(&tokens);
    agents.record_heartbeat("agent-1", at(5));

    tokens.agents.remove(1);
    tokens.agents.push(("token3".into(), "agent-3".into()));
    tokens.agents.push(("token4".into(), "agent-3".into()));
    tokens.agents.push(("token5".into(), "agent-1".into()));
    agents.synchronize(&tokens);

    let names: Vec<&str> = agents.agents.iter().map(|a| a.name.as_str()).collect();
    assert_eq!(names, vec!["agent-1", "agent-3"]);
    assert_eq!(agents.agents[0].last_heartbeat, Some(at(5)));
    assert_eq!(agents.agents[1].last_heartbeat, None);
}

#[test]
fn a_failed_report_can_be_tried_again() {
    let mut data = data();
    create(&mut data, "foo", vec![], Some(issue()));
    chunk_in(get(&mut data, "next-experiment-chunk", "token1", 10)).unwrap();
    assert_done(&post(&mut data, "complete-experiment-chunk", "token1", Body::Empty, 20));

    let mut ex = match next_report(&mut data.db, at(30)) {
        WorkerStep::Generate(ex) => ex,
        WorkerStep::Wait(_) => panic!("nothing to report"),
    };
    let posts = report_failed(&mut ex, &mut data.db, "bucket is gone", at(31));
    assert_eq!(posts.len(), 1);
    assert_eq!(
        posts[0].message.lines[0].content,
        "Report generation of **`foo`** failed: bucket is gone"
    );
    assert_eq!(posts[0].message.new_label, None);
    assert_eq!(
        Experiment::get(&data.db, "foo").unwrap().status,
        Status::ReportFailed
    );
    assert!(matches!(next_report(&mut data.db, at(32)), WorkerStep::Wait(_)));

    assert!(retry_report(&mut ex, &mut data.db, at(40)));
    assert!(!retry_report(&mut ex, &mut data.db, at(41)));
    assert_eq!(
        Experiment::get(&data.db, "foo").unwrap().status,
        Status::NeedsReport
    );
    assert!(matches!(
        next_report(&mut data.db, at(42)),
        WorkerStep::Generate(_)
    ));
}

#[test]
fn messages_are_built_line_by_line() {
    let message = Message::new()
        .line("tada", "done".to_string())
        .note("warning", "careful".to_string())
        .set_label(Label::ExperimentQueued);
    assert_eq!(message.lines.len(), 1);
    assert_eq!(message.notes[0].emoji, "warning");
    assert_eq!(message.new_label, Some(Label::ExperimentQueued));
}

#[test]
fn test_default_experiment_name() {
    // With simple issues no default should be used
    let issue = crater::server::github::Issue {
        number: 1,
        labels: Vec::new(),
        pull_request: None,
    };
    assert!(crater::server::webhooks::default_experiment_name(&issue).is_none());

    // With pull requests pr-{number} should be used
    let pr = crater::server::github::Issue {
        number: 2,
        labels: Vec::new(),
        pull_request: Some(crater::server::github::PullRequest {
            html_url: String::new(),
        }),
    };
    assert_eq!(
        crater::server::webhooks::default_experiment_name(&pr)
            .unwrap()
            .as_str(),
        "pr-2"
    );
}

#[test]
fn default_names_spell_out_the_number() {
    let name = |number: i32| {
        crater::server::webhooks::default_experiment_name(&crater::server::github::Issue {
            number,
            labels: Vec::new(),
            pull_request: Some(crater::server::github::PullRequest {
                html_url: String::new(),
            }),
        })
        .unwrap()
    };
    assert_eq!(name(0), "pr-0");
    assert_eq!(name(10), "pr-10");
    assert_eq!(name(54321), "pr-54321");
    assert_eq!(name(-7), "pr--7");
    assert_eq!(name(i32::MAX), "pr-2147483647");
    assert_eq!(name(i32::MIN), "pr--2147483648");
}

#[test]
fn a_failed_experiment_stays_failed_when_its_last_chunk_completes() {
    let mut data = data();
    create(&mut data, "foo", vec![lazy_static()], None);
    chunk_in(get(&mut data, "next-experiment-chunk", "token1", 10)).unwrap();
    assert_done(&post(&mut data, "error", "token1", Body::Error(None), 20));
    assert_done(&post(&mut data, "complete-experiment-chunk", "token1", Body::Empty, 30));
    let ex = Experiment::get(&data.db, "foo").unwrap();
    assert_eq!(ex.children, 0);
    assert_eq!(ex.status, Status::Failed);
    assert!(matches!(next_report(&mut data.db, at(40)), WorkerStep::Wait(_)));
}

#[test]
fn the_queue_is_shown_by_status_then_priority() {
    let mut data = data();
    let mut add = |name: &str, priority: i32, status: Status| {
        let mut create = CreateExperiment::dummy(name);
        create.priority = priority;
        create.crates = vec![lazy_static()];
        create.apply(&mut data.db, &data.config, at(1)).unwrap();
        let mut ex = Experiment::get(&data.db, name).unwrap();
        if status != Status::Queued {
            ex.set_status(&mut data.db, status, at(2));
        }
    };
    add("queued-low", 0, Status::Queued);
    add("running", 0, Status::Running);
    add("done", 50, Status::Completed);
    add("queued-high", 5, Status::Queued);
    add("broken-report", 0, Status::ReportFailed);
    add("failed", 9, Status::Failed);
    add("reporting", 0, Status::GeneratingReport);
    add("waiting", 0, Status::NeedsReport);

    let running = Experiment::get(&data.db, "running").unwrap();
    data.db.results.record_result(
        &running,
        &Toolchain::main(),
        &lazy_static(),
        TestResult::TestPass,
        vec![],
    );
    let mut assigned = Experiment::get(&data.db, "running").unwrap();
    assigned.set_assigned_to(
        &mut data.db,
        Some(&crater::experiments::Assignee::Agent("agent-1".into())),
    );

    let queue = crater::server::routes::ui::endpoint_queue(&data.db);
    let names: Vec<&str> = queue.iter().map(|e| e.name.as_str()).collect();
    assert_eq!(
        names,
        vec![
            "broken-report",
            "reporting",
            "waiting",
            "failed",
            "running",
            "queued-high",
            "queued-low"
        ]
    );
    let shown = &queue[4];
    assert_eq!(shown.status_class, "orange");
    assert_eq!(shown.status_pretty, "Running");
    assert_eq!(shown.mode, "cargo test");
    assert_eq!(shown.assigned_to.as_deref(), Some("agent:agent-1"));
    assert_eq!(shown.progress, 50);
    assert_eq!(queue[0].progress, 100);
    assert_eq!(queue[0].status_class, "red");
    assert_eq!(queue[0].status_pretty, "Report failed");
    assert_eq!(queue[5].progress, 0);
    assert_eq!(queue[5].status_class, "");
    assert_eq!(queue[5].priority, 5);

    let done = crater::server::routes::ui::ExperimentData::new(
        &data.db,
        &Experiment::get(&data.db, "done").unwrap(),
    );
    assert_eq!(done.status_class, "green");
    assert_eq!(done.status_pretty, "Completed");
    assert_eq!(done.progress, 100);
}
