use crater::actions::CreateExperiment;
use crater::config::Config;
use crater::db::{pending_migrations, Database};
use crater::experiments::record::{ExperimentDBRecord, RecordError};
use crater::experiments::{
    Assignee, AssigneeParseError, CapLints, CrateSelect, Experiment, GitHubIssue, Mode, Status,
};
use crater::time::Timestamp;
use crater::toolchain::{Toolchain, ToolchainParseError};

fn record() -> ExperimentDBRecord {
    ExperimentDBRecord {
        name: "foo".into(),
        mode: "check-only".into(),
        cap_lints: "warn".into(),
        toolchain_start: "stable".into(),
        toolchain_end: "nightly-2018-01-01".into(),
        priority: -3,
        created_at: Timestamp { secs: 5, nanos: 7 },
        started_at: Some(Timestamp { secs: 6, nanos: 0 }),
        completed_at: None,
        github_issue: Some("https://api.github.com/issues/1".into()),
        github_issue_url: Some("https://github.com/issues/1".into()),
        github_issue_number: Some(1),
        status: "running".into(),
        assigned_to: Some("agent:one".into()),
        report_url: None,
        ignore_blacklist: true,
        children: 4,
    }
}

#[test]
fn a_row_is_read_as_an_experiment() {
    let ex = record().into_experiment(vec![]).unwrap();
    assert_eq!(ex.name, "foo");
    assert_eq!(ex.mode, Mode::CheckOnly);
    assert_eq!(ex.cap_lints, CapLints::Warn);
    assert_eq!(ex.toolchains[0], Toolchain::main());
    assert_eq!(ex.toolchains[1].to_string(), "nightly-2018-01-01");
    assert_eq!(ex.priority, -3);
    assert_eq!(ex.created_at, Timestamp { secs: 5, nanos: 7 });
    assert_eq!(ex.status, Status::Running);
    assert_eq!(ex.assigned_to, Some(Assignee::Agent("one".into())));
    assert_eq!(
        ex.github_issue,
        Some(GitHubIssue {
            api_url: "https://api.github.com/issues/1".into(),
            html_url: "https://github.com/issues/1".into(),
            number: 1
        })
    );
    assert!(ex.ignore_blacklist);
    assert_eq!(ex.children, 4);

    // And back
    let row = ExperimentDBRecord::from_experiment(&ex);
    assert_eq!(row.mode, "check-only");
    assert_eq!(row.status, "running");
    assert_eq!(row.assigned_to.as_deref(), Some("agent:one"));
    assert_eq!(row.github_issue_number, Some(1));
    assert_eq!(row.toolchain_end, "nightly-2018-01-01");
}

#[test]
fn an_issue_needs_all_its_columns() {
    let mut row = record();
    row.github_issue_url = None;
    assert_eq!(row.into_experiment(vec![]).unwrap().github_issue, None);
}

#[test]
fn the_first_word_that_cannot_be_read_is_the_error() {
    let mut row = record();
    row.status = "done".into();
    row.mode = "fast".into();
    assert_eq!(
        row.into_experiment(vec![]).unwrap_err(),
        RecordError::InvalidMode("fast".into())
    );

    let mut row = record();
    row.status = "done".into();
    assert_eq!(
        row.into_experiment(vec![]).unwrap_err(),
        RecordError::InvalidStatus("done".into())
    );

    let mut row = record();
    row.toolchain_end = " ".into();
    row.cap_lints = "loud".into();
    assert_eq!(
        row.into_experiment(vec![]).unwrap_err(),
        RecordError::InvalidToolchain(" ".into())
    );

    let mut row = record();
    row.cap_lints = "loud".into();
    row.assigned_to = Some("cli:x".into());
    assert_eq!(
        row.into_experiment(vec![]).unwrap_err(),
        RecordError::InvalidCapLints("loud".into())
    );

    let mut row = record();
    row.assigned_to = Some("cli:x".into());
    assert_eq!(
        row.into_experiment(vec![]).unwrap_err(),
        RecordError::InvalidAssignee(AssigneeParseError::UnexpectedPayload)
    );
}

#[test]
fn a_stored_experiment_survives_the_round_trip() {
    let mut db = Database::new();
    CreateExperiment::dummy("foo")
        .apply(&mut db, &Config::default(), Timestamp { secs: 1, nanos: 2 })
        .unwrap();
    let mut ex = Experiment::get(&db, "foo").unwrap();
    ex.set_assigned_to(&mut db, Some(&Assignee::CLI));
    let back = ExperimentDBRecord::from_experiment(&ex)
        .into_experiment(vec![])
        .unwrap();
    assert_eq!(back.name, ex.name);
    assert_eq!(back.assigned_to, Some(Assignee::CLI));
    assert_eq!(back.status, Status::Queued);
    assert_eq!(back.created_at, ex.created_at);
    assert_eq!(back.toolchains, ex.toolchains);
    ex.set_assigned_to(&mut db, None);
    assert_eq!(Experiment::get(&db, "foo").unwrap().assigned_to, None);
}

#[test]
fn words_of_experiments() {
    let statuses = [
        (Status::Queued, "queued"),
        (Status::Running, "running"),
        (Status::NeedsReport, "needs-report"),
        (Status::Failed, "failed"),
        (Status::GeneratingReport, "generating-report"),
        (Status::ReportFailed, "report-failed"),
        (Status::Completed, "completed"),
    ];
    for (status, word) in statuses.iter() {
        assert_eq!(status.to_str(), *word);
        assert_eq!(Status::from_str(word).unwrap(), *status);
    }
    let modes = [
        (Mode::BuildAndTest, "build-and-test"),
        (Mode::BuildOnly, "build-only"),
        (Mode::CheckOnly, "check-only"),
        (Mode::Clippy, "clippy"),
        (Mode::Rustdoc, "rustdoc"),
        (Mode::UnstableFeatures, "unstable-features"),
    ];
    for (mode, word) in modes.iter() {
        assert_eq!(mode.to_str(), *word);
        assert_eq!(Mode::from_str(word).unwrap(), *mode);
    }
    let selections = [
        (CrateSelect::Full, "full"),
        (CrateSelect::Demo, "demo"),
        (CrateSelect::SmallRandom, "small-random"),
        (CrateSelect::Top100, "top-100"),
        (CrateSelect::Local, "local"),
    ];
    for (select, word) in selections.iter() {
        assert_eq!(select.to_str(), *word);
        assert_eq!(CrateSelect::from_str(word).unwrap(), *select);
    }
    let levels = [
        (CapLints::Allow, "allow"),
        (CapLints::Warn, "warn"),
        (CapLints::Deny, "deny"),
        (CapLints::Forbid, "forbid"),
    ];
    for (level, word) in levels.iter() {
        assert_eq!(level.to_str(), *word);
        assert_eq!(CapLints::from_str(word).unwrap(), *level);
    }
    assert_eq!(Status::from_str("Queued").unwrap_err().value, "Queued");
    assert!(Mode::from_str("").is_err());
}

#[test]
fn toolchains_have_names() {
    assert_eq!(Toolchain::from_str("stable").unwrap(), Toolchain::main());
    assert_eq!(Toolchain::from_str("beta").unwrap(), Toolchain::test());
    assert_ne!(Toolchain::main(), Toolchain::test());
    assert_eq!(
        Toolchain::from_str("nightly-1970-01-01").unwrap().to_string(),
        "nightly-1970-01-01"
    );
    assert_eq!(Toolchain::from_str(""), Err(ToolchainParseError::EmptyName));
    assert_eq!(
        Toolchain::from_str(" \n"),
        Err(ToolchainParseError::EmptyName)
    );
}

#[test]
fn migrations_run_once() {
    let names: Vec<String> = vec!["initial".into(), "add_agents".into(), "add_children".into()];
    assert_eq!(pending_migrations(&names, &vec![]), vec![0, 1, 2]);
    assert_eq!(
        pending_migrations(&names, &vec!["add_agents".to_string()]),
        vec![0, 2]
    );
    let mut executed = vec!["something_else".to_string()];
    for at in pending_migrations(&names, &executed) {
        executed.push(names[at].clone());
    }
    assert!(pending_migrations(&names, &executed).is_empty());
}

#[test]
fn timestamps_are_ordered() {
    let early = Timestamp { secs: 1, nanos: 999 };
    let late = Timestamp { secs: 2, nanos: 0 };
    assert!(early.is_before(&late));
    assert!(!late.is_before(&early));
    assert!(!early.is_before(&early));
    assert!(Timestamp { secs: 2, nanos: 0 }.is_before(&Timestamp { secs: 2, nanos: 1 }));
    assert!(Timestamp { secs: -1, nanos: 5 }.is_before(&Timestamp { secs: 0, nanos: 0 }));
}
