use crater::actions::{CreateExperiment, EditExperiment};
use crater::config::Config;
use crater::crates::{Crate, RegistryCrate};
use crater::db::Database;
use crater::errors::ErrorKind;
use crater::experiments::{CapLints, Experiment, Mode, Status};
use crater::time::Timestamp;
use crater::toolchain::Toolchain;

fn at(secs: i64) -> Timestamp {
    Timestamp { secs, nanos: 0 }
}

fn registry(name: &str, version: &str) -> Crate {
    Crate::Registry(RegistryCrate {
        name: name.to_string(),
        version: version.to_string(),
    })
}

#[test]
fn test_edit_with_no_changes() {
    let mut db = Database::new();
    let config = Config::default();

    // Create a dummy experiment to edit
    CreateExperiment::dummy("foo")
        .apply(&mut db, &config, at(1))
        .unwrap();

    // Ensure no changes are applied when no changes are defined
    let has_changed = EditExperiment::dummy("foo").apply(&mut db, &config).unwrap();
    assert!(!has_changed);
}

#[test]
fn test_edit_with_every_change() {
    let mut db = Database::new();
    let config = Config::default();

    // Create an experiment with the data we're going to change
    CreateExperiment {
        name: "foo".to_string(),
        toolchains: [
            Toolchain::from_str("stable").unwrap(),
            Toolchain::from_str("beta").unwrap(),
        ],
        mode: Mode::BuildAndTest,
        crates: vec![registry("rand", "0.5.0"), registry("log", "0.4.0")],
        cap_lints: CapLints::Forbid,
        priority: 0,
        github_issue: None,
        ignore_blacklist: false,
    }
    .apply(&mut db, &config, at(1))
    .unwrap();

    // Change everything!
    let demo = vec![registry("lazy_static", "0.2.11")];
    let changed = EditExperiment {
        name: "foo".to_string(),
        toolchains: [
            Some(Toolchain::from_str("nightly-1970-01-01").unwrap()),
            Some(Toolchain::from_str("nightly-1970-01-02").unwrap()),
        ],
        mode: Some(Mode::CheckOnly),
        crates: Some(demo.clone()),
        cap_lints: Some(CapLints::Warn),
        priority: Some(10),
    }
    .apply(&mut db, &config)
    .unwrap();
    assert!(changed);

    // And get the experiment to make sure data is changed
    let ex = Experiment::get(&db, "foo").unwrap();

    assert_eq!(
        ex.toolchains[0],
        Toolchain::from_str("nightly-1970-01-01").unwrap()
    );
    assert_eq!(
        ex.toolchains[1],
        Toolchain::from_str("nightly-1970-01-02").unwrap()
    );
    assert_eq!(ex.mode, Mode::CheckOnly);
    assert_eq!(ex.cap_lints, CapLints::Warn);
    assert_eq!(ex.priority, 10);

    let crates: Vec<Crate> = ex.crates.iter().map(|c| c.krate.clone()).collect();
    assert_eq!(crates, demo);
}

#[test]
fn test_duplicate_toolchains() {
    let mut db = Database::new();
    let config = Config::default();

    // First create an experiment
    let mut dummy = CreateExperiment::dummy("foo");
    dummy.toolchains = [Toolchain::main(), Toolchain::test()];
    dummy.apply(&mut db, &config, at(1)).unwrap();

    // Then try to switch the second toolchain to MAIN_TOOLCHAIN
    let mut edit = EditExperiment::dummy("foo");
    edit.toolchains[1] = Some(Toolchain::main());

    let err = edit.apply(&mut db, &config).unwrap_err();
    match err {
        ErrorKind::DuplicateToolchains => {}
        other => panic!("received unexpected error: {}", other.to_string()),
    }

    let ex = Experiment::get(&db, "foo").unwrap();
    assert_eq!(ex.toolchains[1], Toolchain::test());
}

#[test]
fn test_editing_missing_experiment() {
    let mut db = Database::new();
    let config = Config::default();

    let err = EditExperiment::dummy("foo")
        .apply(&mut db, &config)
        .unwrap_err();
    match err {
        ErrorKind::ExperimentNotFound(name) => assert_eq!(name, "foo"),
        other => panic!("received unexpected error: {}", other.to_string()),
    }
}

#[test]
fn test_editing_running_experiment() {
    let mut db = Database::new();
    let config = Config::default();

    // Create an experiment and set it to running
    CreateExperiment::dummy("foo")
        .apply(&mut db, &config, at(1))
        .unwrap();
    let mut ex = Experiment::get(&db, "foo").unwrap();
    ex.set_status(&mut db, Status::Running, at(2));

    // Try to edit it
    let mut edit = EditExperiment::dummy("foo");
    edit.priority = Some(10);
    let err = edit.apply(&mut db, &config).unwrap_err();
    match err {
        ErrorKind::CanEditOnlyQueuedExperiments => {}
        other => panic!("received unexpected error: {}", other.to_string()),
    }
    assert_eq!(Experiment::get(&db, "foo").unwrap().priority, 0);
}

#[test]
fn edit_is_refused_in_every_status_but_queued() {
    let statuses = [
        Status::Running,
        Status::NeedsReport,
        Status::Failed,
        Status::GeneratingReport,
        Status::ReportFailed,
        Status::Completed,
    ];
    for status in statuses.iter() {
        let mut db = Database::new();
        let config = Config::default();
        CreateExperiment::dummy("foo")
            .apply(&mut db, &config, at(1))
            .unwrap();
        let mut ex = Experiment::get(&db, "foo").unwrap();
        ex.set_status(&mut db, *status, at(2));

        let mut edit = EditExperiment::dummy("foo");
        edit.mode = Some(Mode::Clippy);
        edit.toolchains[0] = Some(Toolchain::from_str("nightly").unwrap());
        assert_eq!(
            edit.apply(&mut db, &config),
            Err(ErrorKind::CanEditOnlyQueuedExperiments)
        );
        let stored = Experiment::get(&db, "foo").unwrap();
        assert_eq!(stored.mode, Mode::BuildAndTest);
        assert_eq!(stored.toolchains[0], Toolchain::main());
    }
}

#[test]
fn creating_with_equal_toolchains_or_a_taken_name_fails() {
    let mut db = Database::new();
    let config = Config::default();
    let mut twice = CreateExperiment::dummy("foo");
    twice.toolchains = [Toolchain::main(), Toolchain::main()];
    assert_eq!(
        twice.apply(&mut db, &config, at(1)),
        Err(ErrorKind::DuplicateToolchains)
    );
    assert!(db.experiments.is_empty());

    CreateExperiment::dummy("foo")
        .apply(&mut db, &config, at(1))
        .unwrap();
    assert_eq!(
        CreateExperiment::dummy("foo").apply(&mut db, &config, at(2)),
        Err(ErrorKind::ExperimentAlreadyExists("foo".to_string()))
    );
    assert_eq!(db.experiments.len(), 1);
    assert_eq!(
        ErrorKind::ExperimentAlreadyExists("foo".to_string()).to_string(),
        "experiment 'foo' already exists"
    );
}

#[test]
fn swapping_in_the_first_toolchain_is_checked_against_the_second() {
    let mut db = Database::new();
    let config = Config::default();
    CreateExperiment::dummy("foo")
        .apply(&mut db, &config, at(1))
        .unwrap();
    let mut edit = EditExperiment::dummy("foo");
    edit.toolchains[0] = Some(Toolchain::test());
    assert_eq!(
        edit.apply(&mut db, &config),
        Err(ErrorKind::DuplicateToolchains)
    );
}

#[test]
fn edited_crates_carry_the_blacklist() {
    let mut db = Database::new();
    let mut config = Config::default();
    config.blacklist.push(registry("bad", "1.0.0"));
    CreateExperiment::dummy("foo")
        .apply(&mut db, &config, at(1))
        .unwrap();
    let mut edit = EditExperiment::dummy("foo");
    edit.crates = Some(vec![registry("good", "1.0.0"), registry("bad", "1.0.0")]);
    assert_eq!(edit.apply(&mut db, &config), Ok(true));
    let ex = Experiment::get(&db, "foo").unwrap();
    assert_eq!(ex.crates.len(), 2);
    assert!(!ex.crates[0].skipped);
    assert!(ex.crates[1].skipped);
    assert_eq!(ex.raw_progress(&db), (0, 2));
    assert_eq!(ex.progress(&db), 0);
}
