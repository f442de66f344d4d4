use crater::actions::CreateExperiment;
use crater::config::Config;
use crater::crates::{Crate, GitHubRepo, RegistryCrate};
use crater::db::Database;
use crater::experiments::Experiment;
use crater::report::{
    compare, crate_to_path_fragment, find_incomparable, gen, generate_report, is_comparable,
    write_logs, BuildTestResult, Comparison, ReportError,
};
use crater::results::{DatabaseDB, FailureReason, TestResult};
use crater::time::Timestamp;
use crater::toolchain::Toolchain;

fn lazy_static() -> Crate {
    Crate::Registry(RegistryCrate {
        name: "lazy_static".into(),
        version: "1".into(),
    })
}

fn hello() -> Crate {
    Crate::GitHub {
        repo: GitHubRepo {
            org: "brson".into(),
            name: "hello-rs".into(),
        },
        sha: None,
    }
}

fn experiment(crates: Vec<Crate>, config: &Config) -> Experiment {
    let mut db = Database::new();
    let mut create = CreateExperiment::dummy("foo");
    create.crates = crates;
    create
        .apply(&mut db, config, Timestamp { secs: 1, nanos: 0 })
        .unwrap();
    Experiment::get(&db, "foo").unwrap()
}

fn run(res: TestResult) -> Option<BuildTestResult> {
    Some(BuildTestResult {
        res,
        log: String::new(),
    })
}

#[test]
fn the_matrix_of_comparisons() {
    let config = Config::default();
    let krate = lazy_static();
    let pass = TestResult::TestPass;
    let build = TestResult::BuildFail(FailureReason::Unknown);
    let test = TestResult::TestFail(FailureReason::Timeout);
    let skipped = TestResult::TestSkipped;

    let table = [
        (pass, pass, Some(Comparison::SameTestPass)),
        (pass, build, Some(Comparison::Regressed)),
        (pass, test, Some(Comparison::Regressed)),
        (pass, skipped, None),
        (build, pass, Some(Comparison::Fixed)),
        (build, build, Some(Comparison::SameBuildFail)),
        (build, test, Some(Comparison::Fixed)),
        (build, skipped, Some(Comparison::Fixed)),
        (test, pass, Some(Comparison::Fixed)),
        (test, build, Some(Comparison::Regressed)),
        (test, test, Some(Comparison::SameTestFail)),
        (test, skipped, None),
        (skipped, pass, None),
        (skipped, build, Some(Comparison::Regressed)),
        (skipped, test, None),
        (skipped, skipped, Some(Comparison::SameTestSkipped)),
    ];
    for (first, second, expected) in table.iter() {
        assert_eq!(
            is_comparable(Some(*first), Some(*second)),
            expected.is_some()
        );
        if let Some(expected) = expected {
            assert_eq!(
                compare(&config, &krate, &run(*first), &run(*second)),
                *expected
            );
        }
    }

    // Reasons do not matter
    assert_eq!(
        compare(
            &config,
            &krate,
            &run(TestResult::BuildFail(FailureReason::OOM)),
            &run(TestResult::BuildFail(FailureReason::Broken))
        ),
        Comparison::SameBuildFail
    );
}

#[test]
fn missing_results_are_unknown_or_skipped() {
    let krate = lazy_static();
    let mut blacklist = Config::default();
    blacklist.blacklist.push(krate.clone());
    let config = Config::default();

    assert_eq!(compare(&config, &krate, &None, &None), Comparison::Unknown);
    assert_eq!(
        compare(&config, &krate, &run(TestResult::TestPass), &None),
        Comparison::Unknown
    );
    assert_eq!(
        compare(&blacklist, &krate, &None, &run(TestResult::TestPass)),
        Comparison::Skipped
    );
    assert_eq!(
        compare(&config, &krate, &run(TestResult::Error), &run(TestResult::TestPass)),
        Comparison::Unknown
    );
    assert_eq!(
        compare(&blacklist, &krate, &run(TestResult::Error), &run(TestResult::Error)),
        Comparison::Skipped
    );
    assert!(is_comparable(None, Some(TestResult::TestSkipped)));
    assert!(is_comparable(Some(TestResult::Error), Some(TestResult::TestSkipped)));
}

#[test]
fn crates_have_their_place_in_the_report() {
    assert_eq!(crate_to_path_fragment(&lazy_static()), "reg/lazy_static-1");
    assert_eq!(crate_to_path_fragment(&hello()), "gh/brson.hello-rs");
}

#[test]
fn same_results_are_reported_as_same() {
    let config = Config::default();
    let ex = experiment(vec![lazy_static()], &config);
    let mut db = DatabaseDB::new();
    db.record_result(&ex, &Toolchain::main(), &lazy_static(), TestResult::TestPass, b"one".to_vec());
    db.record_result(&ex, &Toolchain::test(), &lazy_static(), TestResult::TestPass, b"two".to_vec());

    assert_eq!(find_incomparable(&db, &ex), None);
    let report = generate_report(&db, &config, &ex).unwrap();
    assert_eq!(report.crates.len(), 1);
    let line = &report.crates[0];
    assert_eq!(line.name, "lazy_static-1");
    assert_eq!(line.url, "https://crates.io/crates/lazy_static/1");
    assert_eq!(line.res, Comparison::SameTestPass);
    assert_eq!(
        line.runs[0],
        Some(BuildTestResult {
            res: TestResult::TestPass,
            log: "reg/lazy_static-1".to_string()
        })
    );
    assert_eq!(line.runs[1].as_ref().unwrap().res, TestResult::TestPass);

    let logs = write_logs(&db, &ex, &config).unwrap();
    assert_eq!(logs.len(), 2);
    assert_eq!(logs[0].path, "reg/lazy_static-1/log.txt");
    assert_eq!(logs[0].content, b"one");
    assert_eq!(logs[1].path, "reg/lazy_static-1/log.txt");
    assert_eq!(logs[1].content, b"two");

    let whole = gen(&db, &ex, &config).unwrap();
    assert_eq!(whole.results, report);
    assert_eq!(whole.logs, logs);
}

#[test]
fn a_failure_with_the_second_toolchain_is_a_regression() {
    let config = Config::default();
    let ex = experiment(vec![lazy_static()], &config);
    let mut db = DatabaseDB::new();
    db.record_result(&ex, &Toolchain::main(), &lazy_static(), TestResult::TestPass, vec![]);
    db.record_result(
        &ex,
        &Toolchain::test(),
        &lazy_static(),
        TestResult::TestFail(FailureReason::Unknown),
        vec![],
    );
    let report = generate_report(&db, &config, &ex).unwrap();
    assert_eq!(report.crates[0].res, Comparison::Regressed);
}

#[test]
fn repositories_are_reported_with_their_commit() {
    let config = Config::default();
    let ex = experiment(vec![lazy_static(), hello()], &config);
    let mut db = DatabaseDB::new();

    let err = generate_report(&db, &config, &ex).unwrap_err();
    assert_eq!(err, ReportError::MissingSha("brson/hello-rs".to_string()));
    assert_eq!(err.to_string(), "missing sha for GitHub repo brson/hello-rs");

    let repo = GitHubRepo {
        org: "brson".into(),
        name: "hello-rs".into(),
    };
    assert_eq!(repo.slug(), "brson/hello-rs");
    assert_eq!(repo.url(), "https://github.com/brson/hello-rs");
    db.record_sha(&ex, &repo, "f00");
    let report = generate_report(&db, &config, &ex).unwrap();
    assert_eq!(report.crates.len(), 2);
    assert_eq!(report.crates[0].res, Comparison::Unknown);
    assert_eq!(report.crates[1].name, "brson.hello-rs.f00");
    assert_eq!(
        report.crates[1].url,
        "https://github.com/brson/hello-rs/tree/f00"
    );
    assert_eq!(report.crates[1].runs, [None, None]);
}

#[test]
fn logs_of_blacklisted_crates_are_not_written() {
    let mut config = Config::default();
    config.blacklist.push(hello());
    let ex = experiment(vec![hello(), lazy_static()], &config);
    assert!(ex.crates[0].skipped);
    let mut db = DatabaseDB::new();
    db.record_result(&ex, &Toolchain::main(), &lazy_static(), TestResult::TestPass, b"a".to_vec());

    let err = write_logs(&db, &ex, &config).unwrap_err();
    assert_eq!(
        err,
        ReportError::MissingLog("lazy_static-1".to_string(), "beta".to_string())
    );
    assert_eq!(err.to_string(), "failed to read log of lazy_static-1 on beta");

    db.record_result(&ex, &Toolchain::test(), &lazy_static(), TestResult::TestPass, b"b".to_vec());
    let logs = write_logs(&db, &ex, &config).unwrap();
    assert_eq!(logs.len(), 2);
    assert_eq!(logs[1].content, b"b");
}

#[test]
fn results_that_cannot_stand_side_by_side_are_found() {
    let config = Config::default();
    let ex = experiment(vec![lazy_static(), hello()], &config);
    let mut db = DatabaseDB::new();
    db.record_result(&ex, &Toolchain::main(), &hello(), TestResult::TestPass, vec![]);
    db.record_result(&ex, &Toolchain::test(), &hello(), TestResult::TestSkipped, vec![]);
    assert_eq!(find_incomparable(&db, &ex), Some(1));
}
