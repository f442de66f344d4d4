use crater::actions::CreateExperiment;
use crater::config::Config;
use crater::crates::{Crate, GitHubRepo, RegistryCrate};
use crater::db::Database;
use crater::experiments::Experiment;
use crater::results::db::{ResultRow, StoreError};
use crater::results::{DatabaseDB, FailureReason, ProgressData, TaskResult, TestResult};
use crater::time::Timestamp;
use crater::toolchain::Toolchain;

fn dummy_experiment() -> Experiment {
    let mut db = Database::new();
    let config = Config::default();
    CreateExperiment::dummy("dummy").apply(&mut db, &config, Timestamp { secs: 1, nanos: 0 }).unwrap();
    Experiment::get(&db, "dummy").unwrap()
}

fn lazy_static() -> Crate {
    Crate::Registry(RegistryCrate {
        name: "lazy_static".into(),
        version: "1".into(),
    })
}

fn sha_of<'a>(shas: &'a [(GitHubRepo, String)], repo: &GitHubRepo) -> Option<&'a str> {
    shas.iter()
        .find(|(r, _)| r == repo)
        .map(|(_, sha)| sha.as_str())
}

#[test]
fn test_shas() {
    let mut results = DatabaseDB::new();

    // Create a dummy experiment to attach the results to
    let ex = dummy_experiment();

    // Define some dummy GitHub repositories
    let repo1 = GitHubRepo {
        org: "foo".to_string(),
        name: "bar".to_string(),
    };
    let repo2 = GitHubRepo {
        org: "foo".to_string(),
        name: "baz".to_string(),
    };

    // Store some SHAs for those repos
    results.record_sha(&ex, &repo1, "0000000000000000000000000000000000000000");
    results.record_sha(&ex, &repo2, "ffffffffffffffffffffffffffffffffffffffff");

    // Ensure all the SHAs were recorded correctly
    let shas = results.load_all_shas(&ex);
    assert_eq!(shas.len(), 2);
    assert_eq!(
        sha_of(&shas, &repo1).unwrap(),
        "0000000000000000000000000000000000000000"
    );
    assert_eq!(
        sha_of(&shas, &repo2).unwrap(),
        "ffffffffffffffffffffffffffffffffffffffff"
    );

    // Ensure results are cleanly overridden when recording the same repo again
    results.record_sha(&ex, &repo1, "aaaaaaaaaaaaaaaaaaaaaaaaaaaaaaaaaaaaaaaa");

    let shas = results.load_all_shas(&ex);
    assert_eq!(shas.len(), 2);
    assert_eq!(
        sha_of(&shas, &repo1).unwrap(),
        "aaaaaaaaaaaaaaaaaaaaaaaaaaaaaaaaaaaaaaaa"
    );
    assert_eq!(
        sha_of(&shas, &repo2).unwrap(),
        "ffffffffffffffffffffffffffffffffffffffff"
    );
}

#[test]
fn test_results() {
    let mut results = DatabaseDB::new();
    let main = Toolchain::main();
    let test = Toolchain::test();

    // Create a dummy experiment to attach the results to
    let ex = dummy_experiment();

    let krate = lazy_static();

    // Record a result with a message in it
    let recorded = results.record_result(
        &ex,
        &main,
        &krate,
        TestResult::TestPass,
        b"hello world".to_vec(),
    );
    assert_eq!(recorded, TestResult::TestPass);

    // Ensure the data is recorded correctly
    assert_eq!(
        results.load_test_result(&ex, &main, &krate),
        Some(TestResult::TestPass)
    );
    assert!(
        String::from_utf8_lossy(&results.load_log(&ex, &main, &krate).unwrap())
            .contains("hello world")
    );

    // Ensure no data is returned for missing results
    assert!(results.load_test_result(&ex, &test, &krate).is_none());
    assert!(results.get_result(&ex, &test, &krate).is_none());
    assert!(results.load_log(&ex, &test, &krate).is_none());

    // Add another result
    results.record_result(
        &ex,
        &test,
        &krate,
        TestResult::TestFail(FailureReason::Unknown),
        b"Another log message!".to_vec(),
    );
    assert_eq!(
        results.get_result(&ex, &test, &krate),
        Some(TestResult::TestFail(FailureReason::Unknown))
    );

    // Test deleting the newly-added result
    results.delete_result(&ex, &test, &krate);
    assert!(results.get_result(&ex, &test, &krate).is_none());
    assert_eq!(
        results.get_result(&ex, &main, &krate),
        Some(TestResult::TestPass)
    );

    // Test deleting all the remaining results
    results.delete_all_results(&ex);
    assert!(results.get_result(&ex, &main, &krate).is_none());
}

fn progress() -> ProgressData {
    ProgressData {
        results: vec![TaskResult {
            krate: lazy_static(),
            toolchain: Toolchain::main(),
            result: TestResult::TestPass,
            log: base64::Engine::encode(&base64::engine::general_purpose::STANDARD, "foo"),
        }],
        shas: vec![
            (
                GitHubRepo {
                    org: "foo".into(),
                    name: "bar".into(),
                },
                "42".into(),
            ),
            (
                GitHubRepo {
                    org: "foo".into(),
                    name: "baz".into(),
                },
                "beef".into(),
            ),
        ],
    }
}

#[test]
fn test_store() {
    let mut results = DatabaseDB::new();

    // Create a dummy experiment to attach the results to
    let ex = dummy_experiment();
    let krate = lazy_static();

    // Store a result and some SHAs
    results.store(&ex, &progress()).unwrap();

    assert_eq!(
        results.load_log(&ex, &Toolchain::main(), &krate),
        Some("foo".as_bytes().to_vec())
    );
    assert_eq!(
        results.load_test_result(&ex, &Toolchain::main(), &krate),
        Some(TestResult::TestPass)
    );
    let shas = results.load_all_shas(&ex);
    assert_eq!(shas.len(), 2);
    assert_eq!(shas[1].1, "beef");
}

fn rows(db: &DatabaseDB) -> Vec<(String, Crate, Toolchain, TestResult, Vec<u8>)> {
    db.results
        .iter()
        .map(|row: &ResultRow| {
            (
                row.experiment.clone(),
                row.krate.clone(),
                row.toolchain.clone(),
                row.result,
                row.log.clone(),
            )
        })
        .collect()
}

#[test]
fn storing_a_report_again_changes_nothing() {
    let ex = dummy_experiment();
    let mut data = progress();
    data.results.push(TaskResult {
        krate: lazy_static(),
        toolchain: Toolchain::main(),
        result: TestResult::TestFail(FailureReason::OOM),
        log: "YmFy".to_string(),
    });

    let mut once = DatabaseDB::new();
    once.store(&ex, &data).unwrap();

    let mut thrice = DatabaseDB::new();
    thrice.store(&ex, &data).unwrap();
    thrice.store(&ex, &data).unwrap();
    thrice.store(&ex, &data).unwrap();

    assert_eq!(rows(&once), rows(&thrice));
    assert_eq!(once.results.len(), 1);
    assert_eq!(
        once.load_test_result(&ex, &Toolchain::main(), &lazy_static()),
        Some(TestResult::TestFail(FailureReason::OOM))
    );
    assert_eq!(
        once.load_log(&ex, &Toolchain::main(), &lazy_static()),
        Some(b"bar".to_vec())
    );
    assert_eq!(once.shas.len(), 2);
    assert_eq!(thrice.shas.len(), 2);
    assert_eq!(thrice.count_results(&ex.name), 1);
}

#[test]
fn a_log_that_is_not_base64_stops_the_storing() {
    let ex = dummy_experiment();
    let other = Crate::Registry(RegistryCrate {
        name: "log".into(),
        version: "0.4.0".into(),
    });
    let mut data = progress();
    data.results.push(TaskResult {
        krate: other.clone(),
        toolchain: Toolchain::main(),
        result: TestResult::TestPass,
        log: "not base64!".to_string(),
    });
    data.results.push(TaskResult {
        krate: other.clone(),
        toolchain: Toolchain::test(),
        result: TestResult::TestPass,
        log: "Zm9v".to_string(),
    });

    let mut results = DatabaseDB::new();
    assert_eq!(results.store(&ex, &data), Err(StoreError::InvalidLog));

    // What came before the invalid log is stored, the rest is not
    assert_eq!(
        results.load_test_result(&ex, &Toolchain::main(), &lazy_static()),
        Some(TestResult::TestPass)
    );
    assert!(results
        .load_test_result(&ex, &Toolchain::main(), &other)
        .is_none());
    assert!(results
        .load_test_result(&ex, &Toolchain::test(), &other)
        .is_none());
    assert!(results.load_all_shas(&ex).is_empty());
}

#[test]
fn results_are_kept_apart_by_experiment_crate_and_toolchain() {
    let ex = dummy_experiment();
    let mut other = dummy_experiment();
    other.name = "other".to_string();
    let github = Crate::GitHub {
        repo: GitHubRepo {
            org: "brson".into(),
            name: "hello-rs".into(),
        },
        sha: None,
    };
    let pinned = Crate::GitHub {
        repo: GitHubRepo {
            org: "brson".into(),
            name: "hello-rs".into(),
        },
        sha: Some("f00".into()),
    };
    assert_ne!(github, pinned);
    assert_eq!(github.clone(), github);
    assert_eq!(github.to_string(), "brson/hello-rs");
    assert_eq!(lazy_static().to_string(), "lazy_static-1");

    let mut results = DatabaseDB::new();
    results.record_result(&ex, &Toolchain::main(), &github, TestResult::TestPass, vec![1]);
    results.record_result(&ex, &Toolchain::test(), &github, TestResult::Error, vec![2]);
    results.record_result(&other, &Toolchain::main(), &github, TestResult::TestSkipped, vec![3]);
    results.record_result(&ex, &Toolchain::main(), &pinned, TestResult::TestSkipped, vec![4]);

    assert_eq!(results.count_results(&ex.name), 3);
    assert_eq!(results.count_results_of_crate(&ex.name, &github), 2);
    assert_eq!(results.count_results_of_crate(&ex.name, &pinned), 1);
    assert_eq!(results.count_results(&other.name), 1);
    assert_eq!(
        results.load_test_result(&ex, &Toolchain::test(), &github),
        Some(TestResult::Error)
    );
    assert_eq!(
        results.load_log(&other, &Toolchain::main(), &github),
        Some(vec![3])
    );

    results.delete_all_results(&ex);
    assert_eq!(results.count_results(&ex.name), 0);
    assert_eq!(results.count_results(&other.name), 1);
}

#[test]
fn merging_reports_appends() {
    let mut first = progress();
    let mut second = progress();
    second.results[0].result = TestResult::Error;
    second.shas.truncate(1);
    first.merge(second);
    assert_eq!(first.results.len(), 2);
    assert_eq!(first.results[0].result, TestResult::TestPass);
    assert_eq!(first.results[1].result, TestResult::Error);
    assert_eq!(first.shas.len(), 3);
    assert_eq!(first.shas[2].1, "42");
}

#[test]
fn all_results_are_loaded_with_their_logs_as_text() {
    let mut db = Database::new();
    let mut create = CreateExperiment::dummy("foo");
    create.crates = vec![
        lazy_static(),
        Crate::Registry(RegistryCrate {
            name: "log".into(),
            version: "0.4.0".into(),
        }),
    ];
    create
        .apply(&mut db, &Config::default(), Timestamp { secs: 1, nanos: 0 })
        .unwrap();
    let ex = Experiment::get(&db, "foo").unwrap();
    let other = ex.crates[1].krate.clone();

    let mut results = DatabaseDB::new();
    results.record_result(&ex, &Toolchain::test(), &lazy_static(), TestResult::TestPass, b"b".to_vec());
    results.record_result(&ex, &Toolchain::main(), &other, TestResult::Error, "h\u{e9}".as_bytes().to_vec());
    results.record_result(&ex, &Toolchain::test(), &other, TestResult::TestSkipped, vec![0xff, 0xfe]);
    results.record_result(&ex, &Toolchain::main(), &lazy_static(), TestResult::TestPass, b"a".to_vec());
    results.record_sha(
        &ex,
        &GitHubRepo {
            org: "foo".into(),
            name: "bar".into(),
        },
        "42",
    );

    let data = results.load_all_results(&ex);
    let loaded: Vec<(Crate, Toolchain, TestResult, &str)> = data
        .results
        .iter()
        .map(|r| (r.krate.clone(), r.toolchain.clone(), r.result, r.log.as_str()))
        .collect();
    assert_eq!(
        loaded,
        vec![
            (lazy_static(), Toolchain::main(), TestResult::TestPass, "a"),
            (other.clone(), Toolchain::main(), TestResult::Error, "h\u{e9}"),
            (lazy_static(), Toolchain::test(), TestResult::TestPass, "b"),
        ]
    );
    assert_eq!(data.shas.len(), 1);
}

#[test]
fn a_result_is_written_where_the_first_of_its_key_stands() {
    let ex = dummy_experiment();
    let other = Crate::Registry(RegistryCrate {
        name: "other".into(),
        version: "1.0.0".into(),
    });
    let mut db = DatabaseDB::new();
    db.record_result(&ex, &Toolchain::main(), &lazy_static(), TestResult::TestPass, b"one".to_vec());
    db.record_result(&ex, &Toolchain::main(), &other, TestResult::TestPass, b"two".to_vec());
    db.record_result(&ex, &Toolchain::test(), &lazy_static(), TestResult::TestPass, b"three".to_vec());
    assert_eq!(db.results.len(), 3);

    // Written again: the row stays where it is, and no row is added
    db.record_result(
        &ex,
        &Toolchain::main(),
        &lazy_static(),
        TestResult::BuildFail(FailureReason::Unknown),
        b"four".to_vec(),
    );
    assert_eq!(db.results.len(), 3);
    assert_eq!(db.results[0].krate, lazy_static());
    assert_eq!(db.results[0].toolchain, Toolchain::main());
    assert_eq!(db.results[0].result, TestResult::BuildFail(FailureReason::Unknown));
    assert_eq!(db.results[0].log, b"four".to_vec());
    assert_eq!(db.results[1].krate, other);
    assert_eq!(db.results[1].log, b"two".to_vec());
    assert_eq!(db.results[2].toolchain, Toolchain::test());
    assert_eq!(db.results[2].log, b"three".to_vec());
    assert_eq!(db.count_results(&ex.name), 3);

    // Removed, and written once more: the row is a new one, at the end
    db.delete_result(&ex, &Toolchain::main(), &lazy_static());
    assert_eq!(db.results.len(), 2);
    assert_eq!(db.results[0].krate, other);
    db.record_result(&ex, &Toolchain::main(), &lazy_static(), TestResult::TestPass, b"five".to_vec());
    assert_eq!(db.results.len(), 3);
    assert_eq!(db.results[2].krate, lazy_static());
    assert_eq!(db.results[2].toolchain, Toolchain::main());
    assert_eq!(db.results[2].log, b"five".to_vec());

    // A commit is recorded in the same way
    let repo = GitHubRepo { org: "brson".into(), name: "hello-rs".into() };
    let second = GitHubRepo { org: "rust-lang".into(), name: "rust".into() };
    db.record_sha(&ex, &repo, "one");
    db.record_sha(&ex, &second, "two");
    db.record_sha(&ex, &repo, "three");
    assert_eq!(db.shas.len(), 2);
    assert_eq!(db.shas[0].repo, repo);
    assert_eq!(db.shas[0].sha, "three");
    assert_eq!(db.shas[1].sha, "two");
}
