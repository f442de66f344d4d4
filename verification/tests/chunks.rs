use crater::actions::CreateExperiment;
use crater::config::Config;
use crater::crates::{Crate, RegistryCrate};
use crater::db::Database;
use crater::experiments::{Assignee, Experiment, ExperimentChunk, Status};
use crater::results::TestResult;
use crater::time::Timestamp;
use crater::toolchain::Toolchain;

fn at(secs: i64) -> Timestamp {
    Timestamp { secs, nanos: 0 }
}

fn numbered(n: usize) -> Vec<Crate> {
    (0..n)
        .map(|i| {
            Crate::Registry(RegistryCrate {
                name: format!("crate{}", i),
                version: "1.0.0".to_string(),
            })
        })
        .collect()
}

fn create(db: &mut Database, name: &str, crates: usize, size: usize, priority: i32, secs: i64) -> u32 {
    let mut create = CreateExperiment::dummy(name);
    create.crates = numbered(crates);
    create.priority = priority;
    create
        .apply_chunked(db, &Config::default(), at(secs), size)
        .unwrap()
}

#[test]
fn an_experiment_is_cut_into_chunks() {
    let mut db = Database::new();
    assert_eq!(create(&mut db, "foo", 25, 10, 0, 1), 3);

    let ex = Experiment::get(&db, "foo").unwrap();
    assert_eq!(ex.children, 3);
    assert_eq!(ex.crates.len(), 25);
    assert_eq!(db.chunks.len(), 3);

    let names: Vec<&str> = db.chunks.iter().map(|c| c.experiment.name.as_str()).collect();
    assert_eq!(names, vec!["foo-0", "foo-1", "foo-2"]);
    let sizes: Vec<usize> = db.chunks.iter().map(|c| c.experiment.crates.len()).collect();
    assert_eq!(sizes, vec![10, 10, 5]);
    for chunk in db.chunks.iter() {
        assert_eq!(chunk.parent_name, "foo");
        assert_eq!(chunk.experiment.status, Status::Queued);
        assert_eq!(chunk.experiment.toolchains[1], Toolchain::test());
    }
    assert_eq!(db.chunks[2].experiment.crates[0].krate, numbered(25)[20]);
}

#[test]
fn chunk_counts_at_the_edges() {
    let mut db = Database::new();
    assert_eq!(create(&mut db, "none", 0, 10, 0, 1), 1);
    assert_eq!(create(&mut db, "one", 1, 10, 0, 1), 1);
    assert_eq!(create(&mut db, "exact", 20, 10, 0, 1), 2);
    assert_eq!(create(&mut db, "more", 21, 10, 0, 1), 3);
    assert_eq!(create(&mut db, "single", 12, 1, 0, 1), 12);
    assert_eq!(db.chunks.len(), 1 + 1 + 2 + 3 + 12);
    assert_eq!(db.chunks[0].experiment.crates.len(), 0);
    assert_eq!(db.chunks.last().unwrap().experiment.name, "single-11");
}

#[test]
fn chunks_are_handed_out_by_priority_then_age() {
    let mut db = Database::new();
    create(&mut db, "old", 4, 2, 0, 10);
    create(&mut db, "urgent", 2, 2, 5, 30);
    create(&mut db, "older", 2, 2, 0, 5);

    let one = Assignee::Agent("one".into());
    let two = Assignee::Agent("two".into());

    let (new, chunk) = ExperimentChunk::next(&mut db, &one, at(100)).unwrap();
    assert!(new);
    assert_eq!(chunk.experiment.name, "urgent-0");
    assert_eq!(chunk.parent_name, "urgent");
    assert_eq!(chunk.experiment.status, Status::Running);
    assert_eq!(chunk.experiment.started_at, Some(at(100)));
    assert_eq!(chunk.experiment.assigned_to, Some(one.clone()));

    // Asking again gives the same chunk, however often
    for secs in 101..105 {
        let (new, again) = ExperimentChunk::next(&mut db, &one, at(secs)).unwrap();
        assert!(!new);
        assert_eq!(again.experiment.name, "urgent-0");
        assert_eq!(again.experiment.started_at, Some(at(100)));
    }
    assert_eq!(
        db.chunks
            .iter()
            .filter(|c| c.experiment.status == Status::Running)
            .count(),
        1
    );

    let (new, chunk) = ExperimentChunk::next(&mut db, &two, at(200)).unwrap();
    assert!(new);
    assert_eq!(chunk.experiment.name, "older-0");
    assert_eq!(
        ExperimentChunk::run_by(&db, &two).unwrap().experiment.name,
        "older-0"
    );
    assert!(ExperimentChunk::run_by(&db, &Assignee::CLI).is_none());

    // The experiments themselves are not touched by handing out chunks
    assert_eq!(Experiment::get(&db, "urgent").unwrap().status, Status::Queued);
}

#[test]
fn completed_crates_leave_the_chunk() {
    let mut db = Database::new();
    create(&mut db, "foo", 3, 10, 0, 1);
    let ex = Experiment::get(&db, "foo").unwrap();
    let crates = numbered(3);
    db.results
        .record_result(&ex, &Toolchain::main(), &crates[0], TestResult::TestPass, vec![]);
    db.results
        .record_result(&ex, &Toolchain::test(), &crates[0], TestResult::TestPass, vec![]);
    db.results
        .record_result(&ex, &Toolchain::main(), &crates[2], TestResult::TestPass, vec![]);

    let agent = Assignee::Agent("one".into());
    let (_, mut chunk) = ExperimentChunk::next(&mut db, &agent, at(2)).unwrap();
    chunk.remove_completed_crates(&db);
    let left: Vec<Crate> = chunk.experiment.crates.iter().map(|c| c.krate.clone()).collect();
    assert_eq!(left, vec![crates[1].clone(), crates[2].clone()]);

    let mut whole = Experiment::get(&db, "foo").unwrap();
    assert_eq!(whole.raw_progress(&db), (3, 6));
    assert_eq!(whole.progress(&db), 50);
    whole.remove_completed_crates(&db);
    assert_eq!(whole.crates.len(), 2);
}

#[test]
fn progress_is_rounded_up() {
    let mut db = Database::new();
    create(&mut db, "foo", 3, 10, 0, 1);
    let ex = Experiment::get(&db, "foo").unwrap();
    assert_eq!(ex.progress(&db), 0);
    let crates = numbered(3);
    db.results
        .record_result(&ex, &Toolchain::main(), &crates[0], TestResult::TestPass, vec![]);
    // 1 of 6 is 16.67 percent
    assert_eq!(ex.raw_progress(&db), (1, 6));
    assert_eq!(ex.progress(&db), 17);
    for krate in crates.iter() {
        db.results
            .record_result(&ex, &Toolchain::main(), krate, TestResult::TestPass, vec![]);
        db.results
            .record_result(&ex, &Toolchain::test(), krate, TestResult::TestPass, vec![]);
    }
    assert_eq!(ex.progress(&db), 100);

    let empty = {
        create(&mut db, "empty", 0, 10, 0, 1);
        Experiment::get(&db, "empty").unwrap()
    };
    assert_eq!(empty.raw_progress(&db), (0, 0));
    assert_eq!(empty.progress(&db), 0);
}
