use crater::actions::CreateExperiment;
use crater::config::Config;
use crater::db::Database;
use crater::experiments::{Assignee, AssigneeParseError, Experiment, Status};
use crater::server::agents::Agents;
use crater::server::auth::Tokens;
use crater::time::Timestamp;

fn at(secs: i64) -> Timestamp {
    Timestamp { secs, nanos: 0 }
}

#[test]
fn test_assignee_parsing() {
    assert_eq!(
        Assignee::Agent("foo".to_string()).to_string().as_str(),
        "agent:foo"
    );
    assert_eq!(
        Assignee::from_str("agent:foo").unwrap(),
        Assignee::Agent("foo".to_string())
    );

    assert_eq!(Assignee::CLI.to_string().as_str(), "cli");
    assert_eq!(Assignee::from_str("cli").unwrap(), Assignee::CLI);

    for empty in &["", "agent:"] {
        let err = Assignee::from_str(empty).unwrap_err();
        assert_eq!(err, AssigneeParseError::Empty);
    }

    let err = Assignee::from_str("foo").unwrap_err();
    assert_eq!(err, AssigneeParseError::InvalidKind("foo".into()));

    for invalid in &["cli:", "cli:foo"] {
        let err = Assignee::from_str(invalid).unwrap_err();
        assert_eq!(err, AssigneeParseError::UnexpectedPayload);
    }
}

#[test]
fn assignee_parsing_edge_cases() {
    assert_eq!(Assignee::from_str("  \t"), Err(AssigneeParseError::Empty));
    assert_eq!(Assignee::from_str("agent"), Err(AssigneeParseError::Empty));
    assert_eq!(Assignee::from_str("agent: "), Err(AssigneeParseError::Empty));
    assert_eq!(
        Assignee::from_str("agent:a:b"),
        Ok(Assignee::Agent("a:b".to_string()))
    );
    assert_eq!(
        Assignee::from_str(":foo"),
        Err(AssigneeParseError::InvalidKind(String::new()))
    );
    assert_eq!(
        AssigneeParseError::InvalidKind("foo".to_string()).to_string(),
        "invalid assignee kind: foo"
    );
    assert_eq!(AssigneeParseError::Empty.to_string(), "the assignee is empty");
}

#[test]
fn test_assigning_experiment() {
    let mut db = Database::new();
    let config = Config::default();

    let mut tokens = Tokens::default();
    tokens.agents.push(("token1".into(), "agent-1".into()));
    tokens.agents.push(("token2".into(), "agent-2".into()));
    tokens.agents.push(("token3".into(), "agent-3".into()));

    let agent1 = Assignee::Agent("agent-1".to_string());
    let agent2 = Assignee::Agent("agent-2".to_string());
    let agent3 = Assignee::Agent("agent-3".to_string());

    // Populate the table of agents
    let agents = Agents::new(&tokens);
    assert_eq!(agents.agents.len(), 3);

    CreateExperiment::dummy("test")
        .apply(&mut db, &config, at(1))
        .unwrap();

    let mut create_important = CreateExperiment::dummy("important");
    create_important.priority = 10;
    create_important.apply(&mut db, &config, at(2)).unwrap();

    // Test the important experiment is correctly assigned
    let (new, ex) = Experiment::next(&mut db, &agent1, at(3)).unwrap();
    assert!(new);
    assert_eq!(ex.name.as_str(), "important");
    assert_eq!(ex.status, Status::Running);
    assert_eq!(ex.assigned_to.unwrap(), agent1);
    let started_at = ex.started_at;
    assert!(started_at.is_some());

    // Test the same experiment is returned to the agent
    let (new, ex) = Experiment::next(&mut db, &agent1, at(4)).unwrap();
    assert!(!new);
    assert_eq!(ex.name.as_str(), "important");
    assert_eq!(ex.started_at, started_at);

    // Test the less important experiment is assigned to the next agent
    let (new, ex) = Experiment::next(&mut db, &agent2, at(5)).unwrap();
    assert!(new);
    assert_eq!(ex.name.as_str(), "test");
    assert_eq!(ex.status, Status::Running);
    assert_eq!(ex.assigned_to.unwrap(), agent2);

    // Test no other experiment is available for the other agents
    assert!(Experiment::next(&mut db, &agent3, at(6)).is_none());
}

#[test]
fn oldest_experiment_wins_among_equal_priorities() {
    let mut db = Database::new();
    let config = Config::default();
    CreateExperiment::dummy("late")
        .apply(&mut db, &config, at(20))
        .unwrap();
    CreateExperiment::dummy("early")
        .apply(&mut db, &config, at(10))
        .unwrap();
    CreateExperiment::dummy("same-second")
        .apply(&mut db, &config, Timestamp { secs: 10, nanos: 1 })
        .unwrap();

    let first = Experiment::first_by_status(&db, Status::Queued).unwrap();
    assert_eq!(first.name, "early");
    assert!(Experiment::first_by_status(&db, Status::Running).is_none());

    let agent = Assignee::Agent("a".to_string());
    let (_, ex) = Experiment::next(&mut db, &agent, at(30)).unwrap();
    assert_eq!(ex.name, "early");
    let other = Assignee::CLI;
    let (_, ex) = Experiment::next(&mut db, &other, at(31)).unwrap();
    assert_eq!(ex.name, "same-second");
    assert_eq!(Experiment::run_by(&db, &other).unwrap().name, "same-second");
    assert_eq!(Experiment::run_by(&db, &agent).unwrap().name, "early");
}

#[test]
fn status_stamps_start_and_end_once() {
    let mut db = Database::new();
    let config = Config::default();
    CreateExperiment::dummy("foo")
        .apply(&mut db, &config, at(1))
        .unwrap();
    assert!(Experiment::exists_named(&db, "foo"));
    assert!(!Experiment::exists_named(&db, "bar"));

    let mut ex = Experiment::get(&db, "foo").unwrap();
    assert_eq!(ex.status, Status::Queued);
    assert_eq!(ex.created_at, at(1));

    ex.set_status(&mut db, Status::Running, at(2));
    assert_eq!(ex.started_at, Some(at(2)));
    assert_eq!(ex.completed_at, None);

    ex.set_status(&mut db, Status::NeedsReport, at(3));
    assert_eq!(ex.completed_at, Some(at(3)));

    ex.set_status(&mut db, Status::GeneratingReport, at(4));
    ex.set_status(&mut db, Status::Completed, at(5));
    ex.set_report_url(&mut db, "https://example.com/foo/index.html");

    let stored = Experiment::get(&db, "foo").unwrap();
    assert_eq!(stored.status, Status::Completed);
    assert_eq!(stored.started_at, Some(at(2)));
    assert_eq!(stored.completed_at, Some(at(3)));
    assert_eq!(
        stored.report_url.as_deref(),
        Some("https://example.com/foo/index.html")
    );
}

#[test]
fn failing_experiment_records_no_end() {
    let mut db = Database::new();
    let config = Config::default();
    CreateExperiment::dummy("foo")
        .apply(&mut db, &config, at(1))
        .unwrap();
    let mut ex = Experiment::get(&db, "foo").unwrap();
    ex.set_status(&mut db, Status::Running, at(2));
    ex.set_status(&mut db, Status::Failed, at(3));
    let stored = Experiment::get(&db, "foo").unwrap();
    assert_eq!(stored.status, Status::Failed);
    assert_eq!(stored.completed_at, None);
}

#[test]
fn children_reach_zero_exactly() {
    let mut db = Database::new();
    let config = Config::default();
    CreateExperiment::dummy("foo")
        .apply(&mut db, &config, at(1))
        .unwrap();
    db.experiments[0].children = 3;
    let mut ex = Experiment::get(&db, "foo").unwrap();
    ex.set_status(&mut db, Status::Running, at(2));

    ex.complete_children(&mut db, at(3));
    assert_eq!(ex.children, 2);
    assert_eq!(ex.status, Status::Running);
    ex.complete_children(&mut db, at(4));
    assert_eq!(ex.children, 1);
    assert_eq!(Experiment::get(&db, "foo").unwrap().status, Status::Running);
    ex.complete_children(&mut db, at(5));
    assert_eq!(ex.children, 0);
    assert_eq!(ex.status, Status::NeedsReport);

    let stored = Experiment::get(&db, "foo").unwrap();
    assert_eq!(stored.children, 0);
    assert_eq!(stored.status, Status::NeedsReport);
    assert_eq!(stored.completed_at, Some(at(5)));
}

#[test]
fn completing_without_a_run_records_the_end() {
    let mut db = Database::new();
    let config = Config::default();
    CreateExperiment::dummy("foo")
        .apply(&mut db, &config, at(1))
        .unwrap();
    let mut ex = Experiment::get(&db, "foo").unwrap();
    ex.set_status(&mut db, Status::NeedsReport, at(2));
    assert_eq!(ex.completed_at, None);
    ex.set_status(&mut db, Status::Completed, at(3));
    assert_eq!(ex.completed_at, Some(at(3)));
    assert_eq!(ex.started_at, None);
    assert_eq!(
        Experiment::get(&db, "foo").unwrap().completed_at,
        Some(at(3))
    );
}

#[test]
fn unfinished_experiments_are_listed_in_order() {
    let mut db = Database::new();
    let config = Config::default();
    let mut add = |name: &str, priority: i32, secs: i64| {
        let mut create = CreateExperiment::dummy(name);
        create.priority = priority;
        create.apply(&mut db, &config, at(secs)).unwrap();
    };
    add("late", 0, 30);
    add("done", 9, 1);
    add("urgent", 5, 40);
    add("early", 0, 10);
    add("twin", 0, 10);
    let mut done = Experiment::get(&db, "done").unwrap();
    done.set_status(&mut db, Status::Completed, at(50));
    let mut running = Experiment::get(&db, "late").unwrap();
    running.set_status(&mut db, Status::Running, at(51));

    let names: Vec<String> = Experiment::unfinished(&db)
        .into_iter()
        .map(|ex| ex.name)
        .collect();
    assert_eq!(names, vec!["urgent", "early", "twin", "late"]);
    assert_eq!(Experiment::unfinished_positions(&db), vec![2, 3, 4, 0]);
    assert!(Experiment::unfinished(&Database::new()).is_empty());
}

#[test]
fn a_completion_with_no_chunk_outstanding_is_not_counted() {
    let mut db = Database::new();
    let config = Config::default();
    CreateExperiment::dummy("foo")
        .apply(&mut db, &config, at(1))
        .unwrap();
    let mut ex = Experiment::get(&db, "foo").unwrap();
    assert_eq!(ex.children, 0);
    ex.set_status(&mut db, Status::Running, at(2));
    let before = format!("{:?}", db.experiments);
    let known = format!("{:?}", ex);

    assert!(!ex.complete_children(&mut db, at(3)));
    assert_eq!(format!("{:?}", ex), known);
    assert_eq!(format!("{:?}", db.experiments), before);
    assert_eq!(ex.children, 0);
    assert_eq!(ex.status, Status::Running);

    db.experiments[0].children = 1;
    let mut ex = Experiment::get(&db, "foo").unwrap();
    assert!(ex.complete_children(&mut db, at(4)));
    assert_eq!(ex.status, Status::NeedsReport);
    let stored = format!("{:?}", db.experiments);
    assert!(!ex.complete_children(&mut db, at(5)));
    assert_eq!(format!("{:?}", db.experiments), stored);
    assert_eq!(ex.completed_at, Some(at(4)));
}
