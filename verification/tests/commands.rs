use crater::config::Config;
use crater::crates::{Crate, RegistryCrate};
use crater::db::Database;
use crater::experiments::{CapLints, CrateSelect, Experiment, GitHubIssue, Mode, Status};
use crater::server::commands::{
    denial_message, failure_message, order_of, run_command, selection, Order,
};
use crater::server::messages::{Label, Line, Message};
use crater::server::webhooks::Command;
use crater::time::Timestamp;
use crater::toolchain::Toolchain;

fn moment(secs: i64) -> Timestamp {
    Timestamp { secs, nanos: 0 }
}

fn on_issue() -> GitHubIssue {
    GitHubIssue {
        api_url: "https://api.github.com/repos/x/y/issues/7".to_string(),
        html_url: "https://github.com/x/y/issues/7".to_string(),
        number: 7,
    }
}

fn package(name: &str) -> Crate {
    Crate::Registry(RegistryCrate {
        name: name.to_string(),
        version: "1.0.0".to_string(),
    })
}

fn create(name: &str) -> Command {
    Command::Create {
        name: name.to_string(),
        start: Toolchain::main(),
        end: Toolchain::test(),
        mode: Mode::BuildAndTest,
        crates: CrateSelect::Demo,
        cap_lints: CapLints::Forbid,
        priority: 5,
    }
}

fn one_line(emoji: &str, content: &str, label: Option<Label>) -> Message {
    Message {
        lines: vec![Line {
            emoji: emoji.to_string(),
            content: content.to_string(),
        }],
        notes: Vec::new(),
        new_label: label,
    }
}

fn carry_out(db: &mut Database, command: Command, crates: Option<Vec<Crate>>, secs: i64) -> Message {
    let order = order_of(command, on_issue(), crates);
    run_command(db, &Config::default(), order, moment(secs), 2)
}

#[test]
fn a_command_names_the_crates_that_it_selects() {
    assert_eq!(selection(&Command::Ping), None);
    assert_eq!(selection(&create("foo")), Some(CrateSelect::Demo));
    assert_eq!(
        selection(&Command::Delete {
            name: "foo".to_string()
        }),
        None
    );
    let edit = |crates| Command::Edit {
        name: "foo".to_string(),
        start: None,
        end: None,
        mode: None,
        crates,
        priority: None,
    };
    assert_eq!(selection(&edit(None)), None);
    assert_eq!(selection(&edit(Some(CrateSelect::Full))), Some(CrateSelect::Full));
}

#[test]
fn a_ping_is_answered_and_changes_nothing() {
    let mut db = Database::new();
    let message = carry_out(&mut db, Command::Ping, None, 1);
    assert_eq!(message, one_line("ping_pong", "**Pong!**", None));
    assert!(db.experiments.is_empty());
    assert!(db.chunks.is_empty());
}

#[test]
fn an_experiment_is_created_in_chunks_for_the_issue() {
    let mut db = Database::new();
    let crates = vec![package("a"), package("b"), package("c")];
    let message = carry_out(&mut db, create("foo"), Some(crates), 10);
    assert_eq!(
        message,
        one_line(
            "ok_hand",
            "Experiment **`foo`** created and queued.",
            Some(Label::ExperimentQueued)
        )
    );
    let ex = Experiment::get(&db, "foo").unwrap();
    assert_eq!(ex.status, Status::Queued);
    assert_eq!(ex.children, 2);
    assert_eq!(ex.priority, 5);
    assert_eq!(ex.cap_lints, CapLints::Forbid);
    assert_eq!(ex.created_at, moment(10));
    assert_eq!(ex.github_issue, Some(on_issue()));
    assert!(!ex.ignore_blacklist);
    assert_eq!(ex.crates.len(), 3);
    let chunks: Vec<(&str, usize)> = db
        .chunks
        .iter()
        .map(|c| (c.experiment.name.as_str(), c.experiment.crates.len()))
        .collect();
    assert_eq!(chunks, vec![("foo-0", 2), ("foo-1", 1)]);

    // The name is taken: the store stays as it is, and the answer says why
    let again = carry_out(&mut db, create("foo"), Some(vec![package("z")]), 11);
    assert_eq!(again, failure_message("experiment 'foo' already exists"));
    assert_eq!(db.experiments.len(), 1);
    assert_eq!(db.chunks.len(), 2);
    assert_eq!(Experiment::get(&db, "foo").unwrap().crates.len(), 3);
}

#[test]
fn an_experiment_with_one_toolchain_twice_is_refused() {
    let mut db = Database::new();
    let command = Command::Create {
        name: "foo".to_string(),
        start: Toolchain::main(),
        end: Toolchain::main(),
        mode: Mode::BuildOnly,
        crates: CrateSelect::Demo,
        cap_lints: CapLints::Warn,
        priority: 0,
    };
    let message = carry_out(&mut db, command, Some(vec![package("a")]), 1);
    assert_eq!(message, failure_message("duplicate toolchains provided"));
    assert_eq!(
        message.lines[0].content,
        "**Error:** duplicate toolchains provided"
    );
    assert_eq!(message.lines[0].emoji, "rotating_light");
    assert_eq!(message.notes.len(), 1);
    assert_eq!(message.notes[0].emoji, "sos");
    assert_eq!(
        message.notes[0].content,
        "If you have any trouble with Crater please ping **`@rust-lang/infra`**!"
    );
    assert!(db.experiments.is_empty());
}

#[test]
fn an_experiment_is_edited_or_left_as_it_is() {
    let mut db = Database::new();
    carry_out(&mut db, create("foo"), Some(vec![package("a")]), 1);

    let nothing = Command::Edit {
        name: "foo".to_string(),
        start: None,
        end: None,
        mode: None,
        crates: None,
        priority: None,
    };
    // Crates that the command did not select are not written
    let message = carry_out(&mut db, nothing, Some(vec![package("z"), package("y")]), 2);
    assert_eq!(message, one_line("warning", "No changes requested.", None));
    assert_eq!(Experiment::get(&db, "foo").unwrap().crates.len(), 1);

    let change = Command::Edit {
        name: "foo".to_string(),
        start: None,
        end: None,
        mode: Some(Mode::CheckOnly),
        crates: Some(CrateSelect::Full),
        priority: Some(9),
    };
    let message = carry_out(&mut db, change, Some(vec![package("z"), package("y")]), 3);
    assert_eq!(
        message,
        one_line(
            "memo",
            "Configuration of the **`foo`** experiment changed.",
            None
        )
    );
    let ex = Experiment::get(&db, "foo").unwrap();
    assert_eq!(ex.mode, Mode::CheckOnly);
    assert_eq!(ex.priority, 9);
    assert_eq!(ex.crates.len(), 2);
    assert_eq!(ex.cap_lints, CapLints::Forbid);

    let missing = Command::Edit {
        name: "bar".to_string(),
        start: None,
        end: None,
        mode: None,
        crates: None,
        priority: Some(1),
    };
    let message = carry_out(&mut db, missing, None, 4);
    assert_eq!(message, failure_message("experiment 'bar' not found"));
}

#[test]
fn an_experiment_is_deleted_with_its_chunks() {
    let mut db = Database::new();
    carry_out(&mut db, create("foo"), Some(vec![package("a"), package("b"), package("c")]), 1);
    carry_out(&mut db, create("bar"), Some(vec![package("a")]), 2);
    assert_eq!(db.chunks.len(), 3);

    let delete = |name: &str| Command::Delete {
        name: name.to_string(),
    };
    let message = carry_out(&mut db, delete("foo"), None, 3);
    assert_eq!(
        message,
        one_line(
            "wastebasket",
            "Experiment **`foo`** deleted!",
            Some(Label::ExperimentCompleted)
        )
    );
    assert!(!Experiment::exists_named(&db, "foo"));
    assert_eq!(db.chunks.len(), 1);
    assert_eq!(db.chunks[0].experiment.name, "bar-0");

    let message = carry_out(&mut db, delete("foo"), None, 4);
    assert_eq!(message, failure_message("experiment 'foo' not found"));
    assert_eq!(db.experiments.len(), 1);
}

#[test]
fn a_stranger_is_turned_away() {
    let message = denial_message();
    assert_eq!(message.lines.len(), 1);
    assert_eq!(message.lines[0].emoji, "lock");
    assert_eq!(
        message.lines[0].content,
        "**Error:** you're not allowed to interact with this bot."
    );
    assert_eq!(message.notes.len(), 1);
    assert_eq!(message.notes[0].emoji, "key");
    assert_eq!(
        message.notes[0].content,
        "If you are a member of the Rust team and need access, [add yourself to the whitelist](https://github.com/rust-lang-nursery/crater/blob/master/config.toml)."
    );
    assert_eq!(message.new_label, None);
}

#[test]
fn a_command_without_its_crates_creates_an_experiment_without_crates() {
    match order_of(create("foo"), on_issue(), None) {
        Order::Create(create) => {
            assert!(create.crates.is_empty());
            assert_eq!(create.name, "foo");
            assert_eq!(create.github_issue, Some(on_issue()));
        }
        other => panic!("expected a creation, got {:?}", other),
    }
}
