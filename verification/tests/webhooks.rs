use crater::actions::{CreateExperiment, DeleteExperiment};
use crater::config::Config;
use crater::crates::{Crate, GitHubRepo, RegistryCrate};
use crater::db::Database;
use crater::encoding::from_hex;
use crater::errors::ErrorKind;
use crater::experiments::{CapLints, CrateSelect, Experiment, Mode};
use crater::results::TestResult;
use crater::server::github::{Issue, PullRequest};
use crater::server::webhooks::{
    command_of, parse_edit_arguments, process_command, process_webhook, verify_signature,
    ArgumentError, Command, CommandError, EditArguments, Reading, WebhookError, WebhookEvent,
};
use crater::text::{lines_of, parse_i32, split_at_each, starts_with};
use crater::time::Timestamp;
use crater::toolchain::Toolchain;

fn issue() -> Issue {
    Issue {
        number: 7,
        labels: Vec::new(),
        pull_request: None,
    }
}

fn pull_request() -> Issue {
    Issue {
        number: 42,
        labels: Vec::new(),
        pull_request: Some(PullRequest {
            html_url: String::new(),
        }),
    }
}

fn acl() -> Vec<String> {
    vec!["alice".to_string(), "bob".to_string()]
}

fn no_arguments() -> EditArguments {
    EditArguments {
        run: None,
        name: None,
        start: None,
        end: None,
        mode: None,
        crates: None,
        lints: None,
        p: None,
    }
}

#[test]
fn texts_are_split() {
    assert_eq!(split_at_each("a b  c", ' '), vec!["a", "b", "", "c"]);
    assert_eq!(split_at_each("", ' '), vec![""]);
    assert_eq!(split_at_each(" ", ' '), vec!["", ""]);
    assert_eq!(split_at_each("abc", ' '), vec!["abc"]);

    assert_eq!(lines_of("a\nb\r\nc"), vec!["a", "b", "c"]);
    assert_eq!(lines_of("a\n"), vec!["a"]);
    assert_eq!(lines_of("a\n\nb"), vec!["a", "", "b"]);
    assert_eq!(lines_of("\n"), vec![""]);
    assert_eq!(lines_of("a\r"), vec!["a"]);
    assert_eq!(lines_of("a\r\r\n"), vec!["a\r"]);
    assert!(lines_of("").is_empty());
    for text in ["", "x", "one\ntwo\n", "\r\n\r\n", "a\n\n", "\n\nb"].iter() {
        let expected: Vec<&str> = text.lines().collect();
        assert_eq!(lines_of(text), expected);
    }

    assert!(starts_with("@bot run", "@bot "));
    assert!(!starts_with("@bo", "@bot "));
    assert!(!starts_with("bot @bot ", "@bot "));
    assert!(starts_with("anything", ""));
}

#[test]
fn numbers_are_read() {
    for text in [
        "0", "7", "-7", "+7", "007", "-0", "2147483647", "-2147483648", "2147483648",
        "-2147483649", "99999999999999999999", "", "-", "+", "1a", "a1", " 1", "1 ", "--1", "1.0",
        "+-1",
    ]
    .iter()
    {
        assert_eq!(parse_i32(text), text.parse::<i32>().ok(), "{:?}", text);
    }
}

#[test]
fn arguments_are_read() {
    let args = parse_edit_arguments(&vec![
        "run",
        "name=foo",
        "start=stable",
        "end=beta",
        "mode=check-only",
        "crates=top-100",
        "lints=warn",
        "p=-3",
    ])
    .unwrap();
    assert_eq!(
        args,
        EditArguments {
            run: Some(true),
            name: Some("foo".to_string()),
            start: Some(Toolchain::main()),
            end: Some(Toolchain::test()),
            mode: Some(Mode::CheckOnly),
            crates: Some(CrateSelect::Top100),
            lints: Some(CapLints::Warn),
            p: Some(-3),
        }
    );

    assert_eq!(parse_edit_arguments(&vec![]), Ok(no_arguments()));
    let last_wins = parse_edit_arguments(&vec!["run", "p=1", "run-", "p=2", "name=a=b"]).unwrap();
    assert_eq!(last_wins.run, Some(false));
    assert_eq!(last_wins.p, Some(2));
    assert_eq!(last_wins.name.as_deref(), Some("a=b"));
    assert_eq!(
        parse_edit_arguments(&vec!["name="]).unwrap().name.as_deref(),
        Some("")
    );

    assert_eq!(
        parse_edit_arguments(&vec!["run", "fast", "p=x"]),
        Err(ArgumentError::UnknownArgument("fast".to_string()))
    );
    assert_eq!(
        parse_edit_arguments(&vec!["speed=9"]),
        Err(ArgumentError::UnknownArgument("speed=9".to_string()))
    );
    assert_eq!(
        parse_edit_arguments(&vec![""]),
        Err(ArgumentError::UnknownArgument(String::new()))
    );
    assert_eq!(
        parse_edit_arguments(&vec!["run=yes"]),
        Err(ArgumentError::UnknownArgument("run=yes".to_string()))
    );
    for arg in ["p=x", "mode=fast", "crates=some", "lints=loud", "start=", "end= "].iter() {
        assert_eq!(
            parse_edit_arguments(&vec!["run", arg]),
            Err(ArgumentError::InvalidValue(arg.to_string()))
        );
    }
}

#[test]
fn arguments_ask_for_a_command() {
    let mut args = no_arguments();
    args.run = Some(true);
    args.start = Some(Toolchain::main());
    args.end = Some(Toolchain::test());
    args.lints = Some(CapLints::Forbid);
    assert_eq!(
        command_of(args, &pull_request()),
        Ok(Command::Create {
            name: "pr-42".to_string(),
            start: Toolchain::main(),
            end: Toolchain::test(),
            mode: Mode::BuildAndTest,
            crates: CrateSelect::Full,
            cap_lints: CapLints::Forbid,
            priority: 0,
        })
    );

    let mut args = no_arguments();
    args.run = Some(true);
    assert_eq!(command_of(args, &issue()), Err(CommandError::MissingName));
    let mut args = no_arguments();
    args.run = Some(true);
    args.name = Some("foo".into());
    assert_eq!(command_of(args, &issue()), Err(CommandError::MissingStart));
    let mut args = no_arguments();
    args.run = Some(true);
    args.name = Some("foo".into());
    args.start = Some(Toolchain::main());
    assert_eq!(command_of(args, &issue()), Err(CommandError::MissingEnd));
    let mut args = no_arguments();
    args.run = Some(true);
    args.name = Some("foo".into());
    args.start = Some(Toolchain::main());
    args.end = Some(Toolchain::test());
    assert_eq!(command_of(args, &issue()), Err(CommandError::MissingLints));

    let mut args = no_arguments();
    args.run = Some(false);
    args.name = Some("foo".into());
    assert_eq!(
        command_of(args, &pull_request()),
        Ok(Command::Delete {
            name: "foo".to_string()
        })
    );

    let mut args = no_arguments();
    args.p = Some(5);
    args.lints = Some(CapLints::Allow);
    assert_eq!(
        command_of(args, &pull_request()),
        Ok(Command::Edit {
            name: "pr-42".to_string(),
            start: None,
            end: None,
            mode: None,
            crates: None,
            priority: Some(5),
        })
    );
    assert_eq!(
        CommandError::MissingName.to_string(),
        "missing experiment name!"
    );
    assert_eq!(
        CommandError::Argument(ArgumentError::UnknownArgument("x".into())).to_string(),
        "unknown argument: x"
    );
}

#[test]
fn comments_are_read_for_commands() {
    let read = |sender: &str, body: &str| process_command(sender, body, "craterbot", &acl(), &pull_request());

    assert_eq!(read("alice", "nice work!"), Reading::Nothing);
    assert_eq!(read("alice", ""), Reading::Nothing);
    assert_eq!(read("alice", "@craterbot"), Reading::Nothing);
    assert_eq!(read("alice", "hey @craterbot ping"), Reading::Nothing);
    assert_eq!(read("alice", "@craterbotx ping"), Reading::Nothing);

    assert_eq!(read("alice", "@craterbot ping"), Reading::Command(Command::Ping));
    assert_eq!(
        read("alice", "Let's see.\r\n@craterbot ping\r\n@craterbot run-"),
        Reading::Command(Command::Ping)
    );
    assert_eq!(read("mallory", "@craterbot ping"), Reading::Denied);
    assert_eq!(read("mallory", "hello"), Reading::Nothing);

    assert_eq!(
        read("bob", "@craterbot run start=stable end=beta lints=deny p=3 mode=build-only"),
        Reading::Command(Command::Create {
            name: "pr-42".to_string(),
            start: Toolchain::main(),
            end: Toolchain::test(),
            mode: Mode::BuildOnly,
            crates: CrateSelect::Full,
            cap_lints: CapLints::Deny,
            priority: 3,
        })
    );
    assert_eq!(
        read("bob", "@craterbot run- name=foo"),
        Reading::Command(Command::Delete {
            name: "foo".to_string()
        })
    );
    // Two spaces make an empty word, which is no argument
    assert_eq!(
        read("bob", "@craterbot  ping"),
        Reading::Failed(CommandError::Argument(ArgumentError::UnknownArgument(
            String::new()
        )))
    );
    assert_eq!(
        read("bob", "@craterbot ping now"),
        Reading::Failed(CommandError::Argument(ArgumentError::UnknownArgument(
            "ping".to_string()
        )))
    );
    assert_eq!(
        process_command("bob", "@craterbot p=1", "craterbot", &acl(), &issue()),
        Reading::Failed(CommandError::MissingName)
    );
    assert_eq!(
        read("bob", "@craterbot run start=stable"),
        Reading::Failed(CommandError::MissingEnd)
    );
}

#[test]
fn hex_is_read() {
    assert_eq!(from_hex(""), Some(vec![]));
    assert_eq!(from_hex("00ff10"), Some(vec![0, 255, 16]));
    assert_eq!(from_hex("DeadBeef"), Some(vec![0xde, 0xad, 0xbe, 0xef]));
    assert_eq!(from_hex("abc"), None);
    assert_eq!(from_hex("zz"), None);
    assert_eq!(from_hex("0g"), None);
    assert_eq!(from_hex("0 "), None);
}

#[test]
fn signatures_are_checked() {
    let key = "Jefe";
    let data = "what do ya want for nothing?";
    assert!(verify_signature(
        key,
        data,
        "sha1=effcdf6ae5eb2fa2d27416d5f184df9c259a7c79"
    ));
    assert!(verify_signature(
        key,
        data,
        "sha1=EFFCDF6AE5EB2FA2D27416D5F184DF9C259A7C79"
    ));
    assert!(!verify_signature(
        key,
        data,
        "sha1=effcdf6ae5eb2fa2d27416d5f184df9c259a7c78"
    ));
    assert!(!verify_signature(
        "other",
        data,
        "sha1=effcdf6ae5eb2fa2d27416d5f184df9c259a7c79"
    ));
    assert!(!verify_signature(
        key,
        "what do ya want for nothing",
        "sha1=effcdf6ae5eb2fa2d27416d5f184df9c259a7c79"
    ));
    assert!(!verify_signature(
        key,
        data,
        "sha256=effcdf6ae5eb2fa2d27416d5f184df9c259a7c79"
    ));
    assert!(!verify_signature(
        key,
        data,
        "effcdf6ae5eb2fa2d27416d5f184df9c259a7c79"
    ));
    assert!(!verify_signature(key, data, "sha1=effc="));
    assert!(!verify_signature(key, data, "sha1=effcd"));
    assert!(!verify_signature(key, data, "sha1="));
    assert!(!verify_signature(key, data, ""));
}

#[test]
fn messages_of_github_are_sorted() {
    let key = "Jefe";
    let data = "what do ya want for nothing?";
    let signature = "sha1=effcdf6ae5eb2fa2d27416d5f184df9c259a7c79";
    assert_eq!(
        process_webhook(data, signature, "ping", key),
        Ok(WebhookEvent::Ping)
    );
    assert_eq!(
        process_webhook(data, signature, "issue_comment", key),
        Ok(WebhookEvent::IssueComment)
    );
    assert_eq!(
        process_webhook(data, signature, "push", key),
        Err(WebhookError::InvalidEvent("push".to_string()))
    );
    assert_eq!(
        process_webhook(data, "sha1=00", "ping", key),
        Err(WebhookError::InvalidSignature)
    );
}

#[test]
fn an_experiment_is_removed_with_all_that_belongs_to_it() {
    let mut db = Database::new();
    let config = Config::default();
    let at = Timestamp { secs: 1, nanos: 0 };
    let krate = Crate::Registry(RegistryCrate {
        name: "lazy_static".into(),
        version: "1".into(),
    });
    let repo = GitHubRepo {
        org: "foo".into(),
        name: "bar".into(),
    };
    for name in ["foo", "bar"].iter() {
        let mut create = CreateExperiment::dummy(name);
        create.crates = vec![krate.clone(), krate.clone(), krate.clone()];
        create.apply_chunked(&mut db, &config, at, 2).unwrap();
        let ex = Experiment::get(&db, name).unwrap();
        db.results
            .record_result(&ex, &Toolchain::main(), &krate, TestResult::TestPass, vec![]);
        db.results.record_sha(&ex, &repo, "42");
    }
    assert_eq!(db.chunks.len(), 4);

    assert_eq!(
        DeleteExperiment::dummy("nope").apply(&mut db),
        Err(ErrorKind::ExperimentNotFound("nope".to_string()))
    );
    assert_eq!(db.experiments.len(), 2);

    assert_eq!(DeleteExperiment::dummy("foo").apply(&mut db), Ok(()));
    assert!(!Experiment::exists_named(&db, "foo"));
    assert!(Experiment::exists_named(&db, "bar"));
    let left: Vec<&str> = db.chunks.iter().map(|c| c.experiment.name.as_str()).collect();
    assert_eq!(left, vec!["bar-0", "bar-1"]);
    assert_eq!(db.results.results.len(), 1);
    assert_eq!(db.results.results[0].experiment, "bar");
    assert_eq!(db.results.shas.len(), 1);
    assert_eq!(db.results.shas[0].experiment, "bar");
}
