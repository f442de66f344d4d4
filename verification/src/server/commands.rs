//! Carrying out the commands that people give to the bot, and what the bot
//! answers to each.

use vstd::prelude::*;
use vstd::string::StringExecFns;
use crate::actions::create::{chunk_count, chunk_parents, chunks};
use crate::actions::edit::editing;
use crate::actions::{CreateExperiment, DeleteExperiment, EditExperiment};
use crate::config::Config;
use crate::crates::Crate;
use crate::db::{named, Database};
use crate::errors::ErrorKindView;
use crate::experiments::table::{not_chunk_of, not_of};
use crate::experiments::states::map_named;
use crate::experiments::{CrateSelect, Experiment, ExperimentChunk, ExperimentView, GitHubIssue};
use crate::results::db::{other_experiment, other_experiment_sha, result_key, sha_key};
use crate::seqs::{first_match, key_in};
use crate::server::messages::{Label, Message, MessageView};
use crate::server::webhooks::Command;
use crate::time::Timestamp;

verus! {

/// What the bot answers to a ping.
pub open spec fn pong() -> MessageView {
    MessageView {
        lines: seq![("ping_pong"@, "**Pong!**"@)],
        notes: Seq::empty(),
        new_label: None,
    }
}

/// What the bot answers once the experiment named `name` is in the queue.
pub open spec fn created(name: Seq<char>) -> MessageView {
    MessageView {
        lines: seq![("ok_hand"@, "Experiment **`"@ + name + "`** created and queued."@)],
        notes: Seq::empty(),
        new_label: Some(Label::ExperimentQueued),
    }
}

/// What the bot answers once the experiment named `name` is removed.
pub open spec fn deleted(name: Seq<char>) -> MessageView {
    MessageView {
        lines: seq![("wastebasket"@, "Experiment **`"@ + name + "`** deleted!"@)],
        notes: Seq::empty(),
        new_label: Some(Label::ExperimentCompleted),
    }
}

/// What the bot answers to an edit of the experiment named `name`, which
/// changed something or nothing.
pub open spec fn edited(name: Seq<char>, changed: bool) -> MessageView {
    MessageView {
        lines: if changed {
            seq![("memo"@, "Configuration of the **`"@ + name + "`** experiment changed."@)]
        } else {
            seq![("warning"@, "No changes requested."@)]
        },
        notes: Seq::empty(),
        new_label: None,
    }
}

/// What the bot answers when a command could not be carried out.
pub open spec fn failure(error: Seq<char>) -> MessageView {
    MessageView {
        lines: seq![("rotating_light"@, "**Error:** "@ + error)],
        notes: seq![
            (
                "sos"@,
                "If you have any trouble with Crater please ping **`@rust-lang/infra`**!"@,
            ),
        ],
        new_label: None,
    }
}

/// What the bot answers to someone whom it does not listen to.
pub open spec fn denial() -> MessageView {
    MessageView {
        lines: seq![("lock"@, "**Error:** you're not allowed to interact with this bot."@)],
        notes: seq![
            (
                "key"@,
                "If you are a member of the Rust team and need access, [add yourself to the whitelist](https://github.com/rust-lang-nursery/crater/blob/master/config.toml)."@,
            ),
        ],
        new_label: None,
    }
}

/// The answer to a command that could not be carried out.
pub fn failure_message(error: &str) -> (message: Message)
    ensures
        message@ == failure(error@),
{
    let message = Message::new().line(
        "rotating_light",
        String::from_str("**Error:** ").concat(error),
    ).note(
        "sos",
        String::from_str("If you have any trouble with Crater please ping **`@rust-lang/infra`**!"),
    );
    assert(message@.lines =~= failure(error@).lines);
    assert(message@.notes =~= failure(error@).notes);
    message
}

/// The answer to someone whom the bot does not listen to.
pub fn denial_message() -> (message: Message)
    ensures
        message@ == denial(),
{
    let message = Message::new().line(
        "lock",
        String::from_str("**Error:** you're not allowed to interact with this bot."),
    ).note(
        "key",
        String::from_str(
            "If you are a member of the Rust team and need access, [add yourself to the whitelist](https://github.com/rust-lang-nursery/crater/blob/master/config.toml).",
        ),
    );
    assert(message@.lines =~= denial().lines);
    assert(message@.notes =~= denial().notes);
    message
}

/// The selection of crates that a command names, if it names one: the
/// crates are to be listed before the command is carried out.
pub fn selection(command: &Command) -> (select: Option<CrateSelect>)
    ensures
        select == match *command {
            Command::Create { crates, .. } => Some(crates),
            Command::Edit { crates, .. } => crates,
            _ => None,
        },
{
    match command {
        Command::Create { crates, .. } => Some(*crates),
        Command::Edit { crates, .. } => *crates,
        _ => None,
    }
}

/// What there is to do for a command.
#[derive(Debug)]
pub enum Order {
    /// To answer.
    Ping,
    /// To put an experiment in the queue.
    Create(CreateExperiment),
    /// To remove an experiment.
    Delete(DeleteExperiment),
    /// To change an experiment.
    Edit(EditExperiment),
}

/// What there is to do for `command`, which was given on `issue`, with
/// `crates` as the crates that it selects. An experiment that is created
/// belongs to the issue and heeds the blacklist; an edit leaves the lints as
/// they are, and the crates too unless the command selects crates. A command
/// that selects crates and is given none creates an experiment without
/// crates, or leaves the crates as they are.
pub fn order_of(command: Command, issue: GitHubIssue, crates: Option<Vec<Crate>>) -> (order: Order)
    ensures
        match (command, order) {
            (Command::Ping, Order::Ping) => true,
            (
                Command::Create { name, start, end, mode, cap_lints, priority, .. },
                Order::Create(create),
            ) => {
                &&& create.name == name
                &&& create.toolchains[0] == start
                &&& create.toolchains[1] == end
                &&& create.mode == mode
                &&& create.crates@ == match crates {
                    Some(list) => list@,
                    None => Seq::empty(),
                }
                &&& create.cap_lints == cap_lints
                &&& create.priority == priority
                &&& create.github_issue == Some(issue)
                &&& !create.ignore_blacklist
            },
            (Command::Delete { name }, Order::Delete(delete)) => delete.name == name,
            (
                Command::Edit { name, start, end, mode, crates: select, priority },
                Order::Edit(edit),
            ) => {
                &&& edit.name == name
                &&& edit.toolchains[0] == start
                &&& edit.toolchains[1] == end
                &&& edit.mode == mode
                &&& edit.crates == if select is Some {
                    crates
                } else {
                    None
                }
                &&& edit.cap_lints is None
                &&& edit.priority == priority
            },
            _ => false,
        },
{
    match command {
        Command::Ping => Order::Ping,
        Command::Create { name, start, end, mode, crates: _, cap_lints, priority } => {
            Order::Create(
                CreateExperiment {
                    name,
                    toolchains: [start, end],
                    mode,
                    crates: match crates {
                        Some(list) => list,
                        None => Vec::new(),
                    },
                    cap_lints,
                    priority,
                    github_issue: Some(issue),
                    ignore_blacklist: false,
                },
            )
        },
        Command::Delete { name } => Order::Delete(DeleteExperiment { name }),
        Command::Edit { name, start, end, mode, crates: select, priority } => Order::Edit(
            EditExperiment {
                name,
                toolchains: [start, end],
                mode,
                crates: match select {
                    Some(_) => crates,
                    None => None,
                },
                cap_lints: None,
                priority,
            },
        ),
    }
}

/// Whether `after` is the store `before` with the experiment of `create`
/// at the end of the table of experiments, and its chunks of at most `size`
/// crates at the end of the table of chunks.
pub open spec fn queued(
    create: CreateExperiment,
    config: Config,
    now: Timestamp,
    size: nat,
    before: Database,
    after: Database,
) -> bool {
    let n = chunk_count(create.crates@.len(), size);
    &&& after@.experiments == before@.experiments.push(
        ExperimentView { children: n as u32, ..create.row(config, now) },
    )
    &&& after@.chunks == before@.chunks + chunks(create.row(config, now), size, n)
    &&& after@.chunk_parents == before@.chunk_parents + chunk_parents(create.name@, n)
    &&& after.results == before.results
}

/// Whether `after` is the store `before` without the experiment named
/// `name`, its chunks, its results and its pinned commits.
pub open spec fn removed(name: Seq<char>, before: Database, after: Database) -> bool {
    &&& after.experiments@ == before.experiments@.filter(not_of::<Experiment>(name))
    &&& after.chunks@ == before.chunks@.filter(not_chunk_of::<ExperimentChunk>(name))
    &&& after.results.results@ == before.results.results@.filter(
        key_in(result_key(), other_experiment(name)),
    )
    &&& after.results.shas@ == before.results.shas@.filter(
        key_in(sha_key(), other_experiment_sha(name)),
    )
}

/// Whether `after` is the store `before` with the edit `edit` made.
pub open spec fn changed(edit: EditExperiment, config: Config, before: Database, after: Database)
    -> bool {
    &&& after@.experiments == map_named(before@.experiments, edit.name@, editing(edit, config))
    &&& after.results == before.results
    &&& after.chunks == before.chunks
}

/// Whether carrying out `order` at the time `now` leads from the store
/// `before` to the store `after` and to the answer `message`. A ping
/// changes nothing. An experiment is created with chunks of at most `size`
/// crates. What is refused leaves the store as it is, and the answer says
/// why.
pub open spec fn carried_out(
    order: Order,
    config: Config,
    now: Timestamp,
    size: nat,
    before: Database,
    after: Database,
    message: MessageView,
) -> bool {
    match order {
        Order::Ping => after == before && message == pong(),
        Order::Create(create) => match create.refusal(before@.experiments) {
            Some(e) => after == before && message == failure(e.message()),
            None => queued(create, config, now, size, before, after) && message == created(
                create.name@,
            ),
        },
        Order::Delete(delete) => if first_match(before@.experiments, named(delete.name@))
            < before@.experiments.len() {
            removed(delete.name@, before, after) && message == deleted(delete.name@)
        } else {
            after == before && message == failure(
                ErrorKindView::ExperimentNotFound(delete.name@).message(),
            )
        },
        Order::Edit(edit) => match edit.refusal(before@.experiments) {
            Some(e) => after == before && message == failure(e.message()),
            None => changed(edit, config, before, after) && message == edited(
                edit.name@,
                edit.has_changes(),
            ),
        },
    }
}

/// Carries out `order` at the time `now`, and hands back the answer to
/// post, as [`carried_out`] says.
pub fn run_command(
    db: &mut Database,
    config: &Config,
    order: Order,
    now: Timestamp,
    chunk_size: usize,
) -> (message: Message)
    requires
        chunk_size > 0,
        order matches Order::Create(create) ==> create.crates@.len() <= u32::MAX,
    ensures
        carried_out(order, *config, now, chunk_size as nat, *old(db), *final(db), message@),
{
    match order {
        Order::Ping => {
            let message = Message::new().line("ping_pong", String::from_str("**Pong!**"));
            assert(message@.lines =~= pong().lines);
            message
        },
        Order::Create(create) => {
            let name = create.name.clone();
            match create.apply_chunked(db, config, now, chunk_size) {
                Ok(_) => {
                    let message = Message::new().line(
                        "ok_hand",
                        String::from_str("Experiment **`").concat(name.as_str()).concat(
                            "`** created and queued.",
                        ),
                    ).set_label(Label::ExperimentQueued);
                    assert(message@.lines =~= created(name@).lines);
                    message
                },
                Err(e) => failure_message(e.to_string().as_str()),
            }
        },
        Order::Delete(delete) => {
            let name = delete.name.clone();
            match delete.apply(db) {
                Ok(()) => {
                    let message = Message::new().line(
                        "wastebasket",
                        String::from_str("Experiment **`").concat(name.as_str()).concat(
                            "`** deleted!",
                        ),
                    ).set_label(Label::ExperimentCompleted);
                    assert(message@.lines =~= deleted(name@).lines);
                    message
                },
                Err(e) => failure_message(e.to_string().as_str()),
            }
        },
        Order::Edit(edit) => {
            let name = edit.name.clone();
            let ghost wanted = edit.has_changes();
            match edit.apply(db, config) {
                Ok(changed) => {
                    let message = if changed {
                        Message::new().line(
                            "memo",
                            String::from_str("Configuration of the **`").concat(
                                name.as_str(),
                            ).concat("`** experiment changed."),
                        )
                    } else {
                        Message::new().line("warning", String::from_str("No changes requested."))
                    };
                    assert(message@.lines =~= edited(name@, wanted).lines);
                    message
                },
                Err(e) => failure_message(e.to_string().as_str()),
            }
        },
    }
}

} // verus!
