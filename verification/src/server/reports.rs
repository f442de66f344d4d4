//! The worker that makes the reports of the experiments that need one.

use vstd::prelude::*;
use vstd::string::StringExecFns;
use crate::db::Database;
use crate::experiments::table::position_first_by_status;
use crate::experiments::{
    first_with_status, map_named, setting_status, slots_of, Experiment, ExperimentView, Status,
};
use crate::server::messages::{Label, Message, MessageView, Notification};
use crate::time::Timestamp;

verus! {

/// Seconds after which the worker looks for work by itself, whether it was
/// woken or not.
pub const AUTOMATIC_THREAD_WAKEUP: u64 = 600;

/// Seconds after which a worker that crashed is started again.
pub const RESPAWN_AFTER: u64 = 60;

/// What the worker does next.
#[derive(Debug)]
pub enum WorkerStep {
    /// Nothing needs a report: wait to be woken, for this many seconds at
    /// most.
    Wait(u64),
    /// Make the report of this experiment.
    Generate(Experiment),
}

/// Where the report of an experiment is, below the address of the bucket.
pub open spec fn report_address(base_url: Seq<char>, name: Seq<char>) -> Seq<char> {
    base_url + "/"@ + name + "/index.html"@
}

/// What is posted when a report was made.
pub open spec fn completed_message(name: Seq<char>, url: Seq<char>) -> MessageView {
    MessageView {
        lines: seq![
            ("tada"@, "Experiment **`"@ + name + "`** is completed!"@),
            ("newspaper"@, "[Open the full report]("@ + url + ")."@),
        ],
        notes: seq![
            (
                "warning"@,
                "If you notice any spurious failure [please add them to the blacklist](https://github.com/rust-lang-nursery/crater/blob/master/config.toml)!"@,
            ),
        ],
        new_label: Some(Label::ExperimentCompleted),
    }
}

/// What is posted when a report could not be made.
pub open spec fn report_failed_message(name: Seq<char>, error: Seq<char>) -> MessageView {
    MessageView {
        lines: seq![
            ("rotating_light"@, "Report generation of **`"@ + name + "`** failed: "@ + error),
            ("hammer_and_wrench"@, "If the error is fixed use the `retry-report` command."@),
        ],
        notes: seq![
            ("sos"@, "Can someone from the infra team check in on this? @rust-lang/infra"@),
        ],
        new_label: None,
    }
}

/// Whether the notifications are the message `message` to the issue of an
/// experiment, if it has one, and nothing otherwise.
pub open spec fn tells_issue(
    notifications: Seq<Notification>,
    ex: ExperimentView,
    message: MessageView,
) -> bool {
    match ex.github_issue {
        Some(issue) => notifications.len() == 1 && notifications[0].api_url@ == issue.api_url
            && notifications[0].message@ == message,
        None => notifications.len() == 0,
    }
}

/// Looks for an experiment that needs its report: the one of highest
/// priority, the oldest among equals. Its report is being generated from
/// the time `now` on.
pub fn next_report(db: &mut Database, now: Timestamp) -> (step: WorkerStep)
    ensures
        final(db).chunks == old(db).chunks,
        final(db).results == old(db).results,
        match first_with_status(slots_of(old(db)@.experiments), Status::NeedsReport) {
            None => step matches WorkerStep::Wait(seconds) && seconds == AUTOMATIC_THREAD_WAKEUP
                && final(db)@.experiments == old(db)@.experiments,
            Some(i) => {
                let row = old(db)@.experiments[i];
                &&& step matches WorkerStep::Generate(ex) && ex@ == row.with_status(
                    row,
                    Status::GeneratingReport,
                    now,
                )
                &&& final(db)@.experiments == map_named(
                    old(db)@.experiments,
                    row.name,
                    setting_status(row, Status::GeneratingReport, now),
                )
            },
        },
{
    let at = position_first_by_status(&db.experiments, Status::NeedsReport);
    if at < db.experiments.len() {
        let mut ex = db.experiments[at].clone();
        ex.set_status(db, Status::GeneratingReport, now);
        WorkerStep::Generate(ex)
    } else {
        WorkerStep::Wait(AUTOMATIC_THREAD_WAKEUP)
    }
}

/// Records that the report of an experiment was made, at the time `now`:
/// the experiment is completed, and its report is at its place below
/// `base_url`. This is posted to the issue of the experiment.
pub fn report_completed(ex: &mut Experiment, db: &mut Database, base_url: &str, now: Timestamp) -> (posts:
    Vec<Notification>)
    ensures
        final(ex)@ == (ExperimentView {
            report_url: Some(report_address(base_url@, old(ex)@.name)),
            ..old(ex)@.with_status(old(ex)@, Status::Completed, now)
        }),
        final(db)@.experiments == map_named(
            old(db)@.experiments,
            old(ex)@.name,
            |row: ExperimentView|
                ExperimentView {
                    report_url: Some(report_address(base_url@, old(ex)@.name)),
                    ..row.with_status(old(ex)@, Status::Completed, now)
                },
        ),
        final(db).chunks == old(db).chunks,
        final(db).results == old(db).results,
        tells_issue(
            posts@,
            old(ex)@,
            completed_message(old(ex)@.name, report_address(base_url@, old(ex)@.name)),
        ),
{
    let url = String::from_str(base_url).concat("/").concat(ex.name.as_str()).concat(
        "/index.html",
    );
    ex.set_status(db, Status::Completed, now);
    ex.set_report_url(db, url.as_str());
    assert(db@.experiments =~= map_named(
        old(db)@.experiments,
        old(ex)@.name,
        |row: ExperimentView|
            ExperimentView {
                report_url: Some(report_address(base_url@, old(ex)@.name)),
                ..row.with_status(old(ex)@, Status::Completed, now)
            },
    ));
    let mut posts: Vec<Notification> = Vec::new();
    match &ex.github_issue {
        Some(issue) => {
            let message = Message::new().line(
                "tada",
                String::from_str("Experiment **`").concat(ex.name.as_str()).concat(
                    "`** is completed!",
                ),
            ).line(
                "newspaper",
                String::from_str("[Open the full report](").concat(url.as_str()).concat(")."),
            ).note(
                "warning",
                String::from_str(
                    "If you notice any spurious failure [please add them to the blacklist](https://github.com/rust-lang-nursery/crater/blob/master/config.toml)!",
                ),
            ).set_label(Label::ExperimentCompleted);
            proof {
                let expected = completed_message(
                    old(ex)@.name,
                    report_address(base_url@, old(ex)@.name),
                );
                assert(message@.lines[0] == expected.lines[0]);
                assert(message@.lines[1] == expected.lines[1]);
                assert(message@.lines =~= expected.lines);
                assert(message@.notes =~= expected.notes);
            }
            posts.push(Notification { api_url: issue.api_url.clone(), message });
        },
        None => {},
    }
    posts
}

/// Records that the report of an experiment could not be made, at the time
/// `now`: the report of the experiment has failed. This is posted to the
/// issue of the experiment, with the error.
pub fn report_failed(ex: &mut Experiment, db: &mut Database, error: &str, now: Timestamp) -> (posts:
    Vec<Notification>)
    ensures
        final(ex)@ == old(ex)@.with_status(old(ex)@, Status::ReportFailed, now),
        final(db)@.experiments == map_named(
            old(db)@.experiments,
            old(ex)@.name,
            setting_status(old(ex)@, Status::ReportFailed, now),
        ),
        final(db).chunks == old(db).chunks,
        final(db).results == old(db).results,
        tells_issue(posts@, old(ex)@, report_failed_message(old(ex)@.name, error@)),
{
    ex.set_status(db, Status::ReportFailed, now);
    let mut posts: Vec<Notification> = Vec::new();
    match &ex.github_issue {
        Some(issue) => {
            let message = Message::new().line(
                "rotating_light",
                String::from_str("Report generation of **`").concat(ex.name.as_str()).concat(
                    "`** failed: ",
                ).concat(error),
            ).line(
                "hammer_and_wrench",
                String::from_str("If the error is fixed use the `retry-report` command."),
            ).note(
                "sos",
                String::from_str(
                    "Can someone from the infra team check in on this? @rust-lang/infra",
                ),
            );
            proof {
                let expected = report_failed_message(old(ex)@.name, error@);
                assert(message@.lines[0] == expected.lines[0]);
                assert(message@.lines[1] == expected.lines[1]);
                assert(message@.lines =~= expected.lines);
                assert(message@.notes =~= expected.notes);
            }
            posts.push(Notification { api_url: issue.api_url.clone(), message });
        },
        None => {},
    }
    posts
}

/// Puts an experiment whose report failed back among those that need their
/// report, at the time `now`, and says whether it did: an experiment in any
/// other status stays as it is.
pub fn retry_report(ex: &mut Experiment, db: &mut Database, now: Timestamp) -> (retried: bool)
    ensures
        retried == (old(ex).status == Status::ReportFailed),
        final(db).chunks == old(db).chunks,
        final(db).results == old(db).results,
        if retried {
            &&& final(ex)@ == old(ex)@.with_status(old(ex)@, Status::NeedsReport, now)
            &&& final(db)@.experiments == map_named(
                old(db)@.experiments,
                old(ex)@.name,
                setting_status(old(ex)@, Status::NeedsReport, now),
            )
        } else {
            *final(ex) == *old(ex) && *final(db) == *old(db)
        },
{
    if ex.status == Status::ReportFailed {
        ex.set_status(db, Status::NeedsReport, now);
        true
    } else {
        false
    }
}

/// Starting a report makes no step that the life of an experiment does not
/// have: the experiment that is picked needed its report, which is now being
/// generated, and every other stays as it is.
pub proof fn lemma_report_follows_the_states(rows: Seq<ExperimentView>, now: Timestamp)
    requires
        crate::experiments::names_are_unique(rows),
        first_with_status(slots_of(rows), Status::NeedsReport) is Some,
    ensures
        ({
            let row = rows[first_with_status(slots_of(rows), Status::NeedsReport)->0];
            crate::experiments::follows(
                rows,
                map_named(rows, row.name, setting_status(row, Status::GeneratingReport, now)),
            )
        }),
{
    let slots = slots_of(rows);
    let i = first_with_status(slots, Status::NeedsReport)->0;
    assert(crate::experiments::is_first(slots, Status::NeedsReport, i));
    let after = map_named(rows, rows[i].name, setting_status(rows[i], Status::GeneratingReport, now));
    assert forall|j: int| 0 <= j < rows.len() implies (#[trigger] after[j]).status
        == rows[j].status || crate::experiments::can_become(rows[j].status, after[j].status) by {
        if rows[j].name == rows[i].name {
            assert(j == i);
        }
    }
}

} // verus!
