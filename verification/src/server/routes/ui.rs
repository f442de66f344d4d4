//! What the pages of the coordinator show of the experiments.

use vstd::prelude::*;
use crate::db::Database;
use crate::experiments::{
    lists_unfinished, percent, raw_progress_of, Experiment, ExperimentView, Mode, Status,
};

verus! {

/// What a page shows of an experiment.
#[derive(Debug, PartialEq, Eq)]
pub struct ExperimentData {
    pub name: String,
    pub status_class: &'static str,
    pub status_pretty: &'static str,
    pub mode: &'static str,
    pub assigned_to: Option<String>,
    pub progress: u8,
    pub priority: i32,
}

/// What an [`ExperimentData`] holds, as plain values.
pub struct ExperimentDataView {
    pub name: Seq<char>,
    pub status_class: Seq<char>,
    pub status_pretty: Seq<char>,
    pub mode: Seq<char>,
    pub assigned_to: Option<Seq<char>>,
    pub progress: u8,
    pub priority: i32,
}

impl View for ExperimentData {
    type V = ExperimentDataView;

    open spec fn view(&self) -> ExperimentDataView {
        ExperimentDataView {
            name: self.name@,
            status_class: self.status_class@,
            status_pretty: self.status_pretty@,
            mode: self.mode@,
            assigned_to: match self.assigned_to {
                Some(assignee) => Some(assignee@),
                None => None,
            },
            progress: self.progress,
            priority: self.priority,
        }
    }
}

impl DeepView for ExperimentData {
    type V = ExperimentDataView;

    open spec fn deep_view(&self) -> ExperimentDataView {
        self@
    }
}

/// The colour in which a status is shown: none while the experiment waits,
/// orange while something goes on, red after a failure, green at the end.
pub open spec fn status_class(status: Status) -> Seq<char> {
    match status {
        Status::Queued => ""@,
        Status::Running | Status::NeedsReport | Status::GeneratingReport => "orange"@,
        Status::Failed | Status::ReportFailed => "red"@,
        Status::Completed => "green"@,
    }
}

/// The words in which a status is shown.
pub open spec fn status_pretty(status: Status) -> Seq<char> {
    match status {
        Status::Queued => "Queued"@,
        Status::Running => "Running"@,
        Status::NeedsReport => "Needs report"@,
        Status::Failed => "Failed"@,
        Status::GeneratingReport => "Generating report"@,
        Status::ReportFailed => "Report failed"@,
        Status::Completed => "Completed"@,
    }
}

/// The command that a mode stands for.
pub open spec fn mode_command(mode: Mode) -> Seq<char> {
    match mode {
        Mode::BuildAndTest => "cargo test"@,
        Mode::BuildOnly => "cargo build"@,
        Mode::CheckOnly => "cargo check"@,
        Mode::Clippy => "cargo clippy"@,
        Mode::Rustdoc => "cargo doc"@,
        Mode::UnstableFeatures => "unstable features"@,
    }
}

/// What a page shows of an experiment: its progress while it is queued or
/// running, and 100 percent in any other status.
pub open spec fn presented(db: Database, ex: ExperimentView) -> ExperimentDataView {
    ExperimentDataView {
        name: ex.name,
        status_class: status_class(ex.status),
        status_pretty: status_pretty(ex.status),
        mode: mode_command(ex.mode),
        assigned_to: match ex.assigned_to {
            Some(assignee) => Some(
                match assignee {
                    crate::experiments::AssigneeView::Agent(name) => "agent:"@ + name,
                    crate::experiments::AssigneeView::CLI => "cli"@,
                },
            ),
            None => None,
        },
        progress: if ex.status == Status::Queued || ex.status == Status::Running {
            percent(raw_progress_of(db, ex.name).0, raw_progress_of(db, ex.name).1) as u8
        } else {
            100
        },
        priority: ex.priority,
    }
}

impl ExperimentData {
    /// What a page shows of an experiment.
    pub fn new(db: &Database, experiment: &Experiment) -> (data: ExperimentData)
        ensures
            data@ == presented(*db, experiment@),
    {
        let (status_class, status_pretty, show_progress) = match experiment.status {
            Status::Queued => ("", "Queued", true),
            Status::Running => ("orange", "Running", true),
            Status::NeedsReport => ("orange", "Needs report", false),
            Status::Failed => ("red", "Failed", false),
            Status::GeneratingReport => ("orange", "Generating report", false),
            Status::ReportFailed => ("red", "Report failed", false),
            Status::Completed => ("green", "Completed", false),
        };
        ExperimentData {
            name: experiment.name.clone(),
            status_class,
            status_pretty,
            mode: match experiment.mode {
                Mode::BuildAndTest => "cargo test",
                Mode::BuildOnly => "cargo build",
                Mode::CheckOnly => "cargo check",
                Mode::Clippy => "cargo clippy",
                Mode::Rustdoc => "cargo doc",
                Mode::UnstableFeatures => "unstable features",
            },
            assigned_to: match &experiment.assigned_to {
                Some(assignee) => Some(assignee.to_string()),
                None => None,
            },
            priority: experiment.priority,
            progress: if show_progress {
                experiment.progress(db)
            } else {
                100
            },
        }
    }
}

/// The positions of the rows with the status `status`.
pub open spec fn has_status(rows: Seq<ExperimentView>, status: Status) -> spec_fn(int) -> bool {
    |i: int| 0 <= i < rows.len() && rows[i].status == status
}

/// What a page shows of the row at a position.
pub open spec fn presenting(db: Database) -> spec_fn(int) -> ExperimentDataView {
    |i: int| presented(db, db@.experiments[i])
}

/// What a page shows of the experiments of `order` that have the status
/// `status`, in their order.
pub open spec fn group(db: Database, order: Seq<int>, status: Status) -> Seq<ExperimentDataView> {
    order.filter(has_status(db@.experiments, status)).map_values(presenting(db))
}

/// The queue as a page shows it: the experiments whose report failed come
/// first, then those whose report is generated, those that need their
/// report, those that failed, those that run and those that are queued.
pub open spec fn queue(db: Database, order: Seq<int>) -> Seq<ExperimentDataView> {
    group(db, order, Status::ReportFailed) + group(db, order, Status::GeneratingReport) + group(
        db,
        order,
        Status::NeedsReport,
    ) + group(db, order, Status::Failed) + group(db, order, Status::Running) + group(
        db,
        order,
        Status::Queued,
    )
}

fn push_group(db: &Database, order: &Vec<usize>, status: Status, out: &mut Vec<ExperimentData>)
    requires
        forall|k: int| 0 <= k < order@.len() ==> (#[trigger] order@[k]) < db.experiments@.len(),
    ensures
        final(out).deep_view() == old(out).deep_view() + group(
            *db,
            order@.map_values(|i: usize| i as int),
            status,
        ),
{
    let ghost before = out.deep_view();
    let ghost ints = order@.map_values(|i: usize| i as int);
    let ghost keep = has_status(db@.experiments, status);
    let mut k: usize = 0;
    while k < order.len()
        invariant
            k <= order.len(),
            ints == order@.map_values(|i: usize| i as int),
            keep == has_status(db@.experiments, status),
            forall|j: int| 0 <= j < order@.len() ==> (#[trigger] order@[j]) < db.experiments@.len(),
            out.deep_view() == before + ints.take(k as int).filter(keep).map_values(
                presenting(*db),
            ),
        decreases order.len() - k,
    {
        let row = &db.experiments[order[k]];
        assert(row@ == db@.experiments[ints[k as int]]);
        proof {
            reveal(Seq::filter);
            assert(ints.take(k + 1).drop_last() =~= ints.take(k as int));
        }
        if row.status == status {
            let ghost so_far = out.deep_view();
            let data = ExperimentData::new(db, row);
            let ghost view = data@;
            out.push(data);
            assert(out.deep_view() =~= so_far.push(view));
            assert(out.deep_view() =~= before + ints.take(k + 1).filter(keep).map_values(
                presenting(*db),
            ));
        }
        k += 1;
    }
    assert(ints.take(k as int) =~= ints);
}

/// The queue as a page shows it.
pub fn endpoint_queue(db: &Database) -> (experiments: Vec<ExperimentData>)
    ensures
        exists|order: Seq<int>|
            lists_unfinished(db@.experiments, order) && experiments.deep_view() == #[trigger] queue(
                *db,
                order,
            ),
{
    let order = Experiment::unfinished_positions(db);
    let ghost ints = order@.map_values(|i: usize| i as int);
    assert forall|k: int| 0 <= k < order@.len() implies (#[trigger] order@[k])
        < db.experiments@.len() by {
        assert(0 <= ints[k] < db@.experiments.len());
    }
    let mut experiments: Vec<ExperimentData> = Vec::new();
    assert(experiments.deep_view() =~= Seq::empty());
    push_group(db, &order, Status::ReportFailed, &mut experiments);
    push_group(db, &order, Status::GeneratingReport, &mut experiments);
    push_group(db, &order, Status::NeedsReport, &mut experiments);
    push_group(db, &order, Status::Failed, &mut experiments);
    push_group(db, &order, Status::Running, &mut experiments);
    push_group(db, &order, Status::Queued, &mut experiments);
    assert(experiments.deep_view() =~= queue(*db, ints));
    experiments
}

} // verus!
