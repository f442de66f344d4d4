//! The store of the coordinator: the tables of experiments, chunks and
//! results, and the list of the changes to its schema that are still to be
//! made.

use vstd::prelude::*;
use crate::experiments::table::{parents, records, update_rows};
use crate::experiments::{
    clone_crates, Assignee, CapLints, Experiment, ExperimentChunk, ExperimentCrate,
    ExperimentView, Mode, Status,
};
use crate::results::db::{DatabaseDB, ResultsView};
use crate::seqs::{count_where, first_match, lemma_first_match_is};
use crate::time::Timestamp;
use crate::toolchain::Toolchain;

verus! {

/// All that the coordinator keeps.
#[derive(Debug)]
pub struct Database {
    pub experiments: Vec<Experiment>,
    pub chunks: Vec<ExperimentChunk>,
    pub results: DatabaseDB,
}

/// What a [`Database`] holds, as plain values.
pub struct DatabaseView {
    pub experiments: Seq<ExperimentView>,
    /// The chunks, each as the small experiment that it is.
    pub chunks: Seq<ExperimentView>,
    /// For each chunk, the name of the experiment that it is a chunk of.
    pub chunk_parents: Seq<Option<Seq<char>>>,
    pub results: ResultsView,
}

impl View for Database {
    type V = DatabaseView;

    open spec fn view(&self) -> DatabaseView {
        DatabaseView {
            experiments: records(self.experiments@),
            chunks: records(self.chunks@),
            chunk_parents: parents(self.chunks@),
            results: self.results@,
        }
    }
}

/// A change to one column of a row of experiments.
#[derive(Debug)]
pub enum Update {
    Status(Status),
    StartedAt(Timestamp),
    CompletedAt(Timestamp),
    Children(u32),
    AssignedTo(Option<Assignee>),
    ReportUrl(String),
    ToolchainStart(Toolchain),
    ToolchainEnd(Toolchain),
    Crates(Vec<ExperimentCrate>),
    Mode(Mode),
    CapLints(CapLints),
    Priority(i32),
}

impl Update {
    /// The row after the change.
    pub open spec fn applied(self, row: ExperimentView) -> ExperimentView {
        match self {
            Update::Status(status) => ExperimentView { status, ..row },
            Update::StartedAt(at) => ExperimentView { started_at: Some(at), ..row },
            Update::CompletedAt(at) => ExperimentView { completed_at: Some(at), ..row },
            Update::Children(children) => ExperimentView { children, ..row },
            Update::AssignedTo(assignee) => ExperimentView {
                assigned_to: match assignee {
                    Some(a) => Some(a@),
                    None => None,
                },
                ..row
            },
            Update::ReportUrl(url) => ExperimentView { report_url: Some(url@), ..row },
            Update::ToolchainStart(tc) => ExperimentView {
                toolchains: (tc@, row.toolchains.1),
                ..row
            },
            Update::ToolchainEnd(tc) => ExperimentView {
                toolchains: (row.toolchains.0, tc@),
                ..row
            },
            Update::Crates(crates) => ExperimentView { crates: crates.deep_view(), ..row },
            Update::Mode(mode) => ExperimentView { mode, ..row },
            Update::CapLints(cap_lints) => ExperimentView { cap_lints, ..row },
            Update::Priority(priority) => ExperimentView { priority, ..row },
        }
    }

    /// Makes the change to a row.
    pub fn apply(&self, row: &mut Experiment)
        ensures
            final(row)@ == self.applied(old(row)@),
    {
        match self {
            Update::Status(status) => {
                row.status = *status;
            },
            Update::StartedAt(at) => {
                row.started_at = Some(*at);
            },
            Update::CompletedAt(at) => {
                row.completed_at = Some(*at);
            },
            Update::Children(children) => {
                row.children = *children;
            },
            Update::AssignedTo(assignee) => {
                row.assigned_to = match assignee {
                    Some(a) => Some(a.clone()),
                    None => None,
                };
            },
            Update::ReportUrl(url) => {
                row.report_url = Some(url.clone());
            },
            Update::ToolchainStart(tc) => {
                row.toolchains[0] = tc.clone();
            },
            Update::ToolchainEnd(tc) => {
                row.toolchains[1] = tc.clone();
            },
            Update::Crates(crates) => {
                row.crates = clone_crates(crates);
            },
            Update::Mode(mode) => {
                row.mode = *mode;
            },
            Update::CapLints(cap_lints) => {
                row.cap_lints = *cap_lints;
            },
            Update::Priority(priority) => {
                row.priority = *priority;
            },
        }
    }
}

/// The rows with the name `name`.
pub open spec fn named(name: Seq<char>) -> spec_fn(ExperimentView) -> bool {
    |row: ExperimentView| row.name == name
}

/// The rows of a table after `update` was made to each row named `name`.
pub open spec fn update_named(rows: Seq<ExperimentView>, name: Seq<char>, update: Update) -> Seq<
    ExperimentView,
> {
    Seq::new(
        rows.len(),
        |i: int|
            if rows[i].name == name {
                update.applied(rows[i])
            } else {
                rows[i]
            },
    )
}

impl Database {
    /// An empty store.
    pub fn new() -> (db: Database)
        ensures
            db@.experiments.len() == 0,
            db@.chunks.len() == 0,
            db.results.results@.len() == 0,
            db.results.shas@.len() == 0,
    {
        Database { experiments: Vec::new(), chunks: Vec::new(), results: DatabaseDB::new() }
    }

    /// Makes a change to every experiment named `name`, and says how many
    /// rows that were.
    pub fn update_experiment(&mut self, name: &String, update: &Update) -> (changes: usize)
        ensures
            final(self)@.experiments == update_named(old(self)@.experiments, name@, *update),
            final(self)@.chunks == old(self)@.chunks,
            final(self).chunks == old(self).chunks,
            final(self).results == old(self).results,
            changes == count_where(old(self)@.experiments, named(name@)),
    {
        update_rows(&mut self.experiments, name, update)
    }

    /// Makes a change to every chunk named `name`, and says how many rows
    /// that were.
    pub fn update_chunk(&mut self, name: &String, update: &Update) -> (changes: usize)
        ensures
            final(self)@.chunks == update_named(old(self)@.chunks, name@, *update),
            final(self)@.chunk_parents == old(self)@.chunk_parents,
            final(self).experiments == old(self).experiments,
            final(self).results == old(self).results,
            changes == count_where(old(self)@.chunks, named(name@)),
    {
        update_rows(&mut self.chunks, name, update)
    }
}

/// The names equal to `name`.
pub open spec fn is_name(name: Seq<char>) -> spec_fn(String) -> bool {
    |known: String| known@ == name
}

/// The migrations that were not run yet.
pub open spec fn not_run(executed: Seq<String>) -> spec_fn(String) -> bool {
    |name: String| first_match(executed, is_name(name@)) == executed.len()
}

/// The positions of the first `n` migrations that were not run yet, in their
/// order.
pub open spec fn pending(names: Seq<String>, executed: Seq<String>, n: int) -> Seq<usize>
    decreases n,
{
    if n <= 0 {
        Seq::empty()
    } else if not_run(executed)(names[n - 1]) {
        pending(names, executed, n - 1).push((n - 1) as usize)
    } else {
        pending(names, executed, n - 1)
    }
}

/// The migrations to run, by their positions in `names`: those whose name is
/// not among the names of the migrations that were run, in their order.
pub fn pending_migrations(names: &Vec<String>, executed: &Vec<String>) -> (positions: Vec<usize>)
    ensures
        positions@ == pending(names@, executed@, names@.len() as int),
{
    let mut positions: Vec<usize> = Vec::new();
    let mut i: usize = 0;
    while i < names.len()
        invariant
            i <= names.len(),
            positions@ == pending(names@, executed@, i as int),
        decreases names.len() - i,
    {
        let mut k: usize = 0;
        while k < executed.len() && !(executed[k] == names[i])
            invariant
                k <= executed.len(),
                i < names.len(),
                forall|j: int| 0 <= j < k ==> !is_name(names@[i as int]@)(#[trigger] executed@[j]),
            decreases executed.len() - k,
        {
            k += 1;
        }
        proof {
            lemma_first_match_is(executed@, is_name(names@[i as int]@), k as int);
        }
        if k == executed.len() {
            positions.push(i);
        }
        i += 1;
    }
    positions
}

/// A migration whose name is recorded is not run again: once the names of
/// all migrations are among those that were run, none is pending.
pub proof fn lemma_migrations_run_once(names: Seq<String>, executed: Seq<String>, n: int)
    requires
        0 <= n <= names.len(),
        forall|i: int|
            0 <= i < names.len() ==> first_match(executed, is_name((#[trigger] names[i])@))
                < executed.len(),
    ensures
        pending(names, executed, n).len() == 0,
    decreases n,
{
    if n > 0 {
        lemma_migrations_run_once(names, executed, n - 1);
        assert(!not_run(executed)(names[n - 1]));
    }
}

} // verus!
