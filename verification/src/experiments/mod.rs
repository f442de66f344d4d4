//! Experiments: their records, their life cycle and their assignment to
//! agents.

pub mod assignee;
pub mod chunks;
pub mod kinds;
pub mod record;
pub mod states;
pub mod table;

use vstd::prelude::*;
use vstd::string::StringExecFns;
use crate::crates::{Crate, CrateView};
use crate::db::{named, Database, Update};
use crate::results::db::{result_of, result_of_crate, DatabaseDB, ResultRow};
use crate::seqs::{count_where, first_match, lemma_count_where_step};
use crate::time::Timestamp;
use crate::toolchain::Toolchain;
pub use self::assignee::{Assignee, AssigneeParseError, AssigneeParseErrorView, AssigneeView};
pub use self::chunks::ExperimentChunk;
use self::table::{position_first_by_status, position_named, position_run_by, Record};
pub use self::kinds::{CapLints, CrateSelect, Mode, Status};
pub use self::states::{
    after_completions, assignee_view, assigning, can_become, completing_child, first_with_status, follows, handing_to, is_first, lemma_children_are_counted, lemma_completion_follows_the_states, lemma_first_with_status, lemma_handout_follows_priority, lemma_handout_follows_the_states, lemma_is_first_unique, lemma_new_handout_is_kept, lemma_running_assignee_gets_the_same, lemma_unfinished_order_is_unique, listed_before, lists_unfinished, map_named, names_are_unique, next_handout, precedes, run_by, setting_status, slots_of, Given, Handout, Slot,
};

verus! {

/// The issue on GitHub that asked for an experiment.
#[derive(Debug, Eq, Hash)]
pub struct GitHubIssue {
    pub api_url: String,
    pub html_url: String,
    pub number: i32,
}

/// What a [`GitHubIssue`] holds, as plain sequences.
pub struct GitHubIssueView {
    pub api_url: Seq<char>,
    pub html_url: Seq<char>,
    pub number: i32,
}

impl View for GitHubIssue {
    type V = GitHubIssueView;

    open spec fn view(&self) -> GitHubIssueView {
        GitHubIssueView { api_url: self.api_url@, html_url: self.html_url@, number: self.number }
    }
}

impl PartialEq for GitHubIssue {
    fn eq(&self, other: &GitHubIssue) -> (same: bool) {
        self.api_url == other.api_url && self.html_url == other.html_url && self.number
            == other.number
    }
}

impl vstd::std_specs::cmp::PartialEqSpecImpl for GitHubIssue {
    open spec fn obeys_eq_spec() -> bool {
        true
    }

    open spec fn eq_spec(&self, other: &GitHubIssue) -> bool {
        self@ == other@
    }
}

impl Clone for GitHubIssue {
    fn clone(&self) -> (copy: GitHubIssue)
        ensures
            copy@ == self@,
    {
        GitHubIssue {
            api_url: self.api_url.clone(),
            html_url: self.html_url.clone(),
            number: self.number,
        }
    }
}

/// One crate of an experiment. A skipped crate is on the blacklist: it
/// belongs to the experiment, and nothing is run on it.
#[derive(Debug, Eq, Hash)]
pub struct ExperimentCrate {
    pub krate: Crate,
    pub skipped: bool,
}

/// What an [`ExperimentCrate`] holds, as plain values.
pub struct ExperimentCrateView {
    pub krate: CrateView,
    pub skipped: bool,
}

impl View for ExperimentCrate {
    type V = ExperimentCrateView;

    open spec fn view(&self) -> ExperimentCrateView {
        ExperimentCrateView { krate: self.krate@, skipped: self.skipped }
    }
}

impl DeepView for ExperimentCrate {
    type V = ExperimentCrateView;

    open spec fn deep_view(&self) -> ExperimentCrateView {
        self@
    }
}

impl PartialEq for ExperimentCrate {
    fn eq(&self, other: &ExperimentCrate) -> (same: bool) {
        self.krate == other.krate && self.skipped == other.skipped
    }
}

impl vstd::std_specs::cmp::PartialEqSpecImpl for ExperimentCrate {
    open spec fn obeys_eq_spec() -> bool {
        true
    }

    open spec fn eq_spec(&self, other: &ExperimentCrate) -> bool {
        self@ == other@
    }
}

impl Clone for ExperimentCrate {
    fn clone(&self) -> (copy: ExperimentCrate)
        ensures
            copy@ == self@,
    {
        ExperimentCrate { krate: self.krate.clone(), skipped: self.skipped }
    }
}

/// A copy of a list of crates.
pub fn clone_crates(crates: &Vec<ExperimentCrate>) -> (copy: Vec<ExperimentCrate>)
    ensures
        copy.deep_view() == crates.deep_view(),
{
    let mut copy: Vec<ExperimentCrate> = Vec::new();
    let mut i: usize = 0;
    while i < crates.len()
        invariant
            i <= crates.len(),
            copy.len() == i,
            forall|j: int| 0 <= j < i ==> copy@[j]@ == crates@[j]@,
        decreases crates.len() - i,
    {
        copy.push(crates[i].clone());
        i += 1;
    }
    assert(copy.deep_view() =~= crates.deep_view());
    copy
}

/// A copy of the crates of a list from position `from` up to, and without,
/// position `to`.
pub fn clone_crates_range(crates: &Vec<ExperimentCrate>, from: usize, to: usize) -> (copy: Vec<
    ExperimentCrate,
>)
    requires
        from <= to <= crates.len(),
    ensures
        copy.deep_view() == crates.deep_view().subrange(from as int, to as int),
{
    let mut copy: Vec<ExperimentCrate> = Vec::new();
    let mut i: usize = from;
    while i < to
        invariant
            from <= i <= to <= crates.len(),
            copy.len() == i - from,
            forall|j: int| 0 <= j < i - from ==> copy@[j]@ == crates@[from + j]@,
        decreases to - i,
    {
        copy.push(crates[i].clone());
        i += 1;
    }
    assert(copy.deep_view() =~= crates.deep_view().subrange(from as int, to as int));
    copy
}

/// One run that compares two toolchains over a set of crates.
#[derive(Debug)]
pub struct Experiment {
    pub name: String,
    pub crates: Vec<ExperimentCrate>,
    pub toolchains: [Toolchain; 2],
    pub mode: Mode,
    pub cap_lints: CapLints,
    pub priority: i32,
    pub created_at: Timestamp,
    pub started_at: Option<Timestamp>,
    pub completed_at: Option<Timestamp>,
    pub github_issue: Option<GitHubIssue>,
    pub status: Status,
    pub assigned_to: Option<Assignee>,
    pub report_url: Option<String>,
    pub ignore_blacklist: bool,
    /// Chunks of this experiment that have not completed yet.
    pub children: u32,
}

/// What an [`Experiment`] holds, as plain values.
pub struct ExperimentView {
    pub name: Seq<char>,
    pub crates: Seq<ExperimentCrateView>,
    pub toolchains: (Seq<char>, Seq<char>),
    pub mode: Mode,
    pub cap_lints: CapLints,
    pub priority: i32,
    pub created_at: Timestamp,
    pub started_at: Option<Timestamp>,
    pub completed_at: Option<Timestamp>,
    pub github_issue: Option<GitHubIssueView>,
    pub status: Status,
    pub assigned_to: Option<AssigneeView>,
    pub report_url: Option<Seq<char>>,
    pub ignore_blacklist: bool,
    pub children: u32,
}

impl View for Experiment {
    type V = ExperimentView;

    open spec fn view(&self) -> ExperimentView {
        ExperimentView {
            name: self.name@,
            crates: self.crates.deep_view(),
            toolchains: (self.toolchains[0]@, self.toolchains[1]@),
            mode: self.mode,
            cap_lints: self.cap_lints,
            priority: self.priority,
            created_at: self.created_at,
            started_at: self.started_at,
            completed_at: self.completed_at,
            github_issue: match self.github_issue {
                Some(issue) => Some(issue@),
                None => None,
            },
            status: self.status,
            assigned_to: match self.assigned_to {
                Some(assignee) => Some(assignee@),
                None => None,
            },
            report_url: match self.report_url {
                Some(url) => Some(url@),
                None => None,
            },
            ignore_blacklist: self.ignore_blacklist,
            children: self.children,
        }
    }
}

impl DeepView for Experiment {
    type V = ExperimentView;

    open spec fn deep_view(&self) -> ExperimentView {
        self@
    }
}

impl Record for Experiment {
    open spec fn record(&self) -> ExperimentView {
        self@
    }

    open spec fn parent(&self) -> Option<Seq<char>> {
        None
    }

    fn experiment(&self) -> (ex: &Experiment) {
        self
    }

    fn parent_name(&self) -> (name: Option<&String>) {
        None
    }

    fn change(&mut self, update: &Update) {
        update.apply(self);
    }
}

impl Clone for Experiment {
    fn clone(&self) -> (copy: Experiment)
        ensures
            copy@ == self@,
    {
        Experiment {
            name: self.name.clone(),
            crates: clone_crates(&self.crates),
            toolchains: [self.toolchains[0].clone(), self.toolchains[1].clone()],
            mode: self.mode,
            cap_lints: self.cap_lints,
            priority: self.priority,
            created_at: self.created_at,
            started_at: self.started_at,
            completed_at: self.completed_at,
            github_issue: match &self.github_issue {
                Some(issue) => Some(issue.clone()),
                None => None,
            },
            status: self.status,
            assigned_to: match &self.assigned_to {
                Some(assignee) => Some(assignee.clone()),
                None => None,
            },
            report_url: match &self.report_url {
                Some(url) => Some(url.clone()),
                None => None,
            },
            ignore_blacklist: self.ignore_blacklist,
            children: self.children,
        }
    }
}

/// The crates that are not skipped.
pub open spec fn not_skipped() -> spec_fn(ExperimentCrateView) -> bool {
    |c: ExperimentCrateView| !c.skipped
}

/// Number of crates of a list that are not skipped.
pub open spec fn unskipped(crates: Seq<ExperimentCrateView>) -> nat {
    count_where(crates, not_skipped())
}

/// The crates for which fewer than two results of `experiment` are stored,
/// that is, which have not run with both toolchains yet.
pub open spec fn incomplete_in(results: Seq<ResultRow>, experiment: Seq<char>) -> spec_fn(
    ExperimentCrateView,
) -> bool {
    |c: ExperimentCrateView| count_where(results, result_of_crate(experiment, c.krate)) < 2
}

/// Number of results stored for the experiment named `name`, and twice the
/// number of crates that the store lists for it without skipping them: the
/// results that are there, and those that are expected.
pub open spec fn raw_progress_of(db: Database, name: Seq<char>) -> (nat, nat) {
    let at = first_match(db@.experiments, named(name));
    (
        count_where(db.results.results@, result_of(name)),
        if at < db@.experiments.len() {
            2 * unskipped(db@.experiments[at].crates)
        } else {
            0
        },
    )
}

/// The share of `results` in `total`, in percent, rounded up; 0 where
/// `total` is 0, and 255 where the share is larger than that.
pub open spec fn percent(results: nat, total: nat) -> int {
    if total == 0 {
        0
    } else if (100 * results + total - 1) / (total as int) > 255 {
        255
    } else {
        (100 * results + total - 1) / (total as int)
    }
}

/// Drops from a list of crates those for which two results or more are
/// stored under the name `experiment`.
pub fn prune_completed(crates: &mut Vec<ExperimentCrate>, results: &DatabaseDB, experiment: &String)
    ensures
        final(crates).deep_view() == old(crates).deep_view().filter(
            incomplete_in(results.results@, experiment@),
        ),
{
    let ghost keep = incomplete_in(results.results@, experiment@);
    let ghost all = crates.deep_view();
    let ghost mut seen: int = 0;
    let mut at: usize = 0;
    while at < crates.len()
        invariant
            0 <= seen <= all.len(),
            at == all.take(seen).filter(keep).len(),
            crates.deep_view() == all.take(seen).filter(keep) + all.skip(seen),
            keep == incomplete_in(results.results@, experiment@),
        decreases crates.len() - at,
    {
        assert(crates@[at as int]@ == crates.deep_view()[at as int]);
        let done = results.count_results_of_crate(experiment, &crates[at].krate) >= 2;
        assert(done == !keep(all[seen]));
        proof {
            reveal(Seq::filter);
            assert(all.take(seen + 1).drop_last() =~= all.take(seen));
        }
        if done {
            let ghost before = *crates;
            crates.remove(at);
            assert(crates@ == before@.remove(at as int));
            assert forall|j: int| 0 <= j < crates.len() implies #[trigger] crates.deep_view()[j]
                == before.deep_view().remove(at as int)[j] by {
                if j < at {
                    assert(crates@[j] == before@[j]);
                } else {
                    assert(crates@[j] == before@[j + 1]);
                }
            }
            assert(crates.deep_view() =~= before.deep_view().remove(at as int));
            assert(crates.deep_view() =~= all.take(seen + 1).filter(keep) + all.skip(seen + 1));
        } else {
            assert(crates.deep_view() =~= all.take(seen + 1).filter(keep) + all.skip(seen + 1));
            at += 1;
        }
        proof {
            seen = seen + 1;
        }
    }
    proof {
        assert(all.take(seen) =~= all);
        assert(crates.deep_view() =~= all.filter(keep));
    }
}

impl Experiment {
    /// Position in `db.experiments` of the first experiment named `name`, or
    /// the length of the table where there is none.
    pub fn find_by_name(db: &Database, name: &String) -> (at: usize)
        ensures
            at == first_match(db@.experiments, named(name@)),
            at <= db.experiments@.len(),
            at < db.experiments@.len() ==> db.experiments@[at as int].name@ == name@,
    {
        position_named(&db.experiments, name)
    }

    /// Whether an experiment with this name is in the store.
    pub fn exists_named(db: &Database, name: &str) -> (found: bool)
        ensures
            found == (first_match(db@.experiments, named(name@)) < db@.experiments.len()),
    {
        let name = String::from_str(name);
        Self::find_by_name(db, &name) < db.experiments.len()
    }

    /// The experiment with this name, if the store holds one.
    pub fn get(db: &Database, name: &str) -> (found: Option<Experiment>)
        ensures
            match found {
                Some(ex) => first_match(db@.experiments, named(name@)) < db@.experiments.len()
                    && ex@ == db@.experiments[first_match(db@.experiments, named(name@))],
                None => first_match(db@.experiments, named(name@)) == db@.experiments.len(),
            },
    {
        let name = String::from_str(name);
        let at = Self::find_by_name(db, &name);
        if at < db.experiments.len() {
            Some(db.experiments[at].clone())
        } else {
            None
        }
    }

    /// The experiment that `assignee` is running, if any.
    pub fn run_by(db: &Database, assignee: &Assignee) -> (found: Option<Experiment>)
        ensures
            match found {
                Some(ex) => first_match(db@.experiments, run_by(assignee@))
                    < db@.experiments.len() && ex@ == db@.experiments[first_match(
                    db@.experiments,
                    run_by(assignee@),
                )],
                None => first_match(db@.experiments, run_by(assignee@)) == db@.experiments.len(),
            },
    {
        let at = position_run_by(&db.experiments, assignee);
        if at < db.experiments.len() {
            Some(db.experiments[at].clone())
        } else {
            None
        }
    }

    /// The positions in `db.experiments` of the experiments that are not
    /// completed, in the order in which they are listed.
    pub fn unfinished_positions(db: &Database) -> (order: Vec<usize>)
        ensures
            lists_unfinished(db@.experiments, order@.map_values(|i: usize| i as int)),
    {
        let ghost rows = db@.experiments;
        let mut order: Vec<usize> = Vec::new();
        let mut i: usize = 0;
        while i < db.experiments.len()
            invariant
                i <= db.experiments.len(),
                rows == db@.experiments,
                forall|k: int|
                    0 <= k < order.len() ==> 0 <= #[trigger] order@[k] < i && rows[order@[k] as int].status
                        != Status::Completed,
                forall|a: int, b: int|
                    0 <= a < b < order.len() ==> listed_before(
                        rows,
                        #[trigger] order@[a] as int,
                        #[trigger] order@[b] as int,
                    ),
                forall|j: int|
                    0 <= j < i && (#[trigger] rows[j]).status != Status::Completed ==> exists|
                        k: int,
                    |
                        0 <= k < order.len() && #[trigger] order@[k] == j,
            decreases db.experiments.len() - i,
        {
            let row = &db.experiments[i];
            assert(row@ == rows[i as int]);
            if row.status != Status::Completed {
                let mut at: usize = 0;
                while at < order.len() && !Self::goes_first(row, &db.experiments[order[at]])
                    invariant
                        at <= order.len(),
                        i < db.experiments.len(),
                        rows == db@.experiments,
                        row@ == rows[i as int],
                        forall|k: int| 0 <= k < order.len() ==> 0 <= #[trigger] order@[k] < i,
                        forall|k: int|
                            0 <= k < at ==> !precedes(
                                rows[i as int].slot(),
                                rows[#[trigger] order@[k] as int].slot(),
                            ),
                    decreases order.len() - at,
                {
                    at += 1;
                }
                let ghost before = order@;
                order.insert(at, i);
                proof {
                    assert forall|a: int, b: int| 0 <= a < b < order.len() implies listed_before(
                        rows,
                        #[trigger] order@[a] as int,
                        #[trigger] order@[b] as int,
                    ) by {
                        if b < at {
                            assert(order@[a] == before[a] && order@[b] == before[b]);
                        } else if b == at {
                            assert(order@[a] == before[a]);
                        } else if a < at {
                            assert(order@[a] == before[a] && order@[b] == before[b - 1]);
                        } else if a == at {
                            assert(order@[b] == before[b - 1]);
                            if b - 1 > at {
                                assert(listed_before(rows, before[at as int] as int, before[b - 1] as int));
                            }
                        } else {
                            assert(order@[a] == before[a - 1] && order@[b] == before[b - 1]);
                        }
                    }
                    assert forall|j: int|
                        0 <= j < i + 1 && (#[trigger] rows[j]).status
                            != Status::Completed implies exists|k: int|
                        0 <= k < order.len() && #[trigger] order@[k] == j by {
                        if j < i {
                            let k = choose|k: int| 0 <= k < before.len() && #[trigger] before[k] == j;
                            if k < at {
                                assert(order@[k] == j);
                            } else {
                                assert(order@[k + 1] == j);
                            }
                        } else {
                            assert(order@[at as int] == j);
                        }
                    }
                    assert forall|k: int| 0 <= k < order.len() implies 0 <= #[trigger] order@[k]
                        < i + 1 && rows[order@[k] as int].status != Status::Completed by {
                        if k < at {
                            assert(order@[k] == before[k]);
                        } else if k > at {
                            assert(order@[k] == before[k - 1]);
                        }
                    }
                }
            }
            i += 1;
        }
        proof {
            let ints = order@.map_values(|i: usize| i as int);
            assert forall|j: int|
                0 <= j < rows.len() && (#[trigger] rows[j]).status
                    != Status::Completed implies exists|k: int|
                0 <= k < ints.len() && #[trigger] ints[k] == j by {
                let k = choose|k: int| 0 <= k < order.len() && #[trigger] order@[k] == j;
                assert(ints[k] == j);
            }
        }
        order
    }

    fn goes_first(row: &Experiment, other: &Experiment) -> (first: bool)
        ensures
            first == precedes(row@.slot(), other@.slot()),
    {
        row.priority > other.priority || (row.priority == other.priority
            && row.created_at.is_before(&other.created_at))
    }

    /// The experiments that are not completed: the higher priority first and,
    /// at the same priority, the older first.
    pub fn unfinished(db: &Database) -> (found: Vec<Experiment>)
        ensures
            exists|order: Seq<int>|
                {
                    &&& lists_unfinished(db@.experiments, order)
                    &&& #[trigger] order.len() == found.len()
                    &&& forall|k: int|
                        0 <= k < order.len() ==> (#[trigger] found@[k])@
                            == db@.experiments[order[k]]
                },
    {
        let order = Self::unfinished_positions(db);
        let ghost ints = order@.map_values(|i: usize| i as int);
        let mut found: Vec<Experiment> = Vec::new();
        let mut k: usize = 0;
        while k < order.len()
            invariant
                k <= order.len(),
                found.len() == k,
                ints == order@.map_values(|i: usize| i as int),
                lists_unfinished(db@.experiments, ints),
                forall|j: int| 0 <= j < k ==> (#[trigger] found@[j])@ == db@.experiments[ints[j]],
            decreases order.len() - k,
        {
            assert(0 <= ints[k as int] < db@.experiments.len());
            found.push(db.experiments[order[k]].clone());
            k += 1;
        }
        assert(ints.len() == found.len());
        found
    }

    /// The experiment to pick among those with the status `status`: the one
    /// of highest priority and, at the same priority, the oldest.
    pub fn first_by_status(db: &Database, status: Status) -> (found: Option<Experiment>)
        ensures
            match (found, first_with_status(slots_of(db@.experiments), status)) {
                (Some(ex), Some(i)) => ex@ == db@.experiments[i],
                (None, None) => true,
                _ => false,
            },
    {
        let at = position_first_by_status(&db.experiments, status);
        if at < db.experiments.len() {
            Some(db.experiments[at].clone())
        } else {
            None
        }
    }

    /// Sets the status of the experiment, in the store and in this record.
    /// The first time the experiment becomes running, `now` is recorded as
    /// its start. When it leaves `Running` for anything but `Failed`, or
    /// becomes `Completed`, `now` is recorded as the end of its run, unless
    /// one was recorded before.
    pub fn set_status(&mut self, db: &mut Database, status: Status, now: Timestamp)
        ensures
            final(self)@ == old(self)@.with_status(old(self)@, status, now),
            final(db)@.experiments == map_named(
                old(db)@.experiments,
                old(self)@.name,
                setting_status(old(self)@, status, now),
            ),
            final(db).results == old(db).results,
            final(db).chunks == old(db).chunks,
    {
        db.update_experiment(&self.name, &Update::Status(status));
        if status == Status::Running && self.started_at.is_none() {
            db.update_experiment(&self.name, &Update::StartedAt(now));
            self.started_at = Some(now);
        } else if self.completed_at.is_none() && ((self.status == Status::Running && status
            != Status::Failed) || status == Status::Completed) {
            db.update_experiment(&self.name, &Update::CompletedAt(now));
            self.completed_at = Some(now);
        }
        self.status = status;
        assert(db@.experiments =~= map_named(
            old(db)@.experiments,
            old(self)@.name,
            setting_status(old(self)@, status, now),
        ));
    }

    /// Counts one more completed chunk, and says whether there was one to
    /// count. When none is left outstanding, an experiment that is running
    /// needs its report; an experiment that has failed stays failed. Where
    /// no chunk was outstanding nothing is counted: the record and the store
    /// stay as they are.
    pub fn complete_children(&mut self, db: &mut Database, now: Timestamp) -> (counted: bool)
        ensures
            counted == (old(self).children > 0),
            !counted ==> *final(self) == *old(self) && *final(db) == *old(db),
            final(self)@ == old(self)@.with_completed_child(old(self)@, now),
            final(db)@.experiments == map_named(
                old(db)@.experiments,
                old(self)@.name,
                completing_child(old(self)@, now),
            ),
            final(db).results == old(db).results,
            final(db).chunks == old(db).chunks,
    {
        if self.children == 0 {
            assert(db@.experiments =~= map_named(
                old(db)@.experiments,
                old(self)@.name,
                completing_child(old(self)@, now),
            ));
            return false;
        }
        self.children -= 1;
        db.update_experiment(&self.name, &Update::Children(self.children));
        if self.children == 0 && self.status == Status::Running {
            self.set_status(db, Status::NeedsReport, now);
        }
        assert(db@.experiments =~= map_named(
            old(db)@.experiments,
            old(self)@.name,
            completing_child(old(self)@, now),
        ));
        true
    }

    /// Says who runs the experiment, or that no one does, in the store and in
    /// this record.
    pub fn set_assigned_to(&mut self, db: &mut Database, assigned_to: Option<&Assignee>)
        ensures
            final(self)@ == (ExperimentView {
                assigned_to: assignee_view(assigned_to),
                ..old(self)@
            }),
            final(db)@.experiments == map_named(
                old(db)@.experiments,
                old(self)@.name,
                assigning(assignee_view(assigned_to)),
            ),
            final(db).results == old(db).results,
            final(db).chunks == old(db).chunks,
    {
        let update = Update::AssignedTo(
            match assigned_to {
                Some(a) => Some(a.clone()),
                None => None,
            },
        );
        db.update_experiment(&self.name, &update);
        update.apply(self);
        assert(db@.experiments =~= map_named(
            old(db)@.experiments,
            old(self)@.name,
            assigning(assignee_view(assigned_to)),
        ));
    }

    /// Records where the report of the experiment is, in the store and in
    /// this record.
    pub fn set_report_url(&mut self, db: &mut Database, url: &str)
        ensures
            final(self)@ == (ExperimentView { report_url: Some(url@), ..old(self)@ }),
            final(db)@.experiments == map_named(
                old(db)@.experiments,
                old(self)@.name,
                |row: ExperimentView| ExperimentView { report_url: Some(url@), ..row },
            ),
            final(db).results == old(db).results,
            final(db).chunks == old(db).chunks,
    {
        let update = Update::ReportUrl(String::from_str(url));
        db.update_experiment(&self.name, &update);
        update.apply(self);
        assert(db@.experiments =~= map_named(
            old(db)@.experiments,
            old(self)@.name,
            |row: ExperimentView| ExperimentView { report_url: Some(url@), ..row },
        ));
    }

    /// Number of results stored for the experiment, and number of crates
    /// that the store lists for it without skipping them.
    fn counts(&self, db: &Database) -> (counts: (usize, usize))
        ensures
            counts.0 == raw_progress_of(*db, self.name@).0,
            2 * counts.1 == raw_progress_of(*db, self.name@).1,
    {
        let results_len = db.results.count_results(&self.name);
        let at = Self::find_by_name(db, &self.name);
        let mut crates_len: usize = 0;
        if at < db.experiments.len() {
            let crates = &db.experiments[at].crates;
            let mut i: usize = 0;
            while i < crates.len()
                invariant
                    i <= crates.len(),
                    crates_len == count_where(crates.deep_view().take(i as int), not_skipped()),
                    crates_len <= i,
                decreases crates.len() - i,
            {
                proof {
                    lemma_count_where_step(crates.deep_view(), not_skipped(), i as int);
                }
                if !crates[i].skipped {
                    crates_len += 1;
                }
                i += 1;
            }
            assert(crates.deep_view().take(i as int) =~= crates.deep_view());
        }
        (results_len, crates_len)
    }

    /// The results stored for the experiment, and the results expected of it:
    /// two for each crate that is not skipped.
    pub fn raw_progress(&self, db: &Database) -> (counts: (u32, u32))
        requires
            raw_progress_of(*db, self.name@).0 <= u32::MAX,
            raw_progress_of(*db, self.name@).1 <= u32::MAX,
        ensures
            counts.0 == raw_progress_of(*db, self.name@).0,
            counts.1 == raw_progress_of(*db, self.name@).1,
    {
        let (results_len, crates_len) = self.counts(db);
        (results_len as u32, (crates_len * 2) as u32)
    }

    /// How far the experiment is, in percent: the share of the results
    /// stored in the results expected, rounded up.
    pub fn progress(&self, db: &Database) -> (share: u8)
        ensures
            share == percent(
                raw_progress_of(*db, self.name@).0,
                raw_progress_of(*db, self.name@).1,
            ),
    {
        let (results_len, crates_len) = self.counts(db);
        if crates_len != 0 {
            let total: u128 = 2 * (crates_len as u128);
            let share: u128 = (100 * (results_len as u128) + total - 1) / total;
            if share > 255 {
                255
            } else {
                share as u8
            }
        } else {
            0
        }
    }

    /// Drops from this record the crates that have run with both
    /// toolchains: those for which two results or more are stored.
    pub fn remove_completed_crates(&mut self, db: &Database)
        ensures
            final(self)@ == (ExperimentView {
                crates: old(self)@.crates.filter(incomplete_in(db.results.results@, old(self).name@)),
                ..old(self)@
            }),
    {
        let name = self.name.clone();
        prune_completed(&mut self.crates, &db.results, &name);
    }

    /// Hands work to `assignee`: the experiment they are running, or else
    /// the next queued one, which starts running for them at the time `now`.
    pub fn next(db: &mut Database, assignee: &Assignee, now: Timestamp) -> (found: Option<
        (bool, Experiment),
    >)
        ensures
            final(db)@.experiments == next_handout(old(db)@.experiments, assignee@, now).rows,
            final(db).results == old(db).results,
            final(db).chunks == old(db).chunks,
            match (found, next_handout(old(db)@.experiments, assignee@, now).outcome) {
                (Some((new, ex)), Some(given)) => new == given.is_new && ex@ == given.experiment,
                (None, None) => true,
                _ => false,
            },
    {
        let running = position_run_by(&db.experiments, assignee);
        if running < db.experiments.len() {
            return Some((false, db.experiments[running].clone()));
        }
        let at = position_first_by_status(&db.experiments, Status::Queued);
        if at < db.experiments.len() {
            let mut experiment = db.experiments[at].clone();
            let ghost row = experiment@;
            experiment.set_status(db, Status::Running, now);
            experiment.set_assigned_to(db, Some(assignee));
            assert(db@.experiments =~= map_named(
                old(db)@.experiments,
                row.name,
                handing_to(row, assignee@, now),
            ));
            Some((true, experiment))
        } else {
            None
        }
    }
}

} // verus!
