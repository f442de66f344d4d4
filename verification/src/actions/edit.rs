//! Editing an experiment that is still queued.

use vstd::prelude::*;
use vstd::string::StringExecFns;
use crate::actions::{flag_crates, flagged};
use crate::config::Config;
use crate::crates::Crate;
use crate::db::{named, Database, Update};
use crate::errors::{ErrorKind, ErrorKindView};
use crate::experiments::{map_named, CapLints, Experiment, ExperimentView, Mode, Status};
use crate::seqs::first_match;
use crate::toolchain::Toolchain;

verus! {

/// The changes to make to the experiment named `name`: each field that is
/// given replaces what the experiment has.
#[derive(Debug)]
pub struct EditExperiment {
    pub name: String,
    pub toolchains: [Option<Toolchain>; 2],
    pub crates: Option<Vec<Crate>>,
    pub mode: Option<Mode>,
    pub cap_lints: Option<CapLints>,
    pub priority: Option<i32>,
}

/// Makes the changes of an edit to a row.
pub open spec fn editing(edit: EditExperiment, config: Config) -> spec_fn(
    ExperimentView,
) -> ExperimentView {
    |row: ExperimentView| edit.edited(row, config)
}

impl EditExperiment {
    /// An edit that changes nothing.
    pub fn dummy(name: &str) -> (edit: EditExperiment)
        ensures
            edit.name@ == name@,
            !edit.has_changes(),
    {
        EditExperiment {
            name: String::from_str(name),
            toolchains: [None, None],
            mode: None,
            crates: None,
            cap_lints: None,
            priority: None,
        }
    }

    /// Whether the edit gives any field.
    pub open spec fn has_changes(self) -> bool {
        ||| self.toolchains[0] is Some
        ||| self.toolchains[1] is Some
        ||| self.crates is Some
        ||| self.mode is Some
        ||| self.cap_lints is Some
        ||| self.priority is Some
    }

    /// The first toolchain of `row` after the edit.
    pub open spec fn start_after(self, row: ExperimentView) -> Seq<char> {
        match self.toolchains[0] {
            Some(tc) => tc@,
            None => row.toolchains.0,
        }
    }

    /// The second toolchain of `row` after the edit.
    pub open spec fn end_after(self, row: ExperimentView) -> Seq<char> {
        match self.toolchains[1] {
            Some(tc) => tc@,
            None => row.toolchains.1,
        }
    }

    /// Whether the edit puts in a toolchain that equals the other one. The
    /// toolchains are put in one after the other, the first before the
    /// second, and each is compared with what the other is at that moment.
    pub open spec fn duplicates(self, row: ExperimentView) -> bool {
        ||| self.toolchains[0] is Some && self.start_after(row) == row.toolchains.1
        ||| self.toolchains[1] is Some && self.end_after(row) == self.start_after(row)
    }

    /// Why the edit is refused, if it is: there is no such experiment, it is
    /// no longer queued, or its toolchains would be the same.
    pub open spec fn refusal(self, rows: Seq<ExperimentView>) -> Option<ErrorKindView> {
        let at = first_match(rows, named(self.name@));
        if at >= rows.len() {
            Some(ErrorKindView::ExperimentNotFound(self.name@))
        } else if rows[at].status != Status::Queued {
            Some(ErrorKindView::CanEditOnlyQueuedExperiments)
        } else if self.duplicates(rows[at]) {
            Some(ErrorKindView::DuplicateToolchains)
        } else {
            None
        }
    }

    /// The row after the edit. A list of crates replaces the one that is
    /// there, whatever that holds.
    pub open spec fn edited(self, row: ExperimentView, config: Config) -> ExperimentView {
        ExperimentView {
            toolchains: (self.start_after(row), self.end_after(row)),
            crates: match self.crates {
                Some(crates) => flagged(crates@, config),
                None => row.crates,
            },
            mode: match self.mode {
                Some(mode) => mode,
                None => row.mode,
            },
            cap_lints: match self.cap_lints {
                Some(cap_lints) => cap_lints,
                None => row.cap_lints,
            },
            priority: match self.priority {
                Some(priority) => priority,
                None => row.priority,
            },
            ..row
        }
    }

    /// The row after the first `k` fields of the edit were put in.
    spec fn edited_upto(self, row: ExperimentView, config: Config, k: int) -> ExperimentView {
        let whole = self.edited(row, config);
        ExperimentView {
            toolchains: (
                if k >= 1 {
                    whole.toolchains.0
                } else {
                    row.toolchains.0
                },
                if k >= 2 {
                    whole.toolchains.1
                } else {
                    row.toolchains.1
                },
            ),
            crates: if k >= 3 {
                whole.crates
            } else {
                row.crates
            },
            mode: if k >= 4 {
                whole.mode
            } else {
                row.mode
            },
            cap_lints: if k >= 5 {
                whole.cap_lints
            } else {
                row.cap_lints
            },
            ..row
        }
    }

    spec fn editing_upto(self, config: Config, k: int) -> spec_fn(ExperimentView) -> ExperimentView {
        |row: ExperimentView| self.edited_upto(row, config, k)
    }

    /// Whether one of the first `k` fields of the edit is given.
    spec fn changes_upto(self, k: int) -> bool {
        ||| k >= 1 && self.toolchains[0] is Some
        ||| k >= 2 && self.toolchains[1] is Some
        ||| k >= 3 && self.crates is Some
        ||| k >= 4 && self.mode is Some
        ||| k >= 5 && self.cap_lints is Some
    }

    /// Makes the edit, and says whether it changed anything. An edit that is
    /// refused leaves the store as it is.
    pub fn apply(self, db: &mut Database, config: &Config) -> (done: Result<bool, ErrorKind>)
        ensures
            match done {
                Ok(changed) => {
                    &&& self.refusal(old(db)@.experiments) is None
                    &&& changed == self.has_changes()
                    &&& final(db)@.experiments == map_named(
                        old(db)@.experiments,
                        self.name@,
                        editing(self, *config),
                    )
                    &&& final(db).results == old(db).results
                    &&& final(db).chunks == old(db).chunks
                },
                Err(e) => self.refusal(old(db)@.experiments) == Some(e@) && *final(db) == *old(db),
            },
    {
        let at = Experiment::find_by_name(db, &self.name);
        if at >= db.experiments.len() {
            return Err(ErrorKind::ExperimentNotFound(self.name));
        }
        let row = &db.experiments[at];
        assert(row@ == old(db)@.experiments[at as int]);
        if row.status != Status::Queued {
            return Err(ErrorKind::CanEditOnlyQueuedExperiments);
        }
        let start_clash = match &self.toolchains[0] {
            Some(tc) => *tc == row.toolchains[1],
            None => false,
        };
        let end_clash = match &self.toolchains[1] {
            Some(tc) => match &self.toolchains[0] {
                Some(start) => *tc == *start,
                None => *tc == row.toolchains[0],
            },
            None => false,
        };
        if start_clash || end_clash {
            return Err(ErrorKind::DuplicateToolchains);
        }
        let ghost rows = db@.experiments;
        let mut has_changed = false;
        match &self.toolchains[0] {
            Some(tc) => {
                db.update_experiment(&self.name, &Update::ToolchainStart(tc.clone()));
                has_changed = true;
            },
            None => {},
        }
        assert(has_changed == self.changes_upto(1));
        assert(db@.experiments =~= map_named(rows, self.name@, self.editing_upto(*config, 1)));
        match &self.toolchains[1] {
            Some(tc) => {
                db.update_experiment(&self.name, &Update::ToolchainEnd(tc.clone()));
                has_changed = true;
            },
            None => {},
        }
        assert(has_changed == self.changes_upto(2));
        assert(db@.experiments =~= map_named(rows, self.name@, self.editing_upto(*config, 2)));
        match &self.crates {
            Some(crates) => {
                db.update_experiment(&self.name, &Update::Crates(flag_crates(crates, config)));
                has_changed = true;
            },
            None => {},
        }
        assert(has_changed == self.changes_upto(3));
        assert(db@.experiments =~= map_named(rows, self.name@, self.editing_upto(*config, 3)));
        match self.mode {
            Some(mode) => {
                db.update_experiment(&self.name, &Update::Mode(mode));
                has_changed = true;
            },
            None => {},
        }
        assert(has_changed == self.changes_upto(4));
        assert(db@.experiments =~= map_named(rows, self.name@, self.editing_upto(*config, 4)));
        match self.cap_lints {
            Some(cap_lints) => {
                db.update_experiment(&self.name, &Update::CapLints(cap_lints));
                has_changed = true;
            },
            None => {},
        }
        assert(has_changed == self.changes_upto(5));
        assert(db@.experiments =~= map_named(rows, self.name@, self.editing_upto(*config, 5)));
        match self.priority {
            Some(priority) => {
                db.update_experiment(&self.name, &Update::Priority(priority));
                has_changed = true;
            },
            None => {},
        }
        assert(db@.experiments =~= map_named(rows, self.name@, editing(self, *config)));
        Ok(has_changed)
    }
}

/// An edit that is made leaves the experiment with two different toolchains,
/// if it had two different toolchains before.
pub proof fn lemma_edit_keeps_toolchains_distinct(
    edit: EditExperiment,
    rows: Seq<ExperimentView>,
    config: Config,
)
    requires
        edit.refusal(rows) is None,
        forall|i: int| 0 <= i < rows.len() ==> (#[trigger] rows[i]).toolchains.0
            != rows[i].toolchains.1,
        crate::experiments::names_are_unique(rows),
    ensures
        forall|i: int|
            0 <= i < rows.len() ==> (#[trigger] map_named(
                rows,
                edit.name@,
                editing(edit, config),
            )[i]).toolchains.0 != map_named(rows, edit.name@, editing(edit, config))[i].toolchains.1,
{
    let at = first_match(rows, named(edit.name@));
    crate::seqs::lemma_first_match(rows, named(edit.name@));
    let after = map_named(rows, edit.name@, editing(edit, config));
    assert forall|i: int| 0 <= i < rows.len() implies (#[trigger] after[i]).toolchains.0
        != after[i].toolchains.1 by {
        if rows[i].name == edit.name@ {
            assert(i == at);
        }
    }
}

} // verus!
