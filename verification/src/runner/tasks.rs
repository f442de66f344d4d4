//! The tasks of a run: preparing a crate, and running it with a toolchain.

use vstd::prelude::*;
use vstd::string::{StrSliceExecFns, StringExecFns};
use crate::crates::{Crate, CrateView};
use crate::experiments::{ExperimentChunk, Mode};
use crate::results::db::{DatabaseDB, ResultKey, StoredResult};
use crate::results::TestResult;
use crate::seqs::put;
use crate::toolchain::Toolchain;

verus! {

/// What a task does to its crate.
#[derive(Debug)]
pub enum TaskStep {
    /// Fetches the source and gets it ready.
    Prepare,
    /// Runs what the mode of the experiment asks for with one toolchain.
    Execute { mode: Mode, tc: Toolchain, quiet: bool },
}

/// One step on one crate.
#[derive(Debug)]
pub struct Task {
    pub krate: Crate,
    pub step: TaskStep,
}

/// What a [`TaskStep`] holds, as plain values.
pub enum TaskStepView {
    Prepare,
    Execute { mode: Mode, tc: Seq<char>, quiet: bool },
}

/// What a [`Task`] holds, as plain values.
pub struct TaskView {
    pub krate: CrateView,
    pub step: TaskStepView,
}

impl View for TaskStep {
    type V = TaskStepView;

    open spec fn view(&self) -> TaskStepView {
        match self {
            TaskStep::Prepare => TaskStepView::Prepare,
            TaskStep::Execute { mode, tc, quiet } => TaskStepView::Execute {
                mode: *mode,
                tc: tc@,
                quiet: *quiet,
            },
        }
    }
}

impl View for Task {
    type V = TaskView;

    open spec fn view(&self) -> TaskView {
        TaskView { krate: self.krate@, step: self.step@ }
    }
}

impl Clone for TaskStep {
    fn clone(&self) -> (copy: TaskStep)
        ensures
            copy@ == self@,
    {
        match self {
            TaskStep::Prepare => TaskStep::Prepare,
            TaskStep::Execute { mode, tc, quiet } => TaskStep::Execute {
                mode: *mode,
                tc: tc.clone(),
                quiet: *quiet,
            },
        }
    }
}

impl Clone for Task {
    fn clone(&self) -> (copy: Task)
        ensures
            copy@ == self@,
    {
        Task { krate: self.krate.clone(), step: self.step.clone() }
    }
}

impl TaskStepView {
    /// The toolchain that the step runs with, if it runs with one.
    pub open spec fn toolchain(self) -> Option<Seq<char>> {
        match self {
            TaskStepView::Prepare => None,
            TaskStepView::Execute { tc, .. } => Some(tc),
        }
    }

    /// What the step is called in messages.
    pub open spec fn description(self) -> Seq<char> {
        match self {
            TaskStepView::Prepare => "prepare"@,
            TaskStepView::Execute { mode, tc, quiet } => match mode {
                Mode::UnstableFeatures => "find unstable features on "@ + tc,
                _ => (match mode {
                    Mode::BuildAndTest => "build and test "@,
                    Mode::BuildOnly => "build "@,
                    Mode::CheckOnly => "check "@,
                    Mode::Clippy => "clippy "@,
                    _ => "doc "@,
                }) + tc + if quiet {
                    " (quiet)"@
                } else {
                    Seq::<char>::empty()
                },
            },
        }
    }
}

impl TaskView {
    /// The key under which the result of the task is stored for the
    /// experiment named `experiment`, if the task has a result.
    pub open spec fn result_key(self, experiment: Seq<char>) -> Option<ResultKey> {
        match self.step.toolchain() {
            Some(tc) => Some(ResultKey { experiment, krate: self.krate, toolchain: tc }),
            None => None,
        }
    }

    /// Whether the task is still to be run for the experiment named
    /// `experiment`: preparing always is, running with a toolchain is as
    /// long as no result of it is stored.
    pub open spec fn needs_exec(self, experiment: Seq<char>, results: Map<
        ResultKey,
        StoredResult,
    >) -> bool {
        match self.result_key(experiment) {
            Some(key) => !results.dom().contains(key),
            None => true,
        }
    }
}

impl TaskStep {
    /// The toolchain that the step runs with, if it runs with one.
    pub fn toolchain(&self) -> (tc: Option<&Toolchain>)
        ensures
            match tc {
                Some(tc) => self@.toolchain() == Some(tc@),
                None => self@.toolchain() is None,
            },
    {
        match self {
            TaskStep::Prepare => None,
            TaskStep::Execute { tc, .. } => Some(tc),
        }
    }

    /// What the step is called in messages.
    pub fn describe(&self) -> (s: String)
        ensures
            s@ == self@.description(),
    {
        match self {
            TaskStep::Prepare => String::from_str("prepare"),
            TaskStep::Execute { mode, tc, quiet } => {
                let verb = match mode {
                    Mode::UnstableFeatures => "find unstable features on ",
                    Mode::BuildAndTest => "build and test ",
                    Mode::BuildOnly => "build ",
                    Mode::CheckOnly => "check ",
                    Mode::Clippy => "clippy ",
                    Mode::Rustdoc => "doc ",
                };
                let mut s = String::from_str(verb).concat(tc.name.as_str());
                match mode {
                    Mode::UnstableFeatures => {},
                    _ => {
                        if *quiet {
                            s.append(" (quiet)");
                        } else {
                            assert(s@ + Seq::<char>::empty() =~= s@);
                        }
                    },
                }
                s
            },
        }
    }
}

/// The line that opens the log of a task that was not run because it, or a
/// task it depends on, failed.
pub open spec fn failure_notice() -> Seq<char> {
    "the task or one of its parents failed!\n"@
}

impl Task {
    /// What the task is called in messages.
    pub fn describe(&self) -> (s: String)
        ensures
            s@ == self@.step.description() + " of crate "@ + self.krate.display(),
    {
        self.step.describe().concat(" of crate ").concat(self.krate.to_string().as_str())
    }

    /// Whether the task is still to be run for a chunk.
    pub fn needs_exec(&self, ex: &ExperimentChunk, db: &DatabaseDB) -> (needed: bool)
        ensures
            needed == self@.needs_exec(ex.parent_name@, db@.results),
    {
        match self.step.toolchain() {
            None => true,
            Some(tc) => db.result_for(&ex.parent_name, tc, &self.krate).is_none(),
        }
    }

    /// Records `result` as the result of the task for a chunk, where the
    /// task has a result: a task that prepares a crate has none. The log
    /// holds the notice of the failure, and then `error`.
    pub fn mark_as_failed(
        &self,
        ex: &ExperimentChunk,
        db: &mut DatabaseDB,
        error: &str,
        result: TestResult,
    )
        ensures
            final(db).shas == old(db).shas,
            final(db)@.results == match self@.result_key(ex.parent_name@) {
                Some(key) => old(db)@.results.insert(
                    key,
                    StoredResult {
                        result,
                        log: vstd::utf8::encode_utf8(failure_notice() + error@),
                    },
                ),
                None => old(db)@.results,
            },
            final(db)@.result_rows == match self@.result_key(ex.parent_name@) {
                Some(key) => put(
                    old(db)@.result_rows,
                    (
                        key,
                        StoredResult {
                            result,
                            log: vstd::utf8::encode_utf8(failure_notice() + error@),
                        },
                    ),
                ),
                None => old(db)@.result_rows,
            },
    {
        match self.step.toolchain() {
            None => {},
            Some(tc) => {
                let text = String::from_str("the task or one of its parents failed!\n").concat(
                    error,
                );
                let log = text.as_str().as_bytes_vec();
                db.store_result(&ex.parent_name, &self.krate, tc, result, log);
            },
        }
    }
}

} // verus!
