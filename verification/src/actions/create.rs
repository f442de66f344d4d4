//! Creating an experiment.

use vstd::prelude::*;
use vstd::string::StringExecFns;
use crate::actions::{flag_crates, flagged};
use crate::config::Config;
use crate::crates::Crate;
use crate::db::{named, Database};
use crate::errors::{ErrorKind, ErrorKindView};
use crate::experiments::table::{parents, records};
use crate::experiments::{
    clone_crates_range, CapLints, Experiment, ExperimentChunk, ExperimentView, GitHubIssue, Mode,
    Status,
};
use crate::text::{decimal, push_decimal};
use crate::seqs::first_match;
use crate::time::Timestamp;
use crate::toolchain::Toolchain;

verus! {

/// An experiment to put in the queue.
#[derive(Debug)]
pub struct CreateExperiment {
    pub name: String,
    pub toolchains: [Toolchain; 2],
    pub mode: Mode,
    pub crates: Vec<Crate>,
    pub cap_lints: CapLints,
    pub priority: i32,
    pub github_issue: Option<GitHubIssue>,
    pub ignore_blacklist: bool,
}

/// In how many chunks a number of crates is handed out, at most `size` crates
/// in each. An experiment without crates has one chunk, without crates.
pub open spec fn chunk_count(crates: nat, size: nat) -> nat {
    if crates == 0 {
        1
    } else {
        ((crates + size - 1) / (size as int)) as nat
    }
}

/// The chunk number `k` of an experiment, counted from 0: queued like its
/// parent, on the crates from position `k * size` on, `size` of them or as
/// many as are left. Its name is the name of the parent, a hyphen and `k`.
pub open spec fn chunk(parent: ExperimentView, size: nat, k: int) -> ExperimentView {
    let from = k * size;
    let to = if from + size < parent.crates.len() {
        from + size
    } else {
        parent.crates.len() as int
    };
    ExperimentView {
        name: parent.name + "-"@ + decimal(k as nat),
        crates: parent.crates.subrange(from, to),
        ..parent
    }
}

/// The first `n` chunks of an experiment.
pub open spec fn chunks(parent: ExperimentView, size: nat, n: nat) -> Seq<ExperimentView> {
    Seq::new(n, |k: int| chunk(parent, size, k))
}

/// `n` times the name of the parent of a chunk.
pub open spec fn chunk_parents(parent: Seq<char>, n: nat) -> Seq<Option<Seq<char>>> {
    Seq::new(n, |k: int| Some(parent))
}

impl CreateExperiment {
    /// An experiment without crates that compares the stable release with
    /// the beta release.
    pub fn dummy(name: &str) -> (create: CreateExperiment)
        ensures
            create.name@ == name@,
            create.toolchains[0]@ == "stable"@,
            create.toolchains[1]@ == "beta"@,
            create.mode == Mode::BuildAndTest,
            create.crates@.len() == 0,
            create.cap_lints == CapLints::Forbid,
            create.priority == 0,
            create.github_issue is None,
            !create.ignore_blacklist,
    {
        CreateExperiment {
            name: String::from_str(name),
            toolchains: [Toolchain::main(), Toolchain::test()],
            mode: Mode::BuildAndTest,
            crates: Vec::new(),
            cap_lints: CapLints::Forbid,
            priority: 0,
            github_issue: None,
            ignore_blacklist: false,
        }
    }

    /// Why the experiment is not created, if it is not: its name is taken,
    /// or its two toolchains are the same.
    pub open spec fn refusal(self, rows: Seq<ExperimentView>) -> Option<ErrorKindView> {
        if first_match(rows, named(self.name@)) < rows.len() {
            Some(ErrorKindView::ExperimentAlreadyExists(self.name@))
        } else if self.toolchains[0]@ == self.toolchains[1]@ {
            Some(ErrorKindView::DuplicateToolchains)
        } else {
            None
        }
    }

    /// The row of the new experiment: queued, created at the time `now`,
    /// assigned to no one, with no chunk outstanding.
    pub open spec fn row(self, config: Config, now: Timestamp) -> ExperimentView {
        ExperimentView {
            name: self.name@,
            crates: flagged(self.crates@, config),
            toolchains: (self.toolchains[0]@, self.toolchains[1]@),
            mode: self.mode,
            cap_lints: self.cap_lints,
            priority: self.priority,
            created_at: now,
            started_at: None,
            completed_at: None,
            github_issue: match self.github_issue {
                Some(issue) => Some(issue@),
                None => None,
            },
            status: Status::Queued,
            assigned_to: None,
            report_url: None,
            ignore_blacklist: self.ignore_blacklist,
            children: 0,
        }
    }

    /// Puts the experiment at the end of the table of experiments. An
    /// experiment that is refused leaves the store as it is.
    pub fn apply(self, db: &mut Database, config: &Config, now: Timestamp) -> (done: Result<
        (),
        ErrorKind,
    >)
        ensures
            match done {
                Ok(()) => {
                    &&& self.refusal(old(db)@.experiments) is None
                    &&& final(db)@.experiments == old(db)@.experiments.push(
                        self.row(*config, now),
                    )
                    &&& final(db).results == old(db).results
                    &&& final(db).chunks == old(db).chunks
                },
                Err(e) => self.refusal(old(db)@.experiments) == Some(e@) && *final(db) == *old(db),
            },
    {
        if Experiment::find_by_name(db, &self.name) < db.experiments.len() {
            return Err(ErrorKind::ExperimentAlreadyExists(self.name));
        }
        if self.toolchains[0] == self.toolchains[1] {
            return Err(ErrorKind::DuplicateToolchains);
        }
        let crates = flag_crates(&self.crates, config);
        let ghost row = self.row(*config, now);
        let experiment = Experiment {
            name: self.name,
            crates,
            toolchains: self.toolchains,
            mode: self.mode,
            cap_lints: self.cap_lints,
            priority: self.priority,
            created_at: now,
            started_at: None,
            completed_at: None,
            github_issue: self.github_issue,
            status: Status::Queued,
            assigned_to: None,
            report_url: None,
            ignore_blacklist: self.ignore_blacklist,
            children: 0,
        };
        assert(experiment@ == row);
        db.experiments.push(experiment);
        assert(db@.experiments =~= old(db)@.experiments.push(row));
        Ok(())
    }

    /// Puts the experiment at the end of the table of experiments, and its
    /// chunks at the end of the table of chunks: as many as it takes to hand
    /// out the crates with at most `chunk_size` crates in each. The
    /// experiment waits for that many chunks to complete. An experiment that
    /// is refused leaves the store as it is.
    pub fn apply_chunked(
        self,
        db: &mut Database,
        config: &Config,
        now: Timestamp,
        chunk_size: usize,
    ) -> (done: Result<u32, ErrorKind>)
        requires
            chunk_size > 0,
            self.crates@.len() <= u32::MAX,
        ensures
            match done {
                Ok(n) => {
                    &&& self.refusal(old(db)@.experiments) is None
                    &&& n == chunk_count(self.crates@.len(), chunk_size as nat)
                    &&& final(db)@.experiments == old(db)@.experiments.push(
                        ExperimentView { children: n, ..self.row(*config, now) },
                    )
                    &&& final(db)@.chunks == old(db)@.chunks + chunks(
                        self.row(*config, now),
                        chunk_size as nat,
                        n as nat,
                    )
                    &&& final(db)@.chunk_parents == old(db)@.chunk_parents + chunk_parents(
                        self.name@,
                        n as nat,
                    )
                    &&& final(db).results == old(db).results
                },
                Err(e) => self.refusal(old(db)@.experiments) == Some(e@) && *final(db) == *old(db),
            },
    {
        if Experiment::find_by_name(db, &self.name) < db.experiments.len() {
            return Err(ErrorKind::ExperimentAlreadyExists(self.name));
        }
        if self.toolchains[0] == self.toolchains[1] {
            return Err(ErrorKind::DuplicateToolchains);
        }
        let crates = flag_crates(&self.crates, config);
        assert(crates.deep_view().len() == crates.len());
        let ghost row = self.row(*config, now);
        let ghost size = chunk_size as nat;
        let mut experiment = Experiment {
            name: self.name,
            crates,
            toolchains: self.toolchains,
            mode: self.mode,
            cap_lints: self.cap_lints,
            priority: self.priority,
            created_at: now,
            started_at: None,
            completed_at: None,
            github_issue: self.github_issue,
            status: Status::Queued,
            assigned_to: None,
            report_url: None,
            ignore_blacklist: self.ignore_blacklist,
            children: 0,
        };
        assert(experiment@ == row);
        let len = experiment.crates.len();
        let mut k: usize = 0;
        let mut from: usize = 0;
        while k == 0 || from < len
            invariant
                chunk_size > 0,
                size == chunk_size,
                len == experiment.crates.len(),
                len == row.crates.len(),
                len <= u32::MAX,
                experiment@ == row,
                k <= from || from == len,
                k <= len || k <= 1,
                from <= len,
                from == if k * size < len {
                    k * size
                } else {
                    len as int
                },
                k > 0 ==> (k - 1) * size < len || len == 0,
                k > 1 ==> (k - 1) * size < len,
                records(db.chunks@) == records(old(db).chunks@) + chunks(row, size, k as nat),
                parents(db.chunks@) == parents(old(db).chunks@) + chunk_parents(
                    row.name,
                    k as nat,
                ),
                db.experiments == old(db).experiments,
                db.results == old(db).results,
            decreases
                    len - from + if k == 0 {
                        1int
                    } else {
                        0int
                    },
        {
            let to = if chunk_size < len - from {
                from + chunk_size
            } else {
                len
            };
            let mut name = experiment.name.clone();
            name.append("-");
            push_decimal(&mut name, k as u64);
            let mut part = experiment.clone();
            part.name = name;
            part.crates = clone_crates_range(&experiment.crates, from, to);
            proof {
                assert(from == k * size) by (nonlinear_arith)
                    requires
                        from == if k * size < len {
                            k * size
                        } else {
                            len as int
                        },
                        k == 0 || from < len,
                        from <= len,
                        size > 0,
                {
                    if k == 0 {
                        assert(k * size == 0);
                    }
                }
                assert((k + 1) * size == k * size + size) by (nonlinear_arith);
                assert(part@ == chunk(row, size, k as int));
            }
            let ghost before = db.chunks@;
            db.chunks.push(ExperimentChunk { parent_name: experiment.name.clone(), experiment: part });
            proof {
                assert(records(db.chunks@) =~= records(before).push(chunk(row, size, k as int)));
                assert(records(db.chunks@) =~= records(old(db).chunks@) + chunks(
                    row,
                    size,
                    (k + 1) as nat,
                ));
                assert(parents(db.chunks@) =~= parents(before).push(Some(row.name)));
                assert(parents(db.chunks@) =~= parents(old(db).chunks@) + chunk_parents(
                    row.name,
                    (k + 1) as nat,
                ));
            }
            k += 1;
            from = to;
        }
        proof {
            if len > 0 {
                assert(k == (len + size - 1) / (size as int)) by (nonlinear_arith)
                    requires
                        (k - 1) * size < len,
                        k * size >= len,
                        size > 0,
                        k > 0,
                ;
            }
        }
        experiment.children = k as u32;
        db.experiments.push(experiment);
        assert(db@.experiments =~= old(db)@.experiments.push(
            ExperimentView { children: k as u32, ..row },
        ));
        Ok(k as u32)
    }
}

/// An experiment that is created has a name that no other experiment has,
/// and two different toolchains: a table in which the names are unique and
/// the toolchains of each experiment differ stays such a table.
pub proof fn lemma_create_keeps_the_table_valid(
    create: CreateExperiment,
    rows: Seq<ExperimentView>,
    config: Config,
    now: Timestamp,
)
    requires
        create.refusal(rows) is None,
        crate::experiments::names_are_unique(rows),
        forall|i: int| 0 <= i < rows.len() ==> (#[trigger] rows[i]).toolchains.0
            != rows[i].toolchains.1,
    ensures
        crate::experiments::names_are_unique(rows.push(create.row(config, now))),
        forall|i: int|
            0 <= i < rows.len() + 1 ==> (#[trigger] rows.push(create.row(config, now))[i]).toolchains.0
                != rows.push(create.row(config, now))[i].toolchains.1,
{
    let after = rows.push(create.row(config, now));
    crate::seqs::lemma_first_match(rows, named(create.name@));
    assert forall|i: int, j: int|
        0 <= i < after.len() && 0 <= j < after.len() && (#[trigger] after[i]).name == (
        #[trigger] after[j]).name implies i == j by {
        if i < rows.len() && j < rows.len() {
            assert(rows[i].name == rows[j].name);
        } else if i < rows.len() {
            assert(named(create.name@)(rows[i]));
        } else if j < rows.len() {
            assert(named(create.name@)(rows[j]));
        }
    }
    assert forall|i: int| 0 <= i < rows.len() + 1 implies (#[trigger] after[i]).toolchains.0
        != after[i].toolchains.1 by {
        if i < rows.len() {
            assert(after[i] == rows[i]);
        }
    }
}

} // verus!
