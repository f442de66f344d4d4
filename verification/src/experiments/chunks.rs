//! Chunks: the parts in which an experiment is handed to agents.

use vstd::prelude::*;
use crate::db::{Database, Update};
use crate::experiments::table::{position_first_by_status, position_run_by, Record};
use crate::experiments::{
    incomplete_in, map_named, next_handout, prune_completed, run_by, setting_status,
    handing_to, Assignee, Experiment, ExperimentView, Status,
};
use crate::seqs::first_match;
use crate::time::Timestamp;

verus! {

/// A part of an experiment: a small experiment of its own, on some of the
/// crates of its parent.
#[derive(Debug)]
pub struct ExperimentChunk {
    /// The name of the experiment that this is a chunk of.
    pub parent_name: String,
    /// The chunk itself: its name, its crates, its status and who runs it.
    pub experiment: Experiment,
}

/// What an [`ExperimentChunk`] holds, as plain values.
pub struct ExperimentChunkView {
    pub parent_name: Seq<char>,
    pub experiment: ExperimentView,
}

impl View for ExperimentChunk {
    type V = ExperimentChunkView;

    open spec fn view(&self) -> ExperimentChunkView {
        ExperimentChunkView { parent_name: self.parent_name@, experiment: self.experiment@ }
    }
}

impl Record for ExperimentChunk {
    open spec fn record(&self) -> ExperimentView {
        self.experiment@
    }

    open spec fn parent(&self) -> Option<Seq<char>> {
        Some(self.parent_name@)
    }

    fn experiment(&self) -> (ex: &Experiment) {
        &self.experiment
    }

    fn parent_name(&self) -> (name: Option<&String>) {
        Some(&self.parent_name)
    }

    fn change(&mut self, update: &Update) {
        update.apply(&mut self.experiment);
    }
}

impl Clone for ExperimentChunk {
    fn clone(&self) -> (copy: ExperimentChunk)
        ensures
            copy@ == self@,
    {
        ExperimentChunk {
            parent_name: self.parent_name.clone(),
            experiment: self.experiment.clone(),
        }
    }
}

impl ExperimentChunk {
    /// The chunk that `assignee` is running, if any.
    pub fn run_by(db: &Database, assignee: &Assignee) -> (found: Option<ExperimentChunk>)
        ensures
            match found {
                Some(chunk) => {
                    let at = first_match(db@.chunks, run_by(assignee@));
                    &&& at < db@.chunks.len()
                    &&& chunk.experiment@ == db@.chunks[at]
                    &&& Some(chunk.parent_name@) == db@.chunk_parents[at]
                },
                None => first_match(db@.chunks, run_by(assignee@)) == db@.chunks.len(),
            },
    {
        let at = position_run_by(&db.chunks, assignee);
        if at < db.chunks.len() {
            Some(db.chunks[at].clone())
        } else {
            None
        }
    }

    /// Sets the status of the chunk, in the store and in this record, and
    /// stamps its start and the end of its run as for an experiment.
    pub fn set_status(&mut self, db: &mut Database, status: Status, now: Timestamp)
        ensures
            final(self).experiment@ == old(self).experiment@.with_status(
                old(self).experiment@,
                status,
                now,
            ),
            final(self).parent_name == old(self).parent_name,
            final(db)@.chunks == map_named(
                old(db)@.chunks,
                old(self).experiment@.name,
                setting_status(old(self).experiment@, status, now),
            ),
            final(db)@.chunk_parents == old(db)@.chunk_parents,
            final(db).experiments == old(db).experiments,
            final(db).results == old(db).results,
    {
        db.update_chunk(&self.experiment.name, &Update::Status(status));
        if status == Status::Running && self.experiment.started_at.is_none() {
            db.update_chunk(&self.experiment.name, &Update::StartedAt(now));
            self.experiment.started_at = Some(now);
        } else if self.experiment.completed_at.is_none() && ((self.experiment.status
            == Status::Running && status != Status::Failed) || status == Status::Completed) {
            db.update_chunk(&self.experiment.name, &Update::CompletedAt(now));
            self.experiment.completed_at = Some(now);
        }
        self.experiment.status = status;
        assert(db@.chunks =~= map_named(
            old(db)@.chunks,
            old(self).experiment@.name,
            setting_status(old(self).experiment@, status, now),
        ));
    }

    /// Hands a chunk to `assignee`: the one they are running, or else the
    /// next queued one, which starts running for them at the time `now`.
    pub fn next(db: &mut Database, assignee: &Assignee, now: Timestamp) -> (found: Option<
        (bool, ExperimentChunk),
    >)
        ensures
            final(db)@.chunks == next_handout(old(db)@.chunks, assignee@, now).rows,
            final(db)@.chunk_parents == old(db)@.chunk_parents,
            final(db).experiments == old(db).experiments,
            final(db).results == old(db).results,
            match (found, next_handout(old(db)@.chunks, assignee@, now).outcome) {
                (Some((new, chunk)), Some(given)) => {
                    &&& new == given.is_new
                    &&& chunk.experiment@ == given.experiment
                    &&& 0 <= given.position < old(db)@.chunk_parents.len()
                    &&& Some(chunk.parent_name@) == old(db)@.chunk_parents[given.position]
                },
                (None, None) => true,
                _ => false,
            },
    {
        let running = position_run_by(&db.chunks, assignee);
        if running < db.chunks.len() {
            return Some((false, db.chunks[running].clone()));
        }
        let at = position_first_by_status(&db.chunks, Status::Queued);
        if at < db.chunks.len() {
            let mut chunk = db.chunks[at].clone();
            let ghost row = chunk.experiment@;
            chunk.set_status(db, Status::Running, now);
            let update = Update::AssignedTo(Some(assignee.clone()));
            db.update_chunk(&chunk.experiment.name, &update);
            update.apply(&mut chunk.experiment);
            assert(db@.chunks =~= map_named(
                old(db)@.chunks,
                row.name,
                handing_to(row, assignee@, now),
            ));
            Some((true, chunk))
        } else {
            None
        }
    }

    /// Drops from this record the crates that have run with both
    /// toolchains: those for which two results or more are stored for the
    /// parent experiment.
    pub fn remove_completed_crates(&mut self, db: &Database)
        ensures
            final(self)@ == (ExperimentChunkView {
                experiment: ExperimentView {
                    crates: old(self).experiment@.crates.filter(
                        incomplete_in(db.results.results@, old(self).parent_name@),
                    ),
                    ..old(self).experiment@
                },
                ..old(self)@
            }),
    {
        let parent = self.parent_name.clone();
        prune_completed(&mut self.experiment.crates, &db.results, &parent);
    }
}

} // verus!
