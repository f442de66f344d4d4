//! Removing an experiment, with all that belongs to it.

use vstd::prelude::*;
use vstd::string::StringExecFns;
use crate::db::{named, Database};
use crate::errors::{ErrorKind, ErrorKindView};
use crate::experiments::table::{not_chunk_of, not_of, remove_rows};
use crate::experiments::{Experiment, ExperimentChunk};
use crate::results::db::{other_experiment, other_experiment_sha, result_key, sha_key};
use crate::seqs::{first_match, key_in};

verus! {

/// The experiment to remove.
#[derive(Debug)]
pub struct DeleteExperiment {
    pub name: String,
}

impl DeleteExperiment {
    /// The removal of the experiment named `name`.
    pub fn dummy(name: &str) -> (delete: DeleteExperiment)
        ensures
            delete.name@ == name@,
    {
        DeleteExperiment { name: String::from_str(name) }
    }

    /// Removes the experiment, and with it its chunks, its results and its
    /// pinned commits. Where there is no such experiment, nothing changes.
    pub fn apply(self, db: &mut Database) -> (done: Result<(), ErrorKind>)
        ensures
            match done {
                Ok(()) => {
                    &&& first_match(old(db)@.experiments, named(self.name@))
                        < old(db)@.experiments.len()
                    &&& final(db).experiments@ == old(db).experiments@.filter(
                        not_of::<Experiment>(self.name@),
                    )
                    &&& final(db).chunks@ == old(db).chunks@.filter(
                        not_chunk_of::<ExperimentChunk>(self.name@),
                    )
                    &&& final(db).results.results@ == old(db).results.results@.filter(
                        key_in(result_key(), other_experiment(self.name@)),
                    )
                    &&& final(db).results.shas@ == old(db).results.shas@.filter(
                        key_in(sha_key(), other_experiment_sha(self.name@)),
                    )
                    &&& final(db).results@.results == old(db).results@.results.restrict(
                        Set::new(other_experiment(self.name@)),
                    )
                    &&& final(db).results@.shas == old(db).results@.shas.restrict(
                        Set::new(other_experiment_sha(self.name@)),
                    )
                },
                Err(e) => {
                    &&& first_match(old(db)@.experiments, named(self.name@))
                        >= old(db)@.experiments.len()
                    &&& e@ == ErrorKindView::ExperimentNotFound(self.name@)
                    &&& *final(db) == *old(db)
                },
            },
    {
        if Experiment::find_by_name(db, &self.name) >= db.experiments.len() {
            return Err(ErrorKind::ExperimentNotFound(self.name));
        }
        remove_rows(&mut db.experiments, &self.name, false);
        remove_rows(&mut db.chunks, &self.name, true);
        db.results.delete_experiment(&self.name);
        Ok(())
    }
}

} // verus!
