//! What an operator does to experiments: creating, editing and removing
//! them.

pub mod create;
pub mod delete;
pub mod edit;

use vstd::prelude::*;
use crate::config::Config;
use crate::crates::Crate;
use crate::experiments::{ExperimentCrate, ExperimentCrateView};
pub use self::create::CreateExperiment;
pub use self::delete::DeleteExperiment;
pub use self::edit::EditExperiment;

verus! {

/// The crates of a list as crates of an experiment: each is skipped where
/// the configuration has it on the blacklist.
pub open spec fn flagged(crates: Seq<Crate>, config: Config) -> Seq<ExperimentCrateView> {
    Seq::new(
        crates.len(),
        |i: int| ExperimentCrateView { krate: crates[i]@, skipped: config.skips(crates[i]) },
    )
}

/// Exec counterpart of [`flagged`].
pub fn flag_crates(crates: &Vec<Crate>, config: &Config) -> (flagged_crates: Vec<ExperimentCrate>)
    ensures
        flagged_crates.deep_view() == flagged(crates@, *config),
{
    let mut out: Vec<ExperimentCrate> = Vec::new();
    let mut i: usize = 0;
    while i < crates.len()
        invariant
            i <= crates.len(),
            out.len() == i,
            forall|j: int| 0 <= j < i ==> (#[trigger] out@[j])@ == flagged(crates@, *config)[j],
        decreases crates.len() - i,
    {
        let krate = &crates[i];
        out.push(ExperimentCrate { krate: krate.clone(), skipped: config.should_skip(krate) });
        i += 1;
    }
    assert(out.deep_view() =~= flagged(crates@, *config));
    out
}

} // verus!
