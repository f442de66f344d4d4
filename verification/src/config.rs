//! What the operator configures about single crates.

use vstd::prelude::*;
use crate::crates::{is_listed, listed, Crate};

verus! {

/// The lists of crates that get a treatment of their own.
#[derive(Debug)]
pub struct Config {
    /// Crates that no experiment runs: the blacklist.
    pub blacklist: Vec<Crate>,
    /// Crates that are known not to build: a failure of theirs is recorded
    /// as a broken build.
    pub broken: Vec<Crate>,
    /// Crates that are allowed to stay silent for a long time.
    pub quiet: Vec<Crate>,
}

/// A copy of a list of crates.
pub fn clone_list(list: &Vec<Crate>) -> (copy: Vec<Crate>)
    ensures
        copy.deep_view() == list.deep_view(),
{
    let mut copy: Vec<Crate> = Vec::new();
    let mut i: usize = 0;
    while i < list.len()
        invariant
            i <= list.len(),
            copy.len() == i,
            forall|j: int| 0 <= j < i ==> copy@[j]@ == list@[j]@,
        decreases list.len() - i,
    {
        copy.push(list[i].clone());
        i += 1;
    }
    assert(copy.deep_view() =~= list.deep_view());
    copy
}

/// What a [`Config`] holds, as plain values.
pub struct ConfigView {
    pub blacklist: Seq<crate::crates::CrateView>,
    pub broken: Seq<crate::crates::CrateView>,
    pub quiet: Seq<crate::crates::CrateView>,
}

impl View for Config {
    type V = ConfigView;

    open spec fn view(&self) -> ConfigView {
        ConfigView {
            blacklist: self.blacklist.deep_view(),
            broken: self.broken.deep_view(),
            quiet: self.quiet.deep_view(),
        }
    }
}

impl Clone for Config {
    fn clone(&self) -> (copy: Config)
        ensures
            copy@ == self@,
    {
        Config {
            blacklist: clone_list(&self.blacklist),
            broken: clone_list(&self.broken),
            quiet: clone_list(&self.quiet),
        }
    }
}

impl Config {
    /// A configuration that lists no crate.
    pub fn default() -> (config: Config)
        ensures
            config.blacklist@.len() == 0,
            config.broken@.len() == 0,
            config.quiet@.len() == 0,
    {
        Config { blacklist: Vec::new(), broken: Vec::new(), quiet: Vec::new() }
    }

    /// Whether the crate is on the blacklist.
    pub open spec fn skips(self, krate: Crate) -> bool {
        listed(self.blacklist@, krate)
    }

    /// Whether the crate is known not to build.
    pub open spec fn knows_broken(self, krate: Crate) -> bool {
        listed(self.broken@, krate)
    }

    /// Whether the crate is on the blacklist.
    pub fn should_skip(&self, krate: &Crate) -> (skip: bool)
        ensures
            skip == self.skips(*krate),
    {
        is_listed(&self.blacklist, krate)
    }

    /// Whether the crate is known not to build.
    pub fn is_broken(&self, krate: &Crate) -> (broken: bool)
        ensures
            broken == self.knows_broken(*krate),
    {
        is_listed(&self.broken, krate)
    }

    /// Whether the crate is allowed to stay silent for a long time.
    pub fn is_quiet(&self, krate: &Crate) -> (quiet: bool)
        ensures
            quiet == listed(self.quiet@, *krate),
    {
        is_listed(&self.quiet, krate)
    }
}

} // verus!
