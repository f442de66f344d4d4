//! The packages under test: releases on the registry and repositories on
//! GitHub.

use vstd::prelude::*;
use vstd::string::StringExecFns;
use crate::config::Config;
use crate::seqs::{count_where, first_match, lemma_count_where_step, lemma_first_match_is};

verus! {

/// A release of a crate on the registry.
#[derive(Debug, Eq, Hash)]
pub struct RegistryCrate {
    pub name: String,
    pub version: String,
}

/// A repository on GitHub.
#[derive(Debug, Eq, Hash)]
pub struct GitHubRepo {
    pub org: String,
    pub name: String,
}

/// A package under test.
#[derive(Debug, Eq, Hash)]
pub enum Crate {
    Registry(RegistryCrate),
    /// A repository, at the commit `sha` where one was pinned.
    GitHub { repo: GitHubRepo, sha: Option<String> },
}

/// What a [`GitHubRepo`] holds, as plain sequences.
pub struct GitHubRepoView {
    pub org: Seq<char>,
    pub name: Seq<char>,
}

/// What a [`Crate`] holds, as plain sequences. Two crates are the same crate
/// when these are equal.
pub enum CrateView {
    Registry { name: Seq<char>, version: Seq<char> },
    GitHub { repo: GitHubRepoView, sha: Option<Seq<char>> },
}

impl View for GitHubRepo {
    type V = GitHubRepoView;

    open spec fn view(&self) -> GitHubRepoView {
        GitHubRepoView { org: self.org@, name: self.name@ }
    }
}

impl DeepView for GitHubRepo {
    type V = GitHubRepoView;

    open spec fn deep_view(&self) -> GitHubRepoView {
        self@
    }
}

impl View for RegistryCrate {
    type V = (Seq<char>, Seq<char>);

    open spec fn view(&self) -> (Seq<char>, Seq<char>) {
        (self.name@, self.version@)
    }
}

impl View for Crate {
    type V = CrateView;

    open spec fn view(&self) -> CrateView {
        match self {
            Crate::Registry(details) => CrateView::Registry {
                name: details.name@,
                version: details.version@,
            },
            Crate::GitHub { repo, sha } => CrateView::GitHub {
                repo: repo@,
                sha: match sha {
                    Some(s) => Some(s@),
                    None => None,
                },
            },
        }
    }
}

impl DeepView for Crate {
    type V = CrateView;

    open spec fn deep_view(&self) -> CrateView {
        self@
    }
}

impl PartialEq for RegistryCrate {
    fn eq(&self, other: &RegistryCrate) -> (same: bool) {
        self.name == other.name && self.version == other.version
    }
}

impl vstd::std_specs::cmp::PartialEqSpecImpl for RegistryCrate {
    open spec fn obeys_eq_spec() -> bool {
        true
    }

    open spec fn eq_spec(&self, other: &RegistryCrate) -> bool {
        self@ == other@
    }
}

impl PartialEq for GitHubRepo {
    fn eq(&self, other: &GitHubRepo) -> (same: bool) {
        self.org == other.org && self.name == other.name
    }
}

impl vstd::std_specs::cmp::PartialEqSpecImpl for GitHubRepo {
    open spec fn obeys_eq_spec() -> bool {
        true
    }

    open spec fn eq_spec(&self, other: &GitHubRepo) -> bool {
        self@ == other@
    }
}

impl PartialEq for Crate {
    fn eq(&self, other: &Crate) -> (same: bool) {
        match self {
            Crate::Registry(a) => match other {
                Crate::Registry(b) => a == b,
                Crate::GitHub { .. } => false,
            },
            Crate::GitHub { repo: a, sha: x } => match other {
                Crate::Registry(_) => false,
                Crate::GitHub { repo: b, sha: y } => {
                    let same_sha = match x {
                        Some(x) => match y {
                            Some(y) => *x == *y,
                            None => false,
                        },
                        None => y.is_none(),
                    };
                    a == b && same_sha
                },
            },
        }
    }
}

impl vstd::std_specs::cmp::PartialEqSpecImpl for Crate {
    open spec fn obeys_eq_spec() -> bool {
        true
    }

    open spec fn eq_spec(&self, other: &Crate) -> bool {
        self@ == other@
    }
}

impl Clone for RegistryCrate {
    fn clone(&self) -> (copy: RegistryCrate)
        ensures
            copy@ == self@,
    {
        RegistryCrate { name: self.name.clone(), version: self.version.clone() }
    }
}

impl Clone for GitHubRepo {
    fn clone(&self) -> (copy: GitHubRepo)
        ensures
            copy@ == self@,
    {
        GitHubRepo { org: self.org.clone(), name: self.name.clone() }
    }
}

impl Clone for Crate {
    fn clone(&self) -> (copy: Crate)
        ensures
            copy@ == self@,
    {
        match self {
            Crate::Registry(details) => Crate::Registry(details.clone()),
            Crate::GitHub { repo, sha } => Crate::GitHub {
                repo: repo.clone(),
                sha: match sha {
                    Some(s) => Some(s.clone()),
                    None => None,
                },
            },
        }
    }
}

impl GitHubRepo {
    /// Owner and name, separated by a slash.
    pub fn slug(&self) -> (s: String)
        ensures
            s@ == self.org@ + "/"@ + self.name@,
    {
        self.org.clone().concat("/").concat(self.name.as_str())
    }

    /// Address of the repository.
    pub fn url(&self) -> (s: String)
        ensures
            s@ == "https://github.com/"@ + self.org@ + "/"@ + self.name@,
    {
        String::from_str("https://github.com/").concat(self.org.as_str()).concat("/").concat(
            self.name.as_str(),
        )
    }
}

impl Crate {
    /// The repository of a crate that lives on GitHub.
    pub fn github(&self) -> (repo: Option<&GitHubRepo>)
        ensures
            match self {
                Crate::Registry(_) => repo is None,
                Crate::GitHub { repo: r, sha: _ } => repo == Some(r),
            },
    {
        match self {
            Crate::Registry(_) => None,
            Crate::GitHub { repo, sha: _ } => Some(repo),
        }
    }

    /// How the crate is called in messages: name and version joined by a
    /// hyphen, or the slug of the repository.
    pub open spec fn display(self) -> Seq<char> {
        match self {
            Crate::Registry(details) => details.name@ + "-"@ + details.version@,
            Crate::GitHub { repo, sha: _ } => repo.org@ + "/"@ + repo.name@,
        }
    }

    /// How the crate is called in messages.
    pub fn to_string(&self) -> (s: String)
        ensures
            s@ == self.display(),
    {
        match self {
            Crate::Registry(details) => details.name.clone().concat("-").concat(
                details.version.as_str(),
            ),
            Crate::GitHub { repo, sha: _ } => repo.slug(),
        }
    }
}

/// Whether `krate` is one of `list`.
pub open spec fn listed(list: Seq<Crate>, krate: Crate) -> bool {
    exists|i: int| 0 <= i < list.len() && (#[trigger] list[i])@ == krate@
}

/// Exec counterpart of [`listed`].
pub fn is_listed(list: &Vec<Crate>, krate: &Crate) -> (found: bool)
    ensures
        found == listed(list@, *krate),
{
    let mut i: usize = 0;
    while i < list.len()
        invariant
            i <= list.len(),
            forall|j: int| 0 <= j < i ==> (#[trigger] list@[j])@ != krate@,
        decreases list.len() - i,
    {
        if list[i] == *krate {
            return true;
        }
        i += 1;
    }
    false
}

/// Why the crates of a list could not be made ready.
#[derive(Debug, PartialEq, Eq)]
pub enum PrepareError {
    /// No commit is pinned for this repository.
    MissingSha(String),
    /// Too few of the crates could be downloaded.
    TooFewCrates,
}

/// The positions of the crates that cannot be downloaded for want of a
/// commit: the repositories without one that are not on the blacklist.
pub open spec fn lacks_commit(list: Seq<Crate>, config: Config) -> spec_fn(int) -> bool {
    |i: int|
        0 <= i < list.len() && !config.skips(list[i]) && list[i] matches Crate::GitHub {
            sha: None,
            ..
        }
}

/// The positions of the crates that are ready: those on the blacklist, which
/// need nothing, and those that were downloaded.
pub open spec fn is_ready(list: Seq<Crate>, config: Config, downloaded: Seq<bool>) -> spec_fn(
    int,
) -> bool {
    |i: int| 0 <= i < list.len() && (config.skips(list[i]) || downloaded[i])
}

/// The positions from 0 up to, and without, `n`.
pub open spec fn upto(n: nat) -> Seq<int> {
    Seq::new(n, |i: int| i)
}

/// Says whether the crates of a list are ready, where `downloaded` tells of
/// each crate whether it could be downloaded. A repository without a pinned
/// commit cannot be downloaded at all: the first one is an error. Otherwise
/// at least half of the crates must be ready, counting those on the
/// blacklist.
pub fn prepare(list: &Vec<Crate>, config: &Config, downloaded: &Vec<bool>) -> (done: Result<
    (),
    PrepareError,
>)
    requires
        downloaded@.len() == list@.len(),
    ensures
        match done {
            Err(PrepareError::MissingSha(name)) => {
                let at = first_match(upto(list@.len()), lacks_commit(list@, *config));
                0 <= at < list@.len() && name@ == list@[at].display()
            },
            Err(PrepareError::TooFewCrates) => {
                &&& first_match(upto(list@.len()), lacks_commit(list@, *config)) == list@.len()
                &&& count_where(upto(list@.len()), is_ready(list@, *config, downloaded@))
                    < list@.len() / 2
            },
            Ok(()) => {
                &&& first_match(upto(list@.len()), lacks_commit(list@, *config)) == list@.len()
                &&& count_where(upto(list@.len()), is_ready(list@, *config, downloaded@))
                    >= list@.len() / 2
            },
        },
{
    let n = list.len();
    let ghost positions = upto(n as nat);
    let mut successes: usize = 0;
    let mut i: usize = 0;
    while i < n
        invariant
            i <= n,
            n == list@.len(),
            downloaded@.len() == n,
            positions == upto(n as nat),
            successes <= i,
            successes == count_where(
                positions.take(i as int),
                is_ready(list@, *config, downloaded@),
            ),
            forall|j: int| 0 <= j < i ==> !lacks_commit(list@, *config)(#[trigger] positions[j]),
        decreases n - i,
    {
        proof {
            lemma_count_where_step(positions, is_ready(list@, *config, downloaded@), i as int);
        }
        let krate = &list[i];
        if config.should_skip(krate) {
            successes += 1;
        } else {
            match krate {
                Crate::GitHub { repo: _, sha: None } => {
                    proof {
                        lemma_first_match_is(positions, lacks_commit(list@, *config), i as int);
                    }
                    return Err(PrepareError::MissingSha(krate.to_string()));
                },
                _ => {},
            }
            if downloaded[i] {
                successes += 1;
            }
        }
        i += 1;
    }
    proof {
        lemma_first_match_is(positions, lacks_commit(list@, *config), n as int);
        assert(positions.take(n as int) =~= positions);
    }
    if successes < n / 2 {
        Err(PrepareError::TooFewCrates)
    } else {
        Ok(())
    }
}

} // verus!
