//! The lists of crates, as they are kept in files: one crate on each line.

use vstd::prelude::*;
use vstd::string::StringExecFns;
use crate::crates::{Crate, CrateView, RegistryCrate};
use crate::text::{find_char, lemma_find_char_is, split_once};

verus! {

/// The line of a release of a crate: its name, a colon and its version.
pub open spec fn crate_line(name: Seq<char>, version: Seq<char>) -> Seq<char> {
    name + ":"@ + version
}

/// The release that a line stands for: the name before the first colon and
/// the version after it. A line without a colon stands for none.
pub open spec fn line_crate(line: Seq<char>) -> Option<CrateView> {
    let colon = find_char(line, ':');
    if 0 <= colon < line.len() {
        Some(CrateView::Registry { name: line.take(colon), version: line.skip(colon + 1) })
    } else {
        None
    }
}

/// The lines of the first `n` releases of a list.
pub open spec fn lines_of_crates(crates: Seq<(String, String)>, n: int) -> Seq<Seq<char>>
    decreases n,
{
    if n <= 0 {
        Seq::empty()
    } else {
        lines_of_crates(crates, n - 1).push(crate_line(crates[n - 1].0@, crates[n - 1].1@))
    }
}

/// The releases that the first `n` lines of a list stand for, in their
/// order.
pub open spec fn crates_of_lines(lines: Seq<String>, n: int) -> Seq<CrateView>
    decreases n,
{
    if n <= 0 {
        Seq::empty()
    } else {
        match line_crate(lines[n - 1]@) {
            Some(krate) => crates_of_lines(lines, n - 1).push(krate),
            None => crates_of_lines(lines, n - 1),
        }
    }
}

/// The lines of a list of releases, each given by name and version.
pub fn write_crate_list(crates: &Vec<(String, String)>) -> (lines: Vec<String>)
    ensures
        lines.deep_view() == lines_of_crates(crates@, crates@.len() as int),
{
    let mut lines: Vec<String> = Vec::new();
    let mut i: usize = 0;
    while i < crates.len()
        invariant
            i <= crates.len(),
            lines.deep_view() == lines_of_crates(crates@, i as int),
        decreases crates.len() - i,
    {
        let ghost before = lines.deep_view();
        let line = crates[i].0.clone().concat(":").concat(crates[i].1.as_str());
        let ghost text = line@;
        lines.push(line);
        assert(lines.deep_view() =~= before.push(text));
        i += 1;
    }
    lines
}

/// The releases that the lines of a list stand for.
pub fn split_crate_lines(lines: &Vec<String>) -> (crates: Vec<Crate>)
    ensures
        crates.deep_view() == crates_of_lines(lines@, lines@.len() as int),
{
    let mut crates: Vec<Crate> = Vec::new();
    let mut i: usize = 0;
    while i < lines.len()
        invariant
            i <= lines.len(),
            crates.deep_view() == crates_of_lines(lines@, i as int),
        decreases lines.len() - i,
    {
        let ghost before = crates.deep_view();
        let (name, version) = split_once(lines[i].as_str(), ':');
        match version {
            Some(version) => {
                let krate = Crate::Registry(
                    RegistryCrate {
                        name: String::from_str(name),
                        version: String::from_str(version),
                    },
                );
                let ghost view = krate@;
                crates.push(krate);
                assert(crates.deep_view() =~= before.push(view));
            },
            None => {},
        }
        i += 1;
    }
    crates
}

/// The line of a release is read as that release, if the name holds no
/// colon.
pub proof fn lemma_line_round_trip(name: Seq<char>, version: Seq<char>)
    requires
        forall|i: int| 0 <= i < name.len() ==> name[i] != ':',
    ensures
        line_crate(crate_line(name, version)) == Some(CrateView::Registry { name, version }),
{
    reveal_strlit(":");
    let line = crate_line(name, version);
    lemma_find_char_is(line, ':', name.len() as int);
    assert(line.take(name.len() as int) =~= name);
    assert(line.skip(name.len() as int + 1) =~= version);
}

} // verus!
