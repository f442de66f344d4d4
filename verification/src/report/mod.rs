//! The report of an experiment: what became of each crate from one toolchain
//! to the other.

use vstd::prelude::*;
use vstd::string::StringExecFns;
use crate::config::Config;
use crate::crates::{Crate, CrateView};
use crate::experiments::Experiment;
use crate::results::db::{DatabaseDB, ResultKey, ShaKey};
use crate::results::TestResult;
use crate::seqs::{first_match, lemma_first_match_is};

verus! {

/// What became of a crate from the first toolchain to the second.
#[derive(Debug, PartialEq, Eq, Clone, Copy, Hash, Structural)]
pub enum Comparison {
    Regressed,
    Fixed,
    Skipped,
    Unknown,
    SameBuildFail,
    SameTestFail,
    SameTestSkipped,
    SameTestPass,
}

/// The result of a crate with one toolchain, and where its log is.
#[derive(Debug, PartialEq, Eq)]
pub struct BuildTestResult {
    pub res: TestResult,
    pub log: String,
}

/// The line of a crate in the report.
#[derive(Debug, PartialEq, Eq)]
pub struct CrateResult {
    pub name: String,
    pub url: String,
    pub res: Comparison,
    pub runs: [Option<BuildTestResult>; 2],
}

/// The report: one line for each crate of the experiment.
#[derive(Debug, PartialEq, Eq)]
pub struct TestResults {
    pub crates: Vec<CrateResult>,
}

/// What a [`CrateResult`] holds, as plain values: each run is the result and
/// the place of the log.
pub struct CrateResultView {
    pub name: Seq<char>,
    pub url: Seq<char>,
    pub res: Comparison,
    pub runs: (Option<(TestResult, Seq<char>)>, Option<(TestResult, Seq<char>)>),
}

/// The run of a [`BuildTestResult`], as plain values.
pub open spec fn run_view(run: Option<BuildTestResult>) -> Option<(TestResult, Seq<char>)> {
    match run {
        Some(r) => Some((r.res, r.log@)),
        None => None,
    }
}

impl View for CrateResult {
    type V = CrateResultView;

    open spec fn view(&self) -> CrateResultView {
        CrateResultView {
            name: self.name@,
            url: self.url@,
            res: self.res,
            runs: (run_view(self.runs[0]), run_view(self.runs[1])),
        }
    }
}

impl DeepView for CrateResult {
    type V = CrateResultView;

    open spec fn deep_view(&self) -> CrateResultView {
        self@
    }
}

/// Why a report could not be made.
#[derive(Debug, PartialEq, Eq)]
pub enum ReportError {
    /// No commit is pinned for the repository with this slug.
    MissingSha(String),
    /// No log is stored for this crate with this toolchain.
    MissingLog(String, String),
}

/// What a [`ReportError`] holds, as plain sequences.
pub enum ReportErrorView {
    MissingSha(Seq<char>),
    MissingLog(Seq<char>, Seq<char>),
}

impl View for ReportError {
    type V = ReportErrorView;

    open spec fn view(&self) -> ReportErrorView {
        match self {
            ReportError::MissingSha(slug) => ReportErrorView::MissingSha(slug@),
            ReportError::MissingLog(krate, toolchain) => ReportErrorView::MissingLog(
                krate@,
                toolchain@,
            ),
        }
    }
}

impl ReportError {
    /// The message of this error.
    pub fn to_string(&self) -> (s: String)
        ensures
            s@ == match self@ {
                ReportErrorView::MissingSha(slug) => "missing sha for GitHub repo "@ + slug,
                ReportErrorView::MissingLog(krate, toolchain) => "failed to read log of "@ + krate
                    + " on "@ + toolchain,
            },
    {
        match self {
            ReportError::MissingSha(slug) => String::from_str(
                "missing sha for GitHub repo ",
            ).concat(slug.as_str()),
            ReportError::MissingLog(krate, toolchain) => String::from_str(
                "failed to read log of ",
            ).concat(krate.as_str()).concat(" on ").concat(toolchain.as_str()),
        }
    }
}

/// The kinds of results that the report compares.
pub enum Outcome {
    Pass,
    BuildFail,
    TestFail,
    TestSkipped,
}

/// The kind of a result, if it is one that the report compares: an error
/// says nothing about the crate, and counts as no result.
pub open spec fn outcome(result: Option<TestResult>) -> Option<Outcome> {
    match result {
        Some(TestResult::TestPass) => Some(Outcome::Pass),
        Some(TestResult::BuildFail(_)) => Some(Outcome::BuildFail),
        Some(TestResult::TestFail(_)) => Some(Outcome::TestFail),
        Some(TestResult::TestSkipped) => Some(Outcome::TestSkipped),
        Some(TestResult::Error) => None,
        None => None,
    }
}

/// Whether two results can stand side by side. Tests are skipped with both
/// toolchains or with none, unless the build fails with one of them: any
/// other pair with skipped tests comes from a run that went wrong.
pub open spec fn comparable(first: Option<TestResult>, second: Option<TestResult>) -> bool {
    match (outcome(first), outcome(second)) {
        (Some(Outcome::Pass), Some(Outcome::TestSkipped)) => false,
        (Some(Outcome::TestFail), Some(Outcome::TestSkipped)) => false,
        (Some(Outcome::TestSkipped), Some(Outcome::Pass)) => false,
        (Some(Outcome::TestSkipped), Some(Outcome::TestFail)) => false,
        _ => true,
    }
}

/// What became of a crate whose results with the first and the second
/// toolchain are `first` and `second`. Where one of the two is missing, the
/// crate was skipped if it is on the blacklist, and nothing is known of it
/// otherwise.
pub open spec fn compared(first: Option<TestResult>, second: Option<TestResult>, skipped: bool)
    -> Comparison {
    match (outcome(first), outcome(second)) {
        (Some(Outcome::Pass), Some(Outcome::Pass)) => Comparison::SameTestPass,
        (Some(Outcome::Pass), Some(_)) => Comparison::Regressed,
        (Some(Outcome::BuildFail), Some(Outcome::BuildFail)) => Comparison::SameBuildFail,
        (Some(Outcome::BuildFail), Some(_)) => Comparison::Fixed,
        (Some(Outcome::TestFail), Some(Outcome::Pass)) => Comparison::Fixed,
        (Some(Outcome::TestFail), Some(Outcome::TestFail)) => Comparison::SameTestFail,
        (Some(Outcome::TestFail), Some(_)) => Comparison::Regressed,
        (Some(Outcome::TestSkipped), Some(Outcome::TestSkipped)) => Comparison::SameTestSkipped,
        (Some(Outcome::TestSkipped), Some(_)) => Comparison::Regressed,
        _ => if skipped {
            Comparison::Skipped
        } else {
            Comparison::Unknown
        },
    }
}

/// Whether two results can stand side by side in a report.
pub fn is_comparable(first: Option<TestResult>, second: Option<TestResult>) -> (ok: bool)
    ensures
        ok == comparable(first, second),
{
    match (first, second) {
        (Some(TestResult::TestPass), Some(TestResult::TestSkipped)) => false,
        (Some(TestResult::TestFail(_)), Some(TestResult::TestSkipped)) => false,
        (Some(TestResult::TestSkipped), Some(TestResult::TestPass)) => false,
        (Some(TestResult::TestSkipped), Some(TestResult::TestFail(_))) => false,
        _ => true,
    }
}

/// The result alone of a run.
pub open spec fn result_of_run(run: Option<BuildTestResult>) -> Option<TestResult> {
    match run {
        Some(r) => Some(r.res),
        None => None,
    }
}

/// Compares the results of a crate with the two toolchains.
pub fn compare(
    config: &Config,
    krate: &Crate,
    r1: &Option<BuildTestResult>,
    r2: &Option<BuildTestResult>,
) -> (comparison: Comparison)
    requires
        comparable(result_of_run(*r1), result_of_run(*r2)),
    ensures
        comparison == compared(result_of_run(*r1), result_of_run(*r2), config.skips(*krate)),
{
    let first = match r1 {
        Some(run) => Some(run.res),
        None => None,
    };
    let second = match r2 {
        Some(run) => Some(run.res),
        None => None,
    };
    match (first, second) {
        (Some(TestResult::TestPass), Some(TestResult::TestPass)) => Comparison::SameTestPass,
        (Some(TestResult::BuildFail(_)), Some(TestResult::BuildFail(_))) =>
            Comparison::SameBuildFail,
        (Some(TestResult::TestFail(_)), Some(TestResult::TestFail(_))) => Comparison::SameTestFail,
        (Some(TestResult::TestSkipped), Some(TestResult::TestSkipped)) =>
            Comparison::SameTestSkipped,
        (Some(TestResult::BuildFail(_)), Some(TestResult::TestFail(_)))
        | (Some(TestResult::BuildFail(_)), Some(TestResult::TestSkipped))
        | (Some(TestResult::BuildFail(_)), Some(TestResult::TestPass))
        | (Some(TestResult::TestFail(_)), Some(TestResult::TestPass)) => Comparison::Fixed,
        (Some(TestResult::TestPass), Some(TestResult::TestFail(_)))
        | (Some(TestResult::TestPass), Some(TestResult::BuildFail(_)))
        | (Some(TestResult::TestSkipped), Some(TestResult::BuildFail(_)))
        | (Some(TestResult::TestFail(_)), Some(TestResult::BuildFail(_))) => Comparison::Regressed,
        _ => {
            if config.should_skip(krate) {
                Comparison::Skipped
            } else {
                Comparison::Unknown
            }
        },
    }
}

/// Where the files of a crate are in a report: `reg`, with name and version,
/// for a crate from the registry, and `gh`, with owner and name, for a
/// repository.
pub open spec fn path_fragment(krate: CrateView) -> Seq<char> {
    match krate {
        CrateView::Registry { name, version } => "reg/"@ + name + "-"@ + version,
        CrateView::GitHub { repo, sha: _ } => "gh/"@ + repo.org + "."@ + repo.name,
    }
}

/// How a crate is called in a report; a repository with the commit that it
/// was pinned at.
pub open spec fn report_name(krate: CrateView, sha: Seq<char>) -> Seq<char> {
    match krate {
        CrateView::Registry { name, version } => name + "-"@ + version,
        CrateView::GitHub { repo, sha: _ } => repo.org + "."@ + repo.name + "."@ + sha,
    }
}

/// Where a crate is found on the web; a repository at the commit that it was
/// pinned at.
pub open spec fn report_url(krate: CrateView, sha: Seq<char>) -> Seq<char> {
    match krate {
        CrateView::Registry { name, version } => "https://crates.io/crates/"@ + name + "/"@
            + version,
        CrateView::GitHub { repo, sha: _ } => "https://github.com/"@ + repo.org + "/"@ + repo.name
            + "/tree/"@ + sha,
    }
}

/// The key of the commit that a crate needs in a report, if it needs one.
pub open spec fn needed_sha(experiment: Seq<char>, krate: CrateView) -> Option<ShaKey> {
    match krate {
        CrateView::Registry { .. } => None,
        CrateView::GitHub { repo, sha: _ } => Some(ShaKey { experiment, repo }),
    }
}

/// Where the files of a crate are in a report.
pub fn crate_to_path_fragment(krate: &Crate) -> (path: String)
    ensures
        path@ == path_fragment(krate@),
{
    match krate {
        Crate::Registry(details) => String::from_str("reg/").concat(details.name.as_str()).concat(
            "-",
        ).concat(details.version.as_str()),
        Crate::GitHub { repo, sha: _ } => String::from_str("gh/").concat(repo.org.as_str()).concat(
            ".",
        ).concat(repo.name.as_str()),
    }
}

/// Name and address of a crate in the report of an experiment, or the error
/// that no commit is pinned for its repository.
fn crate_to_name_and_url(db: &DatabaseDB, ex: &Experiment, krate: &Crate) -> (found: Result<
    (String, String),
    ReportError,
>)
    ensures
        match (found, needed_sha(ex.name@, krate@)) {
            (Ok(pair), None) => pair.0@ == report_name(krate@, Seq::empty()) && pair.1@
                == report_url(krate@, Seq::empty()),
            (Ok(pair), Some(key)) => db.sha_at(key) is Some && pair.0@ == report_name(
                krate@,
                db.sha_at(key)->0,
            ) && pair.1@ == report_url(krate@, db.sha_at(key)->0),
            (Err(e), Some(key)) => db.sha_at(key) is None && e@ == ReportErrorView::MissingSha(
                key.repo.org + "/"@ + key.repo.name,
            ),
            (Err(_), None) => false,
        },
{
    match krate {
        Crate::Registry(details) => {
            let name = details.name.clone().concat("-").concat(details.version.as_str());
            let url = String::from_str("https://crates.io/crates/").concat(
                details.name.as_str(),
            ).concat("/").concat(details.version.as_str());
            Ok((name, url))
        },
        Crate::GitHub { repo, sha: _ } => {
            match db.sha_for(&ex.name, repo) {
                None => Err(ReportError::MissingSha(repo.slug())),
                Some(sha) => {
                    let name = repo.org.clone().concat(".").concat(repo.name.as_str()).concat(
                        ".",
                    ).concat(sha.as_str());
                    let url = String::from_str("https://github.com/").concat(
                        repo.org.as_str(),
                    ).concat("/").concat(repo.name.as_str()).concat("/tree/").concat(sha.as_str());
                    Ok((name, url))
                },
            }
        },
    }
}

/// The result stored for a crate of an experiment with the toolchain number
/// `tc`, which is 0 or 1.
pub open spec fn stored_result(db: DatabaseDB, ex: Experiment, krate: CrateView, tc: int) -> Option<
    TestResult,
> {
    match db.result_at(
        ResultKey { experiment: ex.name@, krate, toolchain: ex.toolchains[tc]@ },
    ) {
        Some(stored) => Some(stored.result),
        None => None,
    }
}

/// The run of a crate in a report: its result, and where its log is.
pub open spec fn run_of(result: Option<TestResult>, krate: CrateView) -> Option<
    (TestResult, Seq<char>),
> {
    match result {
        Some(res) => Some((res, path_fragment(krate))),
        None => None,
    }
}

/// The commit that a crate is reported with: the one pinned for its
/// repository, and nothing for a crate from the registry.
pub open spec fn reported_sha(db: DatabaseDB, ex: Experiment, krate: CrateView) -> Seq<char> {
    match needed_sha(ex.name@, krate) {
        Some(key) => db.sha_at(key)->0,
        None => Seq::empty(),
    }
}

/// The line of the crate number `i` of an experiment in its report.
pub open spec fn line(db: DatabaseDB, config: Config, ex: Experiment, i: int) -> CrateResultView {
    let krate = ex.crates@[i].krate;
    let first = stored_result(db, ex, krate@, 0);
    let second = stored_result(db, ex, krate@, 1);
    CrateResultView {
        name: report_name(krate@, reported_sha(db, ex, krate@)),
        url: report_url(krate@, reported_sha(db, ex, krate@)),
        res: compared(first, second, config.skips(krate)),
        runs: (run_of(first, krate@), run_of(second, krate@)),
    }
}

/// The crates of an experiment that cannot be reported: the repositories
/// for which no commit is pinned.
pub open spec fn lacks_sha(db: DatabaseDB, ex: Experiment) -> spec_fn(
    crate::experiments::ExperimentCrate,
) -> bool {
    |c: crate::experiments::ExperimentCrate|
        match needed_sha(ex.name@, c.krate@) {
            Some(key) => db.sha_at(key) is None,
            None => false,
        }
}

/// Whether the results of each crate of an experiment can stand side by
/// side.
pub open spec fn all_comparable(db: DatabaseDB, ex: Experiment) -> bool {
    forall|i: int|
        0 <= i < ex.crates@.len() ==> comparable(
            stored_result(db, ex, (#[trigger] ex.crates@[i]).krate@, 0),
            stored_result(db, ex, ex.crates@[i].krate@, 1),
        )
}

/// Position of the first crate of an experiment whose two results cannot
/// stand side by side, if there is one.
pub fn find_incomparable(db: &DatabaseDB, ex: &Experiment) -> (found: Option<usize>)
    ensures
        found is None <==> all_comparable(*db, *ex),
        found matches Some(i) ==> i < ex.crates@.len() && !comparable(
            stored_result(*db, *ex, ex.crates@[i as int].krate@, 0),
            stored_result(*db, *ex, ex.crates@[i as int].krate@, 1),
        ),
{
    let mut i: usize = 0;
    while i < ex.crates.len()
        invariant
            i <= ex.crates.len(),
            forall|j: int|
                0 <= j < i ==> comparable(
                    stored_result(*db, *ex, (#[trigger] ex.crates@[j]).krate@, 0),
                    stored_result(*db, *ex, ex.crates@[j].krate@, 1),
                ),
        decreases ex.crates.len() - i,
    {
        let krate = &ex.crates[i].krate;
        let first = db.load_test_result(ex, &ex.toolchains[0], krate);
        let second = db.load_test_result(ex, &ex.toolchains[1], krate);
        if !is_comparable(first, second) {
            return Some(i);
        }
        i += 1;
    }
    None
}

/// Makes the report of an experiment from the results that are stored: one
/// line for each crate, in the order of the crates. A repository for which
/// no commit is pinned cannot be reported: the first such crate is the error.
pub fn generate_report(db: &DatabaseDB, config: &Config, ex: &Experiment) -> (made: Result<
    TestResults,
    ReportError,
>)
    requires
        all_comparable(*db, *ex),
    ensures
        match made {
            Ok(report) => {
                &&& first_match(ex.crates@, lacks_sha(*db, *ex)) == ex.crates@.len()
                &&& report.crates.deep_view() == Seq::new(
                    ex.crates@.len(),
                    |i: int| line(*db, *config, *ex, i),
                )
            },
            Err(e) => {
                let at = first_match(ex.crates@, lacks_sha(*db, *ex));
                &&& at < ex.crates@.len()
                &&& needed_sha(ex.name@, ex.crates@[at].krate@) matches Some(key) && e@
                    == ReportErrorView::MissingSha(key.repo.org + "/"@ + key.repo.name)
            },
        },
{
    let mut lines: Vec<CrateResult> = Vec::new();
    let mut i: usize = 0;
    while i < ex.crates.len()
        invariant
            i <= ex.crates.len(),
            all_comparable(*db, *ex),
            lines.len() == i,
            forall|j: int| 0 <= j < i ==> (#[trigger] lines@[j])@ == line(*db, *config, *ex, j),
            forall|j: int| 0 <= j < i ==> !lacks_sha(*db, *ex)(#[trigger] ex.crates@[j]),
        decreases ex.crates.len() - i,
    {
        let krate = &ex.crates[i].krate;
        assert(ex.crates@[i as int].krate == *krate);
        let first = match db.load_test_result(ex, &ex.toolchains[0], krate) {
            Some(res) => Some(BuildTestResult { res, log: crate_to_path_fragment(krate) }),
            None => None,
        };
        let second = match db.load_test_result(ex, &ex.toolchains[1], krate) {
            Some(res) => Some(BuildTestResult { res, log: crate_to_path_fragment(krate) }),
            None => None,
        };
        let comparison = compare(config, krate, &first, &second);
        match crate_to_name_and_url(db, ex, krate) {
            Err(e) => {
                proof {
                    lemma_first_match_is(ex.crates@, lacks_sha(*db, *ex), i as int);
                }
                return Err(e);
            },
            Ok((name, url)) => {
                lines.push(CrateResult { name, url, res: comparison, runs: [first, second] });
            },
        }
        i += 1;
    }
    proof {
        lemma_first_match_is(ex.crates@, lacks_sha(*db, *ex), i as int);
        assert(lines.deep_view() =~= Seq::new(
            ex.crates@.len(),
            |i: int| line(*db, *config, *ex, i),
        ));
    }
    Ok(TestResults { crates: lines })
}

/// A log to write into a report.
#[derive(Debug, PartialEq, Eq)]
pub struct LogFile {
    pub path: String,
    pub content: Vec<u8>,
}

/// What a [`LogFile`] holds, as plain sequences.
pub struct LogFileView {
    pub path: Seq<char>,
    pub content: Seq<u8>,
}

impl View for LogFile {
    type V = LogFileView;

    open spec fn view(&self) -> LogFileView {
        LogFileView { path: self.path@, content: self.content@ }
    }
}

impl DeepView for LogFile {
    type V = LogFileView;

    open spec fn deep_view(&self) -> LogFileView {
        self@
    }
}

/// The log stored for a crate of an experiment with the toolchain number
/// `tc`, which is 0 or 1.
pub open spec fn stored_log(db: DatabaseDB, ex: Experiment, krate: CrateView, tc: int) -> Option<
    Seq<u8>,
> {
    match db.result_at(
        ResultKey { experiment: ex.name@, krate, toolchain: ex.toolchains[tc]@ },
    ) {
        Some(stored) => Some(stored.log),
        None => None,
    }
}

/// Where the log of a crate is in a report.
pub open spec fn log_path(krate: CrateView) -> Seq<char> {
    path_fragment(krate) + "/log.txt"@
}

/// The logs of the first `n` crates of an experiment: for each crate that is
/// not on the blacklist, the log with the first toolchain and then the log
/// with the second, both at the place of the crate.
pub open spec fn logs_of(db: DatabaseDB, config: Config, ex: Experiment, n: int) -> Seq<
    LogFileView,
>
    decreases n,
{
    if n <= 0 {
        Seq::empty()
    } else {
        let krate = ex.crates@[n - 1].krate;
        let before = logs_of(db, config, ex, n - 1);
        if config.skips(krate) {
            before
        } else {
            before.push(
                LogFileView {
                    path: log_path(krate@),
                    content: stored_log(db, ex, krate@, 0)->0,
                },
            ).push(
                LogFileView {
                    path: log_path(krate@),
                    content: stored_log(db, ex, krate@, 1)->0,
                },
            )
        }
    }
}

/// The crates of an experiment whose logs cannot be written: those that are
/// not on the blacklist and lack a log.
pub open spec fn lacks_log(db: DatabaseDB, config: Config, ex: Experiment) -> spec_fn(
    crate::experiments::ExperimentCrate,
) -> bool {
    |c: crate::experiments::ExperimentCrate|
        !config.skips(c.krate) && (stored_log(db, ex, c.krate@, 0) is None || stored_log(
            db,
            ex,
            c.krate@,
            1,
        ) is None)
}

/// The logs to write into the report of an experiment. A crate that is not
/// on the blacklist and lacks a log cannot be reported: the first such
/// crate, with the first toolchain whose log it lacks, is the error.
pub fn write_logs(db: &DatabaseDB, ex: &Experiment, config: &Config) -> (logs: Result<
    Vec<LogFile>,
    ReportError,
>)
    ensures
        match logs {
            Ok(files) => {
                &&& first_match(ex.crates@, lacks_log(*db, *config, *ex)) == ex.crates@.len()
                &&& files.deep_view() == logs_of(*db, *config, *ex, ex.crates@.len() as int)
            },
            Err(e) => {
                let at = first_match(ex.crates@, lacks_log(*db, *config, *ex));
                &&& at < ex.crates@.len()
                &&& e@ == ReportErrorView::MissingLog(
                    ex.crates@[at].krate.display(),
                    if stored_log(*db, *ex, ex.crates@[at].krate@, 0) is None {
                        ex.toolchains[0]@
                    } else {
                        ex.toolchains[1]@
                    },
                )
            },
        },
{
    let mut files: Vec<LogFile> = Vec::new();
    let mut i: usize = 0;
    while i < ex.crates.len()
        invariant
            i <= ex.crates.len(),
            files.deep_view() == logs_of(*db, *config, *ex, i as int),
            forall|j: int| 0 <= j < i ==> !lacks_log(*db, *config, *ex)(#[trigger] ex.crates@[j]),
        decreases ex.crates.len() - i,
    {
        let krate = &ex.crates[i].krate;
        assert(ex.crates@[i as int].krate == *krate);
        if !config.should_skip(krate) {
            let first = db.load_log(ex, &ex.toolchains[0], krate);
            let second = db.load_log(ex, &ex.toolchains[1], krate);
            match (first, second) {
                (Some(first), Some(second)) => {
                    let ghost before = files.deep_view();
                    let one = LogFile {
                        path: crate_to_path_fragment(krate).concat("/log.txt"),
                        content: first,
                    };
                    let two = LogFile {
                        path: crate_to_path_fragment(krate).concat("/log.txt"),
                        content: second,
                    };
                    let ghost views = (one@, two@);
                    files.push(one);
                    files.push(two);
                    assert(files.deep_view() =~= before.push(views.0).push(views.1));
                },
                (None, _) => {
                    proof {
                        lemma_first_match_is(
                            ex.crates@,
                            lacks_log(*db, *config, *ex),
                            i as int,
                        );
                    }
                    return Err(
                        ReportError::MissingLog(krate.to_string(), ex.toolchains[0].to_string()),
                    );
                },
                (Some(_), None) => {
                    proof {
                        lemma_first_match_is(
                            ex.crates@,
                            lacks_log(*db, *config, *ex),
                            i as int,
                        );
                    }
                    return Err(
                        ReportError::MissingLog(krate.to_string(), ex.toolchains[1].to_string()),
                    );
                },
            }
        }
        i += 1;
    }
    proof {
        lemma_first_match_is(ex.crates@, lacks_log(*db, *config, *ex), i as int);
    }
    Ok(files)
}

/// All that goes into the report of an experiment, but for the pages that
/// show it.
#[derive(Debug, PartialEq, Eq)]
pub struct Report {
    pub results: TestResults,
    pub logs: Vec<LogFile>,
}

/// Makes the report of an experiment: its lines, and then the logs to
/// write. The first crate that cannot be reported is the error; a crate
/// without a pinned commit comes before a crate without a log.
pub fn gen(db: &DatabaseDB, ex: &Experiment, config: &Config) -> (made: Result<
    Report,
    ReportError,
>)
    requires
        all_comparable(*db, *ex),
    ensures
        match made {
            Ok(report) => {
                &&& first_match(ex.crates@, lacks_sha(*db, *ex)) == ex.crates@.len()
                &&& first_match(ex.crates@, lacks_log(*db, *config, *ex)) == ex.crates@.len()
                &&& report.results.crates.deep_view() == Seq::new(
                    ex.crates@.len(),
                    |i: int| line(*db, *config, *ex, i),
                )
                &&& report.logs.deep_view() == logs_of(
                    *db,
                    *config,
                    *ex,
                    ex.crates@.len() as int,
                )
            },
            Err(e) => if first_match(ex.crates@, lacks_sha(*db, *ex)) < ex.crates@.len() {
                needed_sha(
                    ex.name@,
                    ex.crates@[first_match(ex.crates@, lacks_sha(*db, *ex))].krate@,
                ) matches Some(key) && e@ == ReportErrorView::MissingSha(
                    key.repo.org + "/"@ + key.repo.name,
                )
            } else {
                first_match(ex.crates@, lacks_log(*db, *config, *ex)) < ex.crates@.len() && e@
                    == ReportErrorView::MissingLog(
                    ex.crates@[first_match(
                        ex.crates@,
                        lacks_log(*db, *config, *ex),
                    )].krate.display(),
                    if stored_log(
                        *db,
                        *ex,
                        ex.crates@[first_match(
                            ex.crates@,
                            lacks_log(*db, *config, *ex),
                        )].krate@,
                        0,
                    ) is None {
                        ex.toolchains[0]@
                    } else {
                        ex.toolchains[1]@
                    },
                )
            },
        },
{
    let results = match generate_report(db, config, ex) {
        Ok(results) => results,
        Err(e) => {
            return Err(e);
        },
    };
    let logs = match write_logs(db, ex, config) {
        Ok(logs) => logs,
        Err(e) => {
            return Err(e);
        },
    };
    Ok(Report { results, logs })
}

} // verus!
