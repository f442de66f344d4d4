//! An experiment as a row of text and numbers, the form in which it is kept
//! on disk.

use vstd::prelude::*;
use vstd::string::StringExecFns;
use crate::experiments::{
    Assignee, AssigneeParseError, AssigneeParseErrorView, AssigneeView, CapLints, Experiment,
    ExperimentCrate, ExperimentView, GitHubIssue, GitHubIssueView, Mode, Status,
};
use crate::text::{is_blank, lemma_find_char_is};
use crate::time::Timestamp;
use crate::toolchain::Toolchain;

verus! {

/// The row of an experiment: its words are text, and the three parts of its
/// issue are columns of their own.
#[derive(Debug)]
pub struct ExperimentDBRecord {
    pub name: String,
    pub mode: String,
    pub cap_lints: String,
    pub toolchain_start: String,
    pub toolchain_end: String,
    pub priority: i32,
    pub created_at: Timestamp,
    pub started_at: Option<Timestamp>,
    pub completed_at: Option<Timestamp>,
    pub github_issue: Option<String>,
    pub github_issue_url: Option<String>,
    pub github_issue_number: Option<i32>,
    pub status: String,
    pub assigned_to: Option<String>,
    pub report_url: Option<String>,
    pub ignore_blacklist: bool,
    pub children: u32,
}

/// Why a row is not an experiment.
#[derive(Debug, PartialEq, Eq)]
pub enum RecordError {
    InvalidToolchain(String),
    InvalidCapLints(String),
    InvalidMode(String),
    InvalidAssignee(AssigneeParseError),
    InvalidStatus(String),
}

/// What a [`RecordError`] holds, as plain sequences.
pub enum RecordErrorView {
    InvalidToolchain(Seq<char>),
    InvalidCapLints(Seq<char>),
    InvalidMode(Seq<char>),
    InvalidAssignee(AssigneeParseErrorView),
    InvalidStatus(Seq<char>),
}

impl View for RecordError {
    type V = RecordErrorView;

    open spec fn view(&self) -> RecordErrorView {
        match self {
            RecordError::InvalidToolchain(s) => RecordErrorView::InvalidToolchain(s@),
            RecordError::InvalidCapLints(s) => RecordErrorView::InvalidCapLints(s@),
            RecordError::InvalidMode(s) => RecordErrorView::InvalidMode(s@),
            RecordError::InvalidAssignee(e) => RecordErrorView::InvalidAssignee(e@),
            RecordError::InvalidStatus(s) => RecordErrorView::InvalidStatus(s@),
        }
    }
}

/// The text behind an optional string.
pub open spec fn text_of(s: Option<String>) -> Option<Seq<char>> {
    match s {
        Some(s) => Some(s@),
        None => None,
    }
}

impl ExperimentDBRecord {
    /// The issue of the row: it has one where all three columns are filled.
    pub open spec fn issue(self) -> Option<GitHubIssueView> {
        match (self.github_issue, self.github_issue_url, self.github_issue_number) {
            (Some(api_url), Some(html_url), Some(number)) => Some(
                GitHubIssueView { api_url: api_url@, html_url: html_url@, number },
            ),
            _ => None,
        }
    }

    /// Why the row is not an experiment, if it is not: the first of its
    /// words that cannot be read, in the order of the two toolchains, the
    /// level of the lints, the mode, the assignee and the status.
    pub open spec fn refusal(self) -> Option<RecordErrorView> {
        if is_blank(self.toolchain_start@) {
            Some(RecordErrorView::InvalidToolchain(self.toolchain_start@))
        } else if is_blank(self.toolchain_end@) {
            Some(RecordErrorView::InvalidToolchain(self.toolchain_end@))
        } else if CapLints::parse(self.cap_lints@) is None {
            Some(RecordErrorView::InvalidCapLints(self.cap_lints@))
        } else if Mode::parse(self.mode@) is None {
            Some(RecordErrorView::InvalidMode(self.mode@))
        } else if self.assigned_to matches Some(assignee) && Assignee::parse(assignee@) is Err {
            Some(RecordErrorView::InvalidAssignee(Assignee::parse(self.assigned_to->0@)->Err_0))
        } else if Status::parse(self.status@) is None {
            Some(RecordErrorView::InvalidStatus(self.status@))
        } else {
            None
        }
    }

    /// The experiment that the row stands for, with the crates `crates`.
    pub open spec fn experiment(self, crates: Vec<ExperimentCrate>) -> ExperimentView {
        ExperimentView {
            name: self.name@,
            crates: crates.deep_view(),
            toolchains: (self.toolchain_start@, self.toolchain_end@),
            mode: Mode::parse(self.mode@)->0,
            cap_lints: CapLints::parse(self.cap_lints@)->0,
            priority: self.priority,
            created_at: self.created_at,
            started_at: self.started_at,
            completed_at: self.completed_at,
            github_issue: self.issue(),
            status: Status::parse(self.status@)->0,
            assigned_to: match self.assigned_to {
                Some(assignee) => Some(Assignee::parse(assignee@)->Ok_0),
                None => None,
            },
            report_url: text_of(self.report_url),
            ignore_blacklist: self.ignore_blacklist,
            children: self.children,
        }
    }

    /// Reads the row as an experiment with the crates `crates`.
    pub fn into_experiment(self, crates: Vec<ExperimentCrate>) -> (read: Result<
        Experiment,
        RecordError,
    >)
        ensures
            match read {
                Ok(ex) => self.refusal() is None && ex@ == self.experiment(crates),
                Err(e) => self.refusal() == Some(e@),
            },
    {
        let start = match Toolchain::from_str(self.toolchain_start.as_str()) {
            Ok(tc) => tc,
            Err(_) => {
                return Err(RecordError::InvalidToolchain(self.toolchain_start));
            },
        };
        let end = match Toolchain::from_str(self.toolchain_end.as_str()) {
            Ok(tc) => tc,
            Err(_) => {
                return Err(RecordError::InvalidToolchain(self.toolchain_end));
            },
        };
        let cap_lints = match CapLints::from_str(self.cap_lints.as_str()) {
            Ok(cap_lints) => cap_lints,
            Err(e) => {
                return Err(RecordError::InvalidCapLints(e.value));
            },
        };
        let mode = match Mode::from_str(self.mode.as_str()) {
            Ok(mode) => mode,
            Err(e) => {
                return Err(RecordError::InvalidMode(e.value));
            },
        };
        let assigned_to = match &self.assigned_to {
            Some(assignee) => match Assignee::from_str(assignee.as_str()) {
                Ok(assignee) => Some(assignee),
                Err(e) => {
                    return Err(RecordError::InvalidAssignee(e));
                },
            },
            None => None,
        };
        let status = match Status::from_str(self.status.as_str()) {
            Ok(status) => status,
            Err(e) => {
                return Err(RecordError::InvalidStatus(e.value));
            },
        };
        let github_issue = match (
            self.github_issue,
            self.github_issue_url,
            self.github_issue_number,
        ) {
            (Some(api_url), Some(html_url), Some(number)) => Some(
                GitHubIssue { api_url, html_url, number },
            ),
            _ => None,
        };
        Ok(
            Experiment {
                name: self.name,
                crates,
                toolchains: [start, end],
                mode,
                cap_lints,
                priority: self.priority,
                created_at: self.created_at,
                started_at: self.started_at,
                completed_at: self.completed_at,
                github_issue,
                status,
                assigned_to,
                report_url: self.report_url,
                ignore_blacklist: self.ignore_blacklist,
                children: self.children,
            },
        )
    }

    /// The row of an experiment.
    pub fn from_experiment(ex: &Experiment) -> (row: ExperimentDBRecord)
        ensures
            row.name@ == ex@.name,
            row.mode@ == ex.mode.repr(),
            row.cap_lints@ == ex.cap_lints.repr(),
            row.toolchain_start@ == ex@.toolchains.0,
            row.toolchain_end@ == ex@.toolchains.1,
            row.priority == ex.priority,
            row.created_at == ex.created_at,
            row.started_at == ex.started_at,
            row.completed_at == ex.completed_at,
            row.issue() == ex@.github_issue,
            row.status@ == ex.status.repr(),
            text_of(row.assigned_to) == match ex.assigned_to {
                Some(assignee) => Some(assignee.format()),
                None => None,
            },
            text_of(row.report_url) == ex@.report_url,
            row.ignore_blacklist == ex.ignore_blacklist,
            row.children == ex.children,
    {
        let (github_issue, github_issue_url, github_issue_number) = match &ex.github_issue {
            Some(issue) => (
                Some(issue.api_url.clone()),
                Some(issue.html_url.clone()),
                Some(issue.number),
            ),
            None => (None, None, None),
        };
        ExperimentDBRecord {
            name: ex.name.clone(),
            mode: String::from_str(ex.mode.to_str()),
            cap_lints: String::from_str(ex.cap_lints.to_str()),
            toolchain_start: ex.toolchains[0].to_string(),
            toolchain_end: ex.toolchains[1].to_string(),
            priority: ex.priority,
            created_at: ex.created_at,
            started_at: ex.started_at,
            completed_at: ex.completed_at,
            github_issue,
            github_issue_url,
            github_issue_number,
            status: String::from_str(ex.status.to_str()),
            assigned_to: match &ex.assigned_to {
                Some(assignee) => Some(assignee.to_string()),
                None => None,
            },
            report_url: match &ex.report_url {
                Some(url) => Some(url.clone()),
                None => None,
            },
            ignore_blacklist: ex.ignore_blacklist,
            children: ex.children,
        }
    }
}

/// The text of an agent whose name is not blank is read as that agent, and
/// the text of the command line as the command line.
pub proof fn lemma_assignee_round_trip(assignee: Assignee)
    requires
        assignee matches Assignee::Agent(name) ==> !is_blank(name@),
    ensures
        Assignee::parse(assignee.format()) == Ok::<AssigneeView, AssigneeParseErrorView>(
            assignee@,
        ),
{
    reveal_strlit("agent:");
    reveal_strlit("agent");
    reveal_strlit("cli");
    let s = assignee.format();
    match assignee {
        Assignee::Agent(name) => {
            lemma_find_char_is(s, ':', 5);
            assert(s.take(5) =~= "agent"@);
            assert(s.skip(6) =~= name@);
            assert(!crate::text::is_whitespace(s[0]));
        },
        Assignee::CLI => {
            lemma_find_char_is(s, ':', 3);
            assert(s.take(3) =~= s);
            assert(!crate::text::is_whitespace(s[0]));
            assert("cli"@.len() != "agent"@.len());
        },
    }
}

} // verus!
