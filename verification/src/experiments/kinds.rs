//! The words of an experiment's record: its status, its mode and its settings.

use vstd::prelude::*;
use vstd::string::StringExecFns;
use crate::text::{str_eq, InvalidValue};

verus! {

/// Where an experiment, or a chunk of one, stands in its life.
#[derive(Debug, PartialEq, Eq, Copy, Clone, Hash, Structural)]
pub enum Status {
    /// Waiting for an agent.
    Queued,
    /// Handed to an agent.
    Running,
    /// Every chunk completed; the report is still to be made.
    NeedsReport,
    /// An agent reported an error that it could not recover from.
    Failed,
    /// The report worker is at it.
    GeneratingReport,
    /// The report could not be made.
    ReportFailed,
    /// Done.
    Completed,
}

impl Status {
    /// The word that stands for this status.
    pub open spec fn repr(self) -> Seq<char> {
        match self {
            Status::Queued => "queued"@,
            Status::Running => "running"@,
            Status::NeedsReport => "needs-report"@,
            Status::Failed => "failed"@,
            Status::GeneratingReport => "generating-report"@,
            Status::ReportFailed => "report-failed"@,
            Status::Completed => "completed"@,
        }
    }

    /// The status that a word stands for, if any.
    pub open spec fn parse(s: Seq<char>) -> Option<Status> {
        if s == "queued"@ {
            Some(Status::Queued)
        } else if s == "running"@ {
            Some(Status::Running)
        } else if s == "needs-report"@ {
            Some(Status::NeedsReport)
        } else if s == "failed"@ {
            Some(Status::Failed)
        } else if s == "generating-report"@ {
            Some(Status::GeneratingReport)
        } else if s == "report-failed"@ {
            Some(Status::ReportFailed)
        } else if s == "completed"@ {
            Some(Status::Completed)
        } else {
            None
        }
    }

    /// The word that stands for this value.
    pub fn to_str(&self) -> (s: &'static str)
        ensures
            s@ == self.repr(),
    {
        match self {
            Status::Queued => "queued",
            Status::Running => "running",
            Status::NeedsReport => "needs-report",
            Status::Failed => "failed",
            Status::GeneratingReport => "generating-report",
            Status::ReportFailed => "report-failed",
            Status::Completed => "completed",
        }
    }

    /// Reads a word as a value.
    pub fn from_str(input: &str) -> (parsed: Result<Status, InvalidValue>)
        ensures
            match parsed {
                Ok(value) => Self::parse(input@) == Some(value),
                Err(e) => Self::parse(input@) is None && e.value@ == input@,
            },
    {
        if str_eq(input, "queued") {
            Ok(Status::Queued)
        } else if str_eq(input, "running") {
            Ok(Status::Running)
        } else if str_eq(input, "needs-report") {
            Ok(Status::NeedsReport)
        } else if str_eq(input, "failed") {
            Ok(Status::Failed)
        } else if str_eq(input, "generating-report") {
            Ok(Status::GeneratingReport)
        } else if str_eq(input, "report-failed") {
            Ok(Status::ReportFailed)
        } else if str_eq(input, "completed") {
            Ok(Status::Completed)
        } else {
            Err(InvalidValue { value: String::from_str(input) })
        }
    }

    /// No two values share a word: parsing the word of a value gives the
    /// value back.
    pub proof fn lemma_parse_repr(self)
        ensures
            Self::parse(self.repr()) == Some(self),
    {
        reveal_strlit("queued");
        assert("queued"@.len() == 6);
        reveal_strlit("running");
        assert("running"@.len() == 7);
        reveal_strlit("needs-report");
        assert("needs-report"@.len() == 12);
        reveal_strlit("failed");
        assert("failed"@.len() == 6);
        reveal_strlit("generating-report");
        assert("generating-report"@.len() == 17);
        reveal_strlit("report-failed");
        assert("report-failed"@.len() == 13);
        reveal_strlit("completed");
        assert("completed"@.len() == 9);
        assert("queued"@[0] != "failed"@[0]);
    }
}

/// What is run on each crate.
#[derive(Debug, PartialEq, Eq, Copy, Clone, Hash, Structural)]
pub enum Mode {
    BuildAndTest,
    BuildOnly,
    CheckOnly,
    Clippy,
    Rustdoc,
    UnstableFeatures,
}

impl Mode {
    /// The word that stands for this mode.
    pub open spec fn repr(self) -> Seq<char> {
        match self {
            Mode::BuildAndTest => "build-and-test"@,
            Mode::BuildOnly => "build-only"@,
            Mode::CheckOnly => "check-only"@,
            Mode::Clippy => "clippy"@,
            Mode::Rustdoc => "rustdoc"@,
            Mode::UnstableFeatures => "unstable-features"@,
        }
    }

    /// The mode that a word stands for, if any.
    pub open spec fn parse(s: Seq<char>) -> Option<Mode> {
        if s == "build-and-test"@ {
            Some(Mode::BuildAndTest)
        } else if s == "build-only"@ {
            Some(Mode::BuildOnly)
        } else if s == "check-only"@ {
            Some(Mode::CheckOnly)
        } else if s == "clippy"@ {
            Some(Mode::Clippy)
        } else if s == "rustdoc"@ {
            Some(Mode::Rustdoc)
        } else if s == "unstable-features"@ {
            Some(Mode::UnstableFeatures)
        } else {
            None
        }
    }

    /// The word that stands for this value.
    pub fn to_str(&self) -> (s: &'static str)
        ensures
            s@ == self.repr(),
    {
        match self {
            Mode::BuildAndTest => "build-and-test",
            Mode::BuildOnly => "build-only",
            Mode::CheckOnly => "check-only",
            Mode::Clippy => "clippy",
            Mode::Rustdoc => "rustdoc",
            Mode::UnstableFeatures => "unstable-features",
        }
    }

    /// Reads a word as a value.
    pub fn from_str(input: &str) -> (parsed: Result<Mode, InvalidValue>)
        ensures
            match parsed {
                Ok(value) => Self::parse(input@) == Some(value),
                Err(e) => Self::parse(input@) is None && e.value@ == input@,
            },
    {
        if str_eq(input, "build-and-test") {
            Ok(Mode::BuildAndTest)
        } else if str_eq(input, "build-only") {
            Ok(Mode::BuildOnly)
        } else if str_eq(input, "check-only") {
            Ok(Mode::CheckOnly)
        } else if str_eq(input, "clippy") {
            Ok(Mode::Clippy)
        } else if str_eq(input, "rustdoc") {
            Ok(Mode::Rustdoc)
        } else if str_eq(input, "unstable-features") {
            Ok(Mode::UnstableFeatures)
        } else {
            Err(InvalidValue { value: String::from_str(input) })
        }
    }

    /// No two values share a word: parsing the word of a value gives the
    /// value back.
    pub proof fn lemma_parse_repr(self)
        ensures
            Self::parse(self.repr()) == Some(self),
    {
        reveal_strlit("build-and-test");
        assert("build-and-test"@.len() == 14);
        reveal_strlit("build-only");
        assert("build-only"@.len() == 10);
        reveal_strlit("check-only");
        assert("check-only"@.len() == 10);
        reveal_strlit("clippy");
        assert("clippy"@.len() == 6);
        reveal_strlit("rustdoc");
        assert("rustdoc"@.len() == 7);
        reveal_strlit("unstable-features");
        assert("unstable-features"@.len() == 17);
        assert("build-only"@[0] != "check-only"@[0]);
    }
}

/// Which crates an experiment covers.
#[derive(Debug, PartialEq, Eq, Copy, Clone, Hash, Structural)]
pub enum CrateSelect {
    Full,
    Demo,
    SmallRandom,
    Top100,
    Local,
}

impl CrateSelect {
    /// The word that stands for this selection.
    pub open spec fn repr(self) -> Seq<char> {
        match self {
            CrateSelect::Full => "full"@,
            CrateSelect::Demo => "demo"@,
            CrateSelect::SmallRandom => "small-random"@,
            CrateSelect::Top100 => "top-100"@,
            CrateSelect::Local => "local"@,
        }
    }

    /// The selection that a word stands for, if any.
    pub open spec fn parse(s: Seq<char>) -> Option<CrateSelect> {
        if s == "full"@ {
            Some(CrateSelect::Full)
        } else if s == "demo"@ {
            Some(CrateSelect::Demo)
        } else if s == "small-random"@ {
            Some(CrateSelect::SmallRandom)
        } else if s == "top-100"@ {
            Some(CrateSelect::Top100)
        } else if s == "local"@ {
            Some(CrateSelect::Local)
        } else {
            None
        }
    }

    /// The word that stands for this value.
    pub fn to_str(&self) -> (s: &'static str)
        ensures
            s@ == self.repr(),
    {
        match self {
            CrateSelect::Full => "full",
            CrateSelect::Demo => "demo",
            CrateSelect::SmallRandom => "small-random",
            CrateSelect::Top100 => "top-100",
            CrateSelect::Local => "local",
        }
    }

    /// Reads a word as a value.
    pub fn from_str(input: &str) -> (parsed: Result<CrateSelect, InvalidValue>)
        ensures
            match parsed {
                Ok(value) => Self::parse(input@) == Some(value),
                Err(e) => Self::parse(input@) is None && e.value@ == input@,
            },
    {
        if str_eq(input, "full") {
            Ok(CrateSelect::Full)
        } else if str_eq(input, "demo") {
            Ok(CrateSelect::Demo)
        } else if str_eq(input, "small-random") {
            Ok(CrateSelect::SmallRandom)
        } else if str_eq(input, "top-100") {
            Ok(CrateSelect::Top100)
        } else if str_eq(input, "local") {
            Ok(CrateSelect::Local)
        } else {
            Err(InvalidValue { value: String::from_str(input) })
        }
    }

    /// No two values share a word: parsing the word of a value gives the
    /// value back.
    pub proof fn lemma_parse_repr(self)
        ensures
            Self::parse(self.repr()) == Some(self),
    {
        reveal_strlit("full");
        assert("full"@.len() == 4);
        reveal_strlit("demo");
        assert("demo"@.len() == 4);
        reveal_strlit("small-random");
        assert("small-random"@.len() == 12);
        reveal_strlit("top-100");
        assert("top-100"@.len() == 7);
        reveal_strlit("local");
        assert("local"@.len() == 5);
        assert("full"@[0] != "demo"@[0]);
    }
}

/// The level at which lints are capped.
#[derive(Debug, PartialEq, Eq, Copy, Clone, Hash, Structural)]
pub enum CapLints {
    Allow,
    Warn,
    Deny,
    Forbid,
}

impl CapLints {
    /// The word that stands for this level.
    pub open spec fn repr(self) -> Seq<char> {
        match self {
            CapLints::Allow => "allow"@,
            CapLints::Warn => "warn"@,
            CapLints::Deny => "deny"@,
            CapLints::Forbid => "forbid"@,
        }
    }

    /// The level that a word stands for, if any.
    pub open spec fn parse(s: Seq<char>) -> Option<CapLints> {
        if s == "allow"@ {
            Some(CapLints::Allow)
        } else if s == "warn"@ {
            Some(CapLints::Warn)
        } else if s == "deny"@ {
            Some(CapLints::Deny)
        } else if s == "forbid"@ {
            Some(CapLints::Forbid)
        } else {
            None
        }
    }

    /// The word that stands for this value.
    pub fn to_str(&self) -> (s: &'static str)
        ensures
            s@ == self.repr(),
    {
        match self {
            CapLints::Allow => "allow",
            CapLints::Warn => "warn",
            CapLints::Deny => "deny",
            CapLints::Forbid => "forbid",
        }
    }

    /// Reads a word as a value.
    pub fn from_str(input: &str) -> (parsed: Result<CapLints, InvalidValue>)
        ensures
            match parsed {
                Ok(value) => Self::parse(input@) == Some(value),
                Err(e) => Self::parse(input@) is None && e.value@ == input@,
            },
    {
        if str_eq(input, "allow") {
            Ok(CapLints::Allow)
        } else if str_eq(input, "warn") {
            Ok(CapLints::Warn)
        } else if str_eq(input, "deny") {
            Ok(CapLints::Deny)
        } else if str_eq(input, "forbid") {
            Ok(CapLints::Forbid)
        } else {
            Err(InvalidValue { value: String::from_str(input) })
        }
    }

    /// No two values share a word: parsing the word of a value gives the
    /// value back.
    pub proof fn lemma_parse_repr(self)
        ensures
            Self::parse(self.repr()) == Some(self),
    {
        reveal_strlit("allow");
        assert("allow"@.len() == 5);
        reveal_strlit("warn");
        assert("warn"@.len() == 4);
        reveal_strlit("deny");
        assert("deny"@.len() == 4);
        reveal_strlit("forbid");
        assert("forbid"@.len() == 6);
        assert("warn"@[0] != "deny"@[0]);
    }
}
} // verus!
