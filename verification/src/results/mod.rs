//! Outcomes of running one crate with one toolchain, and their textual form.

pub mod db;

use vstd::prelude::*;
use vstd::string::StringExecFns;
use crate::text::{find_char, lemma_find_char_is, split_once, str_eq, InvalidValue};

pub use self::db::{DatabaseDB, ProgressData, TaskResult};

verus! {

/// Why a build or a test run failed.
#[derive(Debug, PartialEq, Eq, Copy, Clone, Hash, Structural)]
pub enum FailureReason {
    Unknown,
    Broken,
    OOM,
    Timeout,
}

impl FailureReason {
    /// The word that stands for this reason.
    pub open spec fn repr(self) -> Seq<char> {
        match self {
            FailureReason::Unknown => "unknown"@,
            FailureReason::Broken => "broken"@,
            FailureReason::OOM => "oom"@,
            FailureReason::Timeout => "timeout"@,
        }
    }

    /// The reason that a word stands for, if any.
    pub open spec fn parse(s: Seq<char>) -> Option<FailureReason> {
        if s == "unknown"@ {
            Some(FailureReason::Unknown)
        } else if s == "broken"@ {
            Some(FailureReason::Broken)
        } else if s == "oom"@ {
            Some(FailureReason::OOM)
        } else if s == "timeout"@ {
            Some(FailureReason::Timeout)
        } else {
            None
        }
    }

    /// The word that stands for this value.
    pub fn to_str(&self) -> (s: &'static str)
        ensures
            s@ == self.repr(),
    {
        match self {
            FailureReason::Unknown => "unknown",
            FailureReason::Broken => "broken",
            FailureReason::OOM => "oom",
            FailureReason::Timeout => "timeout",
        }
    }

    /// Reads a word as a value.
    pub fn from_str(input: &str) -> (parsed: Result<FailureReason, InvalidValue>)
        ensures
            match parsed {
                Ok(value) => Self::parse(input@) == Some(value),
                Err(e) => Self::parse(input@) is None && e.value@ == input@,
            },
    {
        if str_eq(input, "unknown") {
            Ok(FailureReason::Unknown)
        } else if str_eq(input, "broken") {
            Ok(FailureReason::Broken)
        } else if str_eq(input, "oom") {
            Ok(FailureReason::OOM)
        } else if str_eq(input, "timeout") {
            Ok(FailureReason::Timeout)
        } else {
            Err(InvalidValue { value: String::from_str(input) })
        }
    }

    /// No two values share a word: parsing the word of a value gives the
    /// value back.
    pub proof fn lemma_parse_repr(self)
        ensures
            Self::parse(self.repr()) == Some(self),
    {
        reveal_strlit("unknown");
        assert("unknown"@.len() == 7);
        reveal_strlit("broken");
        assert("broken"@.len() == 6);
        reveal_strlit("oom");
        assert("oom"@.len() == 3);
        reveal_strlit("timeout");
        assert("timeout"@.len() == 7);
        assert("unknown"@[0] != "timeout"@[0]);
    }

    /// No word of a reason holds a colon.
    pub proof fn lemma_repr_has_no_colon(self)
        ensures
            find_char(self.repr(), ':') == self.repr().len(),
    {
        reveal_strlit("unknown");
        reveal_strlit("broken");
        reveal_strlit("oom");
        reveal_strlit("timeout");
        lemma_find_char_is(self.repr(), ':', self.repr().len() as int);
    }

    /// Out-of-memory and timeout failures say little about the crate under
    /// test: they may disappear on another run.
    pub fn is_spurious(self) -> (spurious: bool)
        ensures
            spurious == (self is OOM || self is Timeout),
    {
        match self {
            FailureReason::Unknown | FailureReason::Broken => false,
            FailureReason::OOM | FailureReason::Timeout => true,
        }
    }
}

/// The outcome of running one crate with one toolchain.
#[derive(Debug, PartialEq, Eq, Copy, Clone, Hash, Structural)]
pub enum TestResult {
    BuildFail(FailureReason),
    TestFail(FailureReason),
    TestSkipped,
    TestPass,
    Error,
}

/// Why a text is not a test result.
#[derive(Debug, PartialEq, Eq, Clone)]
pub enum TestResultParseError {
    /// The first segment is not the word of any result.
    UnknownResult(String),
    /// A reason follows a result that takes none.
    UnexpectedFailureReason,
    /// The text has more than two segments.
    TooManySegments,
    /// The second segment is not the word of any failure reason.
    InvalidFailureReason(String),
}

/// What a [`TestResultParseError`] holds, as plain sequences.
pub enum TestResultParseErrorView {
    UnknownResult(Seq<char>),
    UnexpectedFailureReason,
    TooManySegments,
    InvalidFailureReason(Seq<char>),
}

impl View for TestResultParseError {
    type V = TestResultParseErrorView;

    open spec fn view(&self) -> TestResultParseErrorView {
        match self {
            TestResultParseError::UnknownResult(s) => TestResultParseErrorView::UnknownResult(s@),
            TestResultParseError::UnexpectedFailureReason =>
                TestResultParseErrorView::UnexpectedFailureReason,
            TestResultParseError::TooManySegments => TestResultParseErrorView::TooManySegments,
            TestResultParseError::InvalidFailureReason(s) =>
                TestResultParseErrorView::InvalidFailureReason(s@),
        }
    }
}

impl TestResultParseError {
    /// The message of this error.
    pub fn to_string(&self) -> (s: String)
        ensures
            s@ == match self@ {
                TestResultParseErrorView::UnknownResult(w) => "unknown test result: "@ + w,
                TestResultParseErrorView::UnexpectedFailureReason => "unexpected failure reason"@,
                TestResultParseErrorView::TooManySegments => "too many segments"@,
                TestResultParseErrorView::InvalidFailureReason(w) => "invalid failure reason: "@
                    + w,
            },
    {
        match self {
            TestResultParseError::UnknownResult(w) => String::from_str(
                "unknown test result: ",
            ).concat(w.as_str()),
            TestResultParseError::UnexpectedFailureReason => String::from_str(
                "unexpected failure reason",
            ),
            TestResultParseError::TooManySegments => String::from_str("too many segments"),
            TestResultParseError::InvalidFailureReason(w) => String::from_str(
                "invalid failure reason: ",
            ).concat(w.as_str()),
        }
    }
}

impl TestResult {
    /// The text of a result: its word, followed by a colon and the word of
    /// the reason where the result carries one.
    pub open spec fn format(self) -> Seq<char> {
        match self {
            TestResult::BuildFail(reason) => "build-fail"@ + ":"@ + reason.repr(),
            TestResult::TestFail(reason) => "test-fail"@ + ":"@ + reason.repr(),
            TestResult::TestSkipped => "test-skipped"@,
            TestResult::TestPass => "test-pass"@,
            TestResult::Error => "error"@,
        }
    }

    /// What a text with a single segment stands for.
    pub open spec fn parse_word(word: Seq<char>) -> Result<TestResult, TestResultParseErrorView> {
        if word == "build-fail"@ {
            Ok(TestResult::BuildFail(FailureReason::Unknown))
        } else if word == "test-fail"@ {
            Ok(TestResult::TestFail(FailureReason::Unknown))
        } else if word == "test-skipped"@ {
            Ok(TestResult::TestSkipped)
        } else if word == "test-pass"@ {
            Ok(TestResult::TestPass)
        } else if word == "error"@ {
            Ok(TestResult::Error)
        } else {
            Err(TestResultParseErrorView::UnknownResult(word))
        }
    }

    /// What a text with two segments stands for.
    pub open spec fn parse_pair(word: Seq<char>, reason: Seq<char>) -> Result<
        TestResult,
        TestResultParseErrorView,
    > {
        if word == "test-skipped"@ || word == "test-pass"@ || word == "error"@ {
            Err(TestResultParseErrorView::UnexpectedFailureReason)
        } else if word == "build-fail"@ {
            match FailureReason::parse(reason) {
                Some(r) => Ok(TestResult::BuildFail(r)),
                None => Err(TestResultParseErrorView::InvalidFailureReason(reason)),
            }
        } else if word == "test-fail"@ {
            match FailureReason::parse(reason) {
                Some(r) => Ok(TestResult::TestFail(r)),
                None => Err(TestResultParseErrorView::InvalidFailureReason(reason)),
            }
        } else {
            Err(TestResultParseErrorView::UnknownResult(word))
        }
    }

    /// What a text stands for. Colons separate its segments: one segment is
    /// the word of a result (a failure then has the reason `Unknown`), two are
    /// the word of a failure and the word of its reason.
    pub open spec fn parse(s: Seq<char>) -> Result<TestResult, TestResultParseErrorView> {
        let first = find_char(s, ':');
        if first == s.len() {
            Self::parse_word(s)
        } else {
            let rest = s.skip(first + 1);
            if find_char(rest, ':') < rest.len() {
                Err(TestResultParseErrorView::TooManySegments)
            } else {
                Self::parse_pair(s.take(first), rest)
            }
        }
    }

    /// The text of the result.
    pub fn to_string(&self) -> (s: String)
        ensures
            s@ == self.format(),
    {
        match self {
            TestResult::BuildFail(reason) => String::from_str("build-fail").concat(":").concat(
                reason.to_str(),
            ),
            TestResult::TestFail(reason) => String::from_str("test-fail").concat(":").concat(
                reason.to_str(),
            ),
            TestResult::TestSkipped => String::from_str("test-skipped"),
            TestResult::TestPass => String::from_str("test-pass"),
            TestResult::Error => String::from_str("error"),
        }
    }

    /// Reads a text as a result.
    pub fn from_str(input: &str) -> (parsed: Result<TestResult, TestResultParseError>)
        ensures
            match parsed {
                Ok(result) => Self::parse(input@) == Ok::<_, TestResultParseErrorView>(result),
                Err(e) => Self::parse(input@) == Err::<TestResult, _>(e@),
            },
    {
        let (word, tail) = split_once(input, ':');
        match tail {
            None => {
                assert(word@ =~= input@);
                if str_eq(word, "build-fail") {
                    Ok(TestResult::BuildFail(FailureReason::Unknown))
                } else if str_eq(word, "test-fail") {
                    Ok(TestResult::TestFail(FailureReason::Unknown))
                } else if str_eq(word, "test-skipped") {
                    Ok(TestResult::TestSkipped)
                } else if str_eq(word, "test-pass") {
                    Ok(TestResult::TestPass)
                } else if str_eq(word, "error") {
                    Ok(TestResult::Error)
                } else {
                    Err(TestResultParseError::UnknownResult(String::from_str(word)))
                }
            },
            Some(rest) => {
                let (reason, more) = split_once(rest, ':');
                if more.is_some() {
                    return Err(TestResultParseError::TooManySegments);
                }
                assert(reason@ =~= rest@);
                if str_eq(word, "test-skipped") || str_eq(word, "test-pass") || str_eq(
                    word,
                    "error",
                ) {
                    Err(TestResultParseError::UnexpectedFailureReason)
                } else if str_eq(word, "build-fail") {
                    match FailureReason::from_str(reason) {
                        Ok(r) => Ok(TestResult::BuildFail(r)),
                        Err(e) => Err(TestResultParseError::InvalidFailureReason(e.value)),
                    }
                } else if str_eq(word, "test-fail") {
                    match FailureReason::from_str(reason) {
                        Ok(r) => Ok(TestResult::TestFail(r)),
                        Err(e) => Err(TestResultParseError::InvalidFailureReason(e.value)),
                    }
                } else {
                    Err(TestResultParseError::UnknownResult(String::from_str(word)))
                }
            },
        }
    }

    /// Parsing the text of a result gives the result back.
    pub proof fn lemma_parse_format(self)
        ensures
            Self::parse(self.format()) == Ok::<_, TestResultParseErrorView>(self),
    {
        reveal_strlit("build-fail");
        reveal_strlit("test-fail");
        reveal_strlit("test-skipped");
        reveal_strlit("test-pass");
        reveal_strlit("error");
        reveal_strlit(":");
        let s = self.format();
        assert("test-fail"@[5] != "test-pass"@[5]);
        match self {
            TestResult::BuildFail(reason) => {
                reason.lemma_parse_repr();
                Self::lemma_parse_failure("build-fail"@, reason);
            },
            TestResult::TestFail(reason) => {
                reason.lemma_parse_repr();
                Self::lemma_parse_failure("test-fail"@, reason);
            },
            TestResult::TestSkipped => {
                lemma_find_char_is(s, ':', s.len() as int);
                assert(Self::parse(s) == Self::parse_word(s));
            },
            TestResult::TestPass => {
                lemma_find_char_is(s, ':', s.len() as int);
                assert(Self::parse(s) == Self::parse_word(s));
            },
            TestResult::Error => {
                lemma_find_char_is(s, ':', s.len() as int);
                assert(Self::parse(s) == Self::parse_word(s));
            },
        }
    }

    /// A word without a colon, a colon and the word of a reason split into
    /// that word and that reason.
    proof fn lemma_parse_failure(word: Seq<char>, reason: FailureReason)
        requires
            forall|i: int| 0 <= i < word.len() ==> word[i] != ':',
        ensures
            Self::parse(word + ":"@ + reason.repr()) == Self::parse_pair(word, reason.repr()),
    {
        reveal_strlit(":");
        let s = word + ":"@ + reason.repr();
        reason.lemma_repr_has_no_colon();
        lemma_find_char_is(s, ':', word.len() as int);
        assert(s.take(word.len() as int) =~= word);
        assert(s.skip(word.len() as int + 1) =~= reason.repr());
    }
}

} // verus!
