//! Who runs an experiment: one of the agents, or the command line.

use vstd::prelude::*;
use vstd::string::StringExecFns;
use crate::text::{find_char, is_blank, split_once, str_eq, str_is_blank};

verus! {

/// The one an experiment, or a chunk of one, is assigned to.
#[derive(Debug, Eq, Hash)]
pub enum Assignee {
    Agent(String),
    CLI,
}

/// Why a text names no assignee.
#[derive(Debug, Eq)]
pub enum AssigneeParseError {
    /// The text, or the name of the agent in it, is empty.
    Empty,
    /// Something follows `cli`.
    UnexpectedPayload,
    /// The text starts with a kind that is neither `agent` nor `cli`.
    InvalidKind(String),
}

/// What an [`Assignee`] holds, as plain sequences.
pub enum AssigneeView {
    Agent(Seq<char>),
    CLI,
}

/// What an [`AssigneeParseError`] holds, as plain sequences.
pub enum AssigneeParseErrorView {
    Empty,
    UnexpectedPayload,
    InvalidKind(Seq<char>),
}

impl View for Assignee {
    type V = AssigneeView;

    open spec fn view(&self) -> AssigneeView {
        match self {
            Assignee::Agent(name) => AssigneeView::Agent(name@),
            Assignee::CLI => AssigneeView::CLI,
        }
    }
}

impl View for AssigneeParseError {
    type V = AssigneeParseErrorView;

    open spec fn view(&self) -> AssigneeParseErrorView {
        match self {
            AssigneeParseError::Empty => AssigneeParseErrorView::Empty,
            AssigneeParseError::UnexpectedPayload => AssigneeParseErrorView::UnexpectedPayload,
            AssigneeParseError::InvalidKind(kind) => AssigneeParseErrorView::InvalidKind(kind@),
        }
    }
}

impl PartialEq for Assignee {
    fn eq(&self, other: &Assignee) -> (same: bool) {
        match self {
            Assignee::Agent(a) => match other {
                Assignee::Agent(b) => *a == *b,
                Assignee::CLI => false,
            },
            Assignee::CLI => match other {
                Assignee::Agent(_) => false,
                Assignee::CLI => true,
            },
        }
    }
}

impl vstd::std_specs::cmp::PartialEqSpecImpl for Assignee {
    open spec fn obeys_eq_spec() -> bool {
        true
    }

    open spec fn eq_spec(&self, other: &Assignee) -> bool {
        self@ == other@
    }
}

impl PartialEq for AssigneeParseError {
    fn eq(&self, other: &AssigneeParseError) -> (same: bool) {
        match self {
            AssigneeParseError::Empty => match other {
                AssigneeParseError::Empty => true,
                _ => false,
            },
            AssigneeParseError::UnexpectedPayload => match other {
                AssigneeParseError::UnexpectedPayload => true,
                _ => false,
            },
            AssigneeParseError::InvalidKind(a) => match other {
                AssigneeParseError::InvalidKind(b) => *a == *b,
                _ => false,
            },
        }
    }
}

impl vstd::std_specs::cmp::PartialEqSpecImpl for AssigneeParseError {
    open spec fn obeys_eq_spec() -> bool {
        true
    }

    open spec fn eq_spec(&self, other: &AssigneeParseError) -> bool {
        self@ == other@
    }
}

impl Clone for Assignee {
    fn clone(&self) -> (copy: Assignee)
        ensures
            copy@ == self@,
    {
        match self {
            Assignee::Agent(name) => Assignee::Agent(name.clone()),
            Assignee::CLI => Assignee::CLI,
        }
    }
}

impl AssigneeParseError {
    /// The message of this error.
    pub fn to_string(&self) -> (s: String)
        ensures
            s@ == match self@ {
                AssigneeParseErrorView::Empty => "the assignee is empty"@,
                AssigneeParseErrorView::UnexpectedPayload => "unexpected assignee payload"@,
                AssigneeParseErrorView::InvalidKind(kind) => "invalid assignee kind: "@ + kind,
            },
    {
        match self {
            AssigneeParseError::Empty => String::from_str("the assignee is empty"),
            AssigneeParseError::UnexpectedPayload => String::from_str(
                "unexpected assignee payload",
            ),
            AssigneeParseError::InvalidKind(kind) => String::from_str(
                "invalid assignee kind: ",
            ).concat(kind.as_str()),
        }
    }
}

impl Assignee {
    /// The text of an assignee: `cli`, or `agent:` and the agent's name.
    pub open spec fn format(self) -> Seq<char> {
        match self {
            Assignee::Agent(name) => "agent:"@ + name@,
            Assignee::CLI => "cli"@,
        }
    }

    /// What a text stands for. The kind is what precedes the first colon;
    /// `agent` takes a name that is not blank, `cli` takes nothing.
    pub open spec fn parse(s: Seq<char>) -> Result<AssigneeView, AssigneeParseErrorView> {
        let colon = find_char(s, ':');
        let kind = s.take(colon);
        if is_blank(s) {
            Err(AssigneeParseErrorView::Empty)
        } else if kind == "agent"@ {
            if colon == s.len() || is_blank(s.skip(colon + 1)) {
                Err(AssigneeParseErrorView::Empty)
            } else {
                Ok(AssigneeView::Agent(s.skip(colon + 1)))
            }
        } else if kind == "cli"@ {
            if colon < s.len() {
                Err(AssigneeParseErrorView::UnexpectedPayload)
            } else {
                Ok(AssigneeView::CLI)
            }
        } else {
            Err(AssigneeParseErrorView::InvalidKind(kind))
        }
    }

    /// The text of the assignee.
    pub fn to_string(&self) -> (s: String)
        ensures
            s@ == self.format(),
    {
        match self {
            Assignee::Agent(name) => String::from_str("agent:").concat(name.as_str()),
            Assignee::CLI => String::from_str("cli"),
        }
    }

    /// Reads a text as an assignee.
    pub fn from_str(input: &str) -> (parsed: Result<Assignee, AssigneeParseError>)
        ensures
            match parsed {
                Ok(assignee) => Self::parse(input@) == Ok::<_, AssigneeParseErrorView>(
                    assignee@,
                ),
                Err(e) => Self::parse(input@) == Err::<AssigneeView, _>(e@),
            },
    {
        if str_is_blank(input) {
            return Err(AssigneeParseError::Empty);
        }
        let (kind, payload) = split_once(input, ':');
        if str_eq(kind, "agent") {
            match payload {
                None => Err(AssigneeParseError::Empty),
                Some(name) => {
                    if str_is_blank(name) {
                        Err(AssigneeParseError::Empty)
                    } else {
                        Ok(Assignee::Agent(String::from_str(name)))
                    }
                },
            }
        } else if str_eq(kind, "cli") {
            if payload.is_some() {
                Err(AssigneeParseError::UnexpectedPayload)
            } else {
                Ok(Assignee::CLI)
            }
        } else {
            Err(AssigneeParseError::InvalidKind(String::from_str(kind)))
        }
    }
}

} // verus!
