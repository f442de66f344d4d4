//! What the operator is told when a command cannot be carried out.

use vstd::prelude::*;
use vstd::string::StringExecFns;

verus! {

/// Why a command on an experiment failed.
#[derive(Debug, Eq)]
pub enum ErrorKind {
    /// No experiment has this name.
    ExperimentNotFound(String),
    /// An experiment has this name already.
    ExperimentAlreadyExists(String),
    /// The experiment left the queue: it can no longer be edited.
    CanEditOnlyQueuedExperiments,
    /// The two toolchains of the experiment would be the same.
    DuplicateToolchains,
}

/// What an [`ErrorKind`] holds, as plain sequences.
pub enum ErrorKindView {
    ExperimentNotFound(Seq<char>),
    ExperimentAlreadyExists(Seq<char>),
    CanEditOnlyQueuedExperiments,
    DuplicateToolchains,
}

impl View for ErrorKind {
    type V = ErrorKindView;

    open spec fn view(&self) -> ErrorKindView {
        match self {
            ErrorKind::ExperimentNotFound(name) => ErrorKindView::ExperimentNotFound(name@),
            ErrorKind::ExperimentAlreadyExists(name) => ErrorKindView::ExperimentAlreadyExists(
                name@,
            ),
            ErrorKind::CanEditOnlyQueuedExperiments =>
                ErrorKindView::CanEditOnlyQueuedExperiments,
            ErrorKind::DuplicateToolchains => ErrorKindView::DuplicateToolchains,
        }
    }
}

impl PartialEq for ErrorKind {
    fn eq(&self, other: &ErrorKind) -> (same: bool) {
        match self {
            ErrorKind::ExperimentNotFound(a) => match other {
                ErrorKind::ExperimentNotFound(b) => *a == *b,
                _ => false,
            },
            ErrorKind::ExperimentAlreadyExists(a) => match other {
                ErrorKind::ExperimentAlreadyExists(b) => *a == *b,
                _ => false,
            },
            ErrorKind::CanEditOnlyQueuedExperiments => match other {
                ErrorKind::CanEditOnlyQueuedExperiments => true,
                _ => false,
            },
            ErrorKind::DuplicateToolchains => match other {
                ErrorKind::DuplicateToolchains => true,
                _ => false,
            },
        }
    }
}

impl vstd::std_specs::cmp::PartialEqSpecImpl for ErrorKind {
    open spec fn obeys_eq_spec() -> bool {
        true
    }

    open spec fn eq_spec(&self, other: &ErrorKind) -> bool {
        self@ == other@
    }
}

impl ErrorKindView {
    /// The message of this error, as the operator reads it.
    pub open spec fn message(self) -> Seq<char> {
        match self {
            ErrorKindView::ExperimentNotFound(name) => "experiment '"@ + name + "' not found"@,
            ErrorKindView::ExperimentAlreadyExists(name) => "experiment '"@ + name
                + "' already exists"@,
            ErrorKindView::CanEditOnlyQueuedExperiments =>
                "it's only possible to edit queued experiments"@,
            ErrorKindView::DuplicateToolchains => "duplicate toolchains provided"@,
        }
    }
}

impl ErrorKind {
    /// The message of this error, as the operator reads it.
    pub fn to_string(&self) -> (s: String)
        ensures
            s@ == self@.message(),
    {
        match self {
            ErrorKind::ExperimentNotFound(name) => String::from_str("experiment '").concat(
                name.as_str(),
            ).concat("' not found"),
            ErrorKind::ExperimentAlreadyExists(name) => String::from_str("experiment '").concat(
                name.as_str(),
            ).concat("' already exists"),
            ErrorKind::CanEditOnlyQueuedExperiments => String::from_str(
                "it's only possible to edit queued experiments",
            ),
            ErrorKind::DuplicateToolchains => String::from_str("duplicate toolchains provided"),
        }
    }
}

} // verus!
