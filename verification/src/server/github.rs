//! What GitHub tells of an issue.

use vstd::prelude::*;

verus! {

/// A label of an issue.
#[derive(Debug, PartialEq, Eq)]
pub struct Label {
    pub name: String,
}

/// What an issue carries when it is a pull request.
#[derive(Debug, PartialEq, Eq)]
pub struct PullRequest {
    pub html_url: String,
}

/// An issue, or a pull request.
#[derive(Debug, PartialEq, Eq)]
pub struct Issue {
    pub number: i32,
    pub labels: Vec<Label>,
    pub pull_request: Option<PullRequest>,
}

} // verus!
