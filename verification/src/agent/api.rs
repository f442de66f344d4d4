//! How an agent talks to the coordinator: which answers it takes, which
//! errors it retries, and what it sends.

use vstd::prelude::*;
use vstd::string::StringExecFns;
use crate::crates::{Crate, GitHubRepo};
use crate::encoding::{base64_encoded, encode};
use crate::results::db::{ProgressData, TaskResult};
use crate::results::TestResult;
use crate::server::api_types::ApiResponse;
use crate::toolchain::Toolchain;

verus! {

/// Seconds that an agent waits before it tries again.
pub const RETRY_AFTER: u64 = 5;

/// Why a call to the coordinator failed.
#[derive(Debug, PartialEq, Eq)]
pub enum ApiError {
    /// The coordinator, or the gateway before it, is not there for now.
    ServerUnavailable,
    /// The request did not get through, or the answer did not come back.
    /// `io` says whether an input or output error is at the bottom of it.
    Transport { io: bool },
    /// The coordinator has no such endpoint.
    InvalidEndpoint,
    /// The coordinator found the request too large.
    PayloadTooLarge,
    /// The answer could not be read; the status it came with.
    InvalidResponse(u16),
    /// The coordinator failed, with this message.
    InternalServerError(String),
    /// The coordinator does not know the token.
    Unauthorized,
    /// The coordinator answered that it has no such endpoint.
    EndpointNotFound,
}

/// What an [`ApiError`] holds, as plain sequences.
pub enum ApiErrorView {
    ServerUnavailable,
    Transport { io: bool },
    InvalidEndpoint,
    PayloadTooLarge,
    InvalidResponse(u16),
    InternalServerError(Seq<char>),
    Unauthorized,
    EndpointNotFound,
}

impl View for ApiError {
    type V = ApiErrorView;

    open spec fn view(&self) -> ApiErrorView {
        match self {
            ApiError::ServerUnavailable => ApiErrorView::ServerUnavailable,
            ApiError::Transport { io } => ApiErrorView::Transport { io: *io },
            ApiError::InvalidEndpoint => ApiErrorView::InvalidEndpoint,
            ApiError::PayloadTooLarge => ApiErrorView::PayloadTooLarge,
            ApiError::InvalidResponse(status) => ApiErrorView::InvalidResponse(*status),
            ApiError::InternalServerError(error) => ApiErrorView::InternalServerError(error@),
            ApiError::Unauthorized => ApiErrorView::Unauthorized,
            ApiError::EndpointNotFound => ApiErrorView::EndpointNotFound,
        }
    }
}

/// What the status of an answer says before the answer is read: 404 is an
/// endpoint that is not there, 502, 503 and 504 are a coordinator that is
/// not there for now, 413 is a request that is too large. Any other status
/// says nothing: the answer is to be read.
pub open spec fn status_error(status: u16) -> Option<ApiErrorView> {
    if status == 404 {
        Some(ApiErrorView::InvalidEndpoint)
    } else if status == 502 || status == 503 || status == 504 {
        Some(ApiErrorView::ServerUnavailable)
    } else if status == 413 {
        Some(ApiErrorView::PayloadTooLarge)
    } else {
        None
    }
}

/// Whether an agent tries again after an error: it does when the coordinator
/// is not there for now, and when an input or output error broke the call.
/// Every other error is final.
pub open spec fn retried(error: ApiErrorView) -> bool {
    error == ApiErrorView::ServerUnavailable || error == (ApiErrorView::Transport { io: true })
}

/// What an agent does after a call.
#[derive(Debug, PartialEq, Eq)]
pub enum RetryAction<T> {
    /// The call succeeded: go on with what it gave.
    Done(T),
    /// Wait for this many seconds, and make the call again.
    RetryAfter(u64),
    /// The call failed for good.
    GiveUp(ApiError),
}

impl ApiError {
    /// The message of this error.
    pub fn to_string(&self) -> (s: String)
        ensures
            s@ == match self@ {
                ApiErrorView::ServerUnavailable => "the server is unavailable"@,
                ApiErrorView::Transport { .. } => "connection to the server failed"@,
                ApiErrorView::InvalidEndpoint => "invalid API endpoint called"@,
                ApiErrorView::PayloadTooLarge => "payload to agent (misconfigured server?)"@,
                ApiErrorView::InvalidResponse(_) => "failed to parse API response"@,
                ApiErrorView::InternalServerError(error) => "internal server error: "@ + error,
                ApiErrorView::Unauthorized => "invalid authorization token provided"@,
                ApiErrorView::EndpointNotFound => "API endpoint not found"@,
            },
    {
        match self {
            ApiError::ServerUnavailable => String::from_str("the server is unavailable"),
            ApiError::Transport { .. } => String::from_str("connection to the server failed"),
            ApiError::InvalidEndpoint => String::from_str("invalid API endpoint called"),
            ApiError::PayloadTooLarge => String::from_str(
                "payload to agent (misconfigured server?)",
            ),
            ApiError::InvalidResponse(_) => String::from_str("failed to parse API response"),
            ApiError::InternalServerError(error) => String::from_str(
                "internal server error: ",
            ).concat(error.as_str()),
            ApiError::Unauthorized => String::from_str("invalid authorization token provided"),
            ApiError::EndpointNotFound => String::from_str("API endpoint not found"),
        }
    }

    /// Whether an agent tries again after this error.
    pub fn is_retried(&self) -> (again: bool)
        ensures
            again == retried(self@),
    {
        match self {
            ApiError::ServerUnavailable => true,
            ApiError::Transport { io } => *io,
            _ => false,
        }
    }
}

/// What the status of an answer says before the answer is read.
pub fn check_status(status: u16) -> (error: Option<ApiError>)
    ensures
        match error {
            Some(e) => status_error(status) == Some(e@),
            None => status_error(status) is None,
        },
{
    if status == 404 {
        Some(ApiError::InvalidEndpoint)
    } else if status == 502 || status == 503 || status == 504 {
        Some(ApiError::ServerUnavailable)
    } else if status == 413 {
        Some(ApiError::PayloadTooLarge)
    } else {
        None
    }
}

/// What an answer of the coordinator gives: `status` is the status it came
/// with, `body` is the envelope read from it, or `None` where it could not
/// be read. The status decides first; then a body that could not be read is
/// an error; then the envelope gives the result, or the error it names.
pub fn to_api_response<T>(status: u16, body: Option<ApiResponse<T>>) -> (given: Result<
    T,
    ApiError,
>)
    ensures
        match given {
            Ok(result) => status_error(status) is None && body == Some(
                ApiResponse::Success { result },
            ),
            Err(e) => match status_error(status) {
                Some(error) => e@ == error,
                None => match body {
                    None => e@ == ApiErrorView::InvalidResponse(status),
                    Some(ApiResponse::Success { .. }) => false,
                    Some(ApiResponse::InternalError { error }) => e@
                        == ApiErrorView::InternalServerError(error@),
                    Some(ApiResponse::Unauthorized) => e@ == ApiErrorView::Unauthorized,
                    Some(ApiResponse::NotFound) => e@ == ApiErrorView::EndpointNotFound,
                },
            },
        },
{
    match check_status(status) {
        Some(e) => Err(e),
        None => match body {
            None => Err(ApiError::InvalidResponse(status)),
            Some(ApiResponse::Success { result }) => Ok(result),
            Some(ApiResponse::InternalError { error }) => Err(
                ApiError::InternalServerError(error),
            ),
            Some(ApiResponse::Unauthorized) => Err(ApiError::Unauthorized),
            Some(ApiResponse::NotFound) => Err(ApiError::EndpointNotFound),
        },
    }
}

/// What an agent does after a call: it goes on with the result, waits and
/// calls again after an error that is retried, and gives up after any other.
pub fn retry<T>(outcome: Result<T, ApiError>) -> (action: RetryAction<T>)
    ensures
        match outcome {
            Ok(result) => action == RetryAction::Done(result),
            Err(e) => if retried(e@) {
                action == RetryAction::<T>::RetryAfter(RETRY_AFTER)
            } else {
                action == RetryAction::<T>::GiveUp(e)
            },
        },
{
    match outcome {
        Ok(result) => RetryAction::Done(result),
        Err(e) => {
            if e.is_retried() {
                RetryAction::RetryAfter(RETRY_AFTER)
            } else {
                RetryAction::GiveUp(e)
            }
        },
    }
}

/// The address of an endpoint of the coordinator at `url`.
pub fn endpoint_url(url: &str, endpoint: &str) -> (address: String)
    ensures
        address@ == url@ + "/agent-api/"@ + endpoint@,
{
    String::from_str(url).concat("/agent-api/").concat(endpoint)
}

/// The value of the header with which an agent says who it is.
pub fn authorization(token: &str) -> (header: String)
    ensures
        header@ == "CraterToken "@ + token@,
{
    String::from_str("CraterToken ").concat(token)
}

/// How an agent names itself to the coordinator: by the revision it was
/// built from, where that is known.
pub fn user_agent(revision: Option<&str>) -> (name: String)
    ensures
        name@ == "crater-agent/"@ + match revision {
            Some(r) => r@,
            None => "unknown"@,
        },
{
    match revision {
        Some(r) => String::from_str("crater-agent/").concat(r),
        None => String::from_str("crater-agent/").concat("unknown"),
    }
}

/// What an agent sends to record the result of a crate with a toolchain:
/// the result with its log in base64, and the commits pinned so far.
pub fn record_progress(
    krate: &Crate,
    toolchain: &Toolchain,
    log: &[u8],
    result: TestResult,
    shas: &Vec<(GitHubRepo, String)>,
) -> (data: ProgressData)
    ensures
        data.results@.len() == 1,
        data.results@[0].krate@ == krate@,
        data.results@[0].toolchain@ == toolchain@,
        data.results@[0].result == result,
        data.results@[0].log@ == base64_encoded(log@),
        data.shas.deep_view() == shas.deep_view(),
{
    let mut results: Vec<TaskResult> = Vec::new();
    results.push(
        TaskResult {
            krate: krate.clone(),
            toolchain: toolchain.clone(),
            result,
            log: encode(log),
        },
    );
    let mut copied: Vec<(GitHubRepo, String)> = Vec::new();
    let mut i: usize = 0;
    while i < shas.len()
        invariant
            i <= shas.len(),
            copied.len() == i,
            forall|j: int| 0 <= j < i ==> (#[trigger] copied@[j]).deep_view() == shas@[j].deep_view(),
        decreases shas.len() - i,
    {
        copied.push((shas[i].0.clone(), shas[i].1.clone()));
        i += 1;
    }
    assert(copied.deep_view() =~= shas.deep_view());
    ProgressData { results, shas: copied }
}

} // verus!
