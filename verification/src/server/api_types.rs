//! What the coordinator answers to an agent.

use vstd::prelude::*;
use crate::config::Config;

verus! {

/// The envelope of every answer of the coordinator.
#[derive(Debug, PartialEq, Eq)]
pub enum ApiResponse<T> {
    Success { result: T },
    InternalError { error: String },
    Unauthorized,
    NotFound,
}

/// The status with which an answer is sent.
pub open spec fn status_of<T>(response: ApiResponse<T>) -> u16 {
    match response {
        ApiResponse::Success { .. } => 200,
        ApiResponse::InternalError { .. } => 500,
        ApiResponse::Unauthorized => 401,
        ApiResponse::NotFound => 404,
    }
}

impl<T> ApiResponse<T> {
    /// The answer that something went wrong, with a message.
    pub fn internal_error(error: String) -> (response: ApiResponse<T>)
        ensures
            response == (ApiResponse::<T>::InternalError { error }),
    {
        ApiResponse::InternalError { error }
    }

    /// The answer to a sender without a known token.
    pub fn unauthorized() -> (response: ApiResponse<T>)
        ensures
            response == ApiResponse::<T>::Unauthorized,
    {
        ApiResponse::Unauthorized
    }

    /// The answer to a request for an endpoint that is not there.
    pub fn not_found() -> (response: ApiResponse<T>)
        ensures
            response == ApiResponse::<T>::NotFound,
    {
        ApiResponse::NotFound
    }

    /// The status with which the answer is sent.
    pub fn status_code(&self) -> (status: u16)
        ensures
            status == status_of(*self),
    {
        match self {
            ApiResponse::Success { .. } => 200,
            ApiResponse::InternalError { .. } => 500,
            ApiResponse::Unauthorized => 401,
            ApiResponse::NotFound => 404,
        }
    }
}

/// What an agent is told about itself: its name, and the configuration to
/// run with.
#[derive(Debug)]
pub struct AgentConfig {
    pub agent_name: String,
    pub crater_config: Config,
}

} // verus!
