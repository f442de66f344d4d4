//! The coordinator: what it keeps and what it answers.

pub mod agents;
pub mod api_types;
pub mod auth;
pub mod commands;
pub mod github;
pub mod messages;
pub mod reports;
pub mod routes;
pub mod webhooks;

use vstd::prelude::*;
use crate::config::Config;
use crate::db::Database;
use crate::server::agents::Agents;
use crate::server::auth::Tokens;

verus! {

/// All that the coordinator works with.
#[derive(Debug)]
pub struct Data {
    pub config: Config,
    pub tokens: Tokens,
    pub agents: Agents,
    pub db: Database,
}

} // verus!
