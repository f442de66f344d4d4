//! The endpoints of the coordinator.

pub mod agent;
pub mod ui;
