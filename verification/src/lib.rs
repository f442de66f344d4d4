//! Coordination core of a regression-testing orchestrator that compares two
//! compiler toolchains over a corpus of packages.
//!
//! A coordinator keeps experiments in a store and hands them to agents in
//! chunks; an agent runs the tasks of a chunk in the order that their
//! dependencies ask for and sends the results back; once every chunk of an
//! experiment has completed, the results with the two toolchains are compared
//! crate by crate.
//!
//! - [`experiments`]: the records of experiments and chunks, their life
//!   cycle, and the order in which they are handed out.
//! - [`actions`]: creating and editing experiments.
//! - [`db`]: the store, and [`results`]: the outcomes of runs and their
//!   tables.
//! - [`runner`]: the graph of the tasks of a chunk, and its walk.
//! - [`server`]: the endpoints of the coordinator, its tokens and agents,
//!   the steps of the worker that makes reports, and the commands that the
//!   bot takes from comments.
//! - [`agent`]: what an agent takes from an answer, and what it retries.
//! - [`report`]: the comparison of the results with the two toolchains.
//! - [`lists`] and [`crates`]: the crates under test, and the files that
//!   list them.
//!
//! Every function states what it returns and changes in terms of plain
//! values: sequences of characters for text, sequences and maps for tables.

pub mod actions;
pub mod agent;
pub mod config;
pub mod crates;
pub mod db;
pub mod encoding;
pub mod errors;
pub mod experiments;
pub mod lists;
pub mod report;
pub mod results;
pub mod runner;
pub mod seqs;
pub mod server;
pub mod text;
pub mod time;
pub mod toolchain;
