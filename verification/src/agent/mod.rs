//! The agent: the worker that asks the coordinator for chunks and runs them.

pub mod api;

use vstd::prelude::*;
use crate::agent::api::RETRY_AFTER;
use crate::experiments::ExperimentChunk;

verus! {

/// What happened to an agent.
#[derive(Debug)]
pub enum AgentEvent {
    /// The agent started.
    Started,
    /// The coordinator had no chunk.
    NoChunk,
    /// The coordinator handed out this chunk.
    Chunk(ExperimentChunk),
    /// Every task of the chunk was run: the graph is drained.
    Drained,
    /// The run of the chunk broke down, with this error.
    Crashed(String),
    /// The coordinator took note of the end of the chunk, or of the error.
    Acknowledged,
}

/// What an agent does next.
#[derive(Debug)]
pub enum AgentAction {
    /// Ask the coordinator for the next chunk.
    AskForChunk,
    /// Wait for this many seconds, then ask for the next chunk.
    WaitAndAsk(u64),
    /// Run the tasks of this chunk.
    Run(ExperimentChunk),
    /// Tell the coordinator that the chunk is complete.
    Complete,
    /// Tell the coordinator that the chunk ran into this error.
    ReportError(String),
}

/// What an agent does after an event. It asks for a chunk when it starts and
/// whenever the coordinator took note of the end of one; it waits before it
/// asks again where there was none; it runs the chunk that it is handed; it
/// reports a drained chunk as complete, and a run that broke down as an
/// error.
pub fn next_action(event: AgentEvent) -> (action: AgentAction)
    ensures
        match event {
            AgentEvent::Started | AgentEvent::Acknowledged => action is AskForChunk,
            AgentEvent::NoChunk => action matches AgentAction::WaitAndAsk(seconds) && seconds
                == RETRY_AFTER,
            AgentEvent::Chunk(chunk) => action matches AgentAction::Run(given) && given == chunk,
            AgentEvent::Drained => action is Complete,
            AgentEvent::Crashed(error) => action matches AgentAction::ReportError(said) && said
                == error,
        },
{
    match event {
        AgentEvent::Started | AgentEvent::Acknowledged => AgentAction::AskForChunk,
        AgentEvent::NoChunk => AgentAction::WaitAndAsk(RETRY_AFTER),
        AgentEvent::Chunk(chunk) => AgentAction::Run(chunk),
        AgentEvent::Drained => AgentAction::Complete,
        AgentEvent::Crashed(error) => AgentAction::ReportError(error),
    }
}

} // verus!
