//! The endpoints for agents: handing out chunks, taking results, and
//! hearing of errors.

use vstd::prelude::*;
use vstd::string::StringExecFns;
use crate::db::{named, Database};
use crate::experiments::table::position_named;
use crate::experiments::{
    completing_child, incomplete_in, map_named, next_handout, run_by, setting_status, Assignee,
    AssigneeView, Experiment, ExperimentChunk, ExperimentView, Status,
};
use crate::results::db::{stored, undecodable, ProgressData};
use crate::seqs::first_match;
use crate::server::api_types::{AgentConfig, ApiResponse};
use crate::server::auth::{check_auth, sender, AuthDetails, TokenType};
use crate::server::messages::{Message, MessageView, Notification};
use crate::server::Data;
use crate::text::str_eq;
use crate::time::Timestamp;

verus! {

/// The method of a request.
#[derive(Debug, PartialEq, Eq, Clone, Copy, Hash, Structural)]
pub enum Method {
    Get,
    Post,
    Other,
}

/// The endpoints for agents.
#[derive(Debug, PartialEq, Eq, Clone, Copy, Hash, Structural)]
pub enum Endpoint {
    Config,
    NextExperimentChunk,
    CompleteExperimentChunk,
    RecordProgress,
    Heartbeat,
    Error,
}

/// What a request carries.
#[derive(Debug)]
pub enum Body {
    Empty,
    /// Results and pinned commits.
    Progress(ProgressData),
    /// The error that an agent ran into, where it names one.
    Error(Option<String>),
}

/// A request to the coordinator.
#[derive(Debug)]
pub struct Request {
    pub method: Method,
    pub path: String,
    pub authorization: Option<String>,
    pub user_agent: Option<String>,
    pub body: Body,
}

/// What an endpoint gives.
#[derive(Debug)]
pub enum Answer {
    Config(AgentConfig),
    Chunk(Option<ExperimentChunk>),
    Done(bool),
}

/// What is left to do once the answer is made.
#[derive(Debug, PartialEq, Eq)]
pub enum Action {
    /// Post a message to an issue.
    Notify(Notification),
    /// Make sure that the worker that makes the reports is awake.
    WakeReportsWorker,
}

/// The answer to a request, and what is left to do.
#[derive(Debug)]
pub struct Reply {
    pub response: ApiResponse<Answer>,
    pub actions: Vec<Action>,
}

/// The endpoint that a method and a path lead to, if any: the paths lie
/// under `/agent-api/`, the configuration and the next chunk are fetched,
/// everything else is posted.
pub open spec fn routed(method: Method, path: Seq<char>) -> Option<Endpoint> {
    if method == Method::Get && path == "/agent-api/config"@ {
        Some(Endpoint::Config)
    } else if method == Method::Get && path == "/agent-api/next-experiment-chunk"@ {
        Some(Endpoint::NextExperimentChunk)
    } else if method == Method::Post && path == "/agent-api/complete-experiment-chunk"@ {
        Some(Endpoint::CompleteExperimentChunk)
    } else if method == Method::Post && path == "/agent-api/record-progress"@ {
        Some(Endpoint::RecordProgress)
    } else if method == Method::Post && path == "/agent-api/heartbeat"@ {
        Some(Endpoint::Heartbeat)
    } else if method == Method::Post && path == "/agent-api/error"@ {
        Some(Endpoint::Error)
    } else {
        None
    }
}

/// The endpoint that a method and a path lead to.
pub fn route(method: Method, path: &str) -> (endpoint: Option<Endpoint>)
    ensures
        endpoint == routed(method, path@),
{
    match method {
        Method::Get => {
            if str_eq(path, "/agent-api/config") {
                Some(Endpoint::Config)
            } else if str_eq(path, "/agent-api/next-experiment-chunk") {
                Some(Endpoint::NextExperimentChunk)
            } else {
                None
            }
        },
        Method::Post => {
            if str_eq(path, "/agent-api/complete-experiment-chunk") {
                Some(Endpoint::CompleteExperimentChunk)
            } else if str_eq(path, "/agent-api/record-progress") {
                Some(Endpoint::RecordProgress)
            } else if str_eq(path, "/agent-api/heartbeat") {
                Some(Endpoint::Heartbeat)
            } else if str_eq(path, "/agent-api/error") {
                Some(Endpoint::Error)
            } else {
                None
            }
        },
        Method::Other => None,
    }
}

/// Whether a body is what an endpoint takes: results for recording
/// progress, an error for reporting one, and anything for the others, which
/// do not read it.
pub open spec fn body_fits(endpoint: Endpoint, body: Body) -> bool {
    match endpoint {
        Endpoint::RecordProgress => body is Progress,
        Endpoint::Error => body is Error,
        _ => true,
    }
}

/// Whether an answer is an internal error with the message `message`, and
/// nothing is left to do.
pub open spec fn fails_with_message(reply: Reply, message: Seq<char>) -> bool {
    &&& reply.response matches ApiResponse::InternalError { error } && error@ == message
    &&& reply.actions@.len() == 0
}

/// Whether an answer is the success `true`.
pub open spec fn is_done(reply: Reply) -> bool {
    reply.response matches ApiResponse::Success { result: Answer::Done(true) }
}

/// Whether an action is the message `message`, to post to `api_url`.
pub open spec fn notifies(action: Action, api_url: Seq<char>, message: MessageView) -> bool {
    action matches Action::Notify(n) && n.api_url@ == api_url && n.message@ == message
}

/// What is posted when an experiment starts running.
pub open spec fn running_message(name: Seq<char>) -> MessageView {
    MessageView {
        lines: seq![
            ("construction"@, "Experiment **`"@ + name + "`** is now **running**."@),
        ],
        notes: Seq::empty(),
        new_label: None,
    }
}

/// What is posted when an agent ran into an error.
pub open spec fn error_message(name: Seq<char>, error: Seq<char>) -> MessageView {
    MessageView {
        lines: seq![
            (
                "rotating_light"@,
                "Experiment **`"@ + name + "`** has encountered an error: "@ + error,
            ),
            ("hammer_and_wrench"@, "If the error is fixed use the `retry` command."@),
        ],
        notes: seq![
            ("sos"@, "Can someone from the infra team check in on this? @rust-lang/infra"@),
        ],
        new_label: None,
    }
}

/// Whether the actions are the message `message` to the issue of an
/// experiment, if the experiment has one and `due` holds, and nothing
/// otherwise.
pub open spec fn notifies_issue(
    actions: Seq<Action>,
    due: bool,
    ex: ExperimentView,
    message: MessageView,
) -> bool {
    if due && ex.github_issue is Some {
        actions.len() == 1 && notifies(actions[0], ex.github_issue->0.api_url, message)
    } else {
        actions.len() == 0
    }
}

/// The chunk that an agent is running, and its parent, by their positions in
/// the tables; or the message of the error where one of them is missing.
pub open spec fn running_chunk(db: Database, agent: Seq<char>) -> Result<(int, int), Seq<char>> {
    let chunk = first_match(db@.chunks, run_by(AssigneeView::Agent(agent)));
    if chunk >= db@.chunks.len() {
        Err("no experiment chunk run by this agent"@)
    } else {
        let parent = first_match(db@.experiments, named(db@.chunk_parents[chunk]->0));
        if parent >= db@.experiments.len() {
            Err("no experiment with this name"@)
        } else {
            Ok((chunk, parent))
        }
    }
}

/// Whether only the store of `after` may differ from `before`.
pub open spec fn only_store_changes(before: Data, after: Data) -> bool {
    after.config == before.config && after.tokens == before.tokens && after.agents
        == before.agents
}

/// Whether only the tables of experiments and chunks of `after` may differ
/// from `before`.
pub open spec fn only_experiments_change(before: Data, after: Data) -> bool {
    &&& only_store_changes(before, after)
    &&& after.db.results == before.db.results
    &&& after.db@.chunk_parents == before.db@.chunk_parents
}

/// The answer to a request for the configuration: the name of the agent and
/// the configuration of the coordinator. Nothing changes.
pub open spec fn config_reply(before: Data, after: Data, agent: Seq<char>, reply: Reply) -> bool {
    &&& after == before
    &&& reply.actions@.len() == 0
    &&& reply.response matches ApiResponse::Success { result: Answer::Config(config) }
        && config.agent_name@ == agent && config.crater_config@ == before.config@
}

/// The answer to a request for the next chunk, at the time `now`. The agent
/// is handed a chunk as [`next_handout`] says. Where that is the first chunk
/// of an experiment that neither runs nor has failed, the experiment starts
/// running, and this is posted to its issue. The chunk is given without the
/// crates that have run with both toolchains.
pub open spec fn next_chunk_reply(
    before: Data,
    after: Data,
    agent: Seq<char>,
    now: Timestamp,
    reply: Reply,
) -> bool {
    let handout = next_handout(before.db@.chunks, AssigneeView::Agent(agent), now);
    &&& only_experiments_change(before, after)
    &&& after.db@.chunks == handout.rows
    &&& match handout.outcome {
        None => {
            &&& after.db@.experiments == before.db@.experiments
            &&& reply.actions@.len() == 0
            &&& reply.response matches ApiResponse::Success { result: Answer::Chunk(None) }
        },
        Some(given) => {
            let parent_name = before.db@.chunk_parents[given.position]->0;
            let at = first_match(before.db@.experiments, named(parent_name));
            if at >= before.db@.experiments.len() {
                &&& after.db@.experiments == before.db@.experiments
                &&& fails_with_message(reply, "no experiment with this name"@)
            } else {
                let parent = before.db@.experiments[at];
                let starts = parent.status != Status::Running && parent.status != Status::Failed;
                &&& after.db@.experiments == if starts {
                    map_named(
                        before.db@.experiments,
                        parent.name,
                        setting_status(parent, Status::Running, now),
                    )
                } else {
                    before.db@.experiments
                }
                &&& notifies_issue(reply.actions@, starts, parent, running_message(parent.name))
                &&& reply.response matches ApiResponse::Success {
                    result: Answer::Chunk(Some(chunk)),
                } && chunk.parent_name@ == parent_name && chunk.experiment@
                    == (ExperimentView {
                    crates: given.experiment.crates.filter(
                        incomplete_in(before.db.results.results@, parent_name),
                    ),
                    ..given.experiment
                })
            }
        },
    }
}

/// The answer to the report that the chunk of an agent is complete, at the
/// time `now`: the chunk is completed, and its parent counts one more
/// completed chunk, which may be the last one. The worker that makes the
/// reports is woken. Where the agent runs no chunk, the parent is missing,
/// or the parent waits for no chunk, nothing changes.
pub open spec fn complete_chunk_reply(
    before: Data,
    after: Data,
    agent: Seq<char>,
    now: Timestamp,
    reply: Reply,
) -> bool {
    &&& only_experiments_change(before, after)
    &&& match running_chunk(before.db, agent) {
        Err(message) => after.db == before.db && fails_with_message(reply, message),
        Ok((c, p)) => {
            let chunk = before.db@.chunks[c];
            let parent = before.db@.experiments[p];
            if parent.children == 0 {
                after.db == before.db && fails_with_message(
                    reply,
                    "no chunk of this experiment is outstanding"@,
                )
            } else {
                &&& after.db@.chunks == map_named(
                    before.db@.chunks,
                    chunk.name,
                    setting_status(chunk, Status::Completed, now),
                )
                &&& after.db@.experiments == map_named(
                    before.db@.experiments,
                    parent.name,
                    completing_child(parent, now),
                )
                &&& reply.actions@ == seq![Action::WakeReportsWorker]
                &&& is_done(reply)
            }
        },
    }
}

/// The answer to a report of progress: the results and the pinned commits
/// are stored for the parent of the chunk that the agent runs, as [`stored`]
/// says. A log that is not valid base64 makes the answer an error.
pub open spec fn record_progress_reply(
    before: Data,
    after: Data,
    agent: Seq<char>,
    progress: ProgressData,
    reply: Reply,
) -> bool {
    &&& only_store_changes(before, after)
    &&& after.db.experiments == before.db.experiments
    &&& after.db.chunks == before.db.chunks
    &&& reply.actions@.len() == 0
    &&& match running_chunk(before.db, agent) {
        Err(message) => after.db == before.db && fails_with_message(reply, message),
        Ok((c, p)) => {
            let parent = before.db@.experiments[p];
            &&& after.db.results@ == stored(before.db.results@, parent.name, progress)
            &&& if first_match(progress.results@, undecodable()) == progress.results@.len() {
                is_done(reply)
            } else {
                fails_with_message(reply, "invalid base64 log provided"@)
            }
        },
    }
}

/// The answer to a heartbeat at the time `now`: the agent was heard of, and
/// its revision is recorded where it gave one.
pub open spec fn heartbeat_reply(
    before: Data,
    after: Data,
    agent: Seq<char>,
    revision: Option<Seq<char>>,
    now: Timestamp,
    reply: Reply,
) -> bool {
    &&& after.config == before.config
    &&& after.tokens == before.tokens
    &&& after.db == before.db
    &&& after.agents@ == crate::server::agents::with_heartbeat(
        match revision {
            Some(r) => crate::server::agents::with_revision(before.agents@, agent, r),
            None => before.agents@,
        },
        agent,
        now,
    )
    &&& reply.actions@.len() == 0
    &&& is_done(reply)
}

/// The answer to the report of an error, at the time `now`: the parent of
/// the chunk that the agent runs has failed, and this is posted to its
/// issue with the error, or with `no error` where the agent named none.
pub open spec fn error_reply(
    before: Data,
    after: Data,
    agent: Seq<char>,
    error: Option<Seq<char>>,
    now: Timestamp,
    reply: Reply,
) -> bool {
    &&& only_experiments_change(before, after)
    &&& after.db.chunks == before.db.chunks
    &&& match running_chunk(before.db, agent) {
        Err(message) => after.db == before.db && fails_with_message(reply, message),
        Ok((c, p)) => {
            let parent = before.db@.experiments[p];
            &&& after.db@.experiments == map_named(
                before.db@.experiments,
                parent.name,
                setting_status(parent, Status::Failed, now),
            )
            &&& notifies_issue(
                reply.actions@,
                true,
                parent,
                error_message(
                    parent.name,
                    match error {
                        Some(e) => e,
                        None => "no error"@,
                    },
                ),
            )
            &&& is_done(reply)
        },
    }
}

fn internal_error(message: &str) -> (reply: Reply)
    ensures
        fails_with_message(reply, message@),
{
    Reply {
        response: ApiResponse::InternalError { error: String::from_str(message) },
        actions: Vec::new(),
    }
}

fn done(actions: Vec<Action>) -> (reply: Reply)
    ensures
        is_done(reply),
        reply.actions == actions,
{
    Reply { response: ApiResponse::Success { result: Answer::Done(true) }, actions }
}

/// The chunk that an agent is running, and its parent.
fn find_running_chunk(db: &Database, agent: &String) -> (found: Result<
    (ExperimentChunk, Experiment),
    Reply,
>)
    ensures
        match (found, running_chunk(*db, agent@)) {
            (Ok(pair), Ok(at)) => {
                &&& 0 <= at.0 < db@.chunks.len()
                &&& 0 <= at.1 < db@.experiments.len()
                &&& pair.0.experiment@ == db@.chunks[at.0]
                &&& Some(pair.0.parent_name@) == db@.chunk_parents[at.0]
                &&& pair.1@ == db@.experiments[at.1]
                &&& pair.1@.name == pair.0.parent_name@
            },
            (Err(reply), Err(message)) => fails_with_message(reply, message),
            _ => false,
        },
{
    let assignee = Assignee::Agent(agent.clone());
    let chunk = match ExperimentChunk::run_by(db, &assignee) {
        Some(chunk) => chunk,
        None => {
            return Err(internal_error("no experiment chunk run by this agent"));
        },
    };
    let at = position_named(&db.experiments, &chunk.parent_name);
    proof {
        assert(assignee@ == AssigneeView::Agent(agent@));
        let c = first_match(db@.chunks, run_by(AssigneeView::Agent(agent@)));
        assert(db@.chunk_parents[c] == Some(chunk.parent_name@));
        assert(at == first_match(db@.experiments, named(chunk.parent_name@)));
    }
    if at >= db.experiments.len() {
        return Err(internal_error("no experiment with this name"));
    }
    let ex = db.experiments[at].clone();
    proof {
        crate::seqs::lemma_first_match(db@.chunks, run_by(AssigneeView::Agent(agent@)));
    }
    Ok((chunk, ex))
}

/// Answers a request for the configuration, as [`config_reply`] says.
pub fn endpoint_config(data: &Data, auth: &AuthDetails) -> (reply: Reply)
    ensures
        config_reply(*data, *data, auth.name@, reply),
{
    Reply {
        response: ApiResponse::Success {
            result: Answer::Config(
                AgentConfig { agent_name: auth.name.clone(), crater_config: data.config.clone() },
            ),
        },
        actions: Vec::new(),
    }
}

/// Answers a request for the next chunk, as [`next_chunk_reply`] says.
pub fn endpoint_next_experiment_chunk(data: &mut Data, auth: &AuthDetails, now: Timestamp) -> (reply:
    Reply)
    ensures
        next_chunk_reply(*old(data), *final(data), auth.name@, now, reply),
{
    let assignee = Assignee::Agent(auth.name.clone());
    let next = ExperimentChunk::next(&mut data.db, &assignee, now);
    let mut chunk = match next {
        None => {
            return Reply {
                response: ApiResponse::Success { result: Answer::Chunk(None) },
                actions: Vec::new(),
            };
        },
        Some((_new, chunk)) => chunk,
    };
    let at = position_named(&data.db.experiments, &chunk.parent_name);
    if at >= data.db.experiments.len() {
        return internal_error("no experiment with this name");
    }
    let mut parent = data.db.experiments[at].clone();
    let mut actions: Vec<Action> = Vec::new();
    if parent.status != Status::Running && parent.status != Status::Failed {
        parent.set_status(&mut data.db, Status::Running, now);
        match &parent.github_issue {
            Some(issue) => {
                let text = String::from_str("Experiment **`").concat(parent.name.as_str()).concat(
                    "`** is now **running**.",
                );
                let message = Message::new().line("construction", text);
                assert(message@ =~= running_message(parent.name@));
                actions.push(
                    Action::Notify(Notification { api_url: issue.api_url.clone(), message }),
                );
            },
            None => {},
        }
    }
    chunk.remove_completed_crates(&data.db);
    Reply {
        response: ApiResponse::Success { result: Answer::Chunk(Some(chunk)) },
        actions,
    }
}

/// Answers the report that a chunk is complete, as [`complete_chunk_reply`]
/// says.
pub fn endpoint_complete_experiment_chunk(
    data: &mut Data,
    auth: &AuthDetails,
    now: Timestamp,
) -> (reply: Reply)
    ensures
        complete_chunk_reply(*old(data), *final(data), auth.name@, now, reply),
{
    let (mut chunk, mut ex) = match find_running_chunk(&data.db, &auth.name) {
        Ok(pair) => pair,
        Err(reply) => {
            return reply;
        },
    };
    if ex.children == 0 {
        return internal_error("no chunk of this experiment is outstanding");
    }
    chunk.set_status(&mut data.db, Status::Completed, now);
    ex.complete_children(&mut data.db, now);
    let mut actions: Vec<Action> = Vec::new();
    actions.push(Action::WakeReportsWorker);
    assert(actions@ =~= seq![Action::WakeReportsWorker]);
    done(actions)
}

/// Answers a report of progress, as [`record_progress_reply`] says.
pub fn endpoint_record_progress(result: &ProgressData, data: &mut Data, auth: &AuthDetails) -> (reply:
    Reply)
    ensures
        record_progress_reply(*old(data), *final(data), auth.name@, *result, reply),
{
    let (_chunk, ex) = match find_running_chunk(&data.db, &auth.name) {
        Ok(pair) => pair,
        Err(reply) => {
            return reply;
        },
    };
    match data.db.results.store(&ex, result) {
        Ok(()) => done(Vec::new()),
        Err(_) => internal_error("invalid base64 log provided"),
    }
}

/// Answers a heartbeat, as [`heartbeat_reply`] says.
pub fn endpoint_heartbeat(data: &mut Data, auth: &AuthDetails, now: Timestamp) -> (reply: Reply)
    ensures
        heartbeat_reply(
            *old(data),
            *final(data),
            auth.name@,
            match auth.git_revision {
                Some(r) => Some(r@),
                None => None,
            },
            now,
            reply,
        ),
{
    match &auth.git_revision {
        Some(revision) => {
            data.agents.set_git_revision(auth.name.as_str(), revision.as_str());
        },
        None => {},
    }
    data.agents.record_heartbeat(auth.name.as_str(), now);
    done(Vec::new())
}

/// Answers the report of an error, as [`error_reply`] says.
pub fn endpoint_error(error: &Option<String>, data: &mut Data, auth: &AuthDetails, now: Timestamp) -> (reply:
    Reply)
    ensures
        error_reply(
            *old(data),
            *final(data),
            auth.name@,
            match error {
                Some(e) => Some(e@),
                None => None,
            },
            now,
            reply,
        ),
{
    let (_chunk, mut ex) = match find_running_chunk(&data.db, &auth.name) {
        Ok(pair) => pair,
        Err(reply) => {
            return reply;
        },
    };
    ex.set_status(&mut data.db, Status::Failed, now);
    let mut actions: Vec<Action> = Vec::new();
    match &ex.github_issue {
        Some(issue) => {
            let said = match error {
                Some(e) => e.as_str(),
                None => "no error",
            };
            let text = String::from_str("Experiment **`").concat(ex.name.as_str()).concat(
                "`** has encountered an error: ",
            ).concat(said);
            let message = Message::new().line("rotating_light", text).line(
                "hammer_and_wrench",
                String::from_str("If the error is fixed use the `retry` command."),
            ).note(
                "sos",
                String::from_str(
                    "Can someone from the infra team check in on this? @rust-lang/infra",
                ),
            );
            proof {
                let expected = error_message(
                    ex.name@,
                    match error {
                        Some(e) => e@,
                        None => "no error"@,
                    },
                );
                assert(message@.lines.len() == 2);
                assert(message@.lines[0] == expected.lines[0]);
                assert(message@.lines[1] == expected.lines[1]);
                assert(message@.lines =~= expected.lines);
                assert(message@.notes =~= expected.notes);
            }
            actions.push(Action::Notify(Notification { api_url: issue.api_url.clone(), message }));
        },
        None => {},
    }
    done(actions)
}

/// What the coordinator makes of a request at the time `now`. A method and a
/// path that lead to no endpoint are not found. A body that is not what the
/// endpoint takes is an error. A sender without the token of an agent is
/// unauthorized. Otherwise the endpoint answers.
pub open spec fn handled(
    before: Data,
    after: Data,
    request: Request,
    now: Timestamp,
    reply: Reply,
) -> bool {
    match routed(request.method, request.path@) {
        None => after == before && reply.actions@.len() == 0 && reply.response
            == ApiResponse::<Answer>::NotFound,
        Some(endpoint) => if !body_fits(endpoint, request.body) {
            after == before && fails_with_message(reply, "invalid request body"@)
        } else {
            match sender(
                before.tokens,
                match request.authorization {
                    Some(h) => Some(h@),
                    None => None,
                },
                match request.user_agent {
                    Some(n) => Some(n@),
                    None => None,
                },
                TokenType::Agent,
            ) {
                None => after == before && reply.actions@.len() == 0 && reply.response
                    == ApiResponse::<Answer>::Unauthorized,
                Some(auth) => match endpoint {
                    Endpoint::Config => config_reply(before, after, auth.0, reply),
                    Endpoint::NextExperimentChunk => next_chunk_reply(
                        before,
                        after,
                        auth.0,
                        now,
                        reply,
                    ),
                    Endpoint::CompleteExperimentChunk => complete_chunk_reply(
                        before,
                        after,
                        auth.0,
                        now,
                        reply,
                    ),
                    Endpoint::RecordProgress => record_progress_reply(
                        before,
                        after,
                        auth.0,
                        request.body->Progress_0,
                        reply,
                    ),
                    Endpoint::Heartbeat => heartbeat_reply(
                        before,
                        after,
                        auth.0,
                        auth.1,
                        now,
                        reply,
                    ),
                    Endpoint::Error => error_reply(
                        before,
                        after,
                        auth.0,
                        match request.body->Error_0 {
                            Some(e) => Some(e@),
                            None => None,
                        },
                        now,
                        reply,
                    ),
                },
            }
        },
    }
}

/// Answers a request of an agent at the time `now`.
pub fn routes(data: &mut Data, request: &Request, now: Timestamp) -> (reply: Reply)
    ensures
        handled(*old(data), *final(data), *request, now, reply),
{
    let endpoint = match route(request.method, request.path.as_str()) {
        Some(endpoint) => endpoint,
        None => {
            return Reply { response: ApiResponse::NotFound, actions: Vec::new() };
        },
    };
    let fits = match endpoint {
        Endpoint::RecordProgress => match &request.body {
            Body::Progress(_) => true,
            _ => false,
        },
        Endpoint::Error => match &request.body {
            Body::Error(_) => true,
            _ => false,
        },
        _ => true,
    };
    if !fits {
        return internal_error("invalid request body");
    }
    let authorization = match &request.authorization {
        Some(header) => Some(header.as_str()),
        None => None,
    };
    let user_agent = match &request.user_agent {
        Some(name) => Some(name.as_str()),
        None => None,
    };
    let auth = match check_auth(&data.tokens, authorization, user_agent, TokenType::Agent) {
        Some(auth) => auth,
        None => {
            return Reply { response: ApiResponse::Unauthorized, actions: Vec::new() };
        },
    };
    match endpoint {
        Endpoint::Config => endpoint_config(data, &auth),
        Endpoint::NextExperimentChunk => endpoint_next_experiment_chunk(data, &auth, now),
        Endpoint::CompleteExperimentChunk => endpoint_complete_experiment_chunk(data, &auth, now),
        Endpoint::RecordProgress => match &request.body {
            Body::Progress(progress) => endpoint_record_progress(progress, data, &auth),
            _ => internal_error("invalid request body"),
        },
        Endpoint::Heartbeat => endpoint_heartbeat(data, &auth, now),
        Endpoint::Error => match &request.body {
            Body::Error(error) => endpoint_error(error, data, &auth, now),
            _ => internal_error("invalid request body"),
        },
    }
}

} // verus!
