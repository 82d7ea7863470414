//! One worker turn of a project AGENT task, as decisions: which events end
//! the turn, and what result, phase and worker fate each ending leaves. The
//! worker thread, its events and the turn timer stay with the caller.

use crate::agent::{ProjectAgentTaskResult, ProjectAgentTaskStatus};
use crate::task::{ProjectAgentSessionMetadata, ProjectAgentTaskMetadata, ProjectAgentTaskPhase};
use crate::types::PROJECT_AGENT_SCHEMA_VERSION;
use crate::text::{owned, push_str};
use crate::types::ProjectAgentId;
use crate::worker::{checked_result, checked_worker_result, host_failed_result, is_host_failure};
use crate::command_tool::JsonValue;
use crate::result_schema::{is_result_schema, project_agent_result_schema};
use vstd::prelude::*;

verus! {

broadcast use vstd::string::group_string_axioms;

/// An event of the worker's thread while its turn runs.
#[derive(Clone, Debug, Eq, PartialEq)]
pub enum WorkerTurnEvent {
    /// The turn completed, with the agent's last message if it wrote one.
    TurnComplete { last_agent_message: Option<String> },
    /// The turn was aborted; `reason` is how the host describes why.
    TurnAborted { reason: String },
    /// The worker's session shut down.
    ShutdownComplete,
    /// Anything else the thread reports.
    Other,
}

/// How a turn ended.
#[derive(Clone, Debug, Eq, PartialEq)]
pub enum WorkerTurnEnd {
    /// The agent's final message.
    Completed(String),
    Interrupted(String),
    SessionFailed(String),
    /// The turn could not be submitted or followed.
    Failed(String),
}

pub open spec fn interrupted_text(reason: Seq<char>) -> Seq<char> {
    "project AGENT turn was interrupted: "@ + reason
}

/// What one event means for the turn: `None` while it goes on.
pub fn turn_event_end(event: &WorkerTurnEvent) -> (r: Option<WorkerTurnEnd>)
    ensures
        match *event {
            WorkerTurnEvent::TurnComplete { last_agent_message } => match last_agent_message {
                Some(m) => r matches Some(WorkerTurnEnd::Completed(t)) && t@ == m@,
                None => r matches Some(WorkerTurnEnd::Failed(t)) && t@
                    == "project AGENT worker returned no final message"@,
            },
            WorkerTurnEvent::TurnAborted { reason } => r matches Some(WorkerTurnEnd::Interrupted(t))
                && t@ == interrupted_text(reason@),
            WorkerTurnEvent::ShutdownComplete => r matches Some(WorkerTurnEnd::SessionFailed(t)) && t@
                == "project AGENT worker shut down before completing the task"@,
            WorkerTurnEvent::Other => r is None,
        },
{
    match event {
        WorkerTurnEvent::TurnComplete { last_agent_message } => match last_agent_message {
            Some(m) => Some(WorkerTurnEnd::Completed(m.clone())),
            None => Some(WorkerTurnEnd::Failed(owned("project AGENT worker returned no final message"))),
        },
        WorkerTurnEvent::TurnAborted { reason } => {
            let mut t = owned("project AGENT turn was interrupted: ");
            push_str(&mut t, reason.as_str());
            Some(WorkerTurnEnd::Interrupted(t))
        },
        WorkerTurnEvent::ShutdownComplete => Some(
            WorkerTurnEnd::SessionFailed(
                owned("project AGENT worker shut down before completing the task"),
            ),
        ),
        WorkerTurnEvent::Other => None,
    }
}

/// What a finished worker run leaves: the task's result and phase, and
/// whether the worker must be discarded.
#[derive(Debug)]
pub struct WorkerExecution {
    pub result: ProjectAgentTaskResult,
    pub phase: ProjectAgentTaskPhase,
    pub discard_worker: bool,
}

/// How the turn came out, with the final message already parsed by the
/// host when there was one.
#[derive(Debug)]
pub enum WorkerTurnOutcome {
    Completed(Result<ProjectAgentTaskResult, String>),
    Interrupted(String),
    SessionFailed(String),
    Failed(String),
    /// The turn outlived its time limit.
    TimedOut,
}

pub open spec fn timed_out_text() -> Seq<char> {
    "project AGENT worker exceeded the 30 minute turn limit"@
}

/// The run before the turn failed (the worker could not be loaded, the
/// running phase not persisted, or the session not bound): a failed task,
/// and the worker, if any, is kept.
pub fn setup_failure(agent_id: &ProjectAgentId, task_id: &str, error: &str) -> (r: WorkerExecution)
    ensures
        is_host_failure(r.result, agent_id@, task_id@, error@),
        r.phase == ProjectAgentTaskPhase::Failed,
        !r.discard_worker,
{
    WorkerExecution {
        result: host_failed_result(agent_id, task_id, error),
        phase: ProjectAgentTaskPhase::Failed,
        discard_worker: false,
    }
}

/// What a turn's outcome leaves: a completed reply is checked against the
/// result protocol and fails the task only when its status says so; an
/// interruption interrupts it; a broken session or turn fails it and
/// discards the worker; a timeout interrupts it and discards the worker.
pub fn finish_worker_turn(agent_id: &ProjectAgentId, task_id: &str, outcome: WorkerTurnOutcome) -> (r:
    WorkerExecution)
    ensures
        match outcome {
            WorkerTurnOutcome::Completed(parsed) => {
                &&& checked_result(parsed, agent_id@, task_id@, r.result)
                &&& r.phase == (if r.result.status == ProjectAgentTaskStatus::Failed {
                    ProjectAgentTaskPhase::Failed
                } else {
                    ProjectAgentTaskPhase::Completed
                })
                &&& !r.discard_worker
            },
            WorkerTurnOutcome::Interrupted(e) => is_host_failure(r.result, agent_id@, task_id@, e@)
                && r.phase == ProjectAgentTaskPhase::Interrupted && !r.discard_worker,
            WorkerTurnOutcome::SessionFailed(e) => is_host_failure(r.result, agent_id@, task_id@, e@)
                && r.phase == ProjectAgentTaskPhase::Failed && r.discard_worker,
            WorkerTurnOutcome::Failed(e) => is_host_failure(r.result, agent_id@, task_id@, e@)
                && r.phase == ProjectAgentTaskPhase::Failed && r.discard_worker,
            WorkerTurnOutcome::TimedOut => is_host_failure(
                r.result,
                agent_id@,
                task_id@,
                timed_out_text(),
            ) && r.phase == ProjectAgentTaskPhase::Interrupted && r.discard_worker,
        },
{
    match outcome {
        WorkerTurnOutcome::Completed(parsed) => {
            let result = checked_worker_result(parsed, agent_id, task_id);
            let phase = if result.status == ProjectAgentTaskStatus::Failed {
                ProjectAgentTaskPhase::Failed
            } else {
                ProjectAgentTaskPhase::Completed
            };
            WorkerExecution { result, phase, discard_worker: false }
        },
        WorkerTurnOutcome::Interrupted(e) => WorkerExecution {
            result: host_failed_result(agent_id, task_id, e.as_str()),
            phase: ProjectAgentTaskPhase::Interrupted,
            discard_worker: false,
        },
        WorkerTurnOutcome::SessionFailed(e) => WorkerExecution {
            result: host_failed_result(agent_id, task_id, e.as_str()),
            phase: ProjectAgentTaskPhase::Failed,
            discard_worker: true,
        },
        WorkerTurnOutcome::Failed(e) => WorkerExecution {
            result: host_failed_result(agent_id, task_id, e.as_str()),
            phase: ProjectAgentTaskPhase::Failed,
            discard_worker: true,
        },
        WorkerTurnOutcome::TimedOut => WorkerExecution {
            result: host_failed_result(
                agent_id,
                task_id,
                "project AGENT worker exceeded the 30 minute turn limit",
            ),
            phase: ProjectAgentTaskPhase::Interrupted,
            discard_worker: true,
        },
    }
}

// ---------------------------------------------------------------------------
// Worker sessions and task phases.

/// The metadata of a session just started on `thread_id`: one generation
/// after the stored session, or the first.
pub fn next_session_metadata(
    agent_id: &ProjectAgentId,
    thread_id: String,
    stored: Option<&ProjectAgentSessionMetadata>,
    now: i64,
) -> (r: ProjectAgentSessionMetadata)
    ensures
        r.schema_version == PROJECT_AGENT_SCHEMA_VERSION,
        r.agent_id@ == agent_id@,
        r.thread_id@ == thread_id@,
        r.generation == match stored {
            Some(m) => if m.generation < u64::MAX {
                (m.generation + 1) as u64
            } else {
                m.generation
            },
            None => 1u64,
        },
        r.created_at == now,
        r.updated_at == now,
{
    let generation = match stored {
        Some(m) => m.generation.saturating_add(1),
        None => 1,
    };
    ProjectAgentSessionMetadata {
        schema_version: PROJECT_AGENT_SCHEMA_VERSION,
        agent_id: agent_id.duplicate(),
        thread_id,
        generation,
        created_at: now,
        updated_at: now,
    }
}

/// Moves a task to `phase` at `now`, never dating it before its creation.
pub fn set_task_phase(metadata: &mut ProjectAgentTaskMetadata, phase: ProjectAgentTaskPhase, now: i64)
    ensures
        final(metadata).phase == phase,
        final(metadata).updated_at == (if now >= old(metadata).created_at {
            now
        } else {
            old(metadata).created_at
        }),
        final(metadata).schema_version == old(metadata).schema_version,
        final(metadata).agent_id == old(metadata).agent_id,
        final(metadata).task_id == old(metadata).task_id,
        final(metadata).task == old(metadata).task,
        final(metadata).session_thread_id == old(metadata).session_thread_id,
        final(metadata).parent_thread_id == old(metadata).parent_thread_id,
        final(metadata).attempt == old(metadata).attempt,
        final(metadata).created_at == old(metadata).created_at,
{
    metadata.phase = phase;
    metadata.updated_at = if now >= metadata.created_at {
        now
    } else {
        metadata.created_at
    };
}

/// Whether a live worker thread can take another task of `agent_id`: it
/// must still run and belong to that agent.
pub fn worker_reusable(shut_down: bool, owner: Option<&ProjectAgentId>, agent_id: &ProjectAgentId) -> (r:
    bool)
    ensures
        r == (!shut_down && match owner {
            Some(o) => o@ == agent_id@,
            None => false,
        }),
{
    if shut_down {
        return false;
    }
    match owner {
        Some(o) => o.same(agent_id),
        None => false,
    }
}

/// The session source a worker thread of `agent_id` is started with.
pub fn worker_session_source(agent_id: &ProjectAgentId) -> (r: String)
    ensures
        r@ == "project-agent:"@ + agent_id@,
{
    let mut r = owned("project-agent:");
    push_str(&mut r, agent_id.as_str());
    r
}

/// The turn a worker is asked to run: the task's text as the user input,
/// and the result schema the final reply must satisfy.
pub struct WorkerTurnRequest {
    pub text: String,
    pub final_output_schema: JsonValue,
}

/// Builds the turn request for `metadata`: its task text, and the result
/// schema pinned to its agent and task.
pub fn worker_turn_request(metadata: &ProjectAgentTaskMetadata) -> (r: WorkerTurnRequest)
    ensures
        r.text@ == metadata.task@,
        is_result_schema(r.final_output_schema, metadata.agent_id@, Some(metadata.task_id@)),
{
    WorkerTurnRequest {
        text: metadata.task.clone(),
        final_output_schema: project_agent_result_schema(&metadata.agent_id, Some(metadata.task_id.as_str())),
    }
}

/// The failure when the turn cannot be submitted.
pub fn submit_failed_message(error: &str) -> (r: String)
    ensures
        r@ == "failed to submit project AGENT task: "@ + error@,
{
    let mut r = owned("failed to submit project AGENT task: ");
    push_str(&mut r, error);
    r
}

/// The failure when the worker's events cannot be read.
pub fn event_read_failed_message(error: &str) -> (r: String)
    ensures
        r@ == "failed to read project AGENT event: "@ + error@,
{
    let mut r = owned("failed to read project AGENT event: ");
    push_str(&mut r, error);
    r
}

} // verus!
