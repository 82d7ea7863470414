//! Requests on project AGENTs and on semantic tasks: the checks a request
//! passes before any worker is touched, the task metadata it queues, and
//! the workspace changes it makes. Locks, clocks, workers and files stay
//! with the caller.

use crate::agent::{ProjectAgentDefinition, ProjectAgentTaskResult};
use crate::task::{ProjectAgentTaskMetadata, ProjectAgentTaskPhase};
use crate::task_workspace::ProjectTaskResult;
use crate::task_workspace::{
    append_check, create_check, id_view, record_check, is_open_status, lookup, outcome_of, settled_status, start_check, ProjectTaskExecutor, ProjectTaskId,
    ProjectTaskWorkspace, ProjectTaskWorkspaceError, WorkspaceFailure,
};
use crate::text::{
    blank, byte_len, char_width, decimal, is_ascii_alnum, is_blank, lemma_utf8_len_push, owned,
    push_str, utf8_len,
};
use crate::checkpoint::decimal_text;
use crate::types::{valid_task_id, ProjectAgentId, PROJECT_AGENT_SCHEMA_VERSION};
use crate::worker::{
    executor_mismatch, executor_mismatch_text, task_prompt, task_prompt_text, task_result_status,
    worker_result, worker_result_of,
};
use vstd::prelude::*;

verus! {

broadcast use vstd::string::group_string_axioms;

/// Bytes of a follow-up message.
pub const MAX_FOLLOW_UP_BYTES: usize = 16384;

/// Bytes of a task handed to a project AGENT.
pub const MAX_TASK_BYTES: usize = 16384;

// ---------------------------------------------------------------------------
// Fresh identifiers.

pub open spec fn is_lower_hex(c: char) -> bool {
    ('0' <= c && c <= '9') || ('a' <= c && c <= 'f')
}

/// A UUID in its hyphenated lowercase form: 32 hexadecimal digits in groups
/// of 8, 4, 4, 4 and 12.
pub open spec fn hyphenated_uuid(s: Seq<char>) -> bool {
    &&& s.len() == 36
    &&& forall|i: int|
        0 <= i < 36 ==> if i == 8 || i == 13 || i == 18 || i == 23 {
            #[trigger] s[i] == '-'
        } else {
            is_lower_hex(s[i])
        }
}

/// `uuid::Uuid::now_v7` shown with `to_string`: a fresh version 7 UUID from
/// the clock and random bits, which `Display` writes hyphenated in lowercase.
/// Which UUID comes out is not stated.
#[verifier::external_body]
fn new_v7_uuid_text() -> (r: String)
    ensures
        hyphenated_uuid(r@),
{
    uuid::Uuid::now_v7().to_string()
}

proof fn lemma_ascii_utf8_len(s: Seq<char>)
    requires
        forall|i: int| 0 <= i < s.len() ==> (#[trigger] s[i] as u32) < 128,
    ensures
        utf8_len(s) == s.len(),
    decreases s.len(),
{
    if s.len() == 0 {
        assert(vstd::utf8::encode_utf8(s) =~= Seq::<u8>::empty());
    } else {
        let c = s.last();
        assert((c as u32) < 128);
        lemma_ascii_utf8_len(s.drop_last());
        lemma_utf8_len_push(s.drop_last(), c);
        assert(s.drop_last().push(c) =~= s);
        assert(vstd::utf8::encode_utf8(seq![c]) =~= vstd::utf8::encode_scalar(c as u32)
            + vstd::utf8::encode_utf8(seq![c].drop_first()));
        assert(vstd::utf8::encode_utf8(seq![c].drop_first()) =~= Seq::<u8>::empty());
        assert(char_width(c) == 1);
    }
}

/// A hyphenated UUID is a valid task identifier.
proof fn lemma_uuid_is_task_id(s: Seq<char>)
    requires
        hyphenated_uuid(s),
    ensures
        valid_task_id(s),
{
    assert forall|i: int| 0 <= i < s.len() implies (#[trigger] s[i] as u32) < 128 by {
        if i == 8 || i == 13 || i == 18 || i == 23 {
            assert(s[i] == '-');
        } else {
            assert(is_lower_hex(s[i]));
        }
    }
    lemma_ascii_utf8_len(s);
    assert forall|i: int| 0 <= i < s.len() implies crate::types::is_task_id_char(#[trigger] s[i]) by {
        if i == 8 || i == 13 || i == 18 || i == 23 {
            assert(s[i] == '-');
        } else {
            assert(is_lower_hex(s[i]));
        }
    }
}

/// A fresh identifier for a task or an execution.
pub fn new_task_id_text() -> (r: String)
    ensures
        hyphenated_uuid(r@),
        valid_task_id(r@),
{
    let r = new_v7_uuid_text();
    proof {
        lemma_uuid_is_task_id(r@);
    }
    r
}

/// A fresh identifier for a semantic task.
pub fn new_semantic_task_id() -> (r: ProjectTaskId)
    ensures
        hyphenated_uuid(r@),
{
    let text = new_task_id_text();
    ProjectTaskId::new(text.as_str()).unwrap()
}

// ---------------------------------------------------------------------------
// Checks on requests.

pub open spec fn follow_up_text_ok(message: Seq<char>) -> bool {
    !is_blank(message) && utf8_len(message) <= MAX_FOLLOW_UP_BYTES
}

/// A follow-up must say something and fit its budget.
pub fn check_follow_up(message: &str) -> (r: Result<(), String>)
    ensures
        r is Ok <==> follow_up_text_ok(message@),
        r matches Err(e) ==> e@ == "project AGENT follow-up must be non-empty and at most "@
            + decimal(MAX_FOLLOW_UP_BYTES as nat) + " bytes"@,
{
    if blank(message) || byte_len(message) > MAX_FOLLOW_UP_BYTES {
        let mut e = owned("project AGENT follow-up must be non-empty and at most ");
        let n = decimal_text(MAX_FOLLOW_UP_BYTES as u64);
        push_str(&mut e, n.as_str());
        push_str(&mut e, " bytes");
        return Err(e);
    }
    Ok(())
}

pub open spec fn task_text_ok(task: Seq<char>) -> bool {
    !is_blank(task) && utf8_len(task) <= MAX_TASK_BYTES
}

/// A task must say something and fit its budget.
pub fn check_task_text(task: &str) -> (r: Result<(), String>)
    ensures
        r is Ok <==> task_text_ok(task@),
        r matches Err(e) ==> e@ == "project AGENT task must be non-empty and at most "@ + decimal(
            MAX_TASK_BYTES as nat,
        ) + " bytes"@,
{
    if blank(task) || byte_len(task) > MAX_TASK_BYTES {
        let mut e = owned("project AGENT task must be non-empty and at most ");
        let n = decimal_text(MAX_TASK_BYTES as u64);
        push_str(&mut e, n.as_str());
        push_str(&mut e, " bytes");
        return Err(e);
    }
    Ok(())
}

/// The refusal when an agent is already running a task.
pub fn busy_message(agent_id: &ProjectAgentId) -> (r: String)
    ensures
        r@ == "project AGENT `"@ + agent_id@ + "` already has an active task"@,
{
    let mut r = owned("project AGENT `");
    push_str(&mut r, agent_id.as_str());
    push_str(&mut r, "` already has an active task");
    r
}

// ---------------------------------------------------------------------------
// Queued tasks.

/// A task queued for `agent_id` by the root thread `parent_thread_id`.
pub open spec fn queued_task(
    m: ProjectAgentTaskMetadata,
    agent_id: Seq<char>,
    task_id: Seq<char>,
    task: Seq<char>,
    parent_thread_id: Seq<char>,
    attempt: u32,
    created_at: i64,
) -> bool {
    &&& m.schema_version == PROJECT_AGENT_SCHEMA_VERSION
    &&& m.agent_id@ == agent_id
    &&& m.task_id@ == task_id
    &&& m.task@ == task
    &&& m.phase == ProjectAgentTaskPhase::Queued
    &&& m.session_thread_id is None
    &&& m.parent_thread_id@ == parent_thread_id
    &&& m.attempt == attempt
    &&& m.created_at == created_at
    &&& m.updated_at == created_at
}

/// The metadata of a newly queued task, on its first attempt.
pub fn queued_task_metadata(
    agent_id: &ProjectAgentId,
    task_id: String,
    task: String,
    parent_thread_id: String,
    created_at: i64,
) -> (r: ProjectAgentTaskMetadata)
    ensures
        queued_task(r, agent_id@, task_id@, task@, parent_thread_id@, 1, created_at),
{
    ProjectAgentTaskMetadata {
        schema_version: PROJECT_AGENT_SCHEMA_VERSION,
        agent_id: agent_id.duplicate(),
        task_id,
        task,
        phase: ProjectAgentTaskPhase::Queued,
        session_thread_id: None,
        parent_thread_id,
        attempt: 1,
        created_at,
        updated_at: created_at,
    }
}

/// A task for `agent_id` with a fresh identifier, queued now.
pub fn start_task_metadata(
    agent_id: &ProjectAgentId,
    task: String,
    parent_thread_id: String,
    created_at: i64,
) -> (r: ProjectAgentTaskMetadata)
    ensures
        hyphenated_uuid(r.task_id@),
        queued_task(r, agent_id@, r.task_id@, task@, parent_thread_id@, 1, created_at),
{
    let task_id = new_task_id_text();
    queued_task_metadata(agent_id, task_id, task, parent_thread_id, created_at)
}

pub open spec fn is_active_phase(p: ProjectAgentTaskPhase) -> bool {
    p == ProjectAgentTaskPhase::Queued || p == ProjectAgentTaskPhase::Running
}

/// Why a retry cannot be made: the task is still queued or running.
pub open spec fn still_active_text(task_id: Seq<char>) -> Seq<char> {
    "project AGENT task `"@ + task_id + "` is still active"@
}

/// A retry of `source`: the same task on the next attempt, under a new id;
/// an active source cannot be retried.
pub fn retry_task_metadata(
    source: &ProjectAgentTaskMetadata,
    task_id: String,
    parent_thread_id: String,
    created_at: i64,
) -> (r: Result<ProjectAgentTaskMetadata, String>)
    ensures
        is_active_phase(source.phase) ==> (r matches Err(e) && e@ == still_active_text(source.task_id@)),
        !is_active_phase(source.phase) ==> (r matches Ok(m) && queued_task(
            m,
            source.agent_id@,
            task_id@,
            source.task@,
            parent_thread_id@,
            if source.attempt < u32::MAX {
                (source.attempt + 1) as u32
            } else {
                source.attempt
            },
            created_at,
        )),
{
    if source.phase.is_active() {
        let mut e = owned("project AGENT task `");
        push_str(&mut e, source.task_id.as_str());
        push_str(&mut e, "` is still active");
        return Err(e);
    }
    Ok(
        ProjectAgentTaskMetadata {
            schema_version: PROJECT_AGENT_SCHEMA_VERSION,
            agent_id: source.agent_id.duplicate(),
            task_id,
            task: source.task.clone(),
            phase: ProjectAgentTaskPhase::Queued,
            session_thread_id: None,
            parent_thread_id,
            attempt: source.attempt.saturating_add(1),
            created_at,
            updated_at: created_at,
        },
    )
}

/// The refusal when an agent already runs a task.
pub open spec fn busy_text(agent_id: Seq<char>) -> Seq<char> {
    "project AGENT `"@ + agent_id + "` already has an active task"@
}

/// Plans a retry of `agent_id`'s task `requested` (its current task when
/// `None`), whose stored metadata is `source`: refused while the agent runs
/// a task (`busy`), when there is no such task, and while the task is still
/// active; otherwise the same task is queued again on its next attempt,
/// under a freshly drawn identifier.
pub fn plan_retry(
    agent_id: &ProjectAgentId,
    requested: Option<&str>,
    source: Option<&ProjectAgentTaskMetadata>,
    busy: bool,
    parent_thread_id: String,
    created_at: i64,
) -> (r: Result<ProjectAgentTaskMetadata, String>)
    ensures
        busy ==> (r matches Err(e) && e@ == busy_text(agent_id@)),
        !busy && source is None ==> (r matches Err(e) && e@ == match requested {
            Some(t) => "project AGENT task not found: "@ + agent_id@ + "/"@ + t@,
            None => "project AGENT `"@ + agent_id@ + "` has no task to retry"@,
        }),
        !busy && source is Some && is_active_phase(source.unwrap().phase) ==> (r matches Err(e)
            && e@ == still_active_text(source.unwrap().task_id@)),
        !busy && source is Some && !is_active_phase(source.unwrap().phase) ==> (r matches Ok(m)
            && hyphenated_uuid(m.task_id@) && queued_task(
            m,
            source.unwrap().agent_id@,
            m.task_id@,
            source.unwrap().task@,
            parent_thread_id@,
            if source.unwrap().attempt < u32::MAX {
                (source.unwrap().attempt + 1) as u32
            } else {
                source.unwrap().attempt
            },
            created_at,
        )),
{
    if busy {
        let mut e = owned("project AGENT `");
        push_str(&mut e, agent_id.as_str());
        push_str(&mut e, "` already has an active task");
        return Err(e);
    }
    let source = match source {
        Some(s) => s,
        None => return Err(retry_source_missing_message(agent_id, requested)),
    };
    if source.phase.is_active() {
        return retry_task_metadata(source, String::new(), parent_thread_id, created_at);
    }
    retry_task_metadata(source, new_task_id_text(), parent_thread_id, created_at)
}

/// Why there is nothing to retry.
pub fn retry_source_missing_message(agent_id: &ProjectAgentId, task_id: Option<&str>) -> (r: String)
    ensures
        r@ == match task_id {
            Some(t) => "project AGENT task not found: "@ + agent_id@ + "/"@ + t@,
            None => "project AGENT `"@ + agent_id@ + "` has no task to retry"@,
        },
{
    match task_id {
        Some(t) => {
            let mut r = owned("project AGENT task not found: ");
            push_str(&mut r, agent_id.as_str());
            push_str(&mut r, "/");
            push_str(&mut r, t);
            r
        },
        None => {
            let mut r = owned("project AGENT `");
            push_str(&mut r, agent_id.as_str());
            push_str(&mut r, "` has no task to retry");
            r
        },
    }
}

/// The sessions a rebuild retires, and the one it reports as previous: the
/// live session first, then the stored one when it names another thread.
/// `stored` comes with whether its thread id parses.
pub fn rebuild_sessions(active: Option<String>, stored: Option<(String, bool)>) -> (r: (
    Option<String>,
    Vec<String>,
))
    ensures
        match active {
            Some(a) => r.0 matches Some(p) && p@ == a@,
            None => match stored {
                Some((s, _)) => r.0 matches Some(p) && p@ == s@,
                None => r.0 is None,
            },
        },
        r.1@.map_values(|s: String| s@) == (match active {
            Some(a) => seq![a@],
            None => Seq::empty(),
        }) + (match stored {
            Some((s, true)) => if (match active {
                Some(a) => a@ == s@,
                None => false,
            }) {
                Seq::empty()
            } else {
                seq![s@]
            },
            _ => Seq::empty(),
        }),
{
    let previous = match &active {
        Some(a) => Some(a.clone()),
        None => match &stored {
            Some((s, _)) => Some(s.clone()),
            None => None,
        },
    };
    let mut candidates: Vec<String> = Vec::new();
    let mut same = false;
    if let Some(a) = &active {
        candidates.push(a.clone());
    }
    if let Some((s, parses)) = &stored {
        if let Some(a) = &active {
            same = crate::text::same_text(a.as_str(), s.as_str());
        }
        if *parses && !same {
            candidates.push(s.clone());
        }
    }
    proof {
        assert(candidates@.map_values(|s: String| s@) =~= (match active {
            Some(a) => seq![a@],
            None => Seq::empty(),
        }) + (match stored {
            Some((s, true)) => if (match active {
                Some(a) => a@ == s@,
                None => false,
            }) {
                Seq::empty()
            } else {
                seq![s@]
            },
            _ => Seq::empty(),
        }));
    }
    (previous, candidates)
}

// ---------------------------------------------------------------------------
// Semantic tasks.

pub open spec fn later_of(a: i64, b: i64) -> i64 {
    if a >= b {
        a
    } else {
        b
    }
}

/// When a change to task `task_id` happens: now, or the task's own last
/// update if that is later; a missing task is an error.
pub fn task_update_timestamp(ws: &ProjectTaskWorkspace, task_id: &ProjectTaskId, now: i64) -> (r:
    Result<i64, ProjectTaskWorkspaceError>)
    ensures
        match lookup(ws.tasks@, task_id@) {
            Some(i) => r == Ok::<i64, ProjectTaskWorkspaceError>(
                later_of(now, ws.tasks@[i].updated_at),
            ),
            None => r matches Err(e) && e@ == WorkspaceFailure::TaskNotFound(task_id@),
        },
{
    match ws.task(task_id) {
        Some(t) => Ok(
            if now >= t.updated_at {
                now
            } else {
                t.updated_at
            },
        ),
        None => Err(ProjectTaskWorkspaceError::TaskNotFound(task_id.clone())),
    }
}

/// Creates a task under a fresh identifier; the workspace is unchanged
/// when the creation is refused.
pub fn create_semantic_task(
    ws: &mut ProjectTaskWorkspace,
    parent_task_id: Option<ProjectTaskId>,
    title: String,
    objective: String,
    executor: ProjectTaskExecutor,
    created_at: i64,
) -> (r: Result<ProjectTaskId, ProjectTaskWorkspaceError>)
    ensures
        r is Err ==> *final(ws) == *old(ws),
        r matches Err(e) ==> exists|id: Seq<char>|
            #[trigger] hyphenated_uuid(id) && create_check(
                *old(ws),
                id,
                id_view(parent_task_id),
                title@,
                objective@,
                created_at,
            ) == Err::<(), WorkspaceFailure>(e@),
        r matches Ok(id) ==> {
            let t = final(ws).tasks@.last();
            &&& hyphenated_uuid(id@)
            &&& create_check(
                *old(ws),
                id@,
                id_view(parent_task_id),
                title@,
                objective@,
                created_at,
            ) == Ok::<(), WorkspaceFailure>(())
            &&& final(ws).tasks@ == old(ws).tasks@.push(t)
            &&& t.task_id@ == id@
            &&& t.parent_task_id == parent_task_id
            &&& t.title == title
            &&& t.objective == objective
            &&& t.executor == executor
            &&& t.created_at == created_at
        },
        old(ws).valid() ==> final(ws).valid(),
{
    let task_id = new_semantic_task_id();
    let id = task_id.clone();
    let ghost fresh = id@;
    let ghost parent = id_view(parent_task_id);
    let ghost title_text = title@;
    let ghost objective_text = objective@;
    match ws.create_task(task_id, parent_task_id, title, objective, executor, created_at) {
        Ok(()) => Ok(id),
        Err(e) => {
            proof {
                assert(hyphenated_uuid(fresh));
                assert(create_check(*old(ws), fresh, parent, title_text, objective_text, created_at)
                    == Err::<(), WorkspaceFailure>(e@));
            }
            Err(e)
        },
    }
}

/// Appends a requirement, dated now or at the task's last update if later.
pub fn append_semantic_requirement(
    ws: &mut ProjectTaskWorkspace,
    task_id: &ProjectTaskId,
    requirement: String,
    now: i64,
) -> (r: Result<(), ProjectTaskWorkspaceError>)
    ensures
        match lookup(old(ws).tasks@, task_id@) {
            Some(i) => outcome_of(r) == append_check(
                *old(ws),
                task_id@,
                requirement@,
                later_of(now, old(ws).tasks@[i].updated_at),
            ),
            None => r matches Err(e) && e@ == WorkspaceFailure::TaskNotFound(task_id@),
        },
        r is Err ==> *final(ws) == *old(ws),
        old(ws).valid() ==> final(ws).valid(),
{
    let updated_at = match task_update_timestamp(ws, task_id, now) {
        Ok(t) => t,
        Err(e) => return Err(e),
    };
    ws.append_requirement(task_id, requirement, updated_at)
}

/// Records what a worker returned for task `task_id`, dated now or at the
/// task's last update if later.
pub fn write_back_worker_result(
    ws: &mut ProjectTaskWorkspace,
    task_id: &ProjectTaskId,
    result: ProjectAgentTaskResult,
    now: i64,
) -> (r: Result<(), ProjectTaskWorkspaceError>)
    ensures
        match lookup(old(ws).tasks@, task_id@) {
            None => r matches Err(e) && e@ == WorkspaceFailure::TaskNotFound(task_id@),
            Some(i) => {
                let t = old(ws).tasks@[i];
                &&& !is_open_status(t.status) ==> (r matches Err(e) && e@
                    == WorkspaceFailure::InvalidState {
                    task_id: t.task_id@,
                    status: t.status,
                    operation: "record a result"@,
                })
                &&& is_open_status(t.status) ==> exists|recorded: ProjectTaskResult|
                    #[trigger] worker_result_of(result, later_of(now, t.updated_at), recorded)
                        && outcome_of(r) == record_check(*old(ws), task_id@, recorded)
                &&& r is Ok ==> {
                    let after = final(ws).tasks@[i];
                    &&& after.status == settled_status(task_result_status(result.status))
                    &&& after.result matches Some(res) && res.status == task_result_status(
                        result.status,
                    ) && res.summary@ == result.result@ && res.completed_at == later_of(
                        now,
                        t.updated_at,
                    )
                }
            },
        },
        r is Err ==> *final(ws) == *old(ws),
        old(ws).valid() ==> final(ws).valid(),
{
    let completed_at = match task_update_timestamp(ws, task_id, now) {
        Ok(t) => t,
        Err(e) => return Err(e),
    };
    let ghost status = result.status;
    let ghost summary = result.result@;
    let ghost result_model = result;
    let recorded = worker_result(result, completed_at);
    let ghost recorded_model = recorded;
    proof {
        assert(recorded.status == task_result_status(status));
        assert(recorded.summary@ == summary);
    }
    let r = ws.record_result(task_id, recorded);
    proof {
        assert(worker_result_of(result_model, completed_at, recorded_model));
    }
    r
}

/// Why a semantic task cannot be handed to an agent.
#[derive(Debug)]
pub enum SemanticTaskError {
    Workspace(ProjectTaskWorkspaceError),
    /// The task is assigned to another project AGENT.
    ExecutorMismatch(String),
}

/// What handing task `task_id` of `ws` to `agent_id` as execution
/// `execution_task_id` gives: a missing task or one assigned to another
/// agent is refused; otherwise the workspace's start checks decide, and a
/// started execution is queued with the task's prompt, dated now or at the
/// task's last update if later.
pub open spec fn execution_outcome(
    ws: ProjectTaskWorkspace,
    task_id: Seq<char>,
    agent_id: Seq<char>,
    execution_task_id: Seq<char>,
    parent_thread_id: Seq<char>,
    now: i64,
    r: Result<ProjectAgentTaskMetadata, SemanticTaskError>,
) -> bool {
    match lookup(ws.tasks@, task_id) {
        None => r matches Err(SemanticTaskError::Workspace(e)) && e@
            == WorkspaceFailure::TaskNotFound(task_id),
        Some(i) => {
            let t = ws.tasks@[i];
            let created_at = later_of(now, t.updated_at);
            match t.executor {
                ProjectTaskExecutor::ProjectAgent { agent_id: assigned } if assigned@
                    != agent_id => r matches Err(SemanticTaskError::ExecutorMismatch(m))
                    && m@ == executor_mismatch_text(t.task_id@, assigned@, agent_id),
                _ => match start_check(ws, task_id, execution_task_id, created_at) {
                    Err(f) => r matches Err(SemanticTaskError::Workspace(e)) && e@ == f,
                    Ok(()) => r matches Ok(m) && queued_task(
                        m,
                        agent_id,
                        execution_task_id,
                        crate::text::byte_prefix(
                            task_prompt_text(t),
                            crate::worker::MAX_EXECUTION_TASK_BYTES as nat,
                        ),
                        parent_thread_id,
                        1,
                        created_at,
                    ),
                },
            }
        },
    }
}

/// Hands task `task_id` to `agent_id` as execution `execution_task_id`:
/// the task must exist and must not be assigned to another agent; the
/// execution is queued with the task's prompt, dated now or at the task's
/// last update if later, and the workspace records it.
pub fn plan_semantic_execution(
    ws: &mut ProjectTaskWorkspace,
    task_id: &ProjectTaskId,
    agent_id: &ProjectAgentId,
    execution_task_id: String,
    parent_thread_id: String,
    now: i64,
) -> (r: Result<ProjectAgentTaskMetadata, SemanticTaskError>)
    ensures
        r is Err ==> *final(ws) == *old(ws),
        old(ws).valid() ==> final(ws).valid(),
        execution_outcome(
            *old(ws),
            task_id@,
            agent_id@,
            execution_task_id@,
            parent_thread_id@,
            now,
            r,
        ),
{
    let (prompt, created_at) = match ws.task(task_id) {
        None => {
            return Err(SemanticTaskError::Workspace(ProjectTaskWorkspaceError::TaskNotFound(task_id.clone())));
        },
        Some(task) => {
            if let Some(message) = executor_mismatch(task, agent_id) {
                return Err(SemanticTaskError::ExecutorMismatch(message));
            }
            let created_at = if now >= task.updated_at {
                now
            } else {
                task.updated_at
            };
            (task_prompt(task), created_at)
        },
    };
    let execution = queued_task_metadata(
        agent_id,
        execution_task_id.clone(),
        prompt,
        parent_thread_id,
        created_at,
    );
    match ws.start_execution(task_id, agent_id.duplicate(), execution_task_id, created_at) {
        Ok(()) => Ok(execution),
        Err(e) => Err(SemanticTaskError::Workspace(e)),
    }
}

/// Hands task `task_id` to `agent_id` under a freshly drawn execution
/// identifier.
pub fn start_semantic_execution(
    ws: &mut ProjectTaskWorkspace,
    task_id: &ProjectTaskId,
    agent_id: &ProjectAgentId,
    parent_thread_id: String,
    now: i64,
) -> (r: Result<ProjectAgentTaskMetadata, SemanticTaskError>)
    ensures
        r is Err ==> *final(ws) == *old(ws),
        old(ws).valid() ==> final(ws).valid(),
        exists|execution_task_id: Seq<char>|
            #[trigger] hyphenated_uuid(execution_task_id) && execution_outcome(
                *old(ws),
                task_id@,
                agent_id@,
                execution_task_id,
                parent_thread_id@,
                now,
                r,
            ),
        r matches Ok(m) ==> hyphenated_uuid(m.task_id@),
{
    let execution_task_id = new_task_id_text();
    let ghost fresh = execution_task_id@;
    let ghost parent = parent_thread_id@;
    let r = plan_semantic_execution(ws, task_id, agent_id, execution_task_id, parent_thread_id, now);
    proof {
        assert(hyphenated_uuid(fresh));
        assert(execution_outcome(*old(ws), task_id@, agent_id@, fresh, parent, now, r));
    }
    r
}

// ---------------------------------------------------------------------------
// Where and how a worker runs.

/// The environment a delegated task runs in, by position among the
/// invocation's environments: the primary one when it is offered, else the
/// first; none when none is offered.
pub fn select_environment(environment_ids: &Vec<String>, primary: &str) -> (r: Option<usize>)
    ensures
        match r {
            Some(i) => i < environment_ids@.len() && if exists|k: int|
                0 <= k < environment_ids@.len() && #[trigger] environment_ids@[k]@ == primary@ {
                environment_ids@[i as int]@ == primary@ && forall|j: int|
                    0 <= j < i ==> #[trigger] environment_ids@[j]@ != primary@
            } else {
                i == 0
            },
            None => environment_ids@.len() == 0,
        },
{
    let mut i: usize = 0;
    while i < environment_ids.len()
        invariant
            i <= environment_ids.len(),
            forall|j: int| 0 <= j < i ==> #[trigger] environment_ids@[j]@ != primary@,
        decreases environment_ids.len() - i,
    {
        if crate::text::same_text(environment_ids[i].as_str(), primary) {
            return Some(i);
        }
        i = i + 1;
    }
    if environment_ids.len() > 0 {
        Some(0)
    } else {
        None
    }
}

/// What a worker's configuration takes from its agent's definition.
#[derive(Clone, Debug, Eq, PartialEq)]
pub struct WorkerOverrides {
    pub model: Option<String>,
    /// The reasoning effort, still to be parsed by the host.
    pub reasoning_effort: Option<String>,
    /// The model provider to look up, unless the definition keeps the
    /// default one.
    pub model_provider: Option<String>,
}

pub open spec fn opt_text(o: Option<String>) -> Option<Seq<char>> {
    match o {
        Some(s) => Some(s@),
        None => None,
    }
}

/// The model, reasoning effort and provider a worker of `definition` uses;
/// a provider named `default` leaves the host's provider in place.
pub fn worker_overrides(definition: &ProjectAgentDefinition) -> (r: WorkerOverrides)
    ensures
        opt_text(r.model) == opt_text(definition.model),
        opt_text(r.reasoning_effort) == opt_text(definition.model_reasoning_effort),
        opt_text(r.model_provider) == match definition.model_provider {
            Some(p) => if p@ == "default"@ {
                None
            } else {
                Some(p@)
            },
            None => None,
        },
{
    let model = match &definition.model {
        Some(m) => Some(m.clone()),
        None => None,
    };
    let reasoning_effort = match &definition.model_reasoning_effort {
        Some(e) => Some(e.clone()),
        None => None,
    };
    let model_provider = match &definition.model_provider {
        Some(p) => if crate::text::same_text(p.as_str(), "default") {
            None
        } else {
            Some(p.clone())
        },
        None => None,
    };
    WorkerOverrides { model, reasoning_effort, model_provider }
}

/// The error when the host knows no provider of that name.
pub fn unknown_provider_message(provider_id: &str) -> (r: String)
    ensures
        r@ == "model provider `"@ + provider_id@ + "` is not configured"@,
{
    let mut r = owned("model provider `");
    push_str(&mut r, provider_id);
    push_str(&mut r, "` is not configured");
    r
}

/// Whether `id` is among `ids`.
pub open spec fn lists_text(ids: Seq<String>, id: Seq<char>) -> bool {
    exists|i: int| 0 <= i < ids.len() && (#[trigger] ids[i])@ == id
}

/// The provider a worker switches to: none when its definition keeps the
/// host's provider, the requested one when the host has it configured, and
/// otherwise the error that names it.
pub fn select_worker_provider(requested: Option<&str>, configured: &Vec<String>) -> (r: Result<
    Option<String>,
    String,
>)
    ensures
        requested is None ==> r == Ok::<Option<String>, String>(None),
        requested matches Some(p) ==> (lists_text(configured@, p@) <==> r is Ok),
        requested matches Some(p) ==> (r matches Ok(Some(q)) ==> q@ == p@) && (r is Ok ==> r->Ok_0 is Some),
        requested matches Some(p) ==> (r matches Err(e) ==> e@ == "model provider `"@ + p@
            + "` is not configured"@),
{
    let p = match requested {
        Some(p) => p,
        None => return Ok(None),
    };
    let mut i: usize = 0;
    while i < configured.len()
        invariant
            i <= configured@.len(),
            requested == Some(p),
            forall|k: int| 0 <= k < i ==> (#[trigger] configured@[k])@ != p@,
        decreases configured.len() - i,
    {
        if crate::text::same_text(configured[i].as_str(), p) {
            proof {
                assert(lists_text(configured@, p@)) by {
                    assert(configured@[i as int]@ == p@);
                }
            }
            return Ok(Some(owned(p)));
        }
        i = i + 1;
    }
    Err(unknown_provider_message(p))
}

/// What a worker would inherit from the host session: instruction blocks,
/// project documents, notifications and memories.
#[derive(Clone, Debug, Eq, PartialEq)]
pub struct WorkerHostContext {
    pub include_permissions_instructions: bool,
    pub include_apps_instructions: bool,
    pub include_collaboration_mode_instructions: bool,
    pub include_skill_instructions: bool,
    pub orchestrator_skills_enabled: bool,
    pub orchestrator_mcp_enabled: bool,
    pub include_environment_context: bool,
    pub project_doc_max_bytes: usize,
    pub project_doc_fallback_filenames: Vec<String>,
    pub developer_instructions: Option<String>,
    pub notify: Option<Vec<String>>,
    pub ephemeral: bool,
    pub generate_memories: bool,
    pub use_memories: bool,
    pub dedicated_memory_tools: bool,
}

/// Whether a worker inherits nothing from the host session.
pub open spec fn isolated(c: WorkerHostContext) -> bool {
    &&& !c.include_permissions_instructions
    &&& !c.include_apps_instructions
    &&& !c.include_collaboration_mode_instructions
    &&& !c.include_skill_instructions
    &&& !c.orchestrator_skills_enabled
    &&& !c.orchestrator_mcp_enabled
    &&& !c.include_environment_context
    &&& c.project_doc_max_bytes == 0
    &&& c.project_doc_fallback_filenames@.len() == 0
    &&& c.developer_instructions is None
    &&& c.notify is None
    &&& !c.ephemeral
    &&& !c.generate_memories
    &&& !c.use_memories
    &&& !c.dedicated_memory_tools
}

/// Cuts a worker off from the host session's context.
pub fn isolate_worker_context(context: &mut WorkerHostContext)
    ensures
        isolated(*final(context)),
{
    context.include_permissions_instructions = false;
    context.include_apps_instructions = false;
    context.include_collaboration_mode_instructions = false;
    context.include_skill_instructions = false;
    context.orchestrator_skills_enabled = false;
    context.orchestrator_mcp_enabled = false;
    context.include_environment_context = false;
    context.project_doc_max_bytes = 0;
    context.project_doc_fallback_filenames.clear();
    context.developer_instructions = None;
    context.notify = None;
    context.ephemeral = false;
    context.generate_memories = false;
    context.use_memories = false;
    context.dedicated_memory_tools = false;
}

/// The error when the host cannot read a reasoning effort.
pub fn invalid_effort_message(effort: &str, error: &str) -> (r: String)
    ensures
        r@ == "invalid model reasoning effort `"@ + effort@ + "`: "@ + error@,
{
    let mut r = owned("invalid model reasoning effort `");
    push_str(&mut r, effort);
    push_str(&mut r, "`: ");
    push_str(&mut r, error);
    r
}

// ---------------------------------------------------------------------------
// Roster pages.

/// Agents a roster page may show.
pub const MAX_LIST_ITEMS: usize = 100;

/// The positions `[start, end)` of a roster page of `total` agents from
/// `offset`: the limit is held between 1 and the page maximum, and a page
/// past the end is empty.
pub fn roster_page(total: usize, offset: usize, limit: usize) -> (r: (usize, usize))
    ensures
        ({
            let l = if limit < 1 {
                1
            } else if limit > MAX_LIST_ITEMS {
                MAX_LIST_ITEMS as int
            } else {
                limit as int
            };
            let end = if offset + l > usize::MAX {
                usize::MAX as int
            } else {
                offset + l
            };
            if offset < total {
                r.0 == offset && r.1 == (if end < total {
                    end
                } else {
                    total as int
                })
            } else {
                r.0 == r.1
            }
        }),
{
    let limit = if limit < 1 {
        1
    } else if limit > MAX_LIST_ITEMS {
        MAX_LIST_ITEMS
    } else {
        limit
    };
    let end = offset.saturating_add(limit);
    let end = if end < total {
        end
    } else {
        total
    };
    if offset < total {
        (offset, end)
    } else {
        (0, 0)
    }
}

// ---------------------------------------------------------------------------
// Active workers and enabled agents.

/// The sessions tried for an agent's active task, in order: the task's own
/// session when its thread id parses, then the agent's live session when it
/// is another one.
pub fn active_worker_candidates(task_session: Option<(String, bool)>, live: Option<String>) -> (r:
    Vec<String>)
    ensures
        r@.map_values(|s: String| s@) == (match task_session {
            Some((t, true)) => seq![t@],
            _ => Seq::empty(),
        }) + (match live {
            Some(l) => if (match task_session {
                Some((t, true)) => t@ == l@,
                _ => false,
            }) {
                Seq::empty()
            } else {
                seq![l@]
            },
            None => Seq::empty(),
        }),
{
    let mut candidates: Vec<String> = Vec::new();
    let mut first: Option<String> = None;
    if let Some((t, parses)) = &task_session {
        if *parses {
            candidates.push(t.clone());
            first = Some(t.clone());
        }
    }
    if let Some(l) = &live {
        let same = match &first {
            Some(t) => crate::text::same_text(t.as_str(), l.as_str()),
            None => false,
        };
        if !same {
            candidates.push(l.clone());
        }
    }
    proof {
        assert(candidates@.map_values(|s: String| s@) =~= (match task_session {
            Some((t, true)) => seq![t@],
            _ => Seq::empty(),
        }) + (match live {
            Some(l) => if (match task_session {
                Some((t, true)) => t@ == l@,
                _ => false,
            }) {
                Seq::empty()
            } else {
                seq![l@]
            },
            None => Seq::empty(),
        }));
    }
    candidates
}

/// The refusal when an agent has no active task.
pub fn no_active_task_message(agent_id: &ProjectAgentId) -> (r: String)
    ensures
        r@ == "project AGENT `"@ + agent_id@ + "` has no active task"@,
{
    let mut r = owned("project AGENT `");
    push_str(&mut r, agent_id.as_str());
    push_str(&mut r, "` has no active task");
    r
}

/// The refusal when no session of an agent can take its active task.
pub fn no_reusable_worker_message(agent_id: &ProjectAgentId) -> (r: String)
    ensures
        r@ == "project AGENT `"@ + agent_id@ + "` has no reusable worker session for its active task"@,
{
    let mut r = owned("project AGENT `");
    push_str(&mut r, agent_id.as_str());
    push_str(&mut r, "` has no reusable worker session for its active task");
    r
}

/// The refusal when an agent is disabled.
pub fn disabled_message(agent_id: &ProjectAgentId) -> (r: String)
    ensures
        r@ == "project AGENT `"@ + agent_id@ + "` is disabled"@,
{
    let mut r = owned("project AGENT `");
    push_str(&mut r, agent_id.as_str());
    push_str(&mut r, "` is disabled");
    r
}

} // verus!
