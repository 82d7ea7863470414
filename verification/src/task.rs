//! Lifecycle metadata of project AGENT executions and their sessions.

use crate::text::{byte_len, char_is_control, chars_of, decimal, is_control_char, owned, push_decimal, push_str, utf8_len};
use crate::types::{
    and_then, bounded_text_check, checked_of, field_failure, invalid_field, schema_check,
    task_id_check, validate_bounded_text, validate_schema, validate_task_id, Checked,
    ProjectAgentId, ProjectAgentValidationError, ValidationFailure,
};
use vstd::prelude::*;

verus! {

broadcast use vstd::string::group_string_axioms;

pub const MAX_TASK_BYTES: usize = 16384;

pub const MAX_THREAD_ID_BYTES: usize = 128;

pub const MAX_TASK_LIST_ITEMS: usize = 100;

pub const DEFAULT_TASK_LIST_ITEMS: usize = 25;

/// Lifecycle phase for a project AGENT task outside the model-authored result protocol.
#[derive(Clone, Copy, Debug, Eq, PartialEq, Structural)]
pub enum ProjectAgentTaskPhase {
    Queued,
    Running,
    Completed,
    Interrupted,
    Failed,
}

impl ProjectAgentTaskPhase {
    /// Queued and running tasks are active.
    pub fn is_active(self) -> (r: bool)
        ensures
            r == (self == ProjectAgentTaskPhase::Queued || self == ProjectAgentTaskPhase::Running),
    {
        matches!(self, ProjectAgentTaskPhase::Queued | ProjectAgentTaskPhase::Running)
    }
}

/// Bounded metadata used to display and control one project AGENT task.
#[derive(Clone, Debug, Eq, PartialEq)]
pub struct ProjectAgentTaskMetadata {
    pub schema_version: u32,
    pub agent_id: ProjectAgentId,
    pub task_id: String,
    pub task: String,
    pub phase: ProjectAgentTaskPhase,
    pub session_thread_id: Option<String>,
    pub parent_thread_id: String,
    pub attempt: u32,
    pub created_at: i64,
    pub updated_at: i64,
}

/// The reason reported for an unusable thread identifier.
pub open spec fn thread_id_reason() -> Seq<char> {
    "must be non-empty and at most "@ + decimal(MAX_THREAD_ID_BYTES as nat) + " bytes"@
}

/// A thread identifier: 1 to 128 bytes without control characters.
pub open spec fn valid_thread_id(v: Seq<char>) -> bool {
    &&& v.len() > 0
    &&& utf8_len(v) <= MAX_THREAD_ID_BYTES
    &&& forall|i: int| 0 <= i < v.len() ==> !is_control_char(#[trigger] v[i])
}

pub open spec fn thread_id_check(field: Seq<char>, v: Seq<char>) -> Checked {
    if valid_thread_id(v) {
        Ok(())
    } else {
        Err(field_failure(field, thread_id_reason()))
    }
}

pub fn validate_thread_id(field: &'static str, value: &str) -> (r: Result<
    (),
    ProjectAgentValidationError,
>)
    ensures
        checked_of(r) == thread_id_check(field@, value@),
{
    let chars = chars_of(value);
    let n = chars.len();
    let mut valid = n > 0 && byte_len(value) <= MAX_THREAD_ID_BYTES;
    let mut i: usize = 0;
    while i < n
        invariant
            chars@ == value@,
            n == chars@.len(),
            i <= n,
            valid == (n > 0 && utf8_len(value@) <= MAX_THREAD_ID_BYTES && forall|j: int|
                0 <= j < i ==> !is_control_char(#[trigger] chars@[j])),
        decreases n - i,
    {
        if char_is_control(chars[i]) {
            valid = false;
        }
        i = i + 1;
    }
    if valid {
        Ok(())
    } else {
        let mut reason = owned("must be non-empty and at most ");
        push_decimal(&mut reason, MAX_THREAD_ID_BYTES as u64);
        push_str(&mut reason, " bytes");
        Err(ProjectAgentValidationError::InvalidField { field, reason })
    }
}

/// Timestamps are non-negative and the update does not precede creation.
pub open spec fn timestamps_check(created_at: i64, updated_at: i64) -> Checked {
    if created_at < 0 || updated_at < created_at {
        Err(
            field_failure(
                "updated_at"@,
                "timestamps must be non-negative and updated_at must not precede created_at"@,
            ),
        )
    } else {
        Ok(())
    }
}

fn validate_timestamps(created_at: i64, updated_at: i64) -> (r: Result<
    (),
    ProjectAgentValidationError,
>)
    ensures
        checked_of(r) == timestamps_check(created_at, updated_at),
{
    if created_at < 0 || updated_at < created_at {
        return Err(
            invalid_field(
                "updated_at",
                "timestamps must be non-negative and updated_at must not precede created_at",
            ),
        );
    }
    Ok(())
}

/// The reason reported when metadata names another agent or task.
pub open spec fn metadata_mismatch_reason(found: Seq<char>, expected: Seq<char>) -> Seq<char> {
    "task metadata names `"@ + found + "`, expected `"@ + expected + "`"@
}

/// The rules task metadata obeys for the expected agent and task, checked
/// in order.
pub open spec fn task_metadata_check(
    m: ProjectAgentTaskMetadata,
    expected_agent_id: Seq<char>,
    expected_task_id: Seq<char>,
) -> Checked {
    and_then(
        schema_check("task metadata"@, m.schema_version),
        if m.agent_id@ != expected_agent_id {
            Err(field_failure("agent_id"@, metadata_mismatch_reason(m.agent_id@, expected_agent_id)))
        } else if m.task_id@ != expected_task_id {
            Err(field_failure("task_id"@, metadata_mismatch_reason(m.task_id@, expected_task_id)))
        } else {
            and_then(
                task_id_check(m.task_id@),
                and_then(
                    bounded_text_check("task"@, m.task@, MAX_TASK_BYTES as nat, true),
                    and_then(
                        match m.session_thread_id {
                            Some(t) => thread_id_check("session_thread_id"@, t@),
                            None => Ok(()),
                        },
                        and_then(
                            thread_id_check("parent_thread_id"@, m.parent_thread_id@),
                            if m.attempt == 0 {
                                Err(field_failure("attempt"@, "must be at least 1"@))
                            } else {
                                timestamps_check(m.created_at, m.updated_at)
                            },
                        ),
                    ),
                ),
            )
        },
    )
}

fn metadata_mismatch(field: &'static str, found: &str, expected: &str) -> (e:
    ProjectAgentValidationError)
    ensures
        e@ == field_failure(field@, metadata_mismatch_reason(found@, expected@)),
{
    let mut reason = owned("task metadata names `");
    push_str(&mut reason, found);
    push_str(&mut reason, "`, expected `");
    push_str(&mut reason, expected);
    push_str(&mut reason, "`");
    ProjectAgentValidationError::InvalidField { field, reason }
}

impl ProjectAgentTaskMetadata {
    /// Checks the metadata against [`task_metadata_check`].
    pub fn validate_for(&self, expected_agent_id: &ProjectAgentId, expected_task_id: &str) -> (r:
        Result<(), ProjectAgentValidationError>)
        ensures
            checked_of(r) == task_metadata_check(*self, expected_agent_id@, expected_task_id@),
    {
        validate_schema("task metadata", self.schema_version)?;
        if !self.agent_id.same(expected_agent_id) {
            return Err(
                metadata_mismatch("agent_id", self.agent_id.as_str(), expected_agent_id.as_str()),
            );
        }
        if !crate::text::same_text(self.task_id.as_str(), expected_task_id) {
            return Err(metadata_mismatch("task_id", self.task_id.as_str(), expected_task_id));
        }
        validate_task_id(self.task_id.as_str())?;
        validate_bounded_text("task", self.task.as_str(), MAX_TASK_BYTES, true)?;
        match &self.session_thread_id {
            Some(thread_id) => validate_thread_id("session_thread_id", thread_id.as_str())?,
            None => {},
        }
        validate_thread_id("parent_thread_id", self.parent_thread_id.as_str())?;
        if self.attempt == 0 {
            return Err(invalid_field("attempt", "must be at least 1"));
        }
        validate_timestamps(self.created_at, self.updated_at)
    }
}

/// Durable identity of the reusable worker thread assigned to one project AGENT.
#[derive(Clone, Debug, Eq, PartialEq)]
pub struct ProjectAgentSessionMetadata {
    pub schema_version: u32,
    pub agent_id: ProjectAgentId,
    pub thread_id: String,
    pub generation: u64,
    pub created_at: i64,
    pub updated_at: i64,
}

/// The rules session metadata obeys, checked in order.
pub open spec fn session_metadata_check(m: ProjectAgentSessionMetadata) -> Checked {
    and_then(
        schema_check("session metadata"@, m.schema_version),
        and_then(
            thread_id_check("thread_id"@, m.thread_id@),
            if m.generation == 0 {
                Err(field_failure("generation"@, "must be at least 1"@))
            } else {
                timestamps_check(m.created_at, m.updated_at)
            },
        ),
    )
}

impl ProjectAgentSessionMetadata {
    /// Checks the metadata against [`session_metadata_check`].
    pub fn validate(&self) -> (r: Result<(), ProjectAgentValidationError>)
        ensures
            checked_of(r) == session_metadata_check(*self),
    {
        validate_schema("session metadata", self.schema_version)?;
        validate_thread_id("thread_id", self.thread_id.as_str())?;
        if self.generation == 0 {
            return Err(invalid_field("generation", "must be at least 1"));
        }
        validate_timestamps(self.created_at, self.updated_at)
    }
}

/// Self-documenting bound for recent task-history reads.
#[derive(Clone, Copy, Debug, Eq, PartialEq)]
pub struct ProjectAgentTaskListLimit(usize);

impl View for ProjectAgentTaskListLimit {
    type V = nat;

    closed spec fn view(&self) -> nat {
        self.0 as nat
    }
}

impl ProjectAgentTaskListLimit {
    /// The requested bound, clamped to 1..=100.
    pub fn new(value: usize) -> (r: Self)
        ensures
            r@ == if value < 1 {
                1nat
            } else if value > MAX_TASK_LIST_ITEMS {
                MAX_TASK_LIST_ITEMS as nat
            } else {
                value as nat
            },
    {
        if value < 1 {
            ProjectAgentTaskListLimit(1)
        } else if value > MAX_TASK_LIST_ITEMS {
            ProjectAgentTaskListLimit(MAX_TASK_LIST_ITEMS)
        } else {
            ProjectAgentTaskListLimit(value)
        }
    }

    /// The bound.
    pub fn get(self) -> (r: usize)
        ensures
            r == self@,
    {
        self.0
    }
}

impl Default for ProjectAgentTaskListLimit {
    fn default() -> (r: Self)
        ensures
            r@ == DEFAULT_TASK_LIST_ITEMS,
    {
        ProjectAgentTaskListLimit(DEFAULT_TASK_LIST_ITEMS)
    }
}

/// Active task identity returned once a follow-up or termination request
/// is accepted.
#[derive(Clone, Debug, Eq, PartialEq)]
pub struct ThreadProjectAgentTaskControl {
    pub task_id: String,
    pub session_thread_id: String,
}

/// The control identity of `task` running on the worker session
/// `session_thread_id`.
pub fn task_control(task: &ProjectAgentTaskMetadata, session_thread_id: &str) -> (r:
    ThreadProjectAgentTaskControl)
    ensures
        r.task_id@ == task.task_id@,
        r.session_thread_id@ == session_thread_id@,
{
    ThreadProjectAgentTaskControl {
        task_id: task.task_id.clone(),
        session_thread_id: session_thread_id.to_string(),
    }
}

} // verus!
