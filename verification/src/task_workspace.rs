//! The semantic task workspace: a bounded tree of tasks, each with its
//! requirements, executor, result and evaluation.

use crate::text::{decimal, owned, push_str};
use crate::types::{
    and_then, bounded_text_check, checked_of, field_failure, invalid_field, items_check,
    schema_check, task_id_check, validate_bounded_text, validate_items, validate_schema,
    validate_task_id, valid_task_id, Checked, ProjectAgentId, ProjectAgentValidationError,
    ValidationFailure, PROJECT_AGENT_SCHEMA_VERSION,
};
use vstd::prelude::*;

verus! {

broadcast use vstd::string::group_string_axioms;

pub const MAX_TASKS: usize = 256;

pub const MAX_DEPTH: usize = 8;

pub const MAX_TITLE_BYTES: usize = 256;

pub const MAX_OBJECTIVE_BYTES: usize = 8192;

pub const MAX_REQUIREMENTS: usize = 32;

pub const MAX_RESULT_ITEMS: usize = 64;

pub const MAX_ITEM_BYTES: usize = 4096;

pub const MAX_RESULT_BYTES: usize = 65536;

pub const MAX_SUGGESTIONS: usize = 16;

pub const MAX_EVALUATION_BYTES: usize = 16384;

/// Identifier of one semantic task; always a valid task identifier.
#[derive(Debug, Eq, Hash, Ord, PartialEq, PartialOrd)]
pub struct ProjectTaskId(String);

impl Clone for ProjectTaskId {
    fn clone(&self) -> (r: Self)
        ensures
            r@ == self@,
    {
        proof {
            use_type_invariant(self);
        }
        ProjectTaskId(self.0.clone())
    }
}

impl View for ProjectTaskId {
    type V = Seq<char>;

    closed spec fn view(&self) -> Seq<char> {
        self.0@
    }
}

impl ProjectTaskId {
    #[verifier::type_invariant]
    spec fn well_formed(self) -> bool {
        valid_task_id(self.0@)
    }

    /// Accepts exactly the valid task identifiers.
    pub fn new(value: &str) -> (r: Result<Self, ProjectAgentValidationError>)
        ensures
            r is Ok <==> valid_task_id(value@),
            r matches Ok(id) ==> id@ == value@,
            r matches Err(e) ==> Err::<(), ValidationFailure>(e@) == task_id_check(value@),
    {
        match validate_task_id(value) {
            Ok(()) => Ok(ProjectTaskId(owned(value))),
            Err(e) => Err(e),
        }
    }

    pub fn as_str(&self) -> (r: &str)
        ensures
            r@ == self@,
    {
        self.0.as_str()
    }

    /// The identifier, which satisfies the task identifier rule.
    pub fn check_valid(&self)
        ensures
            valid_task_id(self@),
    {
        proof {
            use_type_invariant(self);
        }
    }

    /// Whether two identifiers are equal.
    pub fn same(&self, other: &Self) -> (r: bool)
        ensures
            r == (self@ == other@),
    {
        self.0 == other.0
    }
}

#[derive(Clone, Copy, Debug, Eq, PartialEq, Structural)]
pub enum ProjectTaskStatus {
    Pending,
    InProgress,
    Completed,
    Rejected,
    Blocked,
    Failed,
}

#[derive(Clone, Debug, Eq, PartialEq)]
pub enum ProjectTaskExecutor {
    Unassigned,
    MainAgent,
    ProjectAgent { agent_id: ProjectAgentId },
}

#[derive(Clone, Copy, Debug, Eq, PartialEq, Structural)]
pub enum ProjectTaskResultStatus {
    Completed,
    Rejected,
    BlockedMissingTool,
    Failed,
}

#[derive(Clone, Debug, Eq, PartialEq)]
pub struct ProjectTaskSuggestedChild {
    pub title: String,
    pub objective: String,
}

#[derive(Clone, Debug, Eq, PartialEq)]
pub struct ProjectTaskResult {
    pub status: ProjectTaskResultStatus,
    pub summary: String,
    pub artifacts: Vec<String>,
    pub evidence: Vec<String>,
    pub suggested_children: Vec<ProjectTaskSuggestedChild>,
    pub error: Option<String>,
    pub completed_at: i64,
}

#[derive(Clone, Copy, Debug, Eq, PartialEq, Structural)]
pub enum ProjectTaskEvaluationVerdict {
    Passed,
    NeedsRevision,
    Failed,
}

#[derive(Clone, Debug, Eq, PartialEq)]
pub struct ProjectTaskEvaluation {
    pub verdict: ProjectTaskEvaluationVerdict,
    pub summary: String,
    pub evidence: Vec<String>,
    pub evaluated_at: i64,
}

#[derive(Clone, Debug, Eq, PartialEq)]
pub struct ProjectTaskNode {
    pub task_id: ProjectTaskId,
    pub parent_task_id: Option<ProjectTaskId>,
    pub title: String,
    pub objective: String,
    pub requirements: Vec<String>,
    pub status: ProjectTaskStatus,
    pub executor: ProjectTaskExecutor,
    pub execution_task_id: Option<String>,
    pub result: Option<ProjectTaskResult>,
    pub evaluation: Option<ProjectTaskEvaluation>,
    pub created_at: i64,
    pub updated_at: i64,
}

#[derive(Clone, Debug, Eq, PartialEq)]
pub struct ProjectTaskWorkspace {
    pub schema_version: u32,
    pub tasks: Vec<ProjectTaskNode>,
    pub updated_at: i64,
}

/// The task status that a result status settles a task into.
pub open spec fn settled_status(status: ProjectTaskResultStatus) -> ProjectTaskStatus {
    match status {
        ProjectTaskResultStatus::Completed => ProjectTaskStatus::Completed,
        ProjectTaskResultStatus::Rejected => ProjectTaskStatus::Rejected,
        ProjectTaskResultStatus::BlockedMissingTool => ProjectTaskStatus::Blocked,
        ProjectTaskResultStatus::Failed => ProjectTaskStatus::Failed,
    }
}

impl ProjectTaskStatus {
    /// The task status that a result with `status` settles a task into.
    pub fn from_result_status(status: ProjectTaskResultStatus) -> (r: Self)
        ensures
            r == settled_status(status),
    {
        match status {
            ProjectTaskResultStatus::Completed => ProjectTaskStatus::Completed,
            ProjectTaskResultStatus::Rejected => ProjectTaskStatus::Rejected,
            ProjectTaskResultStatus::BlockedMissingTool => ProjectTaskStatus::Blocked,
            ProjectTaskResultStatus::Failed => ProjectTaskStatus::Failed,
        }
    }
}

/// A task that can still change: pending or in progress.
pub open spec fn is_open_status(status: ProjectTaskStatus) -> bool {
    status == ProjectTaskStatus::Pending || status == ProjectTaskStatus::InProgress
}

/// Recording a result settles a task for good, and tells the outcomes apart:
/// the task is completed exactly when its result completed, a missing tool
/// leaves it blocked, and no two result statuses settle it the same way.
pub proof fn lemma_settled_status_faithful(a: ProjectTaskResultStatus, b: ProjectTaskResultStatus)
    ensures
        !is_open_status(settled_status(a)),
        settled_status(a) == ProjectTaskStatus::Completed <==> a == ProjectTaskResultStatus::Completed,
        settled_status(a) == ProjectTaskStatus::Blocked <==> a
            == ProjectTaskResultStatus::BlockedMissingTool,
        settled_status(a) == settled_status(b) ==> a == b,
{
}

// ---------------------------------------------------------------------------
// Field checks
// ---------------------------------------------------------------------------

pub open spec fn timestamp_check(t: i64) -> Checked {
    if t < 0 {
        Err(field_failure("timestamp"@, "must be non-negative"@))
    } else {
        Ok(())
    }
}

fn validate_timestamp(t: i64) -> (r: Result<(), ProjectAgentValidationError>)
    ensures
        checked_of(r) == timestamp_check(t),
{
    if t < 0 {
        return Err(invalid_field("timestamp", "must be non-negative"));
    }
    Ok(())
}

/// An update at `updated` of a task created at `created` and last updated
/// at `current` must not move backwards.
pub open spec fn update_check(created: i64, current: i64, updated: i64) -> Checked {
    if updated < created || updated < current {
        Err(field_failure("updated_at"@, "must not move backwards"@))
    } else {
        timestamp_check(updated)
    }
}

fn validate_update(task: &ProjectTaskNode, updated_at: i64) -> (r: Result<
    (),
    ProjectAgentValidationError,
>)
    ensures
        checked_of(r) == update_check(task.created_at, task.updated_at, updated_at),
{
    if updated_at < task.created_at || updated_at < task.updated_at {
        return Err(invalid_field("updated_at", "must not move backwards"));
    }
    validate_timestamp(updated_at)
}

/// A list of at most `maximum` items, each non-blank and at most 4 KiB.
pub open spec fn list_check(field: Seq<char>, values: Seq<String>, maximum: nat) -> Checked {
    if values.len() > maximum {
        Err(field_failure(field, "contains too many items"@))
    } else {
        items_check(field, values, MAX_ITEM_BYTES as nat)
    }
}

fn validate_list(field: &'static str, values: &Vec<String>, maximum: usize) -> (r: Result<
    (),
    ProjectAgentValidationError,
>)
    ensures
        checked_of(r) == list_check(field@, values@, maximum as nat),
{
    if values.len() > maximum {
        return Err(invalid_field(field, "contains too many items"));
    }
    validate_items(field, values, MAX_ITEM_BYTES)
}

/// Every suggested child has a bounded title and objective, checked in order.
pub open spec fn children_check(children: Seq<ProjectTaskSuggestedChild>) -> Checked
    decreases children.len(),
{
    if children.len() == 0 {
        Ok(())
    } else {
        and_then(
            children_check(children.drop_last()),
            and_then(
                bounded_text_check("title"@, children.last().title@, MAX_TITLE_BYTES as nat, true),
                bounded_text_check(
                    "objective"@,
                    children.last().objective@,
                    MAX_OBJECTIVE_BYTES as nat,
                    true,
                ),
            ),
        )
    }
}

/// Only a failed result carries an error, and it must.
pub open spec fn result_error_check(status: ProjectTaskResultStatus, error: Option<String>) -> Checked {
    match error {
        Some(e) => if status == ProjectTaskResultStatus::Failed {
            bounded_text_check("error"@, e@, MAX_ITEM_BYTES as nat, true)
        } else {
            Err(field_failure("error"@, "is only valid for a failed result"@))
        },
        None => if status == ProjectTaskResultStatus::Failed {
            Err(field_failure("error"@, "is required for a failed result"@))
        } else {
            Ok(())
        },
    }
}

/// The rules a task result obeys, checked in order.
pub open spec fn result_check(r: ProjectTaskResult) -> Checked {
    and_then(
        bounded_text_check("result"@, r.summary@, MAX_RESULT_BYTES as nat, true),
        and_then(
            list_check("artifacts"@, r.artifacts@, MAX_RESULT_ITEMS as nat),
            and_then(
                list_check("evidence"@, r.evidence@, MAX_RESULT_ITEMS as nat),
                and_then(
                    if r.suggested_children@.len() > MAX_SUGGESTIONS {
                        Err(
                            field_failure(
                                "suggested_children"@,
                                "exceeds the suggestion limit"@,
                            ),
                        )
                    } else {
                        children_check(r.suggested_children@)
                    },
                    and_then(result_error_check(r.status, r.error), timestamp_check(r.completed_at)),
                ),
            ),
        ),
    )
}

/// The rules a task evaluation obeys, checked in order.
pub open spec fn evaluation_check(e: ProjectTaskEvaluation) -> Checked {
    and_then(
        bounded_text_check("evaluation"@, e.summary@, MAX_EVALUATION_BYTES as nat, true),
        and_then(
            list_check("evaluation evidence"@, e.evidence@, MAX_RESULT_ITEMS as nat),
            timestamp_check(e.evaluated_at),
        ),
    )
}

fn validate_children(children: &Vec<ProjectTaskSuggestedChild>) -> (r: Result<
    (),
    ProjectAgentValidationError,
>)
    ensures
        checked_of(r) == children_check(children@),
{
    let mut i: usize = 0;
    while i < children.len()
        invariant
            i <= children@.len(),
            children_check(children@.take(i as int)) == Ok::<(), ValidationFailure>(()),
        decreases children.len() - i,
    {
        proof {
            assert(children@.take(i + 1).drop_last() == children@.take(i as int));
        }
        let title = validate_bounded_text("title", children[i].title.as_str(), MAX_TITLE_BYTES, true);
        let r = match title {
            Ok(()) => validate_bounded_text(
                "objective",
                children[i].objective.as_str(),
                MAX_OBJECTIVE_BYTES,
                true,
            ),
            Err(e) => Err(e),
        };
        if r.is_err() {
            proof {
                lemma_children_check_prefix_fails(children@, i as int);
            }
            return r;
        }
        i = i + 1;
    }
    proof {
        assert(children@.take(children@.len() as int) == children@);
    }
    Ok(())
}

/// When the first `i` children pass and child `i` fails, the whole check
/// fails with child `i`'s failure.
proof fn lemma_children_check_prefix_fails(children: Seq<ProjectTaskSuggestedChild>, i: int)
    requires
        0 <= i < children.len(),
        children_check(children.take(i)) == Ok::<(), ValidationFailure>(()),
        and_then(
            bounded_text_check("title"@, children[i].title@, MAX_TITLE_BYTES as nat, true),
            bounded_text_check("objective"@, children[i].objective@, MAX_OBJECTIVE_BYTES as nat, true),
        ) is Err,
    ensures
        children_check(children) == and_then(
            bounded_text_check("title"@, children[i].title@, MAX_TITLE_BYTES as nat, true),
            bounded_text_check("objective"@, children[i].objective@, MAX_OBJECTIVE_BYTES as nat, true),
        ),
    decreases children.len(),
{
    if i == children.len() - 1 {
        assert(children.drop_last() == children.take(i));
    } else {
        assert(children.drop_last().take(i) == children.take(i));
        lemma_children_check_prefix_fails(children.drop_last(), i);
    }
}

impl ProjectTaskResult {
    /// Checks the result against [`result_check`].
    pub fn validate(&self) -> (r: Result<(), ProjectAgentValidationError>)
        ensures
            checked_of(r) == result_check(*self),
    {
        validate_bounded_text("result", self.summary.as_str(), MAX_RESULT_BYTES, true)?;
        validate_list("artifacts", &self.artifacts, MAX_RESULT_ITEMS)?;
        validate_list("evidence", &self.evidence, MAX_RESULT_ITEMS)?;
        if self.suggested_children.len() > MAX_SUGGESTIONS {
            return Err(invalid_field("suggested_children", "exceeds the suggestion limit"));
        }
        validate_children(&self.suggested_children)?;
        match &self.error {
            Some(error) => {
                if self.status == ProjectTaskResultStatus::Failed {
                    validate_bounded_text("error", error.as_str(), MAX_ITEM_BYTES, true)?;
                } else {
                    return Err(invalid_field("error", "is only valid for a failed result"));
                }
            },
            None => {
                if self.status == ProjectTaskResultStatus::Failed {
                    return Err(invalid_field("error", "is required for a failed result"));
                }
            },
        }
        validate_timestamp(self.completed_at)
    }
}

impl ProjectTaskEvaluation {
    /// Checks the evaluation against [`evaluation_check`].
    pub fn validate(&self) -> (r: Result<(), ProjectAgentValidationError>)
        ensures
            checked_of(r) == evaluation_check(*self),
    {
        validate_bounded_text("evaluation", self.summary.as_str(), MAX_EVALUATION_BYTES, true)?;
        validate_list("evaluation evidence", &self.evidence, MAX_RESULT_ITEMS)?;
        validate_timestamp(self.evaluated_at)
    }
}

/// The status agrees with the result: no result while open, otherwise the
/// status the result settles into, with a valid result.
pub open spec fn status_result_check(status: ProjectTaskStatus, result: Option<ProjectTaskResult>) -> Checked {
    match result {
        None => if is_open_status(status) {
            Ok(())
        } else {
            Err(field_failure("status"@, "does not match the task result"@))
        },
        Some(r) => if status == settled_status(r.status) {
            result_check(r)
        } else {
            Err(field_failure("status"@, "does not match the task result"@))
        },
    }
}

/// An execution binding names a valid execution task and a project AGENT.
pub open spec fn execution_check(execution_task_id: Option<String>, executor: ProjectTaskExecutor) -> Checked {
    match execution_task_id {
        None => Ok(()),
        Some(x) => and_then(
            task_id_check(x@),
            if executor is ProjectAgent {
                Ok(())
            } else {
                Err(field_failure("execution_task_id"@, "requires a project AGENT executor"@))
            },
        ),
    }
}

/// The result was completed within the task's lifetime.
pub open spec fn completion_check(t: ProjectTaskNode) -> Checked {
    match t.result {
        Some(r) => if r.completed_at < t.created_at || r.completed_at > t.updated_at {
            Err(field_failure("completed_at"@, "falls outside the task lifetime"@))
        } else {
            Ok(())
        },
        None => Ok(()),
    }
}

/// An evaluation needs a result, must be valid and falls within the task's
/// lifetime.
pub open spec fn evaluation_entry_check(t: ProjectTaskNode) -> Checked {
    match t.evaluation {
        Some(e) => if t.result is None {
            Err(field_failure("evaluation"@, "requires a result"@))
        } else {
            and_then(
                evaluation_check(e),
                if e.evaluated_at < t.created_at || e.evaluated_at > t.updated_at {
                    Err(field_failure("evaluated_at"@, "falls outside the task lifetime"@))
                } else {
                    Ok(())
                },
            )
        },
        None => Ok(()),
    }
}

/// The rules one task node obeys on its own, checked in order.
pub open spec fn node_check(t: ProjectTaskNode) -> Checked {
    and_then(
        task_id_check(t.task_id@),
        and_then(
            bounded_text_check("title"@, t.title@, MAX_TITLE_BYTES as nat, true),
            and_then(
                bounded_text_check("objective"@, t.objective@, MAX_OBJECTIVE_BYTES as nat, true),
                and_then(
                    list_check("requirements"@, t.requirements@, MAX_REQUIREMENTS as nat),
                    and_then(
                        update_check(t.created_at, t.updated_at, t.updated_at),
                        and_then(
                            execution_check(t.execution_task_id, t.executor),
                            and_then(
                                status_result_check(t.status, t.result),
                                and_then(completion_check(t), evaluation_entry_check(t)),
                            ),
                        ),
                    ),
                ),
            ),
        ),
    )
}

impl ProjectTaskNode {
    /// Checks the node against [`node_check`].
    pub fn validate(&self) -> (r: Result<(), ProjectAgentValidationError>)
        ensures
            checked_of(r) == node_check(*self),
    {
        validate_task_id(self.task_id.as_str())?;
        validate_bounded_text("title", self.title.as_str(), MAX_TITLE_BYTES, true)?;
        validate_bounded_text("objective", self.objective.as_str(), MAX_OBJECTIVE_BYTES, true)?;
        validate_list("requirements", &self.requirements, MAX_REQUIREMENTS)?;
        validate_update(self, self.updated_at)?;
        match &self.execution_task_id {
            Some(execution_task_id) => {
                validate_task_id(execution_task_id.as_str())?;
                if !matches!(&self.executor, ProjectTaskExecutor::ProjectAgent { .. }) {
                    return Err(
                        invalid_field("execution_task_id", "requires a project AGENT executor"),
                    );
                }
            },
            None => {},
        }
        match &self.result {
            None => {
                if !(self.status == ProjectTaskStatus::Pending || self.status
                    == ProjectTaskStatus::InProgress) {
                    return Err(invalid_field("status", "does not match the task result"));
                }
            },
            Some(result) => {
                if self.status != ProjectTaskStatus::from_result_status(result.status) {
                    return Err(invalid_field("status", "does not match the task result"));
                }
                result.validate()?;
            },
        }
        match &self.result {
            Some(result) => {
                if result.completed_at < self.created_at || result.completed_at > self.updated_at {
                    return Err(invalid_field("completed_at", "falls outside the task lifetime"));
                }
            },
            None => {},
        }
        match &self.evaluation {
            Some(evaluation) => {
                if self.result.is_none() {
                    return Err(invalid_field("evaluation", "requires a result"));
                }
                evaluation.validate()?;
                if evaluation.evaluated_at < self.created_at || evaluation.evaluated_at
                    > self.updated_at {
                    return Err(invalid_field("evaluated_at", "falls outside the task lifetime"));
                }
            },
            None => {},
        }
        Ok(())
    }
}

// ---------------------------------------------------------------------------
// Lookup and depth
// ---------------------------------------------------------------------------

/// The first index at or after `from` of a task with identifier `id`.
pub open spec fn lookup_from(tasks: Seq<ProjectTaskNode>, id: Seq<char>, from: int) -> Option<int>
    decreases tasks.len() - from,
{
    if from < 0 || from >= tasks.len() {
        None
    } else if tasks[from].task_id@ == id {
        Some(from)
    } else {
        lookup_from(tasks, id, from + 1)
    }
}

/// The index of the first task with identifier `id`.
pub open spec fn lookup(tasks: Seq<ProjectTaskNode>, id: Seq<char>) -> Option<int> {
    lookup_from(tasks, id, 0)
}

/// Some task has identifier `id`.
pub open spec fn has_id(tasks: Seq<ProjectTaskNode>, id: Seq<char>) -> bool {
    exists|i: int| 0 <= i < tasks.len() && #[trigger] tasks[i].task_id@ == id
}

/// No two tasks share an identifier.
pub open spec fn unique_ids(tasks: Seq<ProjectTaskNode>) -> bool {
    forall|i: int, j: int|
        0 <= i < j < tasks.len() ==> #[trigger] tasks[i].task_id@ != #[trigger] tasks[j].task_id@
}

/// Where a walk up the parent chain ends.
pub enum DepthOutcome {
    /// The chain reaches a root; the number of tasks on it.
    Depth(nat),
    /// The chain names a task that does not exist.
    Missing(Seq<char>),
    /// The chain is longer than [`MAX_DEPTH`] (or cycles).
    TooDeep,
}

/// Walks up from the task at `i`, which sits at depth `d`.
pub open spec fn depth_from(tasks: Seq<ProjectTaskNode>, i: int, d: nat) -> DepthOutcome
    decreases MAX_DEPTH - d,
{
    if !(0 <= i < tasks.len()) {
        DepthOutcome::TooDeep
    } else {
        match tasks[i].parent_task_id {
            None => DepthOutcome::Depth(d),
            Some(p) => if d >= MAX_DEPTH {
                DepthOutcome::TooDeep
            } else {
                match lookup(tasks, p@) {
                    None => DepthOutcome::Missing(p@),
                    Some(j) => depth_from(tasks, j, d + 1),
                }
            },
        }
    }
}

/// The depth of the task `id`: 1 for a root, one more per ancestor.
pub open spec fn depth_of(tasks: Seq<ProjectTaskNode>, id: Seq<char>) -> DepthOutcome {
    match lookup(tasks, id) {
        None => DepthOutcome::Missing(id),
        Some(i) => depth_from(tasks, i, 1),
    }
}

// ---------------------------------------------------------------------------
// Errors
// ---------------------------------------------------------------------------

#[derive(Clone, Debug, Eq, PartialEq)]
pub enum ProjectTaskWorkspaceError {
    Invalid(ProjectAgentValidationError),
    TaskAlreadyExists(ProjectTaskId),
    TaskNotFound(ProjectTaskId),
    Limit(&'static str),
    InvalidState { task_id: ProjectTaskId, status: ProjectTaskStatus, operation: &'static str },
}

/// The mathematical content of a workspace failure.
pub enum WorkspaceFailure {
    Invalid(ValidationFailure),
    TaskAlreadyExists(Seq<char>),
    TaskNotFound(Seq<char>),
    Limit(Seq<char>),
    InvalidState { task_id: Seq<char>, status: ProjectTaskStatus, operation: Seq<char> },
}

impl View for ProjectTaskWorkspaceError {
    type V = WorkspaceFailure;

    open spec fn view(&self) -> WorkspaceFailure {
        match self {
            ProjectTaskWorkspaceError::Invalid(e) => WorkspaceFailure::Invalid(e@),
            ProjectTaskWorkspaceError::TaskAlreadyExists(id) => WorkspaceFailure::TaskAlreadyExists(
                id@,
            ),
            ProjectTaskWorkspaceError::TaskNotFound(id) => WorkspaceFailure::TaskNotFound(id@),
            ProjectTaskWorkspaceError::Limit(what) => WorkspaceFailure::Limit(what@),
            ProjectTaskWorkspaceError::InvalidState { task_id, status, operation } => {
                WorkspaceFailure::InvalidState {
                    task_id: task_id@,
                    status: *status,
                    operation: operation@,
                }
            },
        }
    }
}

/// The outcome of a workspace operation, as mathematical content.
pub type Outcome = Result<(), WorkspaceFailure>;

pub open spec fn outcome_of(r: Result<(), ProjectTaskWorkspaceError>) -> Outcome {
    match r {
        Ok(()) => Ok(()),
        Err(e) => Err(e@),
    }
}

/// A validation failure as a workspace failure.
pub open spec fn lift(c: Checked) -> Outcome {
    match c {
        Ok(()) => Ok(()),
        Err(e) => Err(WorkspaceFailure::Invalid(e)),
    }
}

/// Runs `second` only when `first` succeeded.
pub open spec fn then(first: Outcome, second: Outcome) -> Outcome {
    match first {
        Ok(()) => second,
        Err(e) => Err(e),
    }
}

/// The failure a depth walk reports, if any.
pub open spec fn depth_failure(d: DepthOutcome) -> Outcome {
    match d {
        DepthOutcome::Depth(_) => Ok(()),
        DepthOutcome::Missing(id) => Err(WorkspaceFailure::TaskNotFound(id)),
        DepthOutcome::TooDeep => Err(WorkspaceFailure::Limit("task depth"@)),
    }
}

/// The message that a workspace failure displays.
pub open spec fn failure_message(f: WorkspaceFailure) -> Seq<char> {
    match f {
        WorkspaceFailure::TaskNotFound(id) => "semantic task `"@ + id + "` was not found"@,
        WorkspaceFailure::Limit(what) => "semantic task workspace exceeded its "@ + what
            + " limit"@,
        _ => Seq::empty(),
    }
}

fn lift_result(r: Result<(), ProjectAgentValidationError>) -> (o: Result<
    (),
    ProjectTaskWorkspaceError,
>)
    ensures
        outcome_of(o) == lift(checked_of(r)),
{
    match r {
        Ok(()) => Ok(()),
        Err(e) => Err(ProjectTaskWorkspaceError::Invalid(e)),
    }
}

// ---------------------------------------------------------------------------
// Workspace validity
// ---------------------------------------------------------------------------

/// The parent of `t`, if any, exists and sits on a chain of bounded depth.
pub open spec fn parent_check(tasks: Seq<ProjectTaskNode>, t: ProjectTaskNode) -> Checked {
    match t.parent_task_id {
        None => Ok(()),
        Some(p) => if !has_id(tasks, p@) {
            Err(field_failure("parent_task_id"@, "names a missing task"@))
        } else {
            match depth_failure(depth_of(tasks, p@)) {
                Ok(()) => Ok(()),
                Err(f) => Err(field_failure("parent_task_id"@, failure_message(f))),
            }
        },
    }
}

/// The rules one task obeys within its workspace, checked in order.
pub open spec fn entry_check(ws: ProjectTaskWorkspace, t: ProjectTaskNode) -> Checked {
    and_then(
        node_check(t),
        if t.updated_at > ws.updated_at {
            Err(field_failure("updated_at"@, "precedes a task update"@))
        } else {
            parent_check(ws.tasks@, t)
        },
    )
}

/// The first `k` tasks pass [`entry_check`], checked in order.
pub open spec fn tasks_check(ws: ProjectTaskWorkspace, k: int) -> Checked
    decreases k,
{
    if k <= 0 {
        Ok(())
    } else {
        and_then(tasks_check(ws, k - 1), entry_check(ws, ws.tasks@[k - 1]))
    }
}

/// The rules a whole workspace obeys, checked in order.
pub open spec fn workspace_check(ws: ProjectTaskWorkspace) -> Checked {
    and_then(
        schema_check("task workspace"@, ws.schema_version),
        and_then(
            timestamp_check(ws.updated_at),
            if ws.tasks@.len() > MAX_TASKS {
                Err(field_failure("tasks"@, "exceeds the workspace limit"@))
            } else if !unique_ids(ws.tasks@) {
                Err(field_failure("task_id"@, "contains duplicates"@))
            } else {
                tasks_check(ws, ws.tasks@.len() as int)
            },
        ),
    )
}

impl Default for ProjectTaskWorkspace {
    fn default() -> (r: Self)
        ensures
            r.schema_version == PROJECT_AGENT_SCHEMA_VERSION,
            r.tasks@.len() == 0,
            r.updated_at == 0,
            r.valid(),
    {
        ProjectTaskWorkspace::new()
    }
}

impl ProjectTaskWorkspace {
    /// A workspace that passes [`workspace_check`]: one semantic task tree.
    pub open spec fn valid(self) -> bool {
        workspace_check(self) is Ok
    }

    /// An empty workspace at the current schema version.
    pub fn new() -> (r: Self)
        ensures
            r.schema_version == PROJECT_AGENT_SCHEMA_VERSION,
            r.tasks@.len() == 0,
            r.updated_at == 0,
            r.valid(),
    {
        ProjectTaskWorkspace { schema_version: PROJECT_AGENT_SCHEMA_VERSION, tasks: Vec::new(), updated_at: 0 }
    }

    /// The index of the first task named `task_id`.
    fn index_of(&self, task_id: &ProjectTaskId) -> (r: Option<usize>)
        ensures
            match r {
                Some(i) => lookup(self.tasks@, task_id@) == Some(i as int),
                None => lookup(self.tasks@, task_id@) is None,
            },
            r matches Some(i) ==> i < self.tasks@.len() && self.tasks@[i as int].task_id@ == task_id@,
    {
        let mut i: usize = 0;
        while i < self.tasks.len()
            invariant
                i <= self.tasks@.len(),
                lookup(self.tasks@, task_id@) == lookup_from(self.tasks@, task_id@, i as int),
            decreases self.tasks.len() - i,
        {
            if self.tasks[i].task_id.same(task_id) {
                return Some(i);
            }
            i = i + 1;
        }
        None
    }

    /// The first task named `task_id`, if any.
    pub fn task(&self, task_id: &ProjectTaskId) -> (r: Option<&ProjectTaskNode>)
        ensures
            match lookup(self.tasks@, task_id@) {
                Some(i) => r matches Some(t) && *t == self.tasks@[i],
                None => r is None,
            },
    {
        match self.index_of(task_id) {
            Some(i) => Some(&self.tasks[i]),
            None => None,
        }
    }

    /// The depth of the task `task_id` (see [`depth_of`]).
    fn depth(&self, task_id: &ProjectTaskId) -> (r: Result<usize, ProjectTaskWorkspaceError>)
        ensures
            match depth_of(self.tasks@, task_id@) {
                DepthOutcome::Depth(d) => d <= MAX_DEPTH && r == Ok::<usize, ProjectTaskWorkspaceError>(d as usize),
                DepthOutcome::Missing(id) => r matches Err(e) && e@ == WorkspaceFailure::TaskNotFound(id),
                DepthOutcome::TooDeep => r matches Err(e) && e@ == WorkspaceFailure::Limit("task depth"@),
            },
            r matches Ok(d) ==> 1 <= d <= MAX_DEPTH,
    {
        let mut idx = match self.index_of(task_id) {
            Some(i) => i,
            None => return Err(ProjectTaskWorkspaceError::TaskNotFound(task_id.clone())),
        };
        let mut depth: usize = 1;
        loop
            invariant
                1 <= depth <= MAX_DEPTH,
                idx < self.tasks@.len(),
                depth_of(self.tasks@, task_id@) == depth_from(self.tasks@, idx as int, depth as nat),
            decreases MAX_DEPTH - depth,
        {
            match &self.tasks[idx].parent_task_id {
                None => return Ok(depth),
                Some(parent_id) => {
                    if depth == MAX_DEPTH {
                        return Err(ProjectTaskWorkspaceError::Limit("task depth"));
                    }
                    match self.index_of(parent_id) {
                        None => return Err(ProjectTaskWorkspaceError::TaskNotFound(parent_id.clone())),
                        Some(j) => {
                            proof {
                                lemma_lookup_in_bounds(self.tasks@, parent_id@, 0);
                            }
                            idx = j;
                            depth = depth + 1;
                        },
                    }
                },
            }
        }
    }
}

impl ProjectTaskWorkspace {
    /// Checks the whole workspace against [`workspace_check`].
    pub fn validate(&self) -> (r: Result<(), ProjectAgentValidationError>)
        ensures
            checked_of(r) == workspace_check(*self),
    {
        validate_schema("task workspace", self.schema_version)?;
        validate_timestamp(self.updated_at)?;
        if self.tasks.len() > MAX_TASKS {
            return Err(invalid_field("tasks", "exceeds the workspace limit"));
        }
        if !self.ids_unique() {
            return Err(invalid_field("task_id", "contains duplicates"));
        }
        let mut i: usize = 0;
        while i < self.tasks.len()
            invariant
                i <= self.tasks@.len(),
                schema_check("task workspace"@, self.schema_version) is Ok,
                timestamp_check(self.updated_at) is Ok,
                self.tasks@.len() <= MAX_TASKS,
                unique_ids(self.tasks@),
                tasks_check(*self, i as int) == Ok::<(), ValidationFailure>(()),
            decreases self.tasks.len() - i,
        {
            let r = self.validate_entry(&self.tasks[i]);
            if r.is_err() {
                proof {
                    lemma_tasks_check_prefix_fails(*self, i as int, self.tasks@.len() as int);
                }
                return r;
            }
            i = i + 1;
        }
        Ok(())
    }

    fn ids_unique(&self) -> (r: bool)
        ensures
            r == unique_ids(self.tasks@),
    {
        let n = self.tasks.len();
        let mut i: usize = 0;
        while i < n
            invariant
                n == self.tasks@.len(),
                i <= n,
                forall|a: int, b: int|
                    0 <= a < i && a < b < n ==> #[trigger] self.tasks@[a].task_id@
                        != #[trigger] self.tasks@[b].task_id@,
            decreases n - i,
        {
            let mut j: usize = i + 1;
            while j < n
                invariant
                    n == self.tasks@.len(),
                    i < n,
                    i + 1 <= j <= n,
                    forall|a: int, b: int|
                        0 <= a < i && a < b < n ==> #[trigger] self.tasks@[a].task_id@
                            != #[trigger] self.tasks@[b].task_id@,
                    forall|b: int| i < b < j ==> self.tasks@[i as int].task_id@ != #[trigger] self.tasks@[b].task_id@,
                decreases n - j,
            {
                if self.tasks[i].task_id.same(&self.tasks[j].task_id) {
                    return false;
                }
                j = j + 1;
            }
            i = i + 1;
        }
        true
    }

    fn validate_entry(&self, t: &ProjectTaskNode) -> (r: Result<(), ProjectAgentValidationError>)
        ensures
            checked_of(r) == entry_check(*self, *t),
    {
        t.validate()?;
        if t.updated_at > self.updated_at {
            return Err(invalid_field("updated_at", "precedes a task update"));
        }
        match &t.parent_task_id {
            None => Ok(()),
            Some(parent_id) => {
                let found = self.index_of(parent_id);
                proof {
                    lemma_has_id_lookup(self.tasks@, parent_id@);
                }
                if found.is_none() {
                    return Err(invalid_field("parent_task_id", "names a missing task"));
                }
                match self.depth(parent_id) {
                    Ok(_) => Ok(()),
                    Err(e) => {
                        let reason = failure_text(&e);
                        Err(ProjectAgentValidationError::InvalidField { field: "parent_task_id", reason })
                    },
                }
            },
        }
    }
}

/// The message of a lookup or depth failure.
fn failure_text(e: &ProjectTaskWorkspaceError) -> (r: String)
    requires
        e is TaskNotFound || e is Limit,
    ensures
        r@ == failure_message(e@),
{
    match e {
        ProjectTaskWorkspaceError::TaskNotFound(id) => {
            let mut s = owned("semantic task `");
            push_str(&mut s, id.as_str());
            push_str(&mut s, "` was not found");
            s
        },
        ProjectTaskWorkspaceError::Limit(what) => {
            let mut s = owned("semantic task workspace exceeded its ");
            push_str(&mut s, what);
            push_str(&mut s, " limit");
            s
        },
        _ => String::new(),
    }
}

/// Some task has an identifier exactly when a lookup finds one.
pub proof fn lemma_has_id_lookup(tasks: Seq<ProjectTaskNode>, id: Seq<char>)
    ensures
        has_id(tasks, id) <==> lookup(tasks, id) is Some,
{
    lemma_lookup_in_bounds(tasks, id, 0);
}

/// When the first `i` tasks pass and task `i` fails, every longer prefix
/// fails with task `i`'s failure.
pub proof fn lemma_tasks_check_prefix_fails(ws: ProjectTaskWorkspace, i: int, k: int)
    requires
        0 <= i < k,
        tasks_check(ws, i) == Ok::<(), ValidationFailure>(()),
        entry_check(ws, ws.tasks@[i]) is Err,
    ensures
        tasks_check(ws, k) == entry_check(ws, ws.tasks@[i]),
    decreases k,
{
    if k > i + 1 {
        lemma_tasks_check_prefix_fails(ws, i, k - 1);
    }
}

/// The first `k` tasks pass exactly when each of them passes.
pub proof fn lemma_tasks_check_all(ws: ProjectTaskWorkspace, k: int)
    requires
        0 <= k <= ws.tasks@.len(),
    ensures
        tasks_check(ws, k) is Ok <==> forall|i: int| 0 <= i < k ==> (#[trigger] entry_check(ws, ws.tasks@[i])) is Ok,
    decreases k,
{
    if k > 0 {
        lemma_tasks_check_all(ws, k - 1);
    }
}

/// A lookup result is a valid index holding the identifier, with no earlier
/// match at or after `from`.
pub proof fn lemma_lookup_in_bounds(tasks: Seq<ProjectTaskNode>, id: Seq<char>, from: int)
    ensures
        lookup_from(tasks, id, from) matches Some(i) ==> from <= i < tasks.len()
            && tasks[i].task_id@ == id && forall|j: int| from <= j < i ==> tasks[j].task_id@ != id,
        lookup_from(tasks, id, from) is None ==> forall|j: int|
            from <= j < tasks.len() && 0 <= from ==> tasks[j].task_id@ != id,
    decreases tasks.len() - from,
{
    if from < 0 || from >= tasks.len() {
    } else if tasks[from].task_id@ == id {
    } else {
        lemma_lookup_in_bounds(tasks, id, from + 1);
    }
}

// ---------------------------------------------------------------------------
// Framing lemmas: what a mutation leaves unchanged
// ---------------------------------------------------------------------------

/// `a` and `b` hold the same identifiers and parents at every index.
pub open spec fn same_shape(a: Seq<ProjectTaskNode>, b: Seq<ProjectTaskNode>) -> bool {
    &&& a.len() == b.len()
    &&& forall|i: int|
        0 <= i < a.len() ==> (#[trigger] a[i]).task_id == b[i].task_id && a[i].parent_task_id
            == b[i].parent_task_id
}

/// Every parent named in `a` exists in `a`.
pub open spec fn parents_exist(a: Seq<ProjectTaskNode>) -> bool {
    forall|i: int|
        0 <= i < a.len() ==> match (#[trigger] a[i]).parent_task_id {
            Some(p) => has_id(a, p@),
            None => true,
        }
}

pub proof fn lemma_lookup_same_shape(
    a: Seq<ProjectTaskNode>,
    b: Seq<ProjectTaskNode>,
    id: Seq<char>,
    from: int,
)
    requires
        same_shape(a, b),
    ensures
        lookup_from(a, id, from) == lookup_from(b, id, from),
    decreases a.len() - from,
{
    if 0 <= from < a.len() {
        assert(a[from].task_id == b[from].task_id);
        lemma_lookup_same_shape(a, b, id, from + 1);
    }
}

pub proof fn lemma_depth_same_shape(a: Seq<ProjectTaskNode>, b: Seq<ProjectTaskNode>, i: int, d: nat)
    requires
        same_shape(a, b),
    ensures
        depth_from(a, i, d) == depth_from(b, i, d),
    decreases MAX_DEPTH - d,
{
    if 0 <= i < a.len() {
        assert(a[i].parent_task_id == b[i].parent_task_id);
        match a[i].parent_task_id {
            Some(p) => {
                lemma_lookup_same_shape(a, b, p@, 0);
                if d < MAX_DEPTH {
                    match lookup(a, p@) {
                        Some(j) => lemma_depth_same_shape(a, b, j, d + 1),
                        None => {},
                    }
                }
            },
            None => {},
        }
    }
}

/// Tasks of the same shape see the same parents and depths.
pub proof fn lemma_parent_check_same_shape(
    a: Seq<ProjectTaskNode>,
    b: Seq<ProjectTaskNode>,
    t: ProjectTaskNode,
)
    requires
        same_shape(a, b),
    ensures
        parent_check(a, t) == parent_check(b, t),
{
    match t.parent_task_id {
        Some(p) => {
            lemma_lookup_same_shape(a, b, p@, 0);
            lemma_has_id_lookup(a, p@);
            lemma_has_id_lookup(b, p@);
            match lookup(a, p@) {
                Some(j) => lemma_depth_same_shape(a, b, j, 1),
                None => {},
            }
        },
        None => {},
    }
}

pub proof fn lemma_lookup_push(a: Seq<ProjectTaskNode>, x: ProjectTaskNode, id: Seq<char>, from: int)
    requires
        0 <= from,
    ensures
        lookup_from(a.push(x), id, from) == match lookup_from(a, id, from) {
            Some(i) => Some(i),
            None => if from <= a.len() && x.task_id@ == id {
                Some(a.len() as int)
            } else {
                None
            },
        },
    decreases a.len() + 1 - from,
{
    if from < a.len() {
        assert(a.push(x)[from] == a[from]);
        lemma_lookup_push(a, x, id, from + 1);
    } else if from == a.len() {
        assert(a.push(x)[from] == x);
        assert(lookup_from(a.push(x), id, from + 1) is None);
    }
}

pub proof fn lemma_depth_push(a: Seq<ProjectTaskNode>, x: ProjectTaskNode, i: int, d: nat)
    requires
        parents_exist(a),
        0 <= i < a.len(),
    ensures
        depth_from(a.push(x), i, d) == depth_from(a, i, d),
    decreases MAX_DEPTH - d,
{
    assert(a.push(x)[i] == a[i]);
    match a[i].parent_task_id {
        Some(p) => {
            assert(has_id(a, p@));
            lemma_has_id_lookup(a, p@);
            lemma_lookup_push(a, x, p@, 0);
            lemma_lookup_in_bounds(a, p@, 0);
            if d < MAX_DEPTH {
                let j = lookup(a, p@)->0;
                lemma_depth_push(a, x, j, d + 1);
            }
        },
        None => {},
    }
}

/// A valid workspace: every parent exists, every entry passes, and the
/// counts and identifiers are within their rules.
pub proof fn lemma_valid_facts(ws: ProjectTaskWorkspace)
    requires
        ws.valid(),
    ensures
        ws.updated_at >= 0,
        ws.schema_version == PROJECT_AGENT_SCHEMA_VERSION,
        ws.tasks@.len() <= MAX_TASKS,
        unique_ids(ws.tasks@),
        forall|i: int| 0 <= i < ws.tasks@.len() ==> (#[trigger] entry_check(ws, ws.tasks@[i])) is Ok,
        parents_exist(ws.tasks@),
{
    lemma_tasks_check_all(ws, ws.tasks@.len() as int);
    assert forall|i: int| 0 <= i < ws.tasks@.len() implies match (#[trigger] ws.tasks@[i]).parent_task_id {
        Some(p) => has_id(ws.tasks@, p@),
        None => true,
    } by {
        assert(entry_check(ws, ws.tasks@[i]) is Ok);
    }
}

/// The workspace passes when its header is in order and each entry passes.
pub proof fn lemma_valid_from_entries(ws: ProjectTaskWorkspace)
    requires
        ws.updated_at >= 0,
        ws.schema_version == PROJECT_AGENT_SCHEMA_VERSION,
        ws.tasks@.len() <= MAX_TASKS,
        unique_ids(ws.tasks@),
        forall|i: int| 0 <= i < ws.tasks@.len() ==> (#[trigger] entry_check(ws, ws.tasks@[i])) is Ok,
    ensures
        ws.valid(),
{
    lemma_tasks_check_all(ws, ws.tasks@.len() as int);
}

/// An open task carries neither a result nor an evaluation.
pub proof fn lemma_open_task_is_bare(t: ProjectTaskNode)
    requires
        node_check(t) is Ok,
        is_open_status(t.status),
    ensures
        t.result is None,
        t.evaluation is None,
{
}

/// Replacing the task at `i` by one with the same identifier and parent,
/// which passes on its own and is no newer than the workspace, keeps the
/// workspace valid.
pub proof fn lemma_replace_keeps_valid(old: ProjectTaskWorkspace, new: ProjectTaskWorkspace, i: int)
    requires
        old.valid(),
        0 <= i < old.tasks@.len(),
        new.schema_version == old.schema_version,
        new.updated_at >= old.updated_at,
        new.tasks@.len() == old.tasks@.len(),
        forall|j: int| 0 <= j < old.tasks@.len() && j != i ==> new.tasks@[j] == old.tasks@[j],
        new.tasks@[i].task_id == old.tasks@[i].task_id,
        new.tasks@[i].parent_task_id == old.tasks@[i].parent_task_id,
        node_check(new.tasks@[i]) is Ok,
        new.tasks@[i].updated_at <= new.updated_at,
    ensures
        new.valid(),
{
    lemma_valid_facts(old);
    assert(same_shape(old.tasks@, new.tasks@));
    assert forall|a: int, b: int|
        0 <= a < b < new.tasks@.len() implies #[trigger] new.tasks@[a].task_id@
        != #[trigger] new.tasks@[b].task_id@ by {
        assert(old.tasks@[a].task_id@ != old.tasks@[b].task_id@);
    }
    assert forall|j: int| 0 <= j < new.tasks@.len() implies (#[trigger] entry_check(
        new,
        new.tasks@[j],
    )) is Ok by {
        lemma_parent_check_same_shape(old.tasks@, new.tasks@, new.tasks@[j]);
        if j != i {
            assert(entry_check(old, old.tasks@[j]) is Ok);
        } else {
            assert(entry_check(old, old.tasks@[i]) is Ok);
        }
    }
    lemma_valid_from_entries(new);
}

// ---------------------------------------------------------------------------
// Mutations
// ---------------------------------------------------------------------------

/// The identifier of an optional task identifier.
pub open spec fn id_view(o: Option<ProjectTaskId>) -> Option<Seq<char>> {
    match o {
        Some(id) => Some(id@),
        None => None,
    }
}

/// A new task assigned to the main agent starts in progress; any other
/// starts pending.
pub open spec fn initial_status(executor: ProjectTaskExecutor) -> ProjectTaskStatus {
    match executor {
        ProjectTaskExecutor::MainAgent => ProjectTaskStatus::InProgress,
        _ => ProjectTaskStatus::Pending,
    }
}

/// What `create_task` reports, checked in order.
pub open spec fn create_check(
    ws: ProjectTaskWorkspace,
    task_id: Seq<char>,
    parent: Option<Seq<char>>,
    title: Seq<char>,
    objective: Seq<char>,
    created_at: i64,
) -> Outcome {
    if ws.tasks@.len() == MAX_TASKS {
        Err(WorkspaceFailure::Limit("tasks"@))
    } else if has_id(ws.tasks@, task_id) {
        Err(WorkspaceFailure::TaskAlreadyExists(task_id))
    } else {
        then(
            match parent {
                None => Ok(()),
                Some(p) => match depth_of(ws.tasks@, p) {
                    DepthOutcome::Depth(d) => if d == MAX_DEPTH {
                        Err(WorkspaceFailure::Limit("task depth"@))
                    } else {
                        Ok(())
                    },
                    other => depth_failure(other),
                },
            },
            then(
                lift(bounded_text_check("title"@, title, MAX_TITLE_BYTES as nat, true)),
                then(
                    lift(bounded_text_check("objective"@, objective, MAX_OBJECTIVE_BYTES as nat, true)),
                    lift(timestamp_check(created_at)),
                ),
            ),
        )
    }
}

/// The later of two instants.
pub open spec fn later(a: i64, b: i64) -> i64 {
    if a >= b {
        a
    } else {
        b
    }
}

/// What `append_requirement` reports, checked in order.
pub open spec fn append_check(
    ws: ProjectTaskWorkspace,
    task_id: Seq<char>,
    requirement: Seq<char>,
    updated_at: i64,
) -> Outcome {
    match lookup(ws.tasks@, task_id) {
        None => Err(WorkspaceFailure::TaskNotFound(task_id)),
        Some(i) => {
            let t = ws.tasks@[i];
            if !is_open_status(t.status) {
                Err(
                    WorkspaceFailure::InvalidState {
                        task_id: t.task_id@,
                        status: t.status,
                        operation: "append a requirement"@,
                    },
                )
            } else if t.requirements@.len() == MAX_REQUIREMENTS {
                Err(WorkspaceFailure::Limit("requirements"@))
            } else {
                then(
                    lift(update_check(t.created_at, t.updated_at, updated_at)),
                    lift(bounded_text_check("requirement"@, requirement, MAX_ITEM_BYTES as nat, true)),
                )
            }
        },
    }
}

/// What `start_execution` reports, checked in order.
pub open spec fn start_check(
    ws: ProjectTaskWorkspace,
    task_id: Seq<char>,
    execution_task_id: Seq<char>,
    updated_at: i64,
) -> Outcome {
    match lookup(ws.tasks@, task_id) {
        None => Err(WorkspaceFailure::TaskNotFound(task_id)),
        Some(i) => {
            let t = ws.tasks@[i];
            if t.status != ProjectTaskStatus::Pending {
                Err(
                    WorkspaceFailure::InvalidState {
                        task_id: t.task_id@,
                        status: t.status,
                        operation: "start execution"@,
                    },
                )
            } else {
                then(
                    lift(update_check(t.created_at, t.updated_at, updated_at)),
                    lift(task_id_check(execution_task_id)),
                )
            }
        },
    }
}

/// What `record_result` reports, checked in order.
pub open spec fn record_check(ws: ProjectTaskWorkspace, task_id: Seq<char>, result: ProjectTaskResult) -> Outcome {
    match lookup(ws.tasks@, task_id) {
        None => Err(WorkspaceFailure::TaskNotFound(task_id)),
        Some(i) => {
            let t = ws.tasks@[i];
            if !is_open_status(t.status) {
                Err(
                    WorkspaceFailure::InvalidState {
                        task_id: t.task_id@,
                        status: t.status,
                        operation: "record a result"@,
                    },
                )
            } else {
                then(
                    lift(update_check(t.created_at, t.updated_at, result.completed_at)),
                    lift(result_check(result)),
                )
            }
        },
    }
}

/// What `set_evaluation` reports, checked in order.
pub open spec fn evaluate_check(
    ws: ProjectTaskWorkspace,
    task_id: Seq<char>,
    evaluation: ProjectTaskEvaluation,
) -> Outcome {
    match lookup(ws.tasks@, task_id) {
        None => Err(WorkspaceFailure::TaskNotFound(task_id)),
        Some(i) => {
            let t = ws.tasks@[i];
            if t.result is None {
                Err(
                    WorkspaceFailure::InvalidState {
                        task_id: t.task_id@,
                        status: t.status,
                        operation: "evaluate without a result"@,
                    },
                )
            } else {
                then(
                    lift(update_check(t.created_at, t.updated_at, evaluation.evaluated_at)),
                    lift(evaluation_check(evaluation)),
                )
            }
        },
    }
}

/// `b` is `a` except for the fields that an update may change.
pub open spec fn same_identity(a: ProjectTaskNode, b: ProjectTaskNode) -> bool {
    &&& b.task_id == a.task_id
    &&& b.parent_task_id == a.parent_task_id
    &&& b.title == a.title
    &&& b.objective == a.objective
    &&& b.created_at == a.created_at
}

/// `new` is `old` with only the task at `i` replaced, and the workspace
/// clock advanced to `at`.
pub open spec fn only_task_changed(old: ProjectTaskWorkspace, new: ProjectTaskWorkspace, i: int, at: i64) -> bool {
    &&& new.schema_version == old.schema_version
    &&& new.updated_at == later(old.updated_at, at)
    &&& new.tasks@.len() == old.tasks@.len()
    &&& forall|j: int| 0 <= j < old.tasks@.len() && j != i ==> new.tasks@[j] == old.tasks@[j]
    &&& same_identity(old.tasks@[i], new.tasks@[i])
}

impl ProjectTaskWorkspace {
    /// Adds a new task, under `parent_task_id` when given.
    pub fn create_task(
        &mut self,
        task_id: ProjectTaskId,
        parent_task_id: Option<ProjectTaskId>,
        title: String,
        objective: String,
        executor: ProjectTaskExecutor,
        created_at: i64,
    ) -> (r: Result<(), ProjectTaskWorkspaceError>)
        ensures
            outcome_of(r) == create_check(
                *old(self),
                task_id@,
                id_view(parent_task_id),
                title@,
                objective@,
                created_at,
            ),
            r is Err ==> *final(self) == *old(self),
            r is Ok ==> {
                let t = final(self).tasks@.last();
                &&& final(self).tasks@ == old(self).tasks@.push(t)
                &&& final(self).schema_version == old(self).schema_version
                &&& final(self).updated_at == later(old(self).updated_at, created_at)
                &&& t.task_id == task_id
                &&& t.parent_task_id == parent_task_id
                &&& t.title == title
                &&& t.objective == objective
                &&& t.requirements@.len() == 0
                &&& t.status == initial_status(executor)
                &&& t.executor == executor
                &&& t.execution_task_id is None
                &&& t.result is None
                &&& t.evaluation is None
                &&& t.created_at == created_at
                &&& t.updated_at == created_at
            },
            old(self).valid() && r is Ok ==> final(self).valid(),
    {
        if self.tasks.len() == MAX_TASKS {
            return Err(ProjectTaskWorkspaceError::Limit("tasks"));
        }
        let existing = self.index_of(&task_id);
        proof {
            lemma_has_id_lookup(self.tasks@, task_id@);
        }
        if existing.is_some() {
            return Err(ProjectTaskWorkspaceError::TaskAlreadyExists(task_id));
        }
        match &parent_task_id {
            Some(parent_id) => {
                let d = self.depth(parent_id)?;
                if d == MAX_DEPTH {
                    return Err(ProjectTaskWorkspaceError::Limit("task depth"));
                }
            },
            None => {},
        }
        lift_result(validate_bounded_text("title", title.as_str(), MAX_TITLE_BYTES, true))?;
        lift_result(
            validate_bounded_text("objective", objective.as_str(), MAX_OBJECTIVE_BYTES, true),
        )?;
        lift_result(validate_timestamp(created_at))?;
        let status = match &executor {
            ProjectTaskExecutor::MainAgent => ProjectTaskStatus::InProgress,
            _ => ProjectTaskStatus::Pending,
        };
        task_id.check_valid();
        let ghost old_ws = *self;
        let node = ProjectTaskNode {
            task_id,
            parent_task_id,
            title,
            objective,
            requirements: Vec::new(),
            status,
            executor,
            execution_task_id: None,
            result: None,
            evaluation: None,
            created_at,
            updated_at: created_at,
        };
        self.tasks.push(node);
        if created_at > self.updated_at {
            self.updated_at = created_at;
        }
        proof {
            assert(items_check("requirements"@, node.requirements@, MAX_ITEM_BYTES as nat) is Ok);
            assert(node_check(node) is Ok);
            if old_ws.valid() {
                lemma_create_keeps_valid(old_ws, *self, node);
            }
        }
        Ok(())
    }
}

impl ProjectTaskWorkspace {
    /// The index of the task `task_id`, or the not-found failure.
    fn find(&self, task_id: &ProjectTaskId) -> (r: Result<usize, ProjectTaskWorkspaceError>)
        ensures
            r matches Ok(i) ==> i < self.tasks@.len() && lookup(self.tasks@, task_id@) == Some(
                i as int,
            ),
            r matches Err(e) ==> lookup(self.tasks@, task_id@) is None && e@
                == WorkspaceFailure::TaskNotFound(task_id@),
    {
        match self.index_of(task_id) {
            Some(i) => Ok(i),
            None => Err(ProjectTaskWorkspaceError::TaskNotFound(task_id.clone())),
        }
    }

    /// Adds one requirement to an open task.
    pub fn append_requirement(
        &mut self,
        task_id: &ProjectTaskId,
        requirement: String,
        updated_at: i64,
    ) -> (r: Result<(), ProjectTaskWorkspaceError>)
        ensures
            outcome_of(r) == append_check(*old(self), task_id@, requirement@, updated_at),
            r is Err ==> *final(self) == *old(self),
            r is Ok ==> {
                let i = lookup(old(self).tasks@, task_id@)->0;
                let before = old(self).tasks@[i];
                let after = final(self).tasks@[i];
                &&& only_task_changed(*old(self), *final(self), i, updated_at)
                &&& after.requirements@ == before.requirements@.push(requirement)
                &&& after.updated_at == updated_at
                &&& after.status == before.status
                &&& after.executor == before.executor
                &&& after.execution_task_id == before.execution_task_id
                &&& after.result == before.result
                &&& after.evaluation == before.evaluation
            },
            old(self).valid() && r is Ok ==> final(self).valid(),
    {
        let i = match self.find(task_id) {
            Ok(i) => i,
            Err(e) => return Err(e),
        };
        let t = &self.tasks[i];
        if !(t.status == ProjectTaskStatus::Pending || t.status == ProjectTaskStatus::InProgress) {
            return Err(
                ProjectTaskWorkspaceError::InvalidState {
                    task_id: t.task_id.clone(),
                    status: t.status,
                    operation: "append a requirement",
                },
            );
        }
        if t.requirements.len() == MAX_REQUIREMENTS {
            return Err(ProjectTaskWorkspaceError::Limit("requirements"));
        }
        lift_result(validate_update(t, updated_at))?;
        lift_result(validate_bounded_text("requirement", requirement.as_str(), MAX_ITEM_BYTES, true))?;
        let ghost old_ws = *self;
        let task = &mut self.tasks[i];
        task.requirements.push(requirement);
        task.updated_at = updated_at;
        if updated_at > self.updated_at {
            self.updated_at = updated_at;
        }
        proof {
            if old_ws.valid() {
                lemma_valid_facts(old_ws);
                let before = old_ws.tasks@[i as int];
                let after = self.tasks@[i as int];
                assert(entry_check(old_ws, before) is Ok);
                lemma_open_task_is_bare(before);
                assert(after.requirements@.drop_last() == before.requirements@);
                assert(node_check(after) is Ok);
                lemma_replace_keeps_valid(old_ws, *self, i as int);
            }
        }
        Ok(())
    }

    /// Binds a pending task to an execution by the project AGENT `agent_id`.
    pub fn start_execution(
        &mut self,
        task_id: &ProjectTaskId,
        agent_id: ProjectAgentId,
        execution_task_id: String,
        updated_at: i64,
    ) -> (r: Result<(), ProjectTaskWorkspaceError>)
        ensures
            outcome_of(r) == start_check(*old(self), task_id@, execution_task_id@, updated_at),
            r is Err ==> *final(self) == *old(self),
            r is Ok ==> {
                let i = lookup(old(self).tasks@, task_id@)->0;
                let before = old(self).tasks@[i];
                let after = final(self).tasks@[i];
                &&& only_task_changed(*old(self), *final(self), i, updated_at)
                &&& after.executor == (ProjectTaskExecutor::ProjectAgent { agent_id })
                &&& after.execution_task_id == Some(execution_task_id)
                &&& after.status == ProjectTaskStatus::InProgress
                &&& after.updated_at == updated_at
                &&& after.requirements == before.requirements
                &&& after.result == before.result
                &&& after.evaluation == before.evaluation
            },
            old(self).valid() && r is Ok ==> final(self).valid(),
    {
        let i = match self.find(task_id) {
            Ok(i) => i,
            Err(e) => return Err(e),
        };
        let t = &self.tasks[i];
        if t.status != ProjectTaskStatus::Pending {
            return Err(
                ProjectTaskWorkspaceError::InvalidState {
                    task_id: t.task_id.clone(),
                    status: t.status,
                    operation: "start execution",
                },
            );
        }
        lift_result(validate_update(t, updated_at))?;
        lift_result(validate_task_id(execution_task_id.as_str()))?;
        let ghost old_ws = *self;
        let task = &mut self.tasks[i];
        task.executor = ProjectTaskExecutor::ProjectAgent { agent_id };
        task.execution_task_id = Some(execution_task_id);
        task.status = ProjectTaskStatus::InProgress;
        task.updated_at = updated_at;
        if updated_at > self.updated_at {
            self.updated_at = updated_at;
        }
        proof {
            if old_ws.valid() {
                lemma_valid_facts(old_ws);
                let before = old_ws.tasks@[i as int];
                let after = self.tasks@[i as int];
                assert(entry_check(old_ws, before) is Ok);
                lemma_open_task_is_bare(before);
                assert(node_check(after) is Ok);
                lemma_replace_keeps_valid(old_ws, *self, i as int);
            }
        }
        Ok(())
    }

    /// Settles an open task with `result`, discarding any earlier evaluation.
    pub fn record_result(&mut self, task_id: &ProjectTaskId, result: ProjectTaskResult) -> (r:
        Result<(), ProjectTaskWorkspaceError>)
        ensures
            outcome_of(r) == record_check(*old(self), task_id@, result),
            r is Err ==> *final(self) == *old(self),
            r is Ok ==> {
                let i = lookup(old(self).tasks@, task_id@)->0;
                let before = old(self).tasks@[i];
                let after = final(self).tasks@[i];
                &&& only_task_changed(*old(self), *final(self), i, result.completed_at)
                &&& after.status == settled_status(result.status)
                &&& after.result == Some(result)
                &&& after.evaluation is None
                &&& after.updated_at == result.completed_at
                &&& after.requirements == before.requirements
                &&& after.executor == before.executor
                &&& after.execution_task_id == before.execution_task_id
            },
            old(self).valid() && r is Ok ==> final(self).valid(),
    {
        let i = match self.find(task_id) {
            Ok(i) => i,
            Err(e) => return Err(e),
        };
        let t = &self.tasks[i];
        if !(t.status == ProjectTaskStatus::Pending || t.status == ProjectTaskStatus::InProgress) {
            return Err(
                ProjectTaskWorkspaceError::InvalidState {
                    task_id: t.task_id.clone(),
                    status: t.status,
                    operation: "record a result",
                },
            );
        }
        lift_result(validate_update(t, result.completed_at))?;
        lift_result(result.validate())?;
        let ghost old_ws = *self;
        let completed_at = result.completed_at;
        let task = &mut self.tasks[i];
        task.status = ProjectTaskStatus::from_result_status(result.status);
        task.updated_at = completed_at;
        task.result = Some(result);
        task.evaluation = None;
        if completed_at > self.updated_at {
            self.updated_at = completed_at;
        }
        proof {
            if old_ws.valid() {
                lemma_valid_facts(old_ws);
                let before = old_ws.tasks@[i as int];
                let after = self.tasks@[i as int];
                assert(entry_check(old_ws, before) is Ok);
                lemma_open_task_is_bare(before);
                assert(node_check(after) is Ok);
                lemma_replace_keeps_valid(old_ws, *self, i as int);
            }
        }
        Ok(())
    }

    /// Records an evaluation of a task that has a result.
    pub fn set_evaluation(&mut self, task_id: &ProjectTaskId, evaluation: ProjectTaskEvaluation) -> (r:
        Result<(), ProjectTaskWorkspaceError>)
        ensures
            outcome_of(r) == evaluate_check(*old(self), task_id@, evaluation),
            r is Err ==> *final(self) == *old(self),
            r is Ok ==> {
                let i = lookup(old(self).tasks@, task_id@)->0;
                let before = old(self).tasks@[i];
                let after = final(self).tasks@[i];
                &&& only_task_changed(*old(self), *final(self), i, evaluation.evaluated_at)
                &&& after.evaluation == Some(evaluation)
                &&& after.updated_at == evaluation.evaluated_at
                &&& after.status == before.status
                &&& after.result == before.result
                &&& after.requirements == before.requirements
                &&& after.executor == before.executor
                &&& after.execution_task_id == before.execution_task_id
            },
            old(self).valid() && r is Ok ==> final(self).valid(),
    {
        let i = match self.find(task_id) {
            Ok(i) => i,
            Err(e) => return Err(e),
        };
        let t = &self.tasks[i];
        if t.result.is_none() {
            return Err(
                ProjectTaskWorkspaceError::InvalidState {
                    task_id: t.task_id.clone(),
                    status: t.status,
                    operation: "evaluate without a result",
                },
            );
        }
        lift_result(validate_update(t, evaluation.evaluated_at))?;
        lift_result(evaluation.validate())?;
        let ghost old_ws = *self;
        let evaluated_at = evaluation.evaluated_at;
        let task = &mut self.tasks[i];
        task.updated_at = evaluated_at;
        task.evaluation = Some(evaluation);
        if evaluated_at > self.updated_at {
            self.updated_at = evaluated_at;
        }
        proof {
            if old_ws.valid() {
                lemma_valid_facts(old_ws);
                let before = old_ws.tasks@[i as int];
                let after = self.tasks@[i as int];
                assert(entry_check(old_ws, before) is Ok);
                assert(node_check(after) is Ok);
                lemma_replace_keeps_valid(old_ws, *self, i as int);
            }
        }
        Ok(())
    }
}

/// The tasks without a parent, in workspace order.
pub open spec fn roots(tasks: Seq<ProjectTaskNode>) -> Seq<ProjectTaskNode>
    decreases tasks.len(),
{
    if tasks.len() == 0 {
        Seq::empty()
    } else if tasks.last().parent_task_id is None {
        roots(tasks.drop_last()).push(tasks.last())
    } else {
        roots(tasks.drop_last())
    }
}

/// The tasks whose parent is `parent`, in workspace order.
pub open spec fn children_of(tasks: Seq<ProjectTaskNode>, parent: Seq<char>) -> Seq<ProjectTaskNode>
    decreases tasks.len(),
{
    if tasks.len() == 0 {
        Seq::empty()
    } else if tasks.last().parent_task_id matches Some(p) && p@ == parent {
        children_of(tasks.drop_last(), parent).push(tasks.last())
    } else {
        children_of(tasks.drop_last(), parent)
    }
}

/// The nodes that a list of references points at.
pub open spec fn deref_all(refs: Seq<&ProjectTaskNode>) -> Seq<ProjectTaskNode> {
    refs.map_values(|t: &ProjectTaskNode| *t)
}

impl ProjectTaskWorkspace {
    /// The root tasks, in workspace order.
    pub fn root_tasks(&self) -> (r: Vec<&ProjectTaskNode>)
        ensures
            deref_all(r@) == roots(self.tasks@),
    {
        let mut out: Vec<&ProjectTaskNode> = Vec::new();
        let mut i: usize = 0;
        while i < self.tasks.len()
            invariant
                i <= self.tasks@.len(),
                deref_all(out@) == roots(self.tasks@.take(i as int)),
            decreases self.tasks.len() - i,
        {
            proof {
                assert(self.tasks@.take(i + 1).drop_last() == self.tasks@.take(i as int));
            }
            let t = &self.tasks[i];
            if t.parent_task_id.is_none() {
                out.push(t);
                proof {
                    assert(deref_all(out@) == deref_all(out@.drop_last()).push(*t));
                }
            }
            i = i + 1;
        }
        proof {
            assert(self.tasks@.take(self.tasks@.len() as int) == self.tasks@);
        }
        out
    }

    /// The direct children of `parent_task_id`, in workspace order.
    pub fn child_tasks<'a>(&'a self, parent_task_id: &ProjectTaskId) -> (r: Vec<&'a ProjectTaskNode>)
        ensures
            deref_all(r@) == children_of(self.tasks@, parent_task_id@),
    {
        let mut out: Vec<&ProjectTaskNode> = Vec::new();
        let mut i: usize = 0;
        while i < self.tasks.len()
            invariant
                i <= self.tasks@.len(),
                deref_all(out@) == children_of(self.tasks@.take(i as int), parent_task_id@),
            decreases self.tasks.len() - i,
        {
            proof {
                assert(self.tasks@.take(i + 1).drop_last() == self.tasks@.take(i as int));
            }
            let t = &self.tasks[i];
            let is_child = match &t.parent_task_id {
                Some(p) => p.same(parent_task_id),
                None => false,
            };
            if is_child {
                out.push(t);
                proof {
                    assert(deref_all(out@) == deref_all(out@.drop_last()).push(*t));
                }
            }
            i = i + 1;
        }
        proof {
            assert(self.tasks@.take(self.tasks@.len() as int) == self.tasks@);
        }
        out
    }
}

/// Appending a fresh task whose parent is at depth below the limit keeps a
/// valid workspace valid.
pub proof fn lemma_create_keeps_valid(old: ProjectTaskWorkspace, new: ProjectTaskWorkspace, x: ProjectTaskNode)
    requires
        old.valid(),
        old.tasks@.len() < MAX_TASKS,
        !has_id(old.tasks@, x.task_id@),
        new.tasks@ == old.tasks@.push(x),
        new.schema_version == old.schema_version,
        new.updated_at == later(old.updated_at, x.updated_at),
        node_check(x) is Ok,
        match x.parent_task_id {
            Some(p) => depth_of(old.tasks@, p@) matches DepthOutcome::Depth(d) && d < MAX_DEPTH,
            None => true,
        },
    ensures
        new.valid(),
{
    lemma_valid_facts(old);
    let a = old.tasks@;
    let b = new.tasks@;
    assert forall|i: int, j: int| 0 <= i < j < b.len() implies #[trigger] b[i].task_id@
        != #[trigger] b[j].task_id@ by {
        if j == a.len() {
            assert(b[i] == a[i]);
        } else {
            assert(b[i] == a[i] && b[j] == a[j]);
        }
    }
    assert forall|j: int| 0 <= j < b.len() implies (#[trigger] entry_check(new, b[j])) is Ok by {
        if j < a.len() {
            assert(b[j] == a[j]);
            assert(entry_check(old, a[j]) is Ok);
            match a[j].parent_task_id {
                Some(p) => {
                    assert(has_id(a, p@));
                    lemma_has_id_lookup(a, p@);
                    lemma_lookup_in_bounds(a, p@, 0);
                    lemma_lookup_push(a, x, p@, 0);
                    let k = lookup(a, p@)->0;
                    lemma_depth_push(a, x, k, 1);
                    assert(b[k] == a[k]);
                    assert(has_id(b, p@));
                },
                None => {},
            }
        } else {
            assert(b[j] == x);
            match x.parent_task_id {
                Some(p) => {
                    lemma_has_id_lookup(a, p@);
                    lemma_lookup_in_bounds(a, p@, 0);
                    lemma_lookup_push(a, x, p@, 0);
                    let k = lookup(a, p@)->0;
                    lemma_depth_push(a, x, k, 1);
                    assert(b[k] == a[k]);
                    assert(has_id(b, p@));
                },
                None => {},
            }
        }
    }
    lemma_valid_from_entries(new);
}

} // verus!
