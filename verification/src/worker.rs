//! What passes between a semantic task and the project AGENT worker that
//! executes it: the task prompt, the worker's durable context prompt, and
//! the worker's result as the task records it.

use crate::agent::{
    ProjectAgentDefinition, ProjectAgentTaskResult, ProjectAgentTaskStatus,
    ProjectAgentToolManifest, ProjectAgentToolTarget, task_result_check,
};
use crate::task_workspace::{
    ProjectTaskExecutor, ProjectTaskNode, ProjectTaskResult, ProjectTaskResultStatus,
    ProjectTaskSuggestedChild,
};
use crate::text::{
    byte_len, byte_prefix, decimal, lemma_fit_count, lemma_utf8_len_concat, owned, push_decimal,
    push_str, str_trim, take_bytes_at_char_boundary, texts, trim, utf8_len,
};
use crate::types::{failure_text, ProjectAgentId};
use vstd::prelude::*;

verus! {

broadcast use vstd::string::group_string_axioms;

pub const MAX_RESULT_ITEMS: usize = 64;

pub const MAX_ITEM_BYTES: usize = 4096;

pub const MAX_SUGGESTIONS: usize = 16;

pub const MAX_OBJECTIVE_BYTES: usize = 8192;

pub const MAX_EXECUTION_TASK_BYTES: usize = 16384;

pub const MAX_WORKER_PROMPT_BYTES: usize = 36864;

pub const MAX_ERROR_BYTES: usize = 8192;

// ---------------------------------------------------------------------------
// Results.

/// At most `max_items` of the texts `v`, each cut to `max_bytes` bytes.
pub open spec fn bounded_list(v: Seq<Seq<char>>, max_items: nat, max_bytes: nat) -> Seq<Seq<char>> {
    let n = if v.len() < max_items {
        v.len()
    } else {
        max_items
    };
    Seq::new(n, |i: int| byte_prefix(v[i], max_bytes))
}

/// An item of a recorded result, cut to its byte budget.
pub fn bounded_item(value: &str) -> (r: String)
    ensures
        r@ == byte_prefix(value@, MAX_ITEM_BYTES as nat),
{
    take_bytes_at_char_boundary(value, MAX_ITEM_BYTES)
}

/// The items of a recorded result: at most 64, each cut to its byte budget.
pub fn bounded_items(values: Vec<String>) -> (r: Vec<String>)
    ensures
        texts(r@) == bounded_list(texts(values@), MAX_RESULT_ITEMS as nat, MAX_ITEM_BYTES as nat),
{
    let n = if values.len() < MAX_RESULT_ITEMS {
        values.len()
    } else {
        MAX_RESULT_ITEMS
    };
    let mut out: Vec<String> = Vec::new();
    for i in 0..n
        invariant
            n <= values.len(),
            out@.len() == i,
            forall|j: int| 0 <= j < i ==> (#[trigger] out@[j])@ == byte_prefix(
                values@[j]@,
                MAX_ITEM_BYTES as nat,
            ),
    {
        out.push(bounded_item(values[i].as_str()));
    }
    proof {
        assert(texts(out@) =~= bounded_list(
            texts(values@),
            MAX_RESULT_ITEMS as nat,
            MAX_ITEM_BYTES as nat,
        ));
    }
    out
}

/// How a worker's reported status settles a semantic task's result.
pub open spec fn task_result_status(s: ProjectAgentTaskStatus) -> ProjectTaskResultStatus {
    match s {
        ProjectAgentTaskStatus::Completed => ProjectTaskResultStatus::Completed,
        ProjectAgentTaskStatus::RejectedOutOfScope => ProjectTaskResultStatus::Rejected,
        ProjectAgentTaskStatus::BlockedMissingTool => ProjectTaskResultStatus::BlockedMissingTool,
        ProjectAgentTaskStatus::Failed => ProjectTaskResultStatus::Failed,
    }
}

/// The title of the `i`-th follow-up suggested from a worker's proposals.
pub open spec fn follow_up_title(i: nat) -> Seq<char> {
    "Project AGENT follow-up "@ + decimal(i + 1)
}

/// The error a failed result records when the worker gave none.
pub open spec fn missing_error_text() -> Seq<char> {
    "project AGENT execution failed without an error message"@
}

fn follow_up(index: usize, objective: &str) -> (r: ProjectTaskSuggestedChild)
    requires
        index < MAX_SUGGESTIONS,
    ensures
        r.title@ == follow_up_title(index as nat),
        r.objective@ == byte_prefix(objective@, MAX_OBJECTIVE_BYTES as nat),
{
    let mut title = owned("Project AGENT follow-up ");
    push_decimal(&mut title, (index + 1) as u64);
    ProjectTaskSuggestedChild {
        title,
        objective: take_bytes_at_char_boundary(objective, MAX_OBJECTIVE_BYTES),
    }
}

/// A worker's result as the semantic task records it: status mapped, lists
/// bounded, at most sixteen improvement proposals turned into numbered
/// follow-up suggestions, and an error only for a failure.
/// What recording a worker's `result`, completed at `completed_at`, gives.
pub open spec fn worker_result_of(result: ProjectAgentTaskResult, completed_at: i64, r: ProjectTaskResult) -> bool {
    &&& r.status == task_result_status(result.status)
    &&& r.summary@ == result.result@
    &&& texts(r.artifacts@) == bounded_list(
        texts(result.artifacts@),
        MAX_RESULT_ITEMS as nat,
        MAX_ITEM_BYTES as nat,
    )
    &&& texts(r.evidence@) == bounded_list(
        texts(result.evidence@),
        MAX_RESULT_ITEMS as nat,
        MAX_ITEM_BYTES as nat,
    )
    &&& r.suggested_children@.len() == (if result.improvement_proposals@.len() < MAX_SUGGESTIONS {
        result.improvement_proposals@.len()
    } else {
        MAX_SUGGESTIONS as nat
    })
    &&& forall|i: int|
        0 <= i < r.suggested_children@.len() ==> (#[trigger] r.suggested_children@[i]).title@
            == follow_up_title(i as nat) && r.suggested_children@[i].objective@ == byte_prefix(
            result.improvement_proposals@[i]@,
            MAX_OBJECTIVE_BYTES as nat,
        )
    &&& r.status != ProjectTaskResultStatus::Failed ==> r.error is None
    &&& r.status == ProjectTaskResultStatus::Failed ==> r.error is Some && r.error->Some_0@
        == byte_prefix(
        match result.error {
            Some(e) => e@,
            None => missing_error_text(),
        },
        MAX_ITEM_BYTES as nat,
    )
    &&& r.completed_at == completed_at
}

pub fn worker_result(result: ProjectAgentTaskResult, completed_at: i64) -> (r: ProjectTaskResult)
    ensures
        worker_result_of(result, completed_at, r),
{
    let status = match result.status {
        ProjectAgentTaskStatus::Completed => ProjectTaskResultStatus::Completed,
        ProjectAgentTaskStatus::RejectedOutOfScope => ProjectTaskResultStatus::Rejected,
        ProjectAgentTaskStatus::BlockedMissingTool => ProjectTaskResultStatus::BlockedMissingTool,
        ProjectAgentTaskStatus::Failed => ProjectTaskResultStatus::Failed,
    };
    let error = if status == ProjectTaskResultStatus::Failed {
        match &result.error {
            Some(e) => Some(bounded_item(e.as_str())),
            None => Some(bounded_item("project AGENT execution failed without an error message")),
        }
    } else {
        None
    };
    let proposals = &result.improvement_proposals;
    let n = if proposals.len() < MAX_SUGGESTIONS {
        proposals.len()
    } else {
        MAX_SUGGESTIONS
    };
    let mut children: Vec<ProjectTaskSuggestedChild> = Vec::new();
    for i in 0..n
        invariant
            n <= proposals.len(),
            n <= MAX_SUGGESTIONS,
            children@.len() == i,
            forall|j: int|
                0 <= j < i ==> (#[trigger] children@[j]).title@ == follow_up_title(j as nat)
                    && children@[j].objective@ == byte_prefix(
                    proposals@[j]@,
                    MAX_OBJECTIVE_BYTES as nat,
                ),
    {
        children.push(follow_up(i, proposals[i].as_str()));
    }
    let ProjectAgentTaskResult { result: summary, artifacts, evidence, .. } = result;
    ProjectTaskResult {
        status,
        summary,
        artifacts: bounded_items(artifacts),
        evidence: bounded_items(evidence),
        suggested_children: children,
        error,
        completed_at,
    }
}

/// The error a host failure records: the given text trimmed and cut to its
/// byte budget, or a fixed message when nothing is left.
pub open spec fn host_failure_error(error: Seq<char>) -> Seq<char> {
    let t = byte_prefix(trim(error), MAX_ERROR_BYTES as nat);
    if t.len() == 0 {
        "unknown project AGENT worker failure"@
    } else {
        t
    }
}

/// The summary a host failure records.
pub open spec fn host_failure_summary() -> Seq<char> {
    "The project AGENT worker did not produce a valid completed result."@
}

/// Whether `r` is the failed result the host records for `agent_id` and
/// `task_id` with the error text `error`: nothing else carried over.
pub open spec fn is_host_failure(
    r: ProjectAgentTaskResult,
    agent_id: Seq<char>,
    task_id: Seq<char>,
    error: Seq<char>,
) -> bool {
    &&& r.status == ProjectAgentTaskStatus::Failed
    &&& r.agent_id@ == agent_id
    &&& r.task_id@ == task_id
    &&& r.result@ == host_failure_summary()
    &&& r.artifacts@.len() == 0
    &&& r.evidence@.len() == 0
    &&& r.memory_candidates@.len() == 0
    &&& r.improvement_proposals@.len() == 0
    &&& r.error is Some
    &&& r.error->Some_0@ == host_failure_error(error)
}

/// The failed result the host records when a worker produced no usable one.
pub fn host_failed_result(agent_id: &ProjectAgentId, task_id: &str, error: &str) -> (r:
    ProjectAgentTaskResult)
    ensures
        is_host_failure(r, agent_id@, task_id@, error@),
{
    let error = take_bytes_at_char_boundary(str_trim(error), MAX_ERROR_BYTES);
    let message = if error.as_str().is_empty() {
        owned("unknown project AGENT worker failure")
    } else {
        error
    };
    ProjectAgentTaskResult {
        status: ProjectAgentTaskStatus::Failed,
        agent_id: agent_id.duplicate(),
        task_id: owned(task_id),
        result: owned("The project AGENT worker did not produce a valid completed result."),
        artifacts: Vec::new(),
        evidence: Vec::new(),
        memory_candidates: Vec::new(),
        improvement_proposals: Vec::new(),
        error: Some(message),
    }
}

/// Whether `r` is what a task keeps from a worker's reply `parsed`: the
/// reply itself when it parsed and passes the result protocol for this
/// agent and task; otherwise a host failure naming why.
pub open spec fn checked_result(
    parsed: Result<ProjectAgentTaskResult, String>,
    agent_id: Seq<char>,
    task_id: Seq<char>,
    r: ProjectAgentTaskResult,
) -> bool {
    match parsed {
        Err(e) => is_host_failure(r, agent_id, task_id, "invalid project AGENT result JSON: "@ + e@),
        Ok(res) => match task_result_check(res, agent_id, task_id) {
            Ok(()) => r == res,
            Err(f) => is_host_failure(
                r,
                agent_id,
                task_id,
                "invalid project AGENT result: "@ + failure_text(f),
            ),
        },
    }
}

/// The result a task keeps from a worker's reply: the reply itself when it
/// parsed and passes the result protocol for this agent and task; otherwise
/// a host failure naming why.
pub fn checked_worker_result(
    parsed: Result<ProjectAgentTaskResult, String>,
    agent_id: &ProjectAgentId,
    task_id: &str,
) -> (r: ProjectAgentTaskResult)
    ensures
        checked_result(parsed, agent_id@, task_id@, r),
{
    match parsed {
        Err(e) => {
            let mut message = owned("invalid project AGENT result JSON: ");
            push_str(&mut message, e.as_str());
            host_failed_result(agent_id, task_id, message.as_str())
        },
        Ok(result) => {
            match result.validate_for(agent_id, task_id) {
                Ok(()) => result,
                Err(error) => {
                    let mut message = owned("invalid project AGENT result: ");
                    let reason = error.message();
                    push_str(&mut message, reason.as_str());
                    host_failed_result(agent_id, task_id, message.as_str())
                },
            }
        },
    }
}

// ---------------------------------------------------------------------------
// The task prompt.

/// One `- requirement` line per requirement.
pub open spec fn requirement_lines(reqs: Seq<Seq<char>>) -> Seq<char>
    decreases reqs.len(),
{
    if reqs.len() == 0 {
        Seq::empty()
    } else {
        requirement_lines(reqs.drop_last()) + "- "@ + reqs.last() + "\n"@
    }
}

/// The prompt a worker receives for a semantic task, before its byte budget.
pub open spec fn task_prompt_text(t: ProjectTaskNode) -> Seq<char> {
    "Task: "@ + t.title@ + "\n\nObjective:\n"@ + t.objective@ + if t.requirements@.len() > 0 {
        "\n\nAdditional requirements:\n"@ + requirement_lines(texts(t.requirements@))
    } else {
        Seq::empty()
    }
}

/// The prompt a worker receives for a semantic task: title, objective and
/// requirements, cut to the execution budget.
pub fn task_prompt(task: &ProjectTaskNode) -> (r: String)
    ensures
        r@ == byte_prefix(task_prompt_text(*task), MAX_EXECUTION_TASK_BYTES as nat),
{
    let mut prompt = owned("Task: ");
    push_str(&mut prompt, task.title.as_str());
    push_str(&mut prompt, "\n\nObjective:\n");
    push_str(&mut prompt, task.objective.as_str());
    let ghost head = prompt@;
    if task.requirements.len() > 0 {
        push_str(&mut prompt, "\n\nAdditional requirements:\n");
        let ghost reqs = texts(task.requirements@);
        let ghost start = prompt@;
        proof {
            assert(reqs.take(0) =~= Seq::<Seq<char>>::empty());
            assert(start + requirement_lines(reqs.take(0)) =~= start);
        }
        for i in 0..task.requirements.len()
            invariant
                reqs == texts(task.requirements@),
                prompt@ == start + requirement_lines(reqs.take(i as int)),
        {
            proof {
                assert(reqs.take(i + 1).drop_last() =~= reqs.take(i as int));
                assert(reqs.take(i + 1).last() == task.requirements@[i as int]@);
            }
            push_str(&mut prompt, "- ");
            push_str(&mut prompt, task.requirements[i].as_str());
            push_str(&mut prompt, "\n");
            proof {
                assert(prompt@ =~= start + requirement_lines(reqs.take(i + 1)));
            }
        }
        proof {
            assert(reqs.take(task.requirements@.len() as int) =~= reqs);
            assert(prompt@ =~= task_prompt_text(*task));
        }
    } else {
        proof {
            assert(prompt@ =~= task_prompt_text(*task));
        }
    }
    take_bytes_at_char_boundary(prompt.as_str(), MAX_EXECUTION_TASK_BYTES)
}

/// Why a semantic task assigned to one project AGENT cannot run on another.
pub open spec fn executor_mismatch_text(
    task_id: Seq<char>,
    assigned: Seq<char>,
    agent_id: Seq<char>,
) -> Seq<char> {
    "semantic task `"@ + task_id + "` is assigned to project AGENT `"@ + assigned + "`, not `"@
        + agent_id + "`"@
}

/// `None` when `agent_id` may execute the task; otherwise why not: the task
/// is assigned to a different project AGENT.
pub fn executor_mismatch(task: &ProjectTaskNode, agent_id: &ProjectAgentId) -> (r: Option<String>)
    ensures
        match task.executor {
            ProjectTaskExecutor::ProjectAgent { agent_id: assigned } => if assigned@ != agent_id@ {
                r is Some && r->Some_0@ == executor_mismatch_text(
                    task.task_id@,
                    assigned@,
                    agent_id@,
                )
            } else {
                r is None
            },
            _ => r is None,
        },
{
    match &task.executor {
        ProjectTaskExecutor::ProjectAgent { agent_id: assigned } => {
            if assigned.same(agent_id) {
                None
            } else {
                let mut message = owned("semantic task `");
                push_str(&mut message, task.task_id.as_str());
                push_str(&mut message, "` is assigned to project AGENT `");
                push_str(&mut message, assigned.as_str());
                push_str(&mut message, "`, not `");
                push_str(&mut message, agent_id.as_str());
                push_str(&mut message, "`");
                Some(message)
            }
        },
        _ => None,
    }
}

// ---------------------------------------------------------------------------
// The worker's context prompt.

/// A registered tool as the worker's prompt describes it; the input schema,
/// when there is one, is given as its JSON text.
pub struct WorkerToolHelp {
    pub manifest: ProjectAgentToolManifest,
    pub input_schema: Option<String>,
}

/// `p` with as much of `t` as fits the worker prompt budget.
pub open spec fn appended(p: Seq<char>, t: Seq<char>) -> Seq<char> {
    if utf8_len(p) >= MAX_WORKER_PROMPT_BYTES {
        p
    } else {
        p + byte_prefix(t, (MAX_WORKER_PROMPT_BYTES - utf8_len(p)) as nat)
    }
}

/// The pieces appended one after another, each cut to what is left of the
/// budget.
pub open spec fn bounded_concat(pieces: Seq<Seq<char>>) -> Seq<char>
    decreases pieces.len(),
{
    if pieces.len() == 0 {
        Seq::empty()
    } else {
        appended(bounded_concat(pieces.drop_last()), pieces.last())
    }
}

pub open spec fn identity_piece(id: Seq<char>, description: Seq<char>) -> Seq<char> {
    "# Project specialist AGENT\n\nIdentity: "@ + id + "\nDescription: "@ + description
        + "\n\nEach concrete task arrives as the current user turn. Keep the durable identity, constraints, registered tool help, and accepted memory below stable across turns.\n\n"@
}

pub open spec fn protocol_piece() -> Seq<char> {
    "# Fixed result protocol\n\nReturn exactly one JSON object. Every top-level field is required: status, agent_id, task_id, result, artifacts, evidence, memory_candidates, improvement_proposals, and error. status must be completed, rejected_out_of_scope, blocked_missing_tool, or failed. agent_id must match this identity and task_id must match the active turn output schema. error must be null unless status is failed. Do not wrap the JSON in Markdown.\n\n"@
}

/// How the worker reaches a tool: a native tool by its own name, anything
/// else through the `x` namespace.
pub open spec fn tool_route(m: ProjectAgentToolManifest) -> Seq<char> {
    match m.target {
        ProjectAgentToolTarget::Native { tool } => tool@,
        _ => "x."@ + m.id@,
    }
}

pub open spec fn tool_pieces_of(t: WorkerToolHelp) -> Seq<Seq<char>> {
    let line = "- "@ + t.manifest.id@ + ": "@ + t.manifest.description@ + " (route: "@ + tool_route(
        t.manifest,
    ) + ")\n"@;
    match t.input_schema {
        Some(s) => seq![line, "  input schema: "@ + s@ + "\n"@],
        None => seq![line],
    }
}

pub open spec fn tool_pieces(ts: Seq<WorkerToolHelp>) -> Seq<Seq<char>>
    decreases ts.len(),
{
    if ts.len() == 0 {
        Seq::empty()
    } else {
        tool_pieces(ts.drop_last()) + tool_pieces_of(ts.last())
    }
}

pub open spec fn memory_pieces(ms: Seq<Seq<char>>) -> Seq<Seq<char>>
    decreases ms.len(),
{
    if ms.len() == 0 {
        Seq::empty()
    } else {
        memory_pieces(ms.drop_last()).push("- "@ + ms.last() + "\n"@)
    }
}

/// The pieces of a worker's context prompt, in order.
pub open spec fn prompt_pieces(
    d: ProjectAgentDefinition,
    constraints: Seq<char>,
    tools: Seq<WorkerToolHelp>,
    memory: Seq<Seq<char>>,
) -> Seq<Seq<char>> {
    seq![
        identity_piece(d.id@, d.description@),
        protocol_piece(),
        "# Constraints\n\n"@ + constraints + "\n\n"@,
        "# Registered tools\n\n"@,
    ] + tool_pieces(tools) + seq!["\n# Accepted memory\n\n"@] + memory_pieces(memory)
}

/// Appends as much of `text` as the worker prompt budget leaves room for.
fn append_prompt(prompt: &mut String, text: &str)
    requires
        utf8_len(old(prompt)@) <= MAX_WORKER_PROMPT_BYTES,
    ensures
        final(prompt)@ == appended(old(prompt)@, text@),
        utf8_len(final(prompt)@) <= MAX_WORKER_PROMPT_BYTES,
{
    let used = byte_len(prompt.as_str());
    let remaining = MAX_WORKER_PROMPT_BYTES.saturating_sub(used);
    if remaining == 0 {
        return;
    }
    let piece = take_bytes_at_char_boundary(text, remaining);
    let ghost before = prompt@;
    push_str(prompt, piece.as_str());
    proof {
        lemma_utf8_len_concat(before, piece@);
    }
}

fn pieces_prompt(pieces: &Vec<String>) -> (r: String)
    ensures
        r@ == bounded_concat(texts(pieces@)),
        utf8_len(r@) <= MAX_WORKER_PROMPT_BYTES,
{
    let ghost ps = texts(pieces@);
    let mut prompt = String::new();
    proof {
        assert(ps.take(0) =~= Seq::<Seq<char>>::empty());
        assert(utf8_len(prompt@) == 0) by {
            assert(prompt@ =~= Seq::<char>::empty());
        }
    }
    for i in 0..pieces.len()
        invariant
            ps == texts(pieces@),
            prompt@ == bounded_concat(ps.take(i as int)),
            utf8_len(prompt@) <= MAX_WORKER_PROMPT_BYTES,
    {
        proof {
            assert(ps.take(i + 1).drop_last() =~= ps.take(i as int));
            assert(ps.take(i + 1).last() == pieces@[i as int]@);
        }
        append_prompt(&mut prompt, pieces[i].as_str());
    }
    proof {
        assert(ps.take(pieces@.len() as int) =~= ps);
    }
    prompt
}

fn push_piece(pieces: &mut Vec<String>, piece: String)
    ensures
        texts(final(pieces)@) == texts(old(pieces)@).push(piece@),
{
    pieces.push(piece);
    proof {
        assert(texts(pieces@) =~= texts(old(pieces)@).push(piece@));
    }
}

/// The worker's durable context: identity, the fixed result protocol,
/// constraints, registered tools and accepted memory, within 36 KiB.
pub fn worker_context_prompt(
    definition: &ProjectAgentDefinition,
    constraints: &str,
    tools: &Vec<WorkerToolHelp>,
    accepted_memory: &Vec<String>,
) -> (r: String)
    ensures
        r@ == bounded_concat(
            prompt_pieces(*definition, constraints@, tools@, texts(accepted_memory@)),
        ),
        utf8_len(r@) <= MAX_WORKER_PROMPT_BYTES,
{
    let mut pieces: Vec<String> = Vec::new();
    let mut identity = owned("# Project specialist AGENT\n\nIdentity: ");
    push_str(&mut identity, definition.id.as_str());
    push_str(&mut identity, "\nDescription: ");
    push_str(&mut identity, definition.description.as_str());
    push_str(
        &mut identity,
        "\n\nEach concrete task arrives as the current user turn. Keep the durable identity, constraints, registered tool help, and accepted memory below stable across turns.\n\n",
    );
    push_piece(&mut pieces, identity);
    push_piece(
        &mut pieces,
        owned(
            "# Fixed result protocol\n\nReturn exactly one JSON object. Every top-level field is required: status, agent_id, task_id, result, artifacts, evidence, memory_candidates, improvement_proposals, and error. status must be completed, rejected_out_of_scope, blocked_missing_tool, or failed. agent_id must match this identity and task_id must match the active turn output schema. error must be null unless status is failed. Do not wrap the JSON in Markdown.\n\n",
        ),
    );
    let mut constraints_piece = owned("# Constraints\n\n");
    push_str(&mut constraints_piece, constraints);
    push_str(&mut constraints_piece, "\n\n");
    push_piece(&mut pieces, constraints_piece);
    push_piece(&mut pieces, owned("# Registered tools\n\n"));
    let ghost head = texts(pieces@);
    proof {
        assert(tools@.take(0) =~= Seq::<WorkerToolHelp>::empty());
        assert(head + tool_pieces(tools@.take(0)) =~= head);
    }
    for i in 0..tools.len()
        invariant
            texts(pieces@) == head + tool_pieces(tools@.take(i as int)),
    {
        proof {
            assert(tools@.take(i + 1).drop_last() =~= tools@.take(i as int));
            assert(tools@.take(i + 1).last() == tools@[i as int]);
        }
        let tool = &tools[i];
        let mut line = owned("- ");
        push_str(&mut line, tool.manifest.id.as_str());
        push_str(&mut line, ": ");
        push_str(&mut line, tool.manifest.description.as_str());
        push_str(&mut line, " (route: ");
        match &tool.manifest.target {
            ProjectAgentToolTarget::Native { tool: native } => push_str(&mut line, native.as_str()),
            _ => {
                push_str(&mut line, "x.");
                push_str(&mut line, tool.manifest.id.as_str());
            },
        }
        push_str(&mut line, ")\n");
        proof {
            assert(line@ =~= "- "@ + tool.manifest.id@ + ": "@ + tool.manifest.description@
                + " (route: "@ + tool_route(tool.manifest) + ")\n"@);
        }
        let ghost before = texts(pieces@);
        push_piece(&mut pieces, line);
        match &tool.input_schema {
            Some(schema) => {
                let mut schema_line = owned("  input schema: ");
                push_str(&mut schema_line, schema.as_str());
                push_str(&mut schema_line, "\n");
                push_piece(&mut pieces, schema_line);
            },
            None => {},
        }
        proof {
            assert(texts(pieces@) =~= before + tool_pieces_of(*tool));
            assert(tool_pieces(tools@.take(i + 1)) =~= tool_pieces(tools@.take(i as int))
                + tool_pieces_of(tools@[i as int]));
            assert(texts(pieces@) =~= head + tool_pieces(tools@.take(i + 1)));
        }
    }
    proof {
        assert(tools@.take(tools@.len() as int) =~= tools@);
    }
    push_piece(&mut pieces, owned("\n# Accepted memory\n\n"));
    let ghost mid = texts(pieces@);
    let ghost ms = texts(accepted_memory@);
    proof {
        assert(ms.take(0) =~= Seq::<Seq<char>>::empty());
        assert(mid + memory_pieces(ms.take(0)) =~= mid);
    }
    for i in 0..accepted_memory.len()
        invariant
            ms == texts(accepted_memory@),
            texts(pieces@) == mid + memory_pieces(ms.take(i as int)),
    {
        proof {
            assert(ms.take(i + 1).drop_last() =~= ms.take(i as int));
            assert(ms.take(i + 1).last() == accepted_memory@[i as int]@);
        }
        let mut line = owned("- ");
        push_str(&mut line, accepted_memory[i].as_str());
        push_str(&mut line, "\n");
        push_piece(&mut pieces, line);
        proof {
            assert(texts(pieces@) =~= mid + memory_pieces(ms.take(i + 1)));
        }
    }
    proof {
        assert(ms.take(ms.len() as int) =~= ms);
        assert(texts(pieces@) =~= prompt_pieces(*definition, constraints@, tools@, ms));
    }
    pieces_prompt(&pieces)
}

} // verus!
