use project_agents::agent::{
    ProjectAgentDefinition, ProjectAgentTaskResult, ProjectAgentTaskStatus,
    ProjectAgentToolManifest, ProjectAgentToolTarget,
};
use project_agents::task_workspace::{
    ProjectTaskExecutor, ProjectTaskId, ProjectTaskNode, ProjectTaskResultStatus,
    ProjectTaskStatus,
};
use project_agents::types::{ProjectAgentId, RelativeProjectAgentPath};
use project_agents::worker::{
    bounded_items, checked_worker_result, executor_mismatch, host_failed_result, task_prompt,
    worker_context_prompt, worker_result, WorkerToolHelp,
};

fn agent_id(value: &str) -> ProjectAgentId {
    ProjectAgentId::new(value).expect("agent id")
}

fn relative_path(value: &str) -> RelativeProjectAgentPath {
    RelativeProjectAgentPath::new(value).expect("relative path")
}

fn definition() -> ProjectAgentDefinition {
    ProjectAgentDefinition {
        schema_version: 1,
        id: agent_id("query"),
        description: "Project query specialist".to_string(),
        constraints_file: relative_path("constraints.md"),
        model: None,
        model_reasoning_effort: None,
        model_provider: None,
        tools: vec![relative_path("tools/lookup.x")],
        memory_max_items: 32,
        memory_max_tokens: 4000,
    }
}

fn loaded_tool(id: &str, target: ProjectAgentToolTarget) -> WorkerToolHelp {
    WorkerToolHelp {
        manifest: ProjectAgentToolManifest {
            schema_version: 1,
            id: agent_id(id),
            description: format!("{id} tool"),
            target,
            timeout_ms: None,
            input_schema: None,
        },
        input_schema: None,
    }
}

#[test]
fn worker_prompt_contains_runtime_contract_and_stays_bounded() {
    let mut lookup = loaded_tool(
        "lookup",
        ProjectAgentToolTarget::Command {
            program: relative_path("tools/private_lookup.py"),
        },
    );
    lookup.input_schema = Some(
        r#"{"type":"object","properties":{"query":{"type":"string"}},"required":["query"],"additionalProperties":false}"#
            .to_string(),
    );
    let tools = vec![lookup];
    let mut constraints = "Stay inside the assigned repository scope.".to_string();
    let memory = vec!["The owner is src/owner.rs.".to_string()];
    let prompt = worker_context_prompt(&definition(), &constraints, &tools, &memory);
    for expected in [
        "Identity: query",
        "Each concrete task arrives as the current user turn.",
        "# Fixed result protocol",
        "Stay inside the assigned repository scope.",
        "lookup tool",
        "route: x.lookup",
        "input schema:",
        "\"query\"",
        "The owner is src/owner.rs.",
    ] {
        assert!(
            prompt.contains(expected),
            "missing prompt fragment: {expected}"
        );
    }
    assert!(!prompt.contains("task-1"));
    assert!(!prompt.contains("Inspect the target"));
    assert!(!prompt.contains("private_lookup.py"));

    constraints = "界".repeat(40_000);
    let bounded = worker_context_prompt(&definition(), &constraints, &tools, &memory);
    assert!(bounded.len() <= 36 * 1024);
    assert!(bounded.is_char_boundary(bounded.len()));
}

#[test]
fn invalid_worker_result_becomes_a_host_failure_without_candidates() {
    let untrusted = ProjectAgentTaskResult {
        status: ProjectAgentTaskStatus::Completed,
        agent_id: agent_id("other"),
        task_id: "task-1".to_string(),
        result: "untrusted".to_string(),
        artifacts: vec!["artifact".to_string()],
        evidence: vec!["evidence".to_string()],
        memory_candidates: vec!["candidate".to_string()],
        improvement_proposals: vec!["proposal".to_string()],
        error: None,
    };
    let result = checked_worker_result(Ok(untrusted), &agent_id("query"), "task-1");

    assert_eq!(
        result,
        ProjectAgentTaskResult {
            status: ProjectAgentTaskStatus::Failed,
            agent_id: agent_id("query"),
            task_id: "task-1".to_string(),
            result: "The project AGENT worker did not produce a valid completed result."
                .to_string(),
            artifacts: Vec::new(),
            evidence: Vec::new(),
            memory_candidates: Vec::new(),
            improvement_proposals: Vec::new(),
            error: Some(
                "invalid project AGENT result: invalid agent_id: result names `other`, expected `query`"
                    .to_string(),
            ),
        }
    );
}

#[test]
fn unparsable_and_valid_worker_replies() {
    let failed = checked_worker_result(
        Err("expected value at line 1 column 1".to_string()),
        &agent_id("query"),
        "task-1",
    );
    assert_eq!(
        failed.error.as_deref(),
        Some("invalid project AGENT result JSON: expected value at line 1 column 1")
    );
    let valid = ProjectAgentTaskResult {
        status: ProjectAgentTaskStatus::Completed,
        agent_id: agent_id("query"),
        task_id: "task-1".to_string(),
        result: "ok".to_string(),
        artifacts: Vec::new(),
        evidence: Vec::new(),
        memory_candidates: Vec::new(),
        improvement_proposals: Vec::new(),
        error: None,
    };
    assert_eq!(
        checked_worker_result(Ok(valid.clone()), &agent_id("query"), "task-1"),
        valid
    );
    let blank = host_failed_result(&agent_id("query"), "task-1", "   ");
    assert_eq!(blank.error.as_deref(), Some("unknown project AGENT worker failure"));
}

#[test]
fn worker_results_are_bounded_when_recorded() {
    let mut proposals = Vec::new();
    for index in 0..20 {
        proposals.push(format!("proposal {index}"));
    }
    let result = ProjectAgentTaskResult {
        status: ProjectAgentTaskStatus::Failed,
        agent_id: agent_id("query"),
        task_id: "task-1".to_string(),
        result: "summary".to_string(),
        artifacts: vec!["a".repeat(5000)],
        evidence: (0..70).map(|index| index.to_string()).collect(),
        memory_candidates: Vec::new(),
        improvement_proposals: proposals,
        error: None,
    };
    let recorded = worker_result(result, 42);
    assert_eq!(recorded.status, ProjectTaskResultStatus::Failed);
    assert_eq!(recorded.summary, "summary");
    assert_eq!(recorded.artifacts[0].len(), 4096);
    assert_eq!(recorded.evidence.len(), 64);
    assert_eq!(recorded.suggested_children.len(), 16);
    assert_eq!(recorded.suggested_children[0].title, "Project AGENT follow-up 1");
    assert_eq!(recorded.suggested_children[15].title, "Project AGENT follow-up 16");
    assert_eq!(recorded.suggested_children[3].objective, "proposal 3");
    assert_eq!(
        recorded.error.as_deref(),
        Some("project AGENT execution failed without an error message")
    );
    assert_eq!(recorded.completed_at, 42);
    assert_eq!(bounded_items(vec!["界".repeat(2000)])[0].len(), 4095);
}

fn node(executor: ProjectTaskExecutor, requirements: Vec<String>) -> ProjectTaskNode {
    ProjectTaskNode {
        task_id: ProjectTaskId::new("task-root").expect("task id"),
        parent_task_id: None,
        title: "Implement UI".to_string(),
        objective: "Render the semantic task tree".to_string(),
        requirements,
        status: ProjectTaskStatus::Pending,
        executor,
        execution_task_id: None,
        result: None,
        evaluation: None,
        created_at: 1,
        updated_at: 1,
    }
}

#[test]
fn task_prompts_list_requirements() {
    assert_eq!(
        task_prompt(&node(ProjectTaskExecutor::MainAgent, Vec::new())),
        "Task: Implement UI\n\nObjective:\nRender the semantic task tree"
    );
    assert_eq!(
        task_prompt(&node(
            ProjectTaskExecutor::MainAgent,
            vec!["Include snapshot coverage".to_string()]
        )),
        "Task: Implement UI\n\nObjective:\nRender the semantic task tree\n\nAdditional requirements:\n- Include snapshot coverage\n"
    );
}

#[test]
fn tasks_run_only_on_their_assigned_agent() {
    let assigned = node(
        ProjectTaskExecutor::ProjectAgent { agent_id: agent_id("query") },
        Vec::new(),
    );
    assert_eq!(executor_mismatch(&assigned, &agent_id("query")), None);
    assert_eq!(
        executor_mismatch(&assigned, &agent_id("other")).as_deref(),
        Some("semantic task `task-root` is assigned to project AGENT `query`, not `other`")
    );
    assert_eq!(
        executor_mismatch(&node(ProjectTaskExecutor::Unassigned, Vec::new()), &agent_id("other")),
        None
    );
}
