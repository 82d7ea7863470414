use project_agents::agent::{ProjectAgentTaskResult, ProjectAgentTaskStatus};
use project_agents::control::{
    append_semantic_requirement, busy_message, check_follow_up, check_task_text,
    create_semantic_task, new_task_id_text, plan_semantic_execution, queued_task_metadata,
    rebuild_sessions, retry_source_missing_message, retry_task_metadata,
    start_semantic_execution, start_task_metadata, task_update_timestamp,
    write_back_worker_result, select_environment, worker_overrides, unknown_provider_message,
    invalid_effort_message, roster_page, SemanticTaskError,
};
use project_agents::registry::new_agent_definition;
use project_agents::control::plan_retry;
use project_agents::control::{isolate_worker_context, select_worker_provider, WorkerHostContext};
use project_agents::worker_turn::setup_failure;
use project_agents::task::ProjectAgentTaskPhase;
use project_agents::task_workspace::{
    ProjectTaskEvaluation, ProjectTaskEvaluationVerdict, ProjectTaskExecutor, ProjectTaskId,
    ProjectTaskResult, ProjectTaskResultStatus, ProjectTaskStatus, ProjectTaskSuggestedChild,
    ProjectTaskWorkspace, ProjectTaskWorkspaceError,
};
use project_agents::types::ProjectAgentId;

fn agent(id: &str) -> ProjectAgentId {
    ProjectAgentId::new(id).expect("agent id")
}

fn is_hyphenated_uuid(s: &str) -> bool {
    s.len() == 36
        && s.chars().enumerate().all(|(i, c)| match i {
            8 | 13 | 18 | 23 => c == '-',
            _ => c.is_ascii_digit() || ('a'..='f').contains(&c),
        })
}

#[test]
fn fresh_ids_are_hyphenated_version_seven_uuids() {
    let a = new_task_id_text();
    let b = new_task_id_text();
    assert!(is_hyphenated_uuid(&a), "{a}");
    assert_eq!(&a[14..15], "7");
    assert_ne!(a, b);
}

#[test]
fn requests_must_fit_their_budgets() {
    assert!(check_follow_up("continue").is_ok());
    assert_eq!(
        check_follow_up("   ").unwrap_err(),
        "project AGENT follow-up must be non-empty and at most 16384 bytes"
    );
    assert!(check_follow_up(&"x".repeat(16385)).is_err());
    assert!(check_task_text(&"x".repeat(16384)).is_ok());
    assert_eq!(
        check_task_text("").unwrap_err(),
        "project AGENT task must be non-empty and at most 16384 bytes"
    );
    assert_eq!(
        busy_message(&agent("query")),
        "project AGENT `query` already has an active task"
    );
}

#[test]
fn queued_tasks_start_at_the_first_attempt() {
    let m = queued_task_metadata(
        &agent("query"),
        "task-1".to_string(),
        "Inspect".to_string(),
        "root".to_string(),
        10,
    );
    assert_eq!(m.phase, ProjectAgentTaskPhase::Queued);
    assert_eq!(m.attempt, 1);
    assert_eq!(m.updated_at, 10);
    let fresh = start_task_metadata(&agent("query"), "Inspect".to_string(), "root".to_string(), 3);
    assert!(is_hyphenated_uuid(&fresh.task_id));
    assert_eq!(fresh.schema_version, 1);
}

#[test]
fn retries_continue_finished_tasks_only() {
    let mut source = queued_task_metadata(
        &agent("query"),
        "task-1".to_string(),
        "Inspect".to_string(),
        "root".to_string(),
        10,
    );
    assert_eq!(
        retry_task_metadata(&source, "task-2".to_string(), "root".to_string(), 20).unwrap_err(),
        "project AGENT task `task-1` is still active"
    );
    source.phase = ProjectAgentTaskPhase::Failed;
    source.attempt = 2;
    let retry = retry_task_metadata(&source, "task-2".to_string(), "root".to_string(), 20)
        .expect("retry");
    assert_eq!(retry.attempt, 3);
    assert_eq!(retry.task, "Inspect");
    assert_eq!(retry.task_id, "task-2");
    source.attempt = u32::MAX;
    let capped = retry_task_metadata(&source, "task-3".to_string(), "root".to_string(), 20)
        .expect("retry");
    assert_eq!(capped.attempt, u32::MAX);
    assert_eq!(
        retry_source_missing_message(&agent("query"), Some("t")),
        "project AGENT task not found: query/t"
    );
    assert_eq!(
        retry_source_missing_message(&agent("query"), None),
        "project AGENT `query` has no task to retry"
    );
}

#[test]
fn rebuilds_retire_live_and_stored_sessions_once() {
    let (previous, candidates) =
        rebuild_sessions(Some("a".to_string()), Some(("b".to_string(), true)));
    assert_eq!(previous.as_deref(), Some("a"));
    assert_eq!(candidates, vec!["a".to_string(), "b".to_string()]);
    let (_, same) = rebuild_sessions(Some("a".to_string()), Some(("a".to_string(), true)));
    assert_eq!(same, vec!["a".to_string()]);
    let (previous, unparsable) = rebuild_sessions(None, Some(("bad".to_string(), false)));
    assert_eq!(previous.as_deref(), Some("bad"));
    assert!(unparsable.is_empty());
}

#[test]
fn semantic_tasks_are_created_updated_and_handed_out() {
    let mut ws = ProjectTaskWorkspace::new();
    let id = create_semantic_task(
        &mut ws,
        None,
        "Root".to_string(),
        "Do it".to_string(),
        ProjectTaskExecutor::Unassigned,
        100,
    )
    .expect("create");
    assert!(is_hyphenated_uuid(id.as_str()));
    assert_eq!(task_update_timestamp(&ws, &id, 50).expect("ts"), 100);
    assert_eq!(task_update_timestamp(&ws, &id, 150).expect("ts"), 150);
    append_semantic_requirement(&mut ws, &id, "Be brief".to_string(), 90).expect("append");
    assert_eq!(ws.task(&id).expect("task").updated_at, 100);
    let missing = ProjectTaskId::new("missing").expect("id");
    assert!(matches!(
        task_update_timestamp(&ws, &missing, 1),
        Err(ProjectTaskWorkspaceError::TaskNotFound(_))
    ));
    let execution = plan_semantic_execution(
        &mut ws,
        &id,
        &agent("query"),
        "exec-1".to_string(),
        "root".to_string(),
        120,
    )
    .expect("start");
    assert_eq!(execution.task_id, "exec-1");
    assert_eq!(execution.created_at, 120);
    assert!(execution.task.starts_with("Task: Root\n\nObjective:\nDo it"));
    assert!(execution.task.contains("- Be brief\n"));
    let task = ws.task(&id).expect("task");
    assert_eq!(task.status, ProjectTaskStatus::InProgress);
    assert_eq!(task.execution_task_id.as_deref(), Some("exec-1"));
    let other = start_semantic_execution(&mut ws, &id, &agent("other"), "root".to_string(), 130);
    assert!(matches!(other, Err(SemanticTaskError::ExecutorMismatch(_))));
    let result = ProjectAgentTaskResult {
        status: ProjectAgentTaskStatus::Completed,
        agent_id: agent("query"),
        task_id: "exec-1".to_string(),
        result: "Found it".to_string(),
        artifacts: Vec::new(),
        evidence: vec!["src/lib.rs".to_string()],
        memory_candidates: Vec::new(),
        improvement_proposals: Vec::new(),
        error: None,
    };
    write_back_worker_result(&mut ws, &id, result, 110).expect("write back");
    let task = ws.task(&id).expect("task");
    assert_eq!(task.status, ProjectTaskStatus::Completed);
    assert_eq!(task.result.as_ref().map(|r| r.completed_at), Some(120));
}

#[test]
fn delegated_tasks_prefer_the_primary_environment() {
    let ids = vec!["remote".to_string(), "local".to_string(), "local".to_string()];
    assert_eq!(select_environment(&ids, "local"), Some(1));
    assert_eq!(select_environment(&ids, "other"), Some(0));
    assert_eq!(select_environment(&Vec::new(), "local"), None);
}

#[test]
fn workers_take_model_settings_from_the_definition() {
    let (_, mut definition) =
        new_agent_definition(&agent("query"), "Query specialist".to_string()).expect("definition");
    definition.model = Some("gpt-5.6-luna".to_string());
    definition.model_reasoning_effort = Some("high".to_string());
    definition.model_provider = Some("default".to_string());
    let overrides = worker_overrides(&definition);
    assert_eq!(overrides.model.as_deref(), Some("gpt-5.6-luna"));
    assert_eq!(overrides.reasoning_effort.as_deref(), Some("high"));
    assert_eq!(overrides.model_provider, None);
    definition.model_provider = Some("worker-provider".to_string());
    assert_eq!(
        worker_overrides(&definition).model_provider.as_deref(),
        Some("worker-provider")
    );
    assert_eq!(
        unknown_provider_message("x"),
        "model provider `x` is not configured"
    );
    assert_eq!(
        invalid_effort_message("max", "unknown"),
        "invalid model reasoning effort `max`: unknown"
    );
}

#[test]
fn runtime_workspace_mutations_preserve_one_semantic_task_tree() {
    let mut ws = ProjectTaskWorkspace::new();
    let root_id = create_semantic_task(
        &mut ws,
        None,
        "Improve the AGENT workbench".to_string(),
        "Organize project AGENT work around semantic tasks.".to_string(),
        ProjectTaskExecutor::MainAgent,
        1_700_000_000,
    )
    .expect("create root task");
    let root = ws.task(&root_id).expect("root").clone();
    let child_id = create_semantic_task(
        &mut ws,
        Some(root_id.clone()),
        "Inspect the current panel".to_string(),
        "Identify why execution lifecycle cards appear fragmented.".to_string(),
        ProjectTaskExecutor::Unassigned,
        1_700_000_001,
    )
    .expect("create child task");
    append_semantic_requirement(
        &mut ws,
        &child_id,
        "Keep legacy rollout reads compatible.".to_string(),
        1_700_000_002,
    )
    .expect("append requirement");
    let child = ws.task(&child_id).expect("child").clone();
    let result = ProjectTaskResult {
        status: ProjectTaskResultStatus::Completed,
        summary: "The current UI appends one card per lifecycle transition.".to_string(),
        artifacts: vec!["task/artifacts/ui-review.md".to_string()],
        evidence: vec!["Started and completed events render independently.".to_string()],
        suggested_children: vec![ProjectTaskSuggestedChild {
            title: "Render in place".to_string(),
            objective: "Update the selected task card without adding a sibling card.".to_string(),
        }],
        error: None,
        completed_at: child.updated_at,
    };
    ws.record_result(&child_id, result.clone()).expect("record result");
    let completed = ws.task(&child_id).expect("child").clone();
    let evaluation = ProjectTaskEvaluation {
        verdict: ProjectTaskEvaluationVerdict::Passed,
        summary: "The finding is specific and supported.".to_string(),
        evidence: vec!["The writer and rendered cards were identified.".to_string()],
        evaluated_at: completed.updated_at,
    };
    ws.set_evaluation(&child_id, evaluation.clone()).expect("set evaluation");
    let evaluated = ws.task(&child_id).expect("child").clone();

    assert_eq!(
        ws.root_tasks().into_iter().cloned().collect::<Vec<_>>(),
        vec![root]
    );
    assert_eq!(
        ws.child_tasks(evaluated.parent_task_id.as_ref().expect("child parent task id"))
            .into_iter()
            .cloned()
            .collect::<Vec<_>>(),
        vec![evaluated.clone()]
    );
    assert_eq!(
        evaluated.requirements,
        vec!["Keep legacy rollout reads compatible.".to_string()]
    );
    assert_eq!(evaluated.result, Some(result));
    assert_eq!(evaluated.evaluation, Some(evaluation));
}

#[test]
fn execution_binding_keeps_worker_lifecycle_inside_one_semantic_task() {
    let agent_id = agent("query");
    let mut ws = ProjectTaskWorkspace::new();
    let task_id = create_semantic_task(
        &mut ws,
        None,
        "Inspect the panel".to_string(),
        "Return one bounded finding.".to_string(),
        ProjectTaskExecutor::ProjectAgent { agent_id: agent_id.clone() },
        1_700_000_000,
    )
    .expect("create semantic task");
    append_semantic_requirement(
        &mut ws,
        &task_id,
        "Include concrete evidence.".to_string(),
        1_700_000_001,
    )
    .expect("append requirement");

    let execution =
        start_semantic_execution(&mut ws, &task_id, &agent_id, "root".to_string(), 1_700_000_002)
            .expect("start execution");
    let task = ws.task(&task_id).expect("task").clone();
    assert_ne!(task.task_id.as_str(), execution.task_id);
    assert_eq!(task.status, ProjectTaskStatus::InProgress);
    assert_eq!(task.execution_task_id.as_deref(), Some(execution.task_id.as_str()));
    assert!(execution.task.contains("Include concrete evidence."));

    // Without a host to start the worker, the run fails before its turn.
    let run = setup_failure(&agent_id, &execution.task_id, "project AGENT thread manager is unavailable");
    write_back_worker_result(&mut ws, &task_id, run.result, 1_700_000_003).expect("write back");
    let completed = ws.task(&task_id).expect("task").clone();
    assert_eq!(completed.task_id, task.task_id);
    assert_eq!(completed.execution_task_id, Some(execution.task_id.clone()));
    assert_eq!(completed.status, ProjectTaskStatus::Failed);
    assert_eq!(
        completed.result.as_ref().expect("worker result written back").status,
        ProjectTaskResultStatus::Failed
    );
    assert_eq!(ws.tasks, vec![completed]);
}

#[test]
fn roster_pages_hold_their_limit_between_one_and_a_hundred() {
    assert_eq!(roster_page(10, 0, 3), (0, 3));
    assert_eq!(roster_page(10, 8, 3), (8, 10));
    assert_eq!(roster_page(10, 2, 0), (2, 3));
    assert_eq!(roster_page(500, 0, 1000), (0, 100));
    let (start, end) = roster_page(10, 12, 3);
    assert_eq!(start, end);
    assert_eq!(roster_page(10, usize::MAX, 5).0, roster_page(10, usize::MAX, 5).1);
}

#[test]
fn worker_config_applies_overrides_and_disables_host_context() {
    let (_, mut definition) =
        new_agent_definition(&agent("query"), "Query specialist".to_string()).expect("definition");
    definition.model = Some("worker-model".to_string());
    definition.model_reasoning_effort = Some("high".to_string());
    definition.model_provider = Some("worker-provider".to_string());
    let overrides = worker_overrides(&definition);
    assert_eq!(overrides.model.as_deref(), Some("worker-model"));
    assert_eq!(overrides.reasoning_effort.as_deref(), Some("high"));
    let configured = vec!["openai".to_string(), "worker-provider".to_string()];
    assert_eq!(
        select_worker_provider(overrides.model_provider.as_deref(), &configured),
        Ok(Some("worker-provider".to_string()))
    );
    assert_eq!(
        select_worker_provider(Some("missing"), &configured),
        Err("model provider `missing` is not configured".to_string())
    );
    assert_eq!(select_worker_provider(None, &configured), Ok(None));

    let mut context = WorkerHostContext {
        include_permissions_instructions: true,
        include_apps_instructions: true,
        include_collaboration_mode_instructions: true,
        include_skill_instructions: true,
        orchestrator_skills_enabled: true,
        orchestrator_mcp_enabled: true,
        include_environment_context: true,
        project_doc_max_bytes: 1234,
        project_doc_fallback_filenames: vec!["PROJECT.md".to_string()],
        developer_instructions: Some("host instructions".to_string()),
        notify: Some(vec!["notify-send".to_string()]),
        ephemeral: true,
        generate_memories: true,
        use_memories: true,
        dedicated_memory_tools: true,
    };
    isolate_worker_context(&mut context);
    assert_eq!(
        context,
        WorkerHostContext {
            include_permissions_instructions: false,
            include_apps_instructions: false,
            include_collaboration_mode_instructions: false,
            include_skill_instructions: false,
            orchestrator_skills_enabled: false,
            orchestrator_mcp_enabled: false,
            include_environment_context: false,
            project_doc_max_bytes: 0,
            project_doc_fallback_filenames: Vec::new(),
            developer_instructions: None,
            notify: None,
            ephemeral: false,
            generate_memories: false,
            use_memories: false,
            dedicated_memory_tools: false,
        }
    );
}

#[test]
fn retries_refuse_busy_agents_and_take_a_new_id() {
    let mut source = queued_task_metadata(
        &agent("query"),
        "task-1".to_string(),
        "Inspect".to_string(),
        "root".to_string(),
        10,
    );
    assert_eq!(
        plan_retry(&agent("query"), None, Some(&source), true, "root".to_string(), 20).unwrap_err(),
        "project AGENT `query` already has an active task"
    );
    assert_eq!(
        plan_retry(&agent("query"), Some("t9"), None, false, "root".to_string(), 20).unwrap_err(),
        "project AGENT task not found: query/t9"
    );
    assert_eq!(
        plan_retry(&agent("query"), None, Some(&source), false, "root".to_string(), 20).unwrap_err(),
        "project AGENT task `task-1` is still active"
    );
    source.phase = ProjectAgentTaskPhase::Completed;
    let retry = plan_retry(&agent("query"), None, Some(&source), false, "root".to_string(), 20)
        .expect("retry");
    assert_ne!(retry.task_id, source.task_id);
    assert!(is_hyphenated_uuid(&retry.task_id));
    assert_eq!(retry.attempt, 2);
    assert_eq!(retry.phase, ProjectAgentTaskPhase::Queued);
    assert_eq!(retry.session_thread_id, None);
}
