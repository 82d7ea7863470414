use project_agents::task_workspace::{
    ProjectTaskEvaluation, ProjectTaskEvaluationVerdict, ProjectTaskExecutor, ProjectTaskId,
    ProjectTaskResult, ProjectTaskResultStatus, ProjectTaskStatus, ProjectTaskWorkspace,
    ProjectTaskWorkspaceError,
};
use project_agents::types::ProjectAgentId;

fn done(at: i64) -> ProjectTaskResult {
    ProjectTaskResult {
        status: ProjectTaskResultStatus::Completed,
        summary: "Done".to_string(),
        artifacts: Vec::new(),
        evidence: Vec::new(),
        suggested_children: Vec::new(),
        error: None,
        completed_at: at,
    }
}

#[test]
fn semantic_task_workspace_rejects_duplicate_or_terminal_mutation() {
    let root_id = ProjectTaskId::new("root").expect("root task id");
    let mut workspace = ProjectTaskWorkspace::default();
    workspace
        .create_task(
            root_id.clone(),
            None,
            "Root".to_string(),
            "Complete the root task.".to_string(),
            ProjectTaskExecutor::MainAgent,
            1,
        )
        .expect("create root task");

    assert_eq!(
        workspace
            .create_task(
                root_id.clone(),
                None,
                "Duplicate".to_string(),
                "Must be rejected.".to_string(),
                ProjectTaskExecutor::Unassigned,
                2,
            )
            .expect_err("duplicate task must fail"),
        ProjectTaskWorkspaceError::TaskAlreadyExists(root_id.clone())
    );

    workspace
        .record_result(&root_id, done(3))
        .expect("record result");
    assert_eq!(
        workspace
            .append_requirement(&root_id, "Late requirement".to_string(), 4)
            .expect_err("terminal mutation must fail"),
        ProjectTaskWorkspaceError::InvalidState {
            task_id: root_id,
            status: ProjectTaskStatus::Completed,
            operation: "append a requirement",
        }
    );
}

#[test]
fn a_tree_of_tasks_runs_from_creation_to_evaluation() {
    let root_id = ProjectTaskId::new("improve-ui").expect("root id");
    let child_id = ProjectTaskId::new("inspect-ui").expect("child id");
    let mut workspace = ProjectTaskWorkspace::default();
    workspace
        .create_task(
            root_id.clone(),
            None,
            "Improve".to_string(),
            "Deliver a task workbench.".to_string(),
            ProjectTaskExecutor::MainAgent,
            10,
        )
        .expect("root");
    workspace
        .create_task(
            child_id.clone(),
            Some(root_id.clone()),
            "Inspect".to_string(),
            "Find the fragmented cards.".to_string(),
            ProjectTaskExecutor::ProjectAgent { agent_id: ProjectAgentId::new("query").expect("id") },
            11,
        )
        .expect("child");
    workspace
        .append_requirement(&child_id, "Keep legacy reads.".to_string(), 12)
        .expect("requirement");
    workspace
        .start_execution(
            &child_id,
            ProjectAgentId::new("query").expect("id"),
            "019ff546".to_string(),
            13,
        )
        .expect("start");
    assert_eq!(
        workspace.task(&child_id).expect("child").status,
        ProjectTaskStatus::InProgress
    );
    workspace.record_result(&child_id, done(14)).expect("result");
    workspace
        .set_evaluation(
            &child_id,
            ProjectTaskEvaluation {
                verdict: ProjectTaskEvaluationVerdict::Passed,
                summary: "Supported.".to_string(),
                evidence: vec!["Writer identified.".to_string()],
                evaluated_at: 15,
            },
        )
        .expect("evaluation");
    assert!(workspace.validate().is_ok());
    assert_eq!(workspace.root_tasks().len(), 1);
    assert_eq!(workspace.child_tasks(&root_id).len(), 1);
    assert_eq!(workspace.updated_at, 15);
    let child = workspace.task(&child_id).expect("child");
    assert_eq!(child.requirements, vec!["Keep legacy reads.".to_string()]);
    assert_eq!(child.status, ProjectTaskStatus::Completed);
}

#[test]
fn unknown_tasks_and_parents_are_refused() {
    let mut workspace = ProjectTaskWorkspace::default();
    let missing = ProjectTaskId::new("missing").expect("id");
    let child = ProjectTaskId::new("child").expect("id");
    assert_eq!(
        workspace
            .create_task(
                child,
                Some(missing.clone()),
                "Child".to_string(),
                "Orphan.".to_string(),
                ProjectTaskExecutor::Unassigned,
                1,
            )
            .expect_err("parent must exist"),
        ProjectTaskWorkspaceError::TaskNotFound(missing.clone())
    );
    assert_eq!(
        workspace
            .append_requirement(&missing, "x".to_string(), 1)
            .expect_err("task must exist"),
        ProjectTaskWorkspaceError::TaskNotFound(missing)
    );
    assert!(workspace.tasks.is_empty());
    assert!(ProjectTaskId::new("Not Valid").is_err());
}
