use project_agents::projection::tokenize;
use project_agents::task::{validate_thread_id, ProjectAgentTaskListLimit, ProjectAgentTaskPhase};
use project_agents::types::ProjectAgentValidationError;

#[test]
fn thread_ids_refuse_control_characters() {
    assert!(validate_thread_id("session_thread_id", "019ff546-3156").is_ok());
    assert_eq!(
        validate_thread_id("session_thread_id", "bad\u{7}id"),
        Err(ProjectAgentValidationError::InvalidField {
            field: "session_thread_id",
            reason: "must be non-empty and at most 128 bytes".to_string(),
        })
    );
    assert!(validate_thread_id("session_thread_id", "").is_err());
}

#[test]
fn list_limits_are_clamped() {
    assert_eq!(ProjectAgentTaskListLimit::new(0).get(), 1);
    assert_eq!(ProjectAgentTaskListLimit::new(500).get(), 100);
    assert_eq!(ProjectAgentTaskListLimit::default().get(), 25);
    assert!(ProjectAgentTaskPhase::Running.is_active());
}

#[test]
fn non_ascii_terms_are_lowercased() {
    assert_eq!(tokenize("É"), vec!["é".to_string()]);
}

use project_agents::task::{task_control, ProjectAgentTaskMetadata};
use project_agents::types::ProjectAgentId;
use project_agents::worker_tools::latest_task_for_session;

fn metadata(task_id: &str, session: Option<&str>, updated_at: i64) -> ProjectAgentTaskMetadata {
    ProjectAgentTaskMetadata {
        schema_version: 1,
        agent_id: ProjectAgentId::new("query").expect("id"),
        task_id: task_id.to_string(),
        task: "Inspect".to_string(),
        phase: ProjectAgentTaskPhase::Running,
        session_thread_id: session.map(str::to_string),
        parent_thread_id: "root".to_string(),
        attempt: 1,
        created_at: 1,
        updated_at,
    }
}

#[test]
fn a_session_continues_its_latest_task() {
    let tasks = vec![
        metadata("a", Some("s1"), 5),
        metadata("b", Some("s2"), 9),
        metadata("c", Some("s1"), 7),
        metadata("d", Some("s1"), 7),
        metadata("e", None, 10),
    ];
    assert_eq!(latest_task_for_session(&tasks, "s1"), Some(3));
    assert_eq!(latest_task_for_session(&tasks, "s3"), None);
    let control = task_control(&tasks[3], "s1");
    assert_eq!(control.task_id, "d");
    assert_eq!(control.session_thread_id, "s1");
}
