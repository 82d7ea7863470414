use project_agents::worker_turn::{event_read_failed_message, submit_failed_message, worker_turn_request};
use project_agents::result_schema::project_agent_result_schema;
use project_agents::agent::{ProjectAgentTaskResult, ProjectAgentTaskStatus};
use project_agents::task::ProjectAgentTaskPhase;
use project_agents::types::ProjectAgentId;
use project_agents::control::queued_task_metadata;
use project_agents::worker_turn::{
    finish_worker_turn, next_session_metadata, set_task_phase, setup_failure, turn_event_end,
    worker_reusable, worker_session_source, WorkerTurnEnd, WorkerTurnEvent, WorkerTurnOutcome,
};

fn agent() -> ProjectAgentId {
    ProjectAgentId::new("query").expect("agent id")
}

fn completed(status: ProjectAgentTaskStatus) -> ProjectAgentTaskResult {
    ProjectAgentTaskResult {
        status,
        agent_id: agent(),
        task_id: "task-1".to_string(),
        result: "done".to_string(),
        artifacts: Vec::new(),
        evidence: vec!["src/lib.rs".to_string()],
        memory_candidates: Vec::new(),
        improvement_proposals: Vec::new(),
        error: if status == ProjectAgentTaskStatus::Failed {
            Some("broke".to_string())
        } else {
            None
        },
    }
}

#[test]
fn turn_events_end_the_turn_or_not() {
    assert_eq!(turn_event_end(&WorkerTurnEvent::Other), None);
    assert_eq!(
        turn_event_end(&WorkerTurnEvent::TurnComplete {
            last_agent_message: Some("{}".to_string())
        }),
        Some(WorkerTurnEnd::Completed("{}".to_string()))
    );
    assert_eq!(
        turn_event_end(&WorkerTurnEvent::TurnComplete {
            last_agent_message: None
        }),
        Some(WorkerTurnEnd::Failed(
            "project AGENT worker returned no final message".to_string()
        ))
    );
    assert_eq!(
        turn_event_end(&WorkerTurnEvent::TurnAborted {
            reason: "Interrupted".to_string()
        }),
        Some(WorkerTurnEnd::Interrupted(
            "project AGENT turn was interrupted: Interrupted".to_string()
        ))
    );
    assert_eq!(
        turn_event_end(&WorkerTurnEvent::ShutdownComplete),
        Some(WorkerTurnEnd::SessionFailed(
            "project AGENT worker shut down before completing the task".to_string()
        ))
    );
}

#[test]
fn completed_turns_keep_valid_results() {
    let run = finish_worker_turn(
        &agent(),
        "task-1",
        WorkerTurnOutcome::Completed(Ok(completed(ProjectAgentTaskStatus::Completed))),
    );
    assert_eq!(run.phase, ProjectAgentTaskPhase::Completed);
    assert_eq!(run.result.result, "done");
    assert!(!run.discard_worker);
    let failed = finish_worker_turn(
        &agent(),
        "task-1",
        WorkerTurnOutcome::Completed(Ok(completed(ProjectAgentTaskStatus::Failed))),
    );
    assert_eq!(failed.phase, ProjectAgentTaskPhase::Failed);
    let garbled = finish_worker_turn(
        &agent(),
        "task-1",
        WorkerTurnOutcome::Completed(Err("expected value".to_string())),
    );
    assert_eq!(garbled.phase, ProjectAgentTaskPhase::Failed);
    assert_eq!(
        garbled.result.error.as_deref(),
        Some("invalid project AGENT result JSON: expected value")
    );
}

#[test]
fn broken_turns_fail_and_discard_the_worker() {
    let timed_out = finish_worker_turn(&agent(), "task-1", WorkerTurnOutcome::TimedOut);
    assert_eq!(timed_out.phase, ProjectAgentTaskPhase::Interrupted);
    assert!(timed_out.discard_worker);
    assert_eq!(
        timed_out.result.error.as_deref(),
        Some("project AGENT worker exceeded the 30 minute turn limit")
    );
    let interrupted = finish_worker_turn(
        &agent(),
        "task-1",
        WorkerTurnOutcome::Interrupted("stop".to_string()),
    );
    assert_eq!(interrupted.phase, ProjectAgentTaskPhase::Interrupted);
    assert!(!interrupted.discard_worker);
    let session = finish_worker_turn(
        &agent(),
        "task-1",
        WorkerTurnOutcome::SessionFailed("gone".to_string()),
    );
    assert_eq!(session.phase, ProjectAgentTaskPhase::Failed);
    assert!(session.discard_worker);
    let setup = setup_failure(&agent(), "task-1", "no worker");
    assert_eq!(setup.phase, ProjectAgentTaskPhase::Failed);
    assert!(!setup.discard_worker);
    assert_eq!(setup.result.status, ProjectAgentTaskStatus::Failed);
    assert_eq!(setup.result.error.as_deref(), Some("no worker"));
}

#[test]
fn sessions_advance_a_generation_per_start() {
    let first = next_session_metadata(&agent(), "thread-1".to_string(), None, 5);
    assert_eq!(first.generation, 1);
    assert_eq!(first.created_at, 5);
    let second = next_session_metadata(&agent(), "thread-2".to_string(), Some(&first), 9);
    assert_eq!(second.generation, 2);
    assert_eq!(second.thread_id, "thread-2");
    assert_eq!(worker_session_source(&agent()), "project-agent:query");
}

#[test]
fn task_phases_never_predate_creation() {
    let mut m = queued_task_metadata(
        &agent(),
        "task-1".to_string(),
        "Inspect".to_string(),
        "root".to_string(),
        100,
    );
    set_task_phase(&mut m, ProjectAgentTaskPhase::Running, 50);
    assert_eq!(m.phase, ProjectAgentTaskPhase::Running);
    assert_eq!(m.updated_at, 100);
    set_task_phase(&mut m, ProjectAgentTaskPhase::Completed, 200);
    assert_eq!(m.updated_at, 200);
}

#[test]
fn only_live_workers_of_the_agent_are_reused() {
    let other = ProjectAgentId::new("other").expect("agent id");
    assert!(worker_reusable(false, Some(&agent()), &agent()));
    assert!(!worker_reusable(true, Some(&agent()), &agent()));
    assert!(!worker_reusable(false, Some(&other), &agent()));
    assert!(!worker_reusable(false, None, &agent()));
}

#[test]
fn the_turn_asks_for_the_task_under_the_result_schema() {
    let metadata = queued_task_metadata(&agent(), "task-1".to_string(), "Inspect".to_string(), "root".to_string(), 10);
    let request = worker_turn_request(&metadata);
    assert_eq!(request.text, "Inspect");
    assert_eq!(request.final_output_schema, project_agent_result_schema(&agent(), Some("task-1")));
    assert_eq!(submit_failed_message("closed"), "failed to submit project AGENT task: closed");
    assert_eq!(event_read_failed_message("eof"), "failed to read project AGENT event: eof");
}
