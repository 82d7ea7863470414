use project_agents::tui::{error_event_line, maintain_command, MaintainCommand};
use project_agents::tui::{workbench_dispatch, WorkbenchDispatch};
use project_agents::tui::{
    floor_char_boundary, maintenance_failed_message, maintenance_reminder_hint,
    maintenance_reminder_message, short_window_id, workbench_request, MaintenanceReminderState,
    MaintenanceStatusNotice, WorkbenchRequest,
};

fn notice(thread: &str, pending_count: u64, catalog_revision: u64) -> MaintenanceStatusNotice {
    MaintenanceStatusNotice { thread_id: thread.to_string(), pending_count, catalog_revision }
}

#[test]
fn a_pending_status_reminds_once() {
    let mut state = MaintenanceReminderState::new();
    assert_eq!(state.on_status_updated(Some("t"), notice("t", 2, 7), false), Some(2));
    assert_eq!(state.on_status_updated(Some("t"), notice("t", 2, 7), false), None);
    assert_eq!(state.on_status_updated(Some("t"), notice("t", 2, 8), false), Some(2));
    assert_eq!(
        maintenance_reminder_message(2),
        "Project AGENT maintenance has 2 pending items."
    );
}

#[test]
fn busy_turns_defer_and_other_threads_are_ignored() {
    let mut state = MaintenanceReminderState::new();
    assert_eq!(state.on_status_updated(Some("t"), notice("t", 1, 1), true), None);
    assert_eq!(state.reminder(Some("t"), false), Some(1));
    assert_eq!(state.on_status_updated(Some("t"), notice("other", 5, 1), false), None);
    assert_eq!(state.on_status_updated(Some("t"), notice("t", 0, 2), false), None);
    assert_eq!(state.on_status_updated(None, notice("t", 3, 2), false), None);
}

#[test]
fn agent_command_arguments() {
    assert_eq!(workbench_request("  "), WorkbenchRequest::Open { selected_task_id: None });
    assert_eq!(
        workbench_request(" task-root "),
        WorkbenchRequest::Open { selected_task_id: Some("task-root".to_string()) }
    );
    assert_eq!(workbench_request("two words"), WorkbenchRequest::Usage);
}

#[test]
fn byte_cuts_respect_character_boundaries() {
    assert_eq!(short_window_id("0123456789"), "01234567");
    assert_eq!(short_window_id("abc"), "abc");
    assert_eq!(short_window_id("ab界界界"), "ab界界");
    assert_eq!(short_window_id("abcdefg界"), "abcdefg界");
    assert_eq!(floor_char_boundary("a界b", 2), 1);
    assert_eq!(floor_char_boundary("a界b", 10), 5);
}

fn reminder_line(pending: u64) -> String {
    format!(
        "• {} {}",
        maintenance_reminder_message(pending),
        maintenance_reminder_hint()
    )
}

#[test]
fn idle_project_agent_maintenance_notification_shows_reminder_snapshot() {
    let mut state = MaintenanceReminderState::new();
    let shown = state.on_status_updated(Some("thread"), notice("thread", 2, 7), false);
    assert_eq!(
        shown.map(reminder_line).as_deref(),
        Some("• Project AGENT maintenance has 2 pending items. Run /agents-maintain when you're ready; active tasks are never interrupted.")
    );
}

#[test]
fn duplicate_project_agent_maintenance_notification_is_reminded_once() {
    let mut state = MaintenanceReminderState::new();
    assert!(state.on_status_updated(Some("thread"), notice("thread", 1, 3), false).is_some());
    assert!(state.on_status_updated(Some("thread"), notice("thread", 1, 3), false).is_none());
}

#[test]
fn active_turn_defers_project_agent_maintenance_reminder_until_completion() {
    let mut state = MaintenanceReminderState::new();
    assert!(state.on_status_updated(Some("thread"), notice("thread", 4, 9), true).is_none());
    let shown = state.reminder(Some("thread"), false);
    assert_eq!(
        shown.map(reminder_line).as_deref(),
        Some("• Project AGENT maintenance has 4 pending items. Run /agents-maintain when you're ready; active tasks are never interrupted.")
    );
}

#[test]
fn zero_pending_project_agent_maintenance_status_stays_silent() {
    let mut state = MaintenanceReminderState::new();
    assert!(state.on_status_updated(Some("thread"), notice("thread", 0, 2), false).is_none());
}

#[test]
fn project_agent_maintenance_notification_for_other_thread_is_ignored() {
    let mut state = MaintenanceReminderState::new();
    assert!(state.on_status_updated(Some("mine"), notice("other", 2, 5), false).is_none());
    assert!(state.last_status.is_none());
}

#[test]
fn project_agent_maintenance_completion_shows_counts_snapshot() {
    let mut state = MaintenanceReminderState::new();
    let message = state.on_maintenance_completed(Some("thread"), 3, 1, notice("thread", 0, 8));
    assert_eq!(
        message.map(|m| format!("• {m}")).as_deref(),
        Some("• Project AGENT maintenance completed: 3 accepted, 1 rejected.")
    );
    assert_eq!(state.last_reminded, None);
    assert!(state
        .on_maintenance_completed(Some("thread"), 1, 0, notice("other", 0, 9))
        .is_none());
    assert_eq!(
        maintenance_failed_message("boom"),
        "Failed to run project AGENT maintenance: boom"
    );
}

#[test]
fn agent_command_opens_semantic_task_workspace() {
    assert_eq!(workbench_request(""), WorkbenchRequest::Open { selected_task_id: None });
}

#[test]
fn agent_command_accepts_task_id() {
    assert_eq!(
        workbench_request("task-root"),
        WorkbenchRequest::Open { selected_task_id: Some("task-root".to_string()) }
    );
}

fn rendered_maintain_history(thread_id: Option<&str>, task_running: bool) -> String {
    match maintain_command(thread_id, task_running) {
        MaintainCommand::Refused { message } => error_event_line(&message),
        MaintainCommand::Run { .. } => String::new(),
    }
}

#[test]
fn agents_maintain_command_targets_current_thread() {
    let thread_id = "019a0000-0000-7000-8000-000000000001";
    assert_eq!(
        maintain_command(Some(thread_id), false),
        MaintainCommand::Run { thread_id: thread_id.to_string() }
    );
}

#[test]
fn agents_maintain_command_before_session_start_reports_error_snapshot() {
    assert_eq!(
        rendered_maintain_history(None, false),
        "\u{25a0} Project AGENT maintenance is unavailable before the session starts."
    );
}

#[test]
fn agents_maintain_command_is_disabled_during_active_task_snapshot() {
    assert_eq!(
        rendered_maintain_history(Some("019a0000-0000-7000-8000-000000000001"), true),
        "\u{25a0} '/agents-maintain' is disabled while a task is in progress."
    );
}

#[test]
fn agent_command_reports_usage_and_missing_session() {
    assert_eq!(
        workbench_dispatch(Some("thread-1"), "task-root"),
        WorkbenchDispatch::Open {
            thread_id: "thread-1".to_string(),
            selected_task_id: Some("task-root".to_string())
        }
    );
    assert_eq!(
        workbench_dispatch(Some("thread-1"), "two words"),
        WorkbenchDispatch::Error { message: "用法：/agent 或 /agent <task-id>".to_string() }
    );
    assert_eq!(
        workbench_dispatch(None, ""),
        WorkbenchDispatch::Error { message: "会话启动后才能打开项目任务工作区。".to_string() }
    );
}
