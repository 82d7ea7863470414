use project_agents::task_watch::{workbench_effect, WorkbenchEffect, WorkbenchReply};
use project_agents::task_watch::{workbench_action_message, WorkbenchActionOutcome};
use project_agents::task::ProjectAgentTaskPhase;
use project_agents::task_watch::{
    action_report, finished_read_failed_message, follow_up_message, list_failed_message,
    read_failed_message, rebuild_message, retry_message, start_failed_message,
    terminate_message, watch_timeout_message, ActionReport, AgentRead, TaskSighting, TaskWatch,
    WatchStep,
};

fn sighting(id: &str, phase: ProjectAgentTaskPhase) -> TaskSighting {
    TaskSighting {
        task_id: id.to_string(),
        phase,
    }
}

fn read(current: Option<TaskSighting>, results: &[&str]) -> AgentRead {
    AgentRead {
        current_task: current,
        recent_tasks: vec![sighting("older", ProjectAgentTaskPhase::Completed)],
        current_result_task: None,
        recent_result_tasks: results.iter().map(|s| s.to_string()).collect(),
    }
}

#[test]
fn watch_polls_while_the_task_runs() {
    let mut watch = TaskWatch::new("task-1");
    assert_eq!(watch.request_id(), "project-agent-task-task-1-0");
    let running = read(Some(sighting("task-1", ProjectAgentTaskPhase::Running)), &[]);
    assert_eq!(watch.observe(&running, 100), WatchStep::Poll);
    assert_eq!(watch.polls, 1);
    assert_eq!(watch.ended_since_ms, None);
    assert_eq!(watch.request_id(), "project-agent-task-task-1-1");
}

#[test]
fn watch_finishes_when_the_result_is_persisted() {
    let mut watch = TaskWatch::new("task-1");
    let done = read(
        Some(sighting("task-1", ProjectAgentTaskPhase::Completed)),
        &["task-0", "task-1"],
    );
    assert_eq!(watch.observe(&done, 10), WatchStep::Finished);
}

#[test]
fn watch_gives_up_on_an_ended_task_without_result() {
    let mut watch = TaskWatch::new("task-1");
    let ended = read(Some(sighting("task-1", ProjectAgentTaskPhase::Failed)), &[]);
    assert_eq!(watch.observe(&ended, 1000), WatchStep::Poll);
    assert_eq!(watch.ended_since_ms, Some(1000));
    assert_eq!(watch.observe(&ended, 5999), WatchStep::Poll);
    assert_eq!(
        watch.observe(&ended, 6000),
        WatchStep::Failed {
            message: "project AGENT task task-1 ended without a persisted result".to_string()
        }
    );
}

#[test]
fn watch_finds_the_task_among_recent_tasks() {
    let mut watch = TaskWatch::new("older");
    let r = read(Some(sighting("task-1", ProjectAgentTaskPhase::Running)), &["older"]);
    assert_eq!(watch.observe(&r, 0), WatchStep::Finished);
    let mut missing = TaskWatch::new("absent");
    assert_eq!(missing.observe(&r, 0), WatchStep::Poll);
    assert_eq!(
        watch_timeout_message("t"),
        "timed out waiting for project AGENT task t"
    );
}

#[test]
fn action_messages_name_the_agent() {
    assert_eq!(retry_message(3), "已创建第 3 次任务尝试。");
    assert_eq!(rebuild_message(2), "已重建为第 2 代会话。");
    assert_eq!(follow_up_message(), "已追加跟进。");
    assert_eq!(terminate_message(), "已请求终止当前任务。");
    assert_eq!(
        action_report("query", Ok(follow_up_message())),
        ActionReport::Info("项目 AGENT @query：已追加跟进。".to_string())
    );
    assert_eq!(
        action_report("query", Err("boom".to_string())),
        ActionReport::Error("项目 AGENT @query 操作失败：boom".to_string())
    );
    assert_eq!(list_failed_message("x"), "加载项目 AGENT 列表失败：x");
    assert_eq!(read_failed_message("q", "x"), "读取项目 AGENT @q 失败：x");
    assert_eq!(start_failed_message("q", "x"), "项目 AGENT @q 发起任务失败：x");
    assert_eq!(
        finished_read_failed_message("q", "t", "x"),
        "项目 AGENT @q 任务 t 状态读取失败：x"
    );
}

#[test]
fn workbench_actions_report_on_the_displayed_thread_only() {
    assert_eq!(
        workbench_action_message("query", &WorkbenchActionOutcome::Retried { attempt: 3 }, true),
        Some((false, "项目 AGENT @query：已创建第 3 次任务尝试。".to_string()))
    );
    assert_eq!(
        workbench_action_message("query", &WorkbenchActionOutcome::Rebuilt { generation: 2 }, true),
        Some((false, "项目 AGENT @query：已重建为第 2 代会话。".to_string()))
    );
    assert_eq!(
        workbench_action_message("query", &WorkbenchActionOutcome::FollowedUp, true),
        Some((false, "项目 AGENT @query：已追加跟进。".to_string()))
    );
    assert_eq!(
        workbench_action_message("query", &WorkbenchActionOutcome::Terminated, true),
        Some((false, "项目 AGENT @query：已请求终止当前任务。".to_string()))
    );
    assert_eq!(
        workbench_action_message(
            "query",
            &WorkbenchActionOutcome::Failed { error: "busy".to_string() },
            true
        ),
        Some((true, "项目 AGENT @query 操作失败：busy".to_string()))
    );
    assert_eq!(
        workbench_action_message("query", &WorkbenchActionOutcome::Terminated, false),
        None
    );
}

#[test]
fn stale_workbench_replies_are_dropped() {
    let read_failed = WorkbenchReply::Read { agent_id: "query".to_string(), error: Some("gone".to_string()) };
    assert_eq!(workbench_effect(&read_failed, false), WorkbenchEffect::Nothing);
    assert_eq!(
        workbench_effect(&read_failed, true),
        WorkbenchEffect::Error("读取项目 AGENT @query 失败：gone".to_string())
    );
    assert_eq!(workbench_effect(&WorkbenchReply::Listed { error: None }, true), WorkbenchEffect::ShowRoster);
    assert_eq!(workbench_effect(&WorkbenchReply::Listed { error: None }, false), WorkbenchEffect::Nothing);
    assert_eq!(
        workbench_effect(&WorkbenchReply::Listed { error: Some("x".to_string()) }, true),
        WorkbenchEffect::Error("加载项目 AGENT 列表失败：x".to_string())
    );
    let started = WorkbenchReply::Started { agent_id: "query".to_string(), error: None };
    assert_eq!(workbench_effect(&started, true), WorkbenchEffect::ShowStartedAndWatch);
    assert_eq!(workbench_effect(&started, false), WorkbenchEffect::Nothing);
    assert_eq!(
        workbench_effect(
            &WorkbenchReply::Started { agent_id: "query".to_string(), error: Some("busy".to_string()) },
            true
        ),
        WorkbenchEffect::Error("项目 AGENT @query 发起任务失败：busy".to_string())
    );
    assert_eq!(workbench_effect(&WorkbenchReply::Prompt, true), WorkbenchEffect::ShowPrompt);
    assert_eq!(workbench_effect(&WorkbenchReply::Prompt, false), WorkbenchEffect::Nothing);
    assert_eq!(
        workbench_effect(
            &WorkbenchReply::Acted {
                agent_id: "query".to_string(),
                outcome: WorkbenchActionOutcome::Retried { attempt: 2 }
            },
            true
        ),
        WorkbenchEffect::Info("项目 AGENT @query：已创建第 2 次任务尝试。".to_string())
    );
}
