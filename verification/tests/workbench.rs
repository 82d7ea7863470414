use project_agents::task_workspace::{
    ProjectTaskEvaluation, ProjectTaskEvaluationVerdict, ProjectTaskExecutor, ProjectTaskId,
    ProjectTaskNode, ProjectTaskResult, ProjectTaskResultStatus, ProjectTaskStatus,
    ProjectTaskSuggestedChild,
};
use project_agents::types::ProjectAgentId;
use project_agents::workbench::{
    conversation_unavailable_reason, empty_task_detail_lines, execution_flow, executor_label,
    selected_task_index, task_detail_lines, task_item_texts, task_tree, DetailStyle, RosterAgent,
};

fn node(id: &str, parent: Option<&str>, title: &str) -> ProjectTaskNode {
    ProjectTaskNode {
        task_id: ProjectTaskId::new(id).expect("task id"),
        parent_task_id: parent.map(|p| ProjectTaskId::new(p).expect("parent id")),
        title: title.to_string(),
        objective: format!("{title} objective"),
        requirements: Vec::new(),
        status: ProjectTaskStatus::Pending,
        executor: ProjectTaskExecutor::Unassigned,
        execution_task_id: None,
        result: None,
        evaluation: None,
        created_at: 1,
        updated_at: 1,
    }
}

#[test]
fn the_task_tree_draws_connectors_depth_first() {
    let tasks = vec![
        node("a", None, "A"),
        node("b", Some("a"), "B"),
        node("c", Some("a"), "C"),
        node("d", Some("b"), "D"),
        node("e", None, "E"),
    ];
    assert_eq!(
        task_tree(&tasks),
        vec![
            (0, "".to_string()),
            (1, "├─ ".to_string()),
            (3, "│  └─ ".to_string()),
            (2, "└─ ".to_string()),
            (4, "".to_string()),
        ]
    );
    let (name, description, search) = task_item_texts(&tasks[1], "├─ ");
    assert_eq!(name, "├─ B");
    assert_eq!(description, "待执行 · 未分配");
    assert_eq!(search, "b B");
    assert_eq!(selected_task_index(&tasks, Some("d")), 3);
    assert_eq!(selected_task_index(&tasks, Some("missing")), 0);
    assert_eq!(selected_task_index(&tasks, None), 0);
}

#[test]
fn labels_and_execution_flow() {
    let mut task = node("task-root", None, "Implement UI");
    assert_eq!(execution_flow(&task), "等待分配执行者");
    task.status = ProjectTaskStatus::InProgress;
    task.execution_task_id = Some("019ff546".to_string());
    assert_eq!(execution_flow(&task), "执行中 · internal 019ff546");
    task.status = ProjectTaskStatus::Completed;
    assert_eq!(execution_flow(&task), "已完成 · internal 019ff546");
    task.executor = ProjectTaskExecutor::ProjectAgent {
        agent_id: ProjectAgentId::new("query").expect("id"),
    };
    assert_eq!(executor_label(&task.executor), "@query");
    assert_eq!(
        conversation_unavailable_reason(&task, None).as_deref(),
        Some("该任务尚未启动或 worker 会话尚未绑定")
    );
    assert_eq!(conversation_unavailable_reason(&task, Some("s1")), None);
    assert_eq!(
        conversation_unavailable_reason(&node("x", None, "X"), Some("s1")).as_deref(),
        Some("该任务尚未分配项目 AGENT")
    );
}

#[test]
fn the_detail_pane_lists_result_and_evaluation() {
    let mut task = node("task-child", Some("task-root"), "Inspect");
    task.requirements = vec!["Keep reads compatible.".to_string()];
    task.status = ProjectTaskStatus::Completed;
    task.result = Some(ProjectTaskResult {
        status: ProjectTaskResultStatus::Completed,
        summary: "Found it.".to_string(),
        artifacts: vec!["ui-review.md".to_string()],
        evidence: vec!["Cards render twice.".to_string()],
        suggested_children: vec![ProjectTaskSuggestedChild {
            title: "Render in place".to_string(),
            objective: "Update the card.".to_string(),
        }],
        error: None,
        completed_at: 2,
    });
    task.evaluation = Some(ProjectTaskEvaluation {
        verdict: ProjectTaskEvaluationVerdict::Passed,
        summary: "Supported.".to_string(),
        evidence: vec!["Writer identified.".to_string()],
        evaluated_at: 3,
    });
    let agents = vec![
        RosterAgent { id: "query".to_string(), description: "q".to_string(), enabled: true },
        RosterAgent { id: "off".to_string(), description: "o".to_string(), enabled: false },
        RosterAgent { id: "docs".to_string(), description: "d".to_string(), enabled: true },
    ];
    let lines = task_detail_lines(&task, &agents);
    let texts: Vec<&str> = lines.iter().map(|(text, _)| text.as_str()).collect();
    assert_eq!(
        texts,
        vec![
            "Inspect",
            "task task-child",
            "已完成 · 未分配",
            "",
            "目标",
            "Inspect objective",
            "",
            "追加要求",
            "• Keep reads compatible.",
            "",
            "执行流",
            "已完成",
            "",
            "结果 · 已完成",
            "Found it.",
            "证据 · Cards render twice.",
            "产物 · ui-review.md",
            "建议子任务",
            "• Render in place · Update the card.",
            "",
            "评测 · 通过",
            "Supported.",
            "评测证据 · Writer identified.",
            "可用执行者：@query, @docs",
        ]
    );
    assert_eq!(lines[4].1, DetailStyle::Heading);
    assert_eq!(lines[15].1, DetailStyle::Dim);
    let empty = empty_task_detail_lines(&agents);
    assert_eq!(empty[2].0, "已注册执行者：3");
}
