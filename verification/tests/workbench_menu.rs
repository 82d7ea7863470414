use project_agents::task_workspace::{
    ProjectTaskEvaluation, ProjectTaskEvaluationVerdict, ProjectTaskResult,
    ProjectTaskResultStatus, ProjectTaskSuggestedChild,
};
use project_agents::workbench::{empty_task_detail_lines, task_detail_lines};
use project_agents::workbench_menu::{TaskPromptAction, TaskPromptKind};
use project_agents::checkpoint::SpanStyle;
use project_agents::task_workspace::{
    ProjectTaskExecutor, ProjectTaskId, ProjectTaskNode, ProjectTaskStatus,
};
use project_agents::types::ProjectAgentId;
use project_agents::workbench::RosterAgent;
use project_agents::workbench_menu::{
    executor_choices, open_conversation_request, position_of, task_status_symbol,
    workspace_menu, MenuAction, OpenConversationRequest,
};

fn node(id: &str, parent: Option<&str>, title: &str) -> ProjectTaskNode {
    ProjectTaskNode {
        task_id: ProjectTaskId::new(id).expect("task id"),
        parent_task_id: parent.map(|p| ProjectTaskId::new(p).expect("parent id")),
        title: title.to_string(),
        objective: format!("{title} objective"),
        requirements: Vec::new(),
        status: ProjectTaskStatus::Pending,
        executor: ProjectTaskExecutor::Unassigned,
        execution_task_id: None,
        result: None,
        evaluation: None,
        created_at: 1,
        updated_at: 1,
    }
}

fn assigned(mut task: ProjectTaskNode, agent: &str) -> ProjectTaskNode {
    task.executor = ProjectTaskExecutor::ProjectAgent {
        agent_id: ProjectAgentId::new(agent).expect("agent id"),
    };
    task
}

#[test]
fn empty_workspace_menu_only_offers_a_root_task() {
    let menu = workspace_menu(&Vec::new(), &Vec::new(), None);
    assert_eq!(menu.items.len(), 1);
    assert_eq!(menu.items[0].name, "＋ 新建根任务");
    assert_eq!(menu.items[0].action, MenuAction::PromptCreateRoot);
    assert_eq!(menu.initial_selected, None);
    assert_eq!(menu.selected_task, 0);
}

#[test]
fn workspace_menu_lists_the_tree_then_the_selected_task_actions() {
    let tasks = vec![
        node("task-root", None, "Root"),
        assigned(node("task-child", Some("task-root"), "Child"), "query"),
    ];
    let sessions = vec![None, Some("worker-thread".to_string())];
    let menu = workspace_menu(&tasks, &sessions, Some("task-child"));
    let names = menu.items.iter().map(|i| i.name.as_str()).collect::<Vec<_>>();
    assert_eq!(
        names,
        vec![
            "＋ 新建根任务",
            "Root",
            "└─ Child",
            "当前任务",
            "  打开会话",
            "  追加要求",
            "  创建子任务",
            "  选择执行者",
            "  刷新",
        ]
    );
    assert_eq!(menu.selected_task, 1);
    assert_eq!(menu.initial_selected, Some(2));
    assert_eq!(menu.items[1].task_index, Some(0));
    assert_eq!(menu.items[2].task_index, Some(1));
    assert_eq!(
        menu.items[1].disabled_reason.as_deref(),
        Some("该任务尚未分配项目 AGENT")
    );
    assert_eq!(menu.items[1].action, MenuAction::Nothing);
    assert!(!menu.items[1].dismiss_on_select);
    assert_eq!(menu.items[2].disabled_reason, None);
    assert_eq!(menu.items[2].action, MenuAction::OpenConversation);
    assert_eq!(
        menu.items[2].description.as_deref(),
        Some("待执行 · @query")
    );
    assert_eq!(
        menu.items[2].search_value.as_deref(),
        Some("task-child Child")
    );
    assert!(menu.items[3].is_disabled);
    assert_eq!(menu.items[4].disabled_reason, None);
    assert_eq!(
        menu.items[5].search_value.as_deref(),
        Some("  追加要求 补充约束或验收条件")
    );
    assert_eq!(menu.items[8].action, MenuAction::Refresh);
}

#[test]
fn workspace_menu_defaults_to_the_first_task() {
    let tasks = vec![node("a", None, "A"), node("b", None, "B")];
    let menu = workspace_menu(&tasks, &Vec::new(), Some("missing"));
    assert_eq!(menu.selected_task, 0);
    assert_eq!(menu.initial_selected, Some(1));
    assert_eq!(
        menu.items[4].disabled_reason.as_deref(),
        Some("该任务尚未分配项目 AGENT")
    );
    assert_eq!(position_of(&tasks, "b"), 1);
    assert_eq!(position_of(&tasks, "z"), 0);
}

#[test]
fn executor_picker_refuses_disabled_agents() {
    let agents = vec![
        RosterAgent {
            id: "query".to_string(),
            description: "Query specialist".to_string(),
            enabled: true,
        },
        RosterAgent {
            id: "old".to_string(),
            description: "Retired".to_string(),
            enabled: false,
        },
    ];
    let choices = executor_choices(&agents);
    assert_eq!(choices[0].name, "@query");
    assert_eq!(choices[0].disabled_reason, None);
    assert_eq!(choices[1].agent_id, "old");
    assert_eq!(choices[1].disabled_reason.as_deref(), Some("此 AGENT 已禁用。"));
}

#[test]
fn conversations_open_only_for_bound_project_agent_tasks() {
    let task = assigned(node("t", None, "Task"), "query");
    assert_eq!(
        open_conversation_request(&task, Some("s1")),
        Some(OpenConversationRequest {
            task_id: "t".to_string(),
            task_title: "Task".to_string(),
            agent_id: "query".to_string(),
            session_thread_id: "s1".to_string(),
        })
    );
    assert_eq!(open_conversation_request(&task, None), None);
    assert_eq!(open_conversation_request(&node("u", None, "U"), Some("s1")), None);
    assert_eq!(task_status_symbol(ProjectTaskStatus::Failed), ("! ", SpanStyle::Red));
    assert_eq!(
        task_status_symbol(ProjectTaskStatus::Completed),
        ("✓ ", SpanStyle::Green)
    );
}

#[test]
fn create_and_requirement_prompts_emit_semantic_task_actions() {
    let create = TaskPromptKind::CreateTask { parent_task_id: Some("task-root".to_string()) };
    let texts = create.texts();
    assert_eq!(texts.title, "创建项目任务");
    assert_eq!(texts.context, "父任务：task-root");
    assert_eq!(
        create.submit("Implement UI\nRender the semantic task tree".to_string()),
        TaskPromptAction::Create {
            parent_task_id: Some("task-root".to_string()),
            input: "Implement UI\nRender the semantic task tree".to_string(),
        }
    );

    let requirement = TaskPromptKind::AppendRequirement { task_id: "task-root".to_string() };
    let texts = requirement.texts();
    assert_eq!(texts.title, "追加任务要求");
    assert_eq!(texts.context, "任务：task-root");
    assert_eq!(
        requirement.submit("Include snapshot coverage".to_string()),
        TaskPromptAction::AppendRequirement {
            task_id: "task-root".to_string(),
            requirement: "Include snapshot coverage".to_string(),
        }
    );
}

#[test]
fn a_root_task_prompt_names_no_parent() {
    let texts = TaskPromptKind::CreateTask { parent_task_id: None }.texts();
    assert_eq!(texts.context, "新建根任务");
    assert_eq!(texts.placeholder, "第一行标题；后续内容作为目标");
}

fn fixture_workspace() -> (Vec<ProjectTaskNode>, Vec<Option<String>>) {
    let mut root = assigned(node("task-root", None, "Ship task workspace"), "query");
    root.objective = "Expose durable semantic tasks through app-server and TUI.".to_string();
    root.requirements = vec!["Keep task identity stable".to_string()];
    root.status = ProjectTaskStatus::InProgress;
    root.execution_task_id = Some("worker-019".to_string());
    root.created_at = 10;
    root.updated_at = 15;
    let mut child = assigned(
        node("task-child", Some("task-root"), "Verify visible result"),
        "query",
    );
    child.objective = "Confirm tree, result, evidence and evaluation rendering.".to_string();
    child.requirements = vec!["No duplicate lifecycle cards".to_string()];
    child.status = ProjectTaskStatus::Completed;
    child.execution_task_id = Some("worker-020".to_string());
    child.result = Some(ProjectTaskResult {
        status: ProjectTaskResultStatus::Completed,
        summary: "The task tree renders in one workspace.".to_string(),
        artifacts: vec!["tui/task-workspace.snap".to_string()],
        evidence: vec!["public JSON-RPC integration passed".to_string()],
        suggested_children: vec![ProjectTaskSuggestedChild {
            title: "Polish keyboard actions".to_string(),
            objective: "Bind direct task operations.".to_string(),
        }],
        error: None,
        completed_at: 18,
    });
    child.evaluation = Some(ProjectTaskEvaluation {
        verdict: ProjectTaskEvaluationVerdict::Passed,
        summary: "The semantic node owns its final result.".to_string(),
        evidence: vec!["snapshot reviewed".to_string()],
        evaluated_at: 20,
    });
    child.created_at = 11;
    child.updated_at = 20;
    (
        vec![root, child],
        vec![
            Some("01900000-0000-7000-8000-000000000019".to_string()),
            Some("01900000-0000-7000-8000-000000000020".to_string()),
        ],
    )
}

fn fixture_agents() -> Vec<RosterAgent> {
    vec![RosterAgent {
        id: "query".to_string(),
        description: "Focused repository query executor".to_string(),
        enabled: true,
    }]
}

#[test]
fn task_workspace_renders_tree_and_selected_task_detail_snapshot() {
    let (tasks, sessions) = fixture_workspace();
    let menu = workspace_menu(&tasks, &sessions, Some("task-child"));
    let names = menu.items.iter().map(|i| i.name.as_str()).collect::<Vec<_>>();
    assert_eq!(
        names,
        vec![
            "＋ 新建根任务",
            "Ship task workspace",
            "└─ Verify visible result",
            "当前任务",
            "  打开会话",
            "  追加要求",
            "  创建子任务",
            "  选择执行者",
            "  刷新",
        ]
    );
    assert_eq!(menu.initial_selected, Some(2));
    assert_eq!(menu.items[1].description.as_deref(), Some("执行中 · @query"));
    assert_eq!(menu.items[2].description.as_deref(), Some("已完成 · @query"));
    assert_eq!(menu.items[4].disabled_reason, None);
    let detail = task_detail_lines(&tasks[menu.selected_task], &fixture_agents());
    let texts: Vec<&str> = detail.iter().map(|(text, _)| text.as_str()).collect();
    assert_eq!(
        texts,
        vec![
            "Verify visible result",
            "task task-child",
            "已完成 · @query",
            "",
            "目标",
            "Confirm tree, result, evidence and evaluation rendering.",
            "",
            "追加要求",
            "• No duplicate lifecycle cards",
            "",
            "执行流",
            "已完成 · internal worker-020",
            "",
            "结果 · 已完成",
            "The task tree renders in one workspace.",
            "证据 · public JSON-RPC integration passed",
            "产物 · tui/task-workspace.snap",
            "建议子任务",
            "• Polish keyboard actions · Bind direct task operations.",
            "",
            "评测 · 通过",
            "The semantic node owns its final result.",
            "评测证据 · snapshot reviewed",
            "可用执行者：@query",
        ]
    );
}

#[test]
fn task_workspace_empty_state_snapshot() {
    let menu = workspace_menu(&Vec::new(), &Vec::new(), None);
    let names = menu.items.iter().map(|i| i.name.as_str()).collect::<Vec<_>>();
    assert_eq!(names, vec!["＋ 新建根任务"]);
    let detail = empty_task_detail_lines(&fixture_agents());
    let texts: Vec<&str> = detail.iter().map(|(text, _)| text.as_str()).collect();
    assert_eq!(texts, vec!["尚无任务", "从左侧“新建根任务”开始。", "已注册执行者：1"]);
}
