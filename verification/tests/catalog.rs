use project_agents::catalog::{
    build_search_catalog, plugin_candidate, plugin_capability_labels, plugin_description,
    skill_candidate, split_config_name, Candidate, MentionType, PluginSummary,
    ProjectAgentMentionCatalog, ProjectAgentTaskMention, Selection, SkillMention,
};
use project_agents::workbench::RosterAgent;

fn agent(id: &str, description: &str, enabled: bool) -> RosterAgent {
    RosterAgent {
        id: id.to_string(),
        description: description.to_string(),
        enabled,
    }
}

fn plugin(config_name: &str, display_name: &str) -> PluginSummary {
    PluginSummary {
        config_name: config_name.to_string(),
        display_name: display_name.to_string(),
        description: None,
        has_skills: false,
        mcp_server_names: Vec::new(),
        app_connector_ids: Vec::new(),
    }
}

#[test]
fn project_agent_candidates_are_enabled_mentions() {
    let agents = vec![
        agent("query", "Project query specialist", true),
        agent("disabled", "Disabled specialist", false),
    ];

    assert_eq!(
        build_search_catalog(
            None,
            None,
            Some(&ProjectAgentMentionCatalog {
                agents,
                recent_tasks: Vec::new(),
            }),
        ),
        vec![Candidate {
            display_name: "@query".to_string(),
            description: Some("Project query specialist".to_string()),
            search_terms: vec!["query".to_string(), "Project query specialist".to_string()],
            mention_type: MentionType::ProjectAgent,
            selection: Selection::Tool {
                insert_text: "@query".to_string(),
                path: None,
            },
        }]
    );
}

#[test]
fn recent_project_agent_task_is_first_and_searchable_by_all_identifiers() {
    let session_thread_id = "019ff546-3156-7cb3-98c5-e2d796c33852".to_string();
    let task = ProjectAgentTaskMention {
        root_thread_id: "019ff546-0000-7cb3-98c5-e2d796c33852".to_string(),
        task_id: "task-auth".to_string(),
        task_title: "Review auth flow".to_string(),
        agent_id: "query".to_string(),
        session_thread_id: session_thread_id.clone(),
    };
    let catalog = ProjectAgentMentionCatalog {
        agents: vec![agent("query", "Project query specialist", true)],
        recent_tasks: vec![task.clone()],
    };
    let candidates = build_search_catalog(None, None, Some(&catalog));

    assert_eq!(
        candidates
            .iter()
            .map(|candidate| candidate.mention_type)
            .collect::<Vec<_>>(),
        vec![MentionType::ProjectAgentTask, MentionType::ProjectAgent]
    );
    for query in [
        task.agent_id.as_str(),
        task.task_id.as_str(),
        task.task_title.as_str(),
        session_thread_id.as_str(),
    ] {
        assert!(candidates[0].search_terms.iter().any(|term| term == query));
    }
    assert_eq!(candidates[0].display_name, "@query · Review auth flow");
    assert_eq!(candidates[0].selection, Selection::ProjectAgentTask(task));
}

#[test]
fn catalog_orders_agents_skills_then_plugins() {
    let skills = vec![SkillMention {
        name: "review".to_string(),
        display_name: "Review".to_string(),
        description: "  Reviews diffs  ".to_string(),
        path: "/skills/review/SKILL.md".to_string(),
    }];
    let plugins = vec![plugin("sample@market", "Sample Plugin")];
    let catalog = ProjectAgentMentionCatalog {
        agents: vec![agent("query", "Query", true)],
        recent_tasks: Vec::new(),
    };
    let candidates = build_search_catalog(Some(&skills), Some(&plugins), Some(&catalog));
    assert_eq!(
        candidates
            .iter()
            .map(|c| c.mention_type)
            .collect::<Vec<_>>(),
        vec![MentionType::ProjectAgent, MentionType::Skill, MentionType::Plugin]
    );
    assert!(build_search_catalog(None, None, None).is_empty());
}

#[test]
fn skill_candidate_trims_description_and_adds_display_name() {
    let skill = SkillMention {
        name: "review".to_string(),
        display_name: "Review".to_string(),
        description: "  Reviews diffs  ".to_string(),
        path: "/skills/review/SKILL.md".to_string(),
    };
    let c = skill_candidate(&skill);
    assert_eq!(c.description.as_deref(), Some("Reviews diffs"));
    assert_eq!(c.search_terms, vec!["review".to_string(), "Review".to_string()]);
    assert_eq!(
        c.selection,
        Selection::Tool {
            insert_text: "$review".to_string(),
            path: Some("/skills/review/SKILL.md".to_string()),
        }
    );
    let plain = SkillMention {
        name: "lint".to_string(),
        display_name: "lint".to_string(),
        description: "   ".to_string(),
        path: "/skills/lint/SKILL.md".to_string(),
    };
    let c = skill_candidate(&plain);
    assert_eq!(c.description, None);
    assert_eq!(c.search_terms, vec!["lint".to_string()]);
}

#[test]
fn plugin_candidate_uses_mention_name_and_marketplace() {
    let c = plugin_candidate(&plugin("mcp-search@curated", "MCP Search"));
    assert_eq!(
        c.search_terms,
        vec![
            "mcp-search".to_string(),
            "mcp-search@curated".to_string(),
            "MCP Search".to_string(),
            "curated".to_string(),
        ]
    );
    assert_eq!(
        c.selection,
        Selection::Tool {
            insert_text: "@MCP-Search".to_string(),
            path: Some("plugin://mcp-search@curated".to_string()),
        }
    );
    assert_eq!(c.description.as_deref(), Some("Plugin"));
    let same = plugin_candidate(&plugin("sample", "sample"));
    assert_eq!(same.search_terms, vec!["sample".to_string(), "sample".to_string()]);
}

#[test]
fn plugin_description_lists_capabilities() {
    let mut p = plugin("tools@m", "Tools");
    p.has_skills = true;
    p.mcp_server_names = vec!["a".to_string(), "b".to_string()];
    p.app_connector_ids = vec!["c".to_string()];
    assert_eq!(
        plugin_capability_labels(&p),
        vec!["skills".to_string(), "2 MCP servers".to_string(), "1 app".to_string()]
    );
    assert_eq!(
        plugin_description(&p).as_deref(),
        Some("Plugin - skills - 2 MCP servers - 1 app")
    );
    p.description = Some("Own words".to_string());
    assert_eq!(plugin_description(&p).as_deref(), Some("Own words"));
}

#[test]
fn config_name_splits_at_the_first_at_sign() {
    assert_eq!(
        split_config_name("a@b@c"),
        ("a".to_string(), "b@c".to_string())
    );
    assert_eq!(split_config_name("plain"), ("plain".to_string(), String::new()));
    assert_eq!(split_config_name("x@"), ("x".to_string(), String::new()));
}
