use project_agents::plan::{ResearchEntryKind, ResearchScope, ResearchStatus};
use project_agents::projection::{
    kind_weight, project_research_context, status_weight, tokenize, truncate_utf8,
    ResearchContextCacheKey, ResearchContextProjection, RESEARCH_CONTEXT_MAX_ENTRIES,
    RESEARCH_CONTEXT_MAX_PROJECTED_BYTES,
};
use project_agents::research::ResearchEntry;

fn entry(id: &str, subject: &str, statement: &str, kind: ResearchEntryKind) -> ResearchEntry {
    ResearchEntry {
        id: id.to_string(),
        scope: ResearchScope::Project,
        kind,
        subject: subject.to_string(),
        statement: statement.to_string(),
        status: ResearchStatus::Open,
    }
}

#[test]
fn projection_prioritizes_task_relevance_over_generic_priority() {
    let projection = project_research_context(
        &[
            entry(
                "build",
                "release pipeline",
                "Windows builds run in GitHub Actions",
                ResearchEntryKind::Constraint,
            ),
            entry(
                "ui-layout",
                "UI layout",
                "Keep the navigation stable while adjusting the dashboard layout",
                ResearchEntryKind::Hypothesis,
            ),
        ],
        "adjust the UI dashboard layout",
    );

    assert_eq!(projection.entries[0].id, "ui-layout");
    assert_eq!(projection.omitted_count, 0);
}

#[test]
fn projection_excludes_unrelated_project_entries() {
    let projection = project_research_context(
        &[
            entry(
                "build",
                "release pipeline",
                "Windows builds run in GitHub Actions",
                ResearchEntryKind::Constraint,
            ),
            entry(
                "ui-layout",
                "UI layout",
                "Keep navigation stable while adjusting the dashboard layout",
                ResearchEntryKind::Decision,
            ),
        ],
        "study a calculus chapter",
    );

    assert_eq!(projection, ResearchContextProjection::default());
}

#[test]
fn projection_is_bounded_and_project_scoped() {
    let mut entries = (0..20)
        .map(|index| {
            entry(
                format!("entry-{index}").as_str(),
                "bounded context",
                "x".repeat(2_000).as_str(),
                ResearchEntryKind::Fact,
            )
        })
        .collect::<Vec<_>>();
    entries.push(ResearchEntry {
        id: "task-only".to_string(),
        scope: ResearchScope::Task,
        kind: ResearchEntryKind::Constraint,
        subject: "task".to_string(),
        statement: "must not be projected".to_string(),
        status: ResearchStatus::Supported,
    });

    let projection = project_research_context(&entries, "bounded context");
    let projected_bytes = projection
        .entries
        .iter()
        .map(|entry| entry.subject.len() + entry.statement.len() + entry.id.len() + 96)
        .sum::<usize>();

    assert!(projection.entries.len() <= RESEARCH_CONTEXT_MAX_ENTRIES);
    assert!(projected_bytes <= RESEARCH_CONTEXT_MAX_PROJECTED_BYTES);
    assert!(projection.omitted_count > 0);
    assert!(
        projection
            .entries
            .iter()
            .all(|entry| entry.scope == ResearchScope::Project)
    );
}

#[test]
fn truncation_marks_the_cut_on_a_character_boundary() {
    assert_eq!(truncate_utf8("short", 10), "short");
    assert_eq!(truncate_utf8("abcdefghij", 6), "abc\u{2026}");
    assert_eq!(truncate_utf8("界界界界", 8), "界\u{2026}");
    assert_eq!(truncate_utf8("abc", 2), "\u{2026}");
}

#[test]
fn terms_are_lowercased_words_and_single_alphanumerics() {
    let terms = tokenize("UI layout, a Dashboard_2 界 UI");
    assert_eq!(
        terms,
        vec![
            "ui".to_string(),
            "layout".to_string(),
            "dashboard_2".to_string(),
            "界".to_string(),
        ]
    );
}

#[test]
fn weights_follow_kind_and_status() {
    assert_eq!(kind_weight(ResearchEntryKind::Constraint), 50);
    assert_eq!(kind_weight(ResearchEntryKind::Outcome), 20);
    assert_eq!(status_weight(ResearchStatus::Supported), 20);
    assert_eq!(status_weight(ResearchStatus::Superseded), -12);
}

#[test]
fn equal_relevance_orders_by_id() {
    let projection = project_research_context(
        &[
            entry("b-entry", "shared topic", "dashboard layout", ResearchEntryKind::Fact),
            entry("a-entry", "shared topic", "dashboard layout", ResearchEntryKind::Fact),
        ],
        "dashboard layout",
    );
    let ids: Vec<&str> = projection.entries.iter().map(|entry| entry.id.as_str()).collect();
    assert_eq!(ids, vec!["a-entry", "b-entry"]);
}

#[test]
fn cache_keys_compare_by_all_parts() {
    let a = ResearchContextCacheKey::new("p".to_string(), 1, "t".to_string());
    let b = ResearchContextCacheKey::new("p".to_string(), 1, "t".to_string());
    let c = ResearchContextCacheKey::new("p".to_string(), 2, "t".to_string());
    assert_eq!(a, b);
    assert_ne!(a, c);
}
