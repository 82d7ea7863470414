use project_agents::research_project::{normalize_aliases, ResearchAliasError};

#[test]
fn aliases_are_trimmed_sorted_and_deduplicated() {
    let aliases = vec![
        " path:stable ".to_string(),
        "git_remote:one".to_string(),
        "   ".to_string(),
        "path:stable".to_string(),
    ];
    assert_eq!(
        normalize_aliases(&aliases),
        Ok(vec!["git_remote:one".to_string(), "path:stable".to_string()])
    );
}

#[test]
fn alias_refusals() {
    assert_eq!(normalize_aliases(&["  ".to_string()]), Err(ResearchAliasError::Missing));
    let many: Vec<String> = (0..33).map(|index| format!("alias-{index}")).collect();
    assert_eq!(normalize_aliases(&many), Err(ResearchAliasError::TooMany));
    assert_eq!(normalize_aliases(&["a".repeat(257)]), Err(ResearchAliasError::TooLong));
    assert_eq!(
        ResearchAliasError::Missing.message(),
        "research project requires an identity alias"
    );
}

use project_agents::plan::{
    ResearchDelta, ResearchEntryKind, ResearchOperation, ResearchScope, ResearchStatus,
};
use project_agents::research::ResearchState;
use project_agents::research_project::{
    all_project_scoped, kind_name, operation_name, projection_plan, scope_name, status_name,
};

fn project_delta(operation: ResearchOperation, id: &str) -> ResearchDelta {
    ResearchDelta {
        operation,
        id: id.to_string(),
        scope: ResearchScope::Project,
        kind: Some(ResearchEntryKind::Decision),
        subject: Some("phase3".to_string()),
        statement: Some("Project research should survive sessions".to_string()),
        status: None,
    }
}

#[test]
fn applied_batches_plan_projection_rows_per_touched_id() {
    let deltas = vec![
        project_delta(ResearchOperation::Upsert, " zeta "),
        project_delta(ResearchOperation::Upsert, "alpha"),
        project_delta(ResearchOperation::Remove, "zeta"),
        project_delta(ResearchOperation::Upsert, "alpha"),
    ];
    assert!(all_project_scoped(&deltas));
    let mut state = ResearchState::default();
    let update = state.apply(&deltas).expect("batch applies");
    let plan = projection_plan(&deltas, &update.entries);
    assert_eq!(plan.len(), 2);
    assert_eq!(plan[0].0, "alpha");
    assert_eq!(plan[0].1.as_ref().expect("kept").status, ResearchStatus::Open);
    assert_eq!(plan[1].0, "zeta");
    assert!(plan[1].1.is_none());

    let mut task = project_delta(ResearchOperation::Remove, "x");
    task.scope = ResearchScope::Task;
    assert!(!all_project_scoped(&[task]));
}

#[test]
fn stored_names() {
    assert_eq!(operation_name(ResearchOperation::SetStatus), "set_status");
    assert_eq!(scope_name(ResearchScope::Project), "project");
    assert_eq!(kind_name(ResearchEntryKind::FuturePressure), "future_pressure");
    assert_eq!(status_name(ResearchStatus::Superseded), "superseded");
}

use project_agents::research_project::{
    new_research_project_id, resolve_project_id, ResearchIdentityError,
};

#[test]
fn aliases_resolve_to_one_durable_project() {
    let aliases = vec!["git_remote:one".to_string(), "path:stable".to_string()];
    assert_eq!(
        new_research_project_id("git_remote:one"),
        "research-0a2f5d58-fae2-5d19-9ed1-a0e16ffb640d"
    );
    assert_eq!(
        resolve_project_id(&aliases, &Vec::new()),
        Ok("research-0a2f5d58-fae2-5d19-9ed1-a0e16ffb640d".to_string())
    );
    assert_eq!(
        resolve_project_id(&aliases, &vec!["research-x".to_string(), "research-x".to_string()]),
        Ok("research-x".to_string())
    );
    assert_eq!(
        resolve_project_id(&aliases, &vec!["research-x".to_string(), "research-y".to_string()]),
        Err(ResearchIdentityError::ConflictingProjects)
    );
}
