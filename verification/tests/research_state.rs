use project_agents::plan::{
    ResearchDelta, ResearchEntryKind, ResearchOperation, ResearchScope, ResearchStatus,
};
use project_agents::research::{ResearchState, ResearchStateError};

fn upsert(id: &str, statement: &str) -> ResearchDelta {
    ResearchDelta {
        operation: ResearchOperation::Upsert,
        id: id.to_string(),
        scope: ResearchScope::Project,
        kind: Some(ResearchEntryKind::Hypothesis),
        subject: Some("theme".to_string()),
        statement: Some(statement.to_string()),
        status: Some(ResearchStatus::Open),
    }
}

fn delta(operation: ResearchOperation, id: &str, status: Option<ResearchStatus>) -> ResearchDelta {
    ResearchDelta {
        operation,
        id: id.to_string(),
        scope: ResearchScope::Project,
        kind: None,
        subject: None,
        statement: None,
        status,
    }
}

#[test]
fn apply_is_transactional_and_revisioned() {
    let mut state = ResearchState::default();
    let first = state
        .apply(&[upsert("theme", "Theme may be a reusable dimension")])
        .expect("first delta should apply");
    assert_eq!(first.revision, 1);
    assert!(first.changed);

    let unchanged = state
        .apply(&[upsert("theme", "Theme may be a reusable dimension")])
        .expect("repeated delta should apply");
    assert_eq!(unchanged.revision, 1);
    assert!(!unchanged.changed);

    let error = state
        .apply(&[
            upsert("layout", "Layout may need a shared scale"),
            ResearchDelta {
                operation: ResearchOperation::SetStatus,
                id: "missing".to_string(),
                scope: ResearchScope::Project,
                kind: None,
                subject: None,
                statement: None,
                status: Some(ResearchStatus::Supported),
            },
        ])
        .expect_err("invalid batch should fail");
    assert_eq!(
        error,
        ResearchStateError::EntryNotFound {
            id: "missing".to_string(),
            scope: ResearchScope::Project,
        }
    );
    assert_eq!(state.revision(), 1);
    assert_eq!(state.entries().len(), 1);
}

#[test]
fn status_updates_and_removals_are_idempotent() {
    let mut state = ResearchState::default();
    state
        .apply(&[upsert("theme", "Theme may be a reusable dimension")])
        .expect("upsert should apply");

    let supported = ResearchDelta {
        operation: ResearchOperation::SetStatus,
        id: "theme".to_string(),
        scope: ResearchScope::Project,
        kind: None,
        subject: None,
        statement: None,
        status: Some(ResearchStatus::Supported),
    };
    state
        .apply(std::slice::from_ref(&supported))
        .expect("status should update");
    let unchanged = state
        .apply(std::slice::from_ref(&supported))
        .expect("repeated status should apply");
    assert!(!unchanged.changed);

    let remove = ResearchDelta {
        operation: ResearchOperation::Remove,
        id: "theme".to_string(),
        scope: ResearchScope::Project,
        kind: None,
        subject: None,
        statement: None,
        status: None,
    };
    state
        .apply(std::slice::from_ref(&remove))
        .expect("remove should apply");
    let repeated_remove = state
        .apply(std::slice::from_ref(&remove))
        .expect("repeated remove should apply");
    assert!(!repeated_remove.changed);
    assert!(state.entries().is_empty());
}

#[test]
fn snapshot_is_a_stable_read_only_projection() {
    let mut state = ResearchState::default();
    state
        .apply(&[upsert("theme", "Theme may be a reusable dimension")])
        .expect("upsert should apply");

    let snapshot = state.snapshot();
    assert_eq!(snapshot.revision, 1);
    assert_eq!(snapshot.entries.len(), 1);
    assert_eq!(snapshot.entries[0].id, "theme");
    assert_eq!(snapshot.entries[0].status, ResearchStatus::Open);
    assert_eq!(snapshot, state.snapshot());
}

#[test]
fn entries_are_ordered_by_scope_then_id() {
    let mut state = ResearchState::default();
    let mut task_entry = upsert("alpha", "Task scoped");
    task_entry.scope = ResearchScope::Task;
    state
        .apply(&[upsert("zeta", "z"), upsert("beta", "b"), task_entry])
        .expect("batch should apply");
    let ids: Vec<(ResearchScope, String)> = state
        .entries()
        .into_iter()
        .map(|entry| (entry.scope, entry.id))
        .collect();
    assert_eq!(
        ids,
        vec![
            (ResearchScope::Task, "alpha".to_string()),
            (ResearchScope::Project, "beta".to_string()),
            (ResearchScope::Project, "zeta".to_string()),
        ]
    );
}

#[test]
fn upsert_trims_and_defaults_status() {
    let mut state = ResearchState::default();
    let mut padded = upsert("  padded  ", "  spaced statement  ");
    padded.subject = Some("  subject  ".to_string());
    padded.status = None;
    state.apply(&[padded]).expect("upsert should apply");
    let entries = state.entries();
    assert_eq!(entries[0].id, "padded");
    assert_eq!(entries[0].subject, "subject");
    assert_eq!(entries[0].statement, "spaced statement");
    assert_eq!(entries[0].status, ResearchStatus::Open);
}

#[test]
fn each_refusal_names_its_cause() {
    let mut state = ResearchState::default();
    assert_eq!(
        state.apply(&[upsert("   ", "x")]).expect_err("blank id"),
        ResearchStateError::EmptyId
    );
    let mut no_kind = upsert("a", "x");
    no_kind.kind = None;
    assert_eq!(
        state.apply(&[no_kind]).expect_err("kind required"),
        ResearchStateError::MissingUpsertField { id: "a".to_string(), field: "kind" }
    );
    let mut blank_subject = upsert("a", "x");
    blank_subject.subject = Some("   ".to_string());
    assert_eq!(
        state.apply(&[blank_subject]).expect_err("subject required"),
        ResearchStateError::MissingUpsertField { id: "a".to_string(), field: "subject" }
    );
    assert_eq!(
        state.apply(&[upsert("a", "  ")]).expect_err("statement required"),
        ResearchStateError::MissingUpsertField { id: "a".to_string(), field: "statement" }
    );
    assert_eq!(
        state
            .apply(&[delta(ResearchOperation::SetStatus, "a", None)])
            .expect_err("status required"),
        ResearchStateError::MissingStatus { id: "a".to_string() }
    );
    assert_eq!(state.revision(), 0);
    assert!(state.entries().is_empty());
}

#[test]
fn failure_messages() {
    assert_eq!(
        ResearchStateError::EmptyId.message(),
        "research entry id must not be empty"
    );
    assert_eq!(
        ResearchStateError::MissingUpsertField { id: "a".to_string(), field: "kind" }.message(),
        "research upsert `a` requires field `kind`"
    );
    assert_eq!(
        ResearchStateError::MissingStatus { id: "a".to_string() }.message(),
        "research status update `a` requires field `status`"
    );
    assert_eq!(
        ResearchStateError::EntryNotFound { id: "a".to_string(), scope: ResearchScope::Task }
            .message(),
        "research entry `a` does not exist in scope `Task`"
    );
}

#[test]
fn scopes_keep_entries_with_the_same_id_apart() {
    let mut state = ResearchState::default();
    let mut task_entry = upsert("theme", "task");
    task_entry.scope = ResearchScope::Task;
    state
        .apply(&[upsert("theme", "project"), task_entry])
        .expect("both apply");
    assert_eq!(state.entries().len(), 2);
    let mut remove = delta(ResearchOperation::Remove, "theme", None);
    remove.scope = ResearchScope::Task;
    let result = state.apply(&[remove]).expect("remove applies");
    assert!(result.changed);
    assert_eq!(result.revision, 2);
    assert_eq!(result.entries.len(), 1);
    assert_eq!(result.entries[0].scope, ResearchScope::Project);
}
