use project_agents::maintenance::{
    maintenance_status_event, ProjectAgentMaintenanceAgentStatus, ProjectAgentMaintenanceStatus,
};
use project_agents::types::ProjectAgentId;
use project_agents::agent::ProjectAgentMemoryIndex;
use project_agents::maintenance::MemoryLedger;
use project_agents::maintenance::{accepted_proposal_bodies, RecordedDecision};
use project_agents::maintenance::{
    approx_tokens, normalize_body, pending_after, stable_item_id,
    ProjectAgentMaintenanceDisposition, ProjectAgentMaintenanceItemKind,
    ProjectAgentMaintenanceMode, ProjectAgentMaintenanceOptions, ProjectAgentPendingCounts,
};
use project_agents::types::RelativeProjectAgentPath;
use project_agents::maintenance::{maintenance_decision, maintenance_writes, PendingProjectAgentItem};

#[test]
fn item_ids_are_stable_fnv_hashes_of_kind_and_path() {
    let path = RelativeProjectAgentPath::new("agents/query/memory/pending/a.json").expect("path");
    assert_eq!(
        stable_item_id(ProjectAgentMaintenanceItemKind::MemoryCandidate, &path),
        "memory-92824dd5dad8d3dd"
    );
    let proposal = RelativeProjectAgentPath::new("p.json").expect("path");
    assert_eq!(
        stable_item_id(ProjectAgentMaintenanceItemKind::ImprovementProposal, &proposal),
        "proposal-a4b44136ef3d4470"
    );
}

#[test]
fn bodies_are_compared_by_words_lowercased() {
    assert_eq!(normalize_body("  The  Owner\tIS\nhere "), "the owner is here");
    assert_eq!(approx_tokens(""), 0);
    assert_eq!(approx_tokens("abcd"), 1);
    assert_eq!(approx_tokens("abcde"), 2);
}

#[test]
fn names_modes_and_counts() {
    assert_eq!(ProjectAgentMaintenanceItemKind::MemoryCandidate.as_str(), "memory_candidate");
    assert_eq!(ProjectAgentMaintenanceDisposition::Accepted.as_str(), "accepted");
    assert!(ProjectAgentMaintenanceOptions::dry_run("tui").mode.is_dry_run());
    assert!(!ProjectAgentMaintenanceOptions::apply("tui").mode.is_dry_run());
    let counts = ProjectAgentPendingCounts { memory_candidates: 2, improvement_proposals: 3 };
    assert_eq!(counts.total(), 5);
    assert_eq!(pending_after(ProjectAgentMaintenanceMode::DryRun, counts), counts);
    assert_eq!(
        pending_after(ProjectAgentMaintenanceMode::Apply, counts),
        ProjectAgentPendingCounts::default()
    );
}

#[test]
fn memory_ledger_opens_with_every_indexed_body() {
    let index = ProjectAgentMemoryIndex {
        schema_version: 1,
        items: vec![
            RelativeProjectAgentPath::new("memory/facts/a.md").expect("path"),
            RelativeProjectAgentPath::new("memory/facts/b.md").expect("path"),
        ],
    };
    let bodies = vec![
        Some("The  Owner is\nsrc/owner.rs".to_string()),
        Some("abcde".to_string()),
    ];
    let ledger = MemoryLedger::open(index.clone(), &bodies).ok().expect("ledger");
    assert_eq!(ledger.used_tokens, 7 + 2);
    assert_eq!(
        ledger.normalized,
        vec!["the owner is src/owner.rs".to_string(), "abcde".to_string()]
    );
    let missing = vec![Some("x".to_string())];
    assert_eq!(MemoryLedger::open(index, &missing).err(), Some(1));
}

#[test]
fn accepted_proposals_are_normalized_accepted_bodies() {
    let decisions = vec![
        RecordedDecision {
            disposition: ProjectAgentMaintenanceDisposition::Accepted,
            body: "Add  A Tool".to_string(),
        },
        RecordedDecision {
            disposition: ProjectAgentMaintenanceDisposition::Rejected,
            body: "other".to_string(),
        },
    ];
    assert_eq!(accepted_proposal_bodies(&decisions), vec!["add a tool".to_string()]);
}

#[test]
fn maintenance_events_are_named_by_thread_revision_and_total() {
    let status = ProjectAgentMaintenanceStatus {
        catalog_revision: 4,
        agents: vec![
            ProjectAgentMaintenanceAgentStatus {
                agent_id: ProjectAgentId::new("query").expect("agent"),
                pending: ProjectAgentPendingCounts { memory_candidates: 2, improvement_proposals: 1 },
            },
            ProjectAgentMaintenanceAgentStatus {
                agent_id: ProjectAgentId::new("other").expect("agent"),
                pending: ProjectAgentPendingCounts { memory_candidates: 0, improvement_proposals: 3 },
            },
        ],
    };
    assert_eq!(
        maintenance_status_event("thread-1", &status),
        ("project-agent-maintenance-thread-1-4-6".to_string(), 6)
    );
}

fn decision_for(
    kind: ProjectAgentMaintenanceItemKind,
    disposition: ProjectAgentMaintenanceDisposition,
) -> project_agents::maintenance::ProjectAgentMaintenanceDecision {
    let agent = ProjectAgentId::new("planner").expect("agent id");
    let item = PendingProjectAgentItem::new(agent.clone(), "task-1".to_string(), "Body".to_string());
    maintenance_decision(
        &agent,
        "user",
        "maint-1",
        "memory-0123".to_string(),
        RelativeProjectAgentPath::new("pending/memory/task-1.json").expect("path"),
        item,
        kind,
        disposition,
        vec!["evidence".to_string()],
        "reason".to_string(),
        None,
        7,
    )
    .expect("decision")
}

#[test]
fn decisions_are_recorded_under_kind_and_disposition() {
    let memory = decision_for(
        ProjectAgentMaintenanceItemKind::MemoryCandidate,
        ProjectAgentMaintenanceDisposition::Rejected,
    );
    assert_eq!(memory.decision_path.as_str(), "memory/decisions/memory-0123.json");
    assert!(memory.accepted_path.is_none());
    let proposal = decision_for(
        ProjectAgentMaintenanceItemKind::ImprovementProposal,
        ProjectAgentMaintenanceDisposition::Accepted,
    );
    assert_eq!(proposal.decision_path.as_str(), "proposals/accepted/memory-0123.json");
    assert_eq!(
        proposal.accepted_path.as_ref().map(|p| p.as_str().to_string()),
        Some("proposals/accepted/memory-0123.json".to_string())
    );
}

#[test]
fn applied_passes_rewrite_the_index_only_for_accepted_memory() {
    let rejected = vec![decision_for(
        ProjectAgentMaintenanceItemKind::MemoryCandidate,
        ProjectAgentMaintenanceDisposition::Rejected,
    )];
    let writes = maintenance_writes(ProjectAgentMaintenanceMode::Apply, 0, &rejected);
    assert!(!writes.rewrite_index);
    assert!(writes.advance_revision);

    let accepted = vec![decision_for(
        ProjectAgentMaintenanceItemKind::MemoryCandidate,
        ProjectAgentMaintenanceDisposition::Accepted,
    )];
    let writes = maintenance_writes(ProjectAgentMaintenanceMode::Apply, 0, &accepted);
    assert!(writes.rewrite_index);

    let writes = maintenance_writes(ProjectAgentMaintenanceMode::Apply, 1, &Vec::new());
    assert!(writes.rewrite_index);
    assert!(!writes.advance_revision);

    let writes = maintenance_writes(ProjectAgentMaintenanceMode::DryRun, 1, &accepted);
    assert!(!writes.rewrite_index);
    assert!(!writes.advance_revision);
}

#[test]
fn a_default_memory_index_is_empty_at_the_current_schema() {
    let index = ProjectAgentMemoryIndex::default();
    assert_eq!(index.schema_version, 1);
    assert!(index.items.is_empty());
}
