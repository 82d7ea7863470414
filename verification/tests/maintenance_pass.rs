use project_agents::agent::{ProjectAgentMemoryIndex, ProjectAgentTaskResult, ProjectAgentTaskStatus};
use project_agents::maintenance::{
    MemoryLedger, PendingProjectAgentItem, ProjectAgentMaintenanceDisposition,
    ProjectAgentMaintenanceItemKind, ProjectAgentMaintenanceMode, ProjectAgentPendingCounts,
};
use project_agents::maintenance_pass::{
    check_actor, history_path, maintenance_id, maintenance_pass, MaintenancePassError, MaintenanceRun, MemoryEntry,
    PendingEntry, ProposalEntry, SourceHistory,
};
use project_agents::types::{ProjectAgentId, RelativeProjectAgentPath};

fn agent() -> ProjectAgentId {
    ProjectAgentId::new("query").expect("agent id")
}

fn run(mode: ProjectAgentMaintenanceMode) -> MaintenanceRun {
    MaintenanceRun {
        agent_id: agent(),
        actor: "user".to_string(),
        maintenance_id: "maintenance-1-2-3".to_string(),
        mode,
        started_at_ms: 100,
        completed_at_ms: 200,
        catalog_revision_before: 7,
        memory_max_items: 32,
        memory_max_tokens: 4000,
    }
}

fn history(task_id: &str, memory: &[&str], proposals: &[&str]) -> SourceHistory {
    SourceHistory::Read(ProjectAgentTaskResult {
        status: ProjectAgentTaskStatus::Completed,
        agent_id: agent(),
        task_id: task_id.to_string(),
        result: "done".to_string(),
        artifacts: Vec::new(),
        evidence: vec!["checked src/owner.rs".to_string()],
        memory_candidates: memory.iter().map(|s| s.to_string()).collect(),
        improvement_proposals: proposals.iter().map(|s| s.to_string()).collect(),
        error: None,
    })
}

fn pending(item_id: &str, directory: &str, task_id: &str, body: &str) -> PendingEntry {
    PendingEntry {
        item_id: item_id.to_string(),
        source_path: RelativeProjectAgentPath::new(&format!("{directory}/{task_id}-{item_id}.json"))
            .expect("source path"),
        item: PendingProjectAgentItem::new(agent(), task_id.to_string(), body.to_string()),
    }
}

fn ledger() -> MemoryLedger {
    MemoryLedger { index: ProjectAgentMemoryIndex::new(), normalized: Vec::new(), used_tokens: 0 }
}

fn inputs() -> (Vec<MemoryEntry>, Vec<ProposalEntry>) {
    let memory = vec![
        MemoryEntry {
            pending: pending("memory-a", "memory/candidates", "t1", "The owner is src/owner.rs."),
            history: history("t1", &["The owner is src/owner.rs."], &[]),
            existing_fact: None,
        },
        MemoryEntry {
            pending: pending("memory-b", "memory/candidates", "t2", "Unbacked fact."),
            history: SourceHistory::Missing,
            existing_fact: None,
        },
    ];
    let proposals = vec![ProposalEntry {
        pending: pending("proposal-a", "proposals/pending", "t1", "Add a search tool."),
        history: history("t1", &[], &["Add a search tool."]),
    }];
    (memory, proposals)
}

#[test]
fn a_dry_run_decides_every_item_and_writes_nothing() {
    let (memory, proposals) = inputs();
    let pass = maintenance_pass(&run(ProjectAgentMaintenanceMode::DryRun), memory, proposals, ledger(), Vec::new())
        .ok()
        .expect("pass");
    let report = &pass.report;
    assert_eq!(report.decisions.len(), 3);
    assert_eq!(report.pending_before, ProjectAgentPendingCounts { memory_candidates: 2, improvement_proposals: 1 });
    assert_eq!(report.pending_after, report.pending_before);
    assert_eq!(report.catalog_revision_after, 7);
    assert!(pass.new_memory.is_empty());
    assert!(!pass.rewrite_index);
    assert!(!pass.write_decisions);
}

#[test]
fn an_applied_pass_orders_decisions_and_rejects_missing_history() {
    let (memory, proposals) = inputs();
    let pass = maintenance_pass(&run(ProjectAgentMaintenanceMode::Apply), memory, proposals, ledger(), Vec::new())
        .ok()
        .expect("pass");
    let decisions = &pass.report.decisions;
    assert_eq!(decisions[0].kind, ProjectAgentMaintenanceItemKind::MemoryCandidate);
    assert_eq!(decisions[0].disposition, ProjectAgentMaintenanceDisposition::Accepted);
    assert_eq!(
        decisions[0].accepted_path.as_ref().map(|p| p.as_str().to_string()),
        Some("memory/facts/memory-a.md".to_string())
    );
    assert_eq!(decisions[0].evidence, vec!["checked src/owner.rs".to_string()]);
    assert_eq!(decisions[1].disposition, ProjectAgentMaintenanceDisposition::Rejected);
    assert_eq!(decisions[1].reason, "source task history is missing");
    assert!(decisions[1].accepted_path.is_none());
    assert_eq!(decisions[2].kind, ProjectAgentMaintenanceItemKind::ImprovementProposal);
    assert_eq!(decisions[2].disposition, ProjectAgentMaintenanceDisposition::Accepted);
    assert_eq!(
        decisions[2].accepted_path.as_ref().map(|p| p.as_str().to_string()),
        Some("proposals/accepted/proposal-a.json".to_string())
    );
    assert_eq!(pass.report.pending_after, ProjectAgentPendingCounts::default());
    assert_eq!(pass.report.catalog_revision_after, 8);
    assert_eq!(pass.new_memory.len(), 1);
    assert_eq!(pass.new_memory[0].1, "The owner is src/owner.rs.");
    assert!(pass.rewrite_index);
    assert!(pass.write_decisions);
    assert_eq!(pass.memory_index.items.len(), 1);
}

#[test]
fn an_empty_applied_pass_keeps_the_revision() {
    let pass = maintenance_pass(&run(ProjectAgentMaintenanceMode::Apply), Vec::new(), Vec::new(), ledger(), Vec::new())
        .ok()
        .expect("pass");
    assert_eq!(pass.report.catalog_revision_after, 7);
    assert!(!pass.rewrite_index);
}

#[test]
fn unreadable_history_rejects_with_its_error() {
    let proposals = vec![ProposalEntry {
        pending: pending("proposal-b", "proposals/pending", "t3", "Idea."),
        history: SourceHistory::Unreadable { error: "expected value".to_string() },
    }];
    let pass = maintenance_pass(&run(ProjectAgentMaintenanceMode::Apply), Vec::new(), proposals, ledger(), Vec::new())
        .ok()
        .expect("pass");
    assert_eq!(pass.report.decisions[0].reason, "source task history is invalid: expected value");
    assert!(pass.report.decisions[0].evidence.is_empty());
}

#[test]
fn actors_ids_and_history_paths() {
    assert_eq!(check_actor("  user  "), Ok("user".to_string()));
    assert_eq!(check_actor("   "), Err("maintenance actor must contain 1 to 256 bytes".to_string()));
    assert!(check_actor(&"a".repeat(257)).is_err());
    assert_eq!(maintenance_id(1700, 42, 3), "maintenance-1700-42-3");
    assert_eq!(maintenance_id(-5, 1, 0), "maintenance--5-1-0");
    assert_eq!(history_path("t1").expect("path").as_str(), "tasks/history/t1.json");
    assert!(history_path("../x").is_err());
}

#[test]
fn capacity_duplicates_and_conflicts_decide_memory() {
    let mut tight = run(ProjectAgentMaintenanceMode::Apply);
    tight.memory_max_items = 1;
    let entry = |id: &str, task: &str, body: &str, existing: Option<&str>| MemoryEntry {
        pending: pending(id, "memory/candidates", task, body),
        history: history(task, &[body], &[]),
        existing_fact: existing.map(|s| s.to_string()),
    };
    let memory = vec![
        entry("m1", "t1", "First fact.", None),
        entry("m2", "t2", "first   FACT.", None),
        entry("m3", "t3", "Second fact.", None),
    ];
    let pass = maintenance_pass(&tight, memory, Vec::new(), ledger(), Vec::new()).ok().expect("pass");
    let reasons: Vec<&str> = pass.report.decisions.iter().map(|d| d.reason.as_str()).collect();
    assert_eq!(
        reasons,
        vec![
            "validated completed source task, evidence, uniqueness, and capacity",
            "duplicates accepted memory",
            "accepted-memory capacity would be exceeded",
        ]
    );
    assert_eq!(pass.new_memory.len(), 1);

    let conflict = vec![entry("m4", "t4", "Fact.", Some("Another body."))];
    match maintenance_pass(&tight, conflict, Vec::new(), ledger(), Vec::new()) {
        Err(MaintenancePassError::AcceptedPathConflict(path)) => {
            assert_eq!(path.as_str(), "memory/facts/m4.md");
        }
        _ => panic!("expected a conflict"),
    }
    let recovered = vec![entry("m5", "t5", "Fact.", Some("fact."))];
    let pass = maintenance_pass(&tight, recovered, Vec::new(), ledger(), Vec::new()).ok().expect("pass");
    assert_eq!(pass.report.decisions[0].reason, "recovered an already materialized accepted-memory fact");
    assert!(pass.new_memory.is_empty());
    assert_eq!(pass.memory_index.items.len(), 1);
}

#[test]
fn accepted_proposals_are_not_accepted_twice() {
    let proposals = vec![ProposalEntry {
        pending: pending("p1", "proposals/pending", "t1", "Add a search tool."),
        history: history("t1", &[], &["Add a search tool."]),
    }];
    let pass = maintenance_pass(
        &run(ProjectAgentMaintenanceMode::Apply),
        Vec::new(),
        proposals,
        ledger(),
        vec!["add a search tool.".to_string()],
    )
    .ok()
    .expect("pass");
    assert_eq!(pass.report.decisions[0].reason, "duplicates an accepted improvement proposal");
    assert!(pass.report.decisions[0].accepted_path.is_none());
}
