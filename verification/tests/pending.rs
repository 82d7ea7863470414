use project_agents::agent::{ProjectAgentTaskResult, ProjectAgentTaskStatus};
use project_agents::pending::result_files;
use project_agents::maintenance::{
    stable_item_id, PendingProjectAgentItem, ProjectAgentMaintenanceItemKind,
};
use project_agents::pending::{
    check_pending_item, pending_directory, sorted_json_names, task_json_names, DirectoryEntry,
    PendingScan,
    PendingScanError, MAX_PENDING_DIRECTORY_ENTRIES,
};
use project_agents::types::{ProjectAgentId, RelativeProjectAgentPath};

fn entry(name: &str, is_file: bool) -> DirectoryEntry {
    DirectoryEntry {
        file_name: name.to_string(),
        is_file,
    }
}

#[test]
fn pending_files_are_json_files_in_name_order() {
    let entries = vec![
        entry("b.json", true),
        entry("notes.txt", true),
        entry("a.json", true),
        entry("dir.json", false),
        entry("B.json", true),
    ];
    assert_eq!(
        sorted_json_names(&entries),
        vec!["B.json".to_string(), "a.json".to_string(), "b.json".to_string()]
    );
}

#[test]
fn pending_scan_hands_out_undecided_items() {
    let kind = ProjectAgentMaintenanceItemKind::MemoryCandidate;
    assert_eq!(pending_directory(kind), "memory/candidates");
    let entries = vec![entry("two.json", true), entry("one.json", true)];
    let mut scan = PendingScan::start(kind, &entries).expect("scan");
    let (first_id, first_path) = scan.next_candidate().expect("first").expect("valid path");
    assert_eq!(first_path.as_str(), "memory/candidates/one.json");
    let expected = RelativeProjectAgentPath::new("memory/candidates/one.json").expect("path");
    assert_eq!(first_id, stable_item_id(kind, &expected));
    scan.record(first_id.clone(), first_path, true).expect("decided");
    let (second_id, second_path) = scan.next_candidate().expect("second").expect("valid path");
    assert_eq!(second_path.as_str(), "memory/candidates/two.json");
    scan.record(second_id.clone(), second_path, false).expect("pending");
    assert!(scan.next_candidate().is_none());
    assert_eq!(scan.pending.len(), 1);
    assert_eq!(scan.pending[0].0, second_id);
}

#[test]
fn pending_scan_refuses_oversized_directories() {
    let entries = (0..=MAX_PENDING_DIRECTORY_ENTRIES)
        .map(|i| entry(&format!("{i}.json"), true))
        .collect::<Vec<_>>();
    assert!(matches!(
        PendingScan::start(ProjectAgentMaintenanceItemKind::ImprovementProposal, &entries),
        Err(PendingScanError::TooManyDirectoryEntries { maximum: 10000 })
    ));
}

#[test]
fn pending_scan_reports_invalid_paths() {
    let kind = ProjectAgentMaintenanceItemKind::ImprovementProposal;
    assert_eq!(pending_directory(kind), "proposals/pending");
    let mut scan = PendingScan::start(kind, &vec![entry("bad\\name.json", true)]).expect("scan");
    assert!(matches!(
        scan.next_candidate(),
        Some(Err(PendingScanError::InvalidPath(_)))
    ));
}

#[test]
fn pending_items_must_match_schema_agent_and_have_a_body() {
    let agent = ProjectAgentId::new("query").expect("agent");
    let other = ProjectAgentId::new("other").expect("agent");
    let mut item = PendingProjectAgentItem::new(agent.clone(), "t".to_string(), "fact".to_string());
    assert_eq!(check_pending_item(&item, &agent), None);
    assert_eq!(
        check_pending_item(&item, &other).as_deref(),
        Some("agent id does not match or body is empty")
    );
    item.body = "   ".to_string();
    assert_eq!(
        check_pending_item(&item, &agent).as_deref(),
        Some("agent id does not match or body is empty")
    );
    item.schema_version = 7;
    assert_eq!(
        check_pending_item(&item, &agent).as_deref(),
        Some("schema version 7 does not match 1")
    );
}

#[test]
fn a_result_leaves_history_and_pending_files() {
    let result = ProjectAgentTaskResult {
        status: ProjectAgentTaskStatus::Completed,
        agent_id: ProjectAgentId::new("query").expect("agent"),
        task_id: "task-1".to_string(),
        result: "done".to_string(),
        artifacts: Vec::new(),
        evidence: vec!["src/lib.rs".to_string()],
        memory_candidates: vec!["fact one".to_string(), "fact two".to_string()],
        improvement_proposals: vec!["add a tool".to_string()],
        error: None,
    };
    let files = result_files(&result);
    assert_eq!(files.history, "tasks/history/task-1.json");
    assert_eq!(
        files
            .memory_candidates
            .iter()
            .map(|f| f.path.as_str())
            .collect::<Vec<_>>(),
        vec!["memory/candidates/task-1-0.json", "memory/candidates/task-1-1.json"]
    );
    assert_eq!(files.memory_candidates[1].item.body, "fact two");
    assert_eq!(files.memory_candidates[1].item.schema_version, 1);
    assert_eq!(files.improvement_proposals[0].path, "proposals/pending/task-1-0.json");
    assert_eq!(files.improvement_proposals[0].item.task_id, "task-1");
}

#[test]
fn task_names_come_newest_first_without_their_ending() {
    let entries = vec![
        entry("a.json", true),
        entry("a-x.json", true),
        entry("b.json", true),
        entry("dir.json", false),
        entry("notes.txt", true),
    ];
    assert_eq!(
        task_json_names(&entries),
        Ok(vec!["b".to_string(), "a".to_string(), "a-x".to_string()])
    );
    let many = (0..=1024).map(|i| entry(&format!("{i}.json"), true)).collect::<Vec<_>>();
    assert_eq!(task_json_names(&many), Err(1024));
}
