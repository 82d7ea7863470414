use project_agents::agent::{ProjectAgentRegistration, ProjectAgentRegistry};
use project_agents::registry::{add_tool, lists_tool, load_entry, EntryLoadError, ToolAddError};
use project_agents::types::ProjectAgentValidationError;
use project_agents::registry::{admit_memory, new_agent_definition, DEFAULT_MEMORY_MAX_ITEMS};
use project_agents::types::{ProjectAgentId, RelativeProjectAgentPath};

fn id(value: &str) -> ProjectAgentId {
    ProjectAgentId::new(value).expect("agent id")
}

fn definition_path(value: &str) -> RelativeProjectAgentPath {
    RelativeProjectAgentPath::new(&format!("agents/{value}/agent.toml")).expect("path")
}

#[test]
fn registering_keeps_ids_ordered_and_bumps_the_revision() {
    let mut registry = ProjectAgentRegistry::default();
    assert!(registry.register_new(id("query"), definition_path("query")));
    assert!(registry.register_new(id("alpha"), definition_path("alpha")));
    assert!(!registry.register_new(id("query"), definition_path("query")));
    assert_eq!(registry.revision, 2);
    let ids: Vec<&str> = registry.agents.iter().map(|(agent, _)| agent.as_str()).collect();
    assert_eq!(ids, vec!["alpha", "query"]);
    assert!(registry.validate().is_ok());
    assert!(registry.registration(&id("query")).expect("registered").enabled);
}

#[test]
fn disabling_an_agent_keeps_its_registration() {
    let mut registry = ProjectAgentRegistry::default();
    registry.register_new(id("query"), definition_path("query"));
    let disabled = registry.disable(&id("query")).expect("registered");
    assert!(!disabled.enabled);
    assert_eq!(disabled.path, definition_path("query"));
    assert_eq!(registry.revision, 2);
    assert!(!registry.registration(&id("query")).expect("registered").enabled);
    assert!(registry.disable(&id("missing")).is_none());
    assert_eq!(registry.revision, 2);
}

#[test]
fn new_agents_start_from_the_default_definition() {
    let (path, definition) =
        new_agent_definition(&id("query"), "Queries the repository.".to_string())
            .expect("definition");
    assert_eq!(path, definition_path("query"));
    assert_eq!(definition.constraints_file.as_str(), "constraints.md");
    assert_eq!(definition.memory_max_items, DEFAULT_MEMORY_MAX_ITEMS);
    assert!(definition.tools.is_empty());
    assert!(new_agent_definition(&id("query"), "   ".to_string()).is_err());
}

#[test]
fn memory_is_admitted_within_the_token_budget() {
    assert_eq!(admit_memory(10, 5, 20), Some(15));
    assert_eq!(admit_memory(10, 10, 20), Some(20));
    assert_eq!(admit_memory(10, 11, 20), None);
    assert_eq!(admit_memory(usize::MAX, 1, usize::MAX - 1), None);
    assert_eq!(admit_memory(usize::MAX, 1, usize::MAX), Some(usize::MAX));
}

#[test]
fn registries_list_each_agent_once_in_id_order() {
    let registration = |agent: &str| ProjectAgentRegistration {
        path: definition_path(agent),
        enabled: true,
    };
    let mut registry = ProjectAgentRegistry::new();
    registry.agents = vec![(id("b"), registration("b")), (id("a"), registration("a"))];
    assert_eq!(
        registry.validate(),
        Err(ProjectAgentValidationError::InvalidField {
            field: "agents",
            reason: "project AGENT `a` is listed out of id order or more than once".to_string(),
        })
    );
    registry.agents = vec![(id("a"), registration("a")), (id("a"), registration("a"))];
    assert!(registry.validate().is_err());
    registry.agents = vec![(id("a"), registration("a")), (id("b"), registration("b"))];
    assert_eq!(registry.validate(), Ok(()));
    registry.advance_revision();
    assert_eq!(registry.revision, 1);
}

#[test]
fn loaded_definitions_must_name_their_agent() {
    let (path, definition) = new_agent_definition(&id("query"), "Query".to_string()).expect("definition");
    let registration = ProjectAgentRegistration { path, enabled: true };
    let entry = load_entry(&id("query"), &registration, definition.clone()).ok().expect("entry");
    assert_eq!(entry.definition, definition);
    assert!(entry.enabled);
    match load_entry(&id("other"), &registration, definition) {
        Err(EntryLoadError::IdMismatch { expected, actual }) => {
            assert_eq!(expected.as_str(), "other");
            assert_eq!(actual.as_str(), "query");
        }
        _ => panic!("expected an id mismatch"),
    }
}

#[test]
fn tools_are_listed_once() {
    let (_, mut definition) = new_agent_definition(&id("query"), "Query".to_string()).expect("definition");
    let tool = RelativeProjectAgentPath::new("tools/search.x").expect("tool path");
    assert!(!lists_tool(&definition, &tool));
    assert!(add_tool(&mut definition, tool.clone()).is_ok());
    assert!(lists_tool(&definition, &tool));
    assert!(matches!(add_tool(&mut definition, tool), Err(ToolAddError::AlreadyListed)));
    assert_eq!(definition.tools.len(), 1);
    let misplaced = RelativeProjectAgentPath::new("bin/search.x").expect("path");
    assert!(matches!(add_tool(&mut definition, misplaced), Err(ToolAddError::Invalid(_))));
}
