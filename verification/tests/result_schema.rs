use project_agents::command_tool::JsonValue;
use project_agents::result_schema::project_agent_result_schema;
use project_agents::types::ProjectAgentId;

fn text(value: &str) -> JsonValue {
    JsonValue::String(value.to_string())
}

fn object(members: Vec<(&str, JsonValue)>) -> JsonValue {
    JsonValue::Object(members.into_iter().map(|(key, value)| (key.to_string(), value)).collect())
}

fn texts(values: &[&str]) -> JsonValue {
    JsonValue::Array(values.iter().map(|value| text(value)).collect())
}

fn typed(kind: &str) -> JsonValue {
    object(vec![("type", text(kind))])
}

fn string_enum(values: &[&str]) -> JsonValue {
    object(vec![("type", text("string")), ("enum", texts(values))])
}

fn string_array() -> JsonValue {
    object(vec![("type", text("array")), ("items", typed("string"))])
}

const FIELDS: [&str; 9] = [
    "status",
    "agent_id",
    "task_id",
    "result",
    "artifacts",
    "evidence",
    "memory_candidates",
    "improvement_proposals",
    "error",
];

fn expected_schema(agent_id: &str, task_schema: JsonValue) -> JsonValue {
    object(vec![
        ("type", text("object")),
        (
            "properties",
            object(vec![
                (
                    "status",
                    string_enum(&["completed", "rejected_out_of_scope", "blocked_missing_tool", "failed"]),
                ),
                ("agent_id", string_enum(&[agent_id])),
                ("task_id", task_schema),
                ("result", typed("string")),
                ("artifacts", string_array()),
                ("evidence", string_array()),
                ("memory_candidates", string_array()),
                ("improvement_proposals", string_array()),
                ("error", object(vec![("type", texts(&["string", "null"]))])),
            ]),
        ),
        ("required", texts(&FIELDS)),
        ("additionalProperties", JsonValue::Bool(false)),
    ])
}

#[test]
fn result_schema_requires_the_fixed_nine_field_contract() {
    let agent_id = ProjectAgentId::new("query").expect("agent id");
    assert_eq!(
        project_agent_result_schema(&agent_id, Some("task-1")),
        expected_schema("query", string_enum(&["task-1"]))
    );
}

#[test]
fn result_schema_leaves_an_unknown_task_open() {
    let agent_id = ProjectAgentId::new("query").expect("agent id");
    assert_eq!(
        project_agent_result_schema(&agent_id, None),
        expected_schema("query", typed("string"))
    );
}
