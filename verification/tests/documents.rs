use project_agents::agent::{
    ProjectAgentDefinition, ProjectAgentRegistration, ProjectAgentRegistry,
    ProjectAgentTaskResult, ProjectAgentTaskStatus, ProjectAgentToolManifest,
    ProjectAgentToolTarget,
};
use project_agents::command_tool::{check_input_schema_text, InputSchemaError};
use project_agents::command_tool::{
    invalid_input_schema, validate_agent_tool_path, validate_bounded_parameter_contract,
    JsonValue, ProjectAgentCommandToolRegistration,
};
use project_agents::result_schema::task_result_from_json;
use project_agents::types::{
    ProjectAgentId, ProjectAgentValidationError, RelativeProjectAgentPath,
    PROJECT_AGENT_SCHEMA_VERSION,
};

fn id(value: &str) -> ProjectAgentId {
    ProjectAgentId::new(value).expect("agent id")
}

fn path(value: &str) -> RelativeProjectAgentPath {
    RelativeProjectAgentPath::new(value).expect("relative path")
}

/// A JSON document as the library reads it.
fn json(value: &serde_json::Value) -> JsonValue {
    match value {
        serde_json::Value::Null => JsonValue::Null,
        serde_json::Value::Bool(flag) => JsonValue::Bool(*flag),
        serde_json::Value::Number(number) => JsonValue::Number(number.to_string()),
        serde_json::Value::String(text) => JsonValue::String(text.clone()),
        serde_json::Value::Array(items) => JsonValue::Array(items.iter().map(json).collect()),
        serde_json::Value::Object(members) => JsonValue::Object(
            members.iter().map(|(key, value)| (key.clone(), json(value))).collect(),
        ),
    }
}

fn decode_result(text: &str) -> Result<ProjectAgentTaskResult, String> {
    let value: serde_json::Value = serde_json::from_str(text).expect("JSON text");
    task_result_from_json(&json(&value))
}

#[test]
fn manifests_and_results_enforce_declared_shapes() {
    let manifest = ProjectAgentToolManifest {
        schema_version: 1,
        id: ProjectAgentId::new("search").expect("tool id"),
        description: "Runs bounded project search.".to_string(),
        target: ProjectAgentToolTarget::Command {
            program: RelativeProjectAgentPath::new("tools/search.py").expect("program path"),
        },
        timeout_ms: Some(30000),
        input_schema: Some(
            RelativeProjectAgentPath::new("tools/search.schema.json").expect("input schema path"),
        ),
    };
    manifest.validate().expect("valid tool manifest");

    let result = decode_result(
        r#"{"status":"completed","agent_id":"query","task_id":"T-1","result":"ok","artifacts":[],"evidence":[],"memory_candidates":[],"improvement_proposals":[],"error":null}"#,
    )
    .expect("task result");
    assert_eq!(
        result,
        ProjectAgentTaskResult {
            status: ProjectAgentTaskStatus::Completed,
            agent_id: ProjectAgentId::new("query").expect("agent id"),
            task_id: "T-1".to_string(),
            result: "ok".to_string(),
            artifacts: Vec::new(),
            evidence: Vec::new(),
            memory_candidates: Vec::new(),
            improvement_proposals: Vec::new(),
            error: None,
        }
    );

    let missing_error = decode_result(
        r#"{"status":"completed","agent_id":"query","task_id":"T-1","result":"ok","artifacts":[],"evidence":[],"memory_candidates":[],"improvement_proposals":[]}"#,
    )
    .expect_err("error field is required");
    assert!(missing_error.contains("error"));
    assert!(RelativeProjectAgentPath::new("../outside").is_err());
}

#[test]
fn results_name_their_first_bad_field() {
    assert_eq!(
        decode_result(r#"{"status":"done","agent_id":"query","task_id":"T-1","result":"ok","artifacts":[],"evidence":[],"memory_candidates":[],"improvement_proposals":[],"error":"x"}"#),
        Err("invalid value for field `status`".to_string())
    );
    assert_eq!(
        decode_result(r#"{"agent_id":"query"}"#),
        Err("missing field `status`".to_string())
    );
    assert_eq!(
        decode_result("[]"),
        Err("invalid type: expected a task result object".to_string())
    );
    let failed = decode_result(r#"{"status":"failed","agent_id":"query","task_id":"T-2","result":"","artifacts":["a"],"evidence":["e"],"memory_candidates":[],"improvement_proposals":["p"],"error":"boom"}"#)
        .expect("failed result");
    assert_eq!(failed.error.as_deref(), Some("boom"));
    assert_eq!(failed.improvement_proposals, vec!["p".to_string()]);
}

#[test]
fn definitions_and_registry_paths_are_validated() {
    let definition = ProjectAgentDefinition {
        schema_version: 1,
        id: id("query"),
        description: "Performs bounded repository queries.".to_string(),
        constraints_file: path("constraints.md"),
        model: Some("gpt-5.6-luna".to_string()),
        model_reasoning_effort: Some("medium".to_string()),
        model_provider: Some("default".to_string()),
        tools: vec![path("tools/search.x")],
        memory_max_items: 32,
        memory_max_tokens: 4000,
    };
    definition.validate().expect("valid agent definition");
    assert_eq!(
        definition,
        ProjectAgentDefinition {
            schema_version: PROJECT_AGENT_SCHEMA_VERSION,
            id: ProjectAgentId::new("query").expect("agent id"),
            description: "Performs bounded repository queries.".to_string(),
            constraints_file: RelativeProjectAgentPath::new("constraints.md")
                .expect("constraints path"),
            model: Some("gpt-5.6-luna".to_string()),
            model_reasoning_effort: Some("medium".to_string()),
            model_provider: Some("default".to_string()),
            tools: vec![
                RelativeProjectAgentPath::new("tools/search.x").expect("tool manifest path"),
            ],
            memory_max_items: 32,
            memory_max_tokens: 4_000,
        }
    );

    let agent_id = ProjectAgentId::new("query").expect("agent id");
    let registry = ProjectAgentRegistry {
        schema_version: PROJECT_AGENT_SCHEMA_VERSION,
        revision: 0,
        agents: vec![(
            agent_id.clone(),
            ProjectAgentRegistration {
                path: RelativeProjectAgentPath::new("agents/other/agent.toml")
                    .expect("registry path"),
                enabled: true,
            },
        )],
    };
    assert_eq!(
        registry.validate().expect_err("mismatched registry path"),
        ProjectAgentValidationError::RegistryPathMismatch {
            agent_id,
            expected: "agents/query/agent.toml".to_string(),
            actual: "agents/other/agent.toml".to_string(),
        }
    );
}

fn registration() -> ProjectAgentCommandToolRegistration {
    ProjectAgentCommandToolRegistration {
        agent_id: id("query"),
        tool_id: id("search"),
        description: "Runs bounded project search.".to_string(),
        program: path("tools/search.py"),
        input_schema: path("tools/search.schema.json"),
        timeout_ms: Some(1000),
    }
}

#[test]
fn command_tool_registration_declares_its_manifest() {
    let registration = registration();
    assert_eq!(
        registration.manifest_path().expect("manifest path"),
        path("tools/search.x")
    );
    let manifest = registration.manifest().expect("manifest");
    assert_eq!(
        manifest,
        ProjectAgentToolManifest {
            schema_version: PROJECT_AGENT_SCHEMA_VERSION,
            id: id("search"),
            description: "Runs bounded project search.".to_string(),
            target: ProjectAgentToolTarget::Command { program: path("tools/search.py") },
            timeout_ms: Some(1000),
            input_schema: Some(path("tools/search.schema.json")),
        }
    );

    let mut outside = registration.clone();
    outside.program = path("bin/run.py");
    assert_eq!(
        outside.manifest().expect_err("program outside tools"),
        ProjectAgentValidationError::InvalidField {
            field: "program",
            reason: "`bin/run.py` must be under tools/".to_string(),
        }
    );
    let mut not_json = registration.clone();
    not_json.input_schema = path("tools/search.schema.yaml");
    assert_eq!(
        not_json.manifest().expect_err("schema must be json"),
        ProjectAgentValidationError::InvalidField {
            field: "input_schema",
            reason: "`tools/search.schema.yaml` must end in .json".to_string(),
        }
    );
    let mut zero_timeout = registration;
    zero_timeout.timeout_ms = Some(0);
    assert!(zero_timeout.manifest().is_err());
    assert!(validate_agent_tool_path("program", &path("tools/a"), None).is_ok());
}

fn object(members: Vec<(&str, JsonValue)>) -> JsonValue {
    JsonValue::Object(
        members
            .into_iter()
            .map(|(key, value)| (key.to_string(), value))
            .collect(),
    )
}

fn text(value: &str) -> JsonValue {
    JsonValue::String(value.to_string())
}

fn schema_with(additional: JsonValue) -> JsonValue {
    object(vec![
        ("type", text("object")),
        ("properties", object(vec![("query", object(vec![("type", text("string"))]))])),
        ("required", JsonValue::Array(vec![text("query")])),
        ("additionalProperties", additional),
    ])
}

#[test]
fn input_schemas_must_state_a_bounded_parameter_contract() {
    assert!(validate_bounded_parameter_contract(&schema_with(JsonValue::Bool(false))).is_ok());
    assert_eq!(
        validate_bounded_parameter_contract(&schema_with(JsonValue::Bool(true))),
        Err(invalid_input_schema(
            "additionalProperties must be false for a bounded callable interface"
        ))
    );
    assert_eq!(
        validate_bounded_parameter_contract(&JsonValue::Array(Vec::new())),
        Err(invalid_input_schema(
            "must be a JSON object containing an object parameter schema"
        ))
    );
    assert_eq!(
        validate_bounded_parameter_contract(&object(vec![("type", text("array"))])),
        Err(invalid_input_schema("type must be `object`"))
    );
    assert_eq!(
        validate_bounded_parameter_contract(&object(vec![
            ("type", text("object")),
            ("properties", JsonValue::Null),
        ])),
        Err(invalid_input_schema("properties must be a JSON object"))
    );
    assert_eq!(
        validate_bounded_parameter_contract(&object(vec![
            ("type", text("object")),
            ("required", JsonValue::Array(vec![JsonValue::Number("1".to_string())])),
        ])),
        Err(invalid_input_schema("required must be an array of property names"))
    );
    assert_eq!(
        invalid_input_schema("x"),
        ProjectAgentValidationError::InvalidField { field: "input_schema", reason: "x".to_string() }
    );
}

#[test]
fn input_schema_files_must_parse_and_bound_their_parameters() {
    assert!(check_input_schema_text(
        r#"{"type":"object","properties":{"query":{"type":"string"}},"required":["query"],"additionalProperties":false}"#
    )
    .is_ok());
    match check_input_schema_text("{not json") {
        Err(InputSchemaError::Parse(message)) => assert!(message.contains("line 1")),
        _ => panic!("expected a parse error"),
    }
    match check_input_schema_text(r#"{"type":"object"}"#) {
        Err(InputSchemaError::Contract(error)) => assert_eq!(
            error,
            invalid_input_schema("additionalProperties must be false for a bounded callable interface")
        ),
        _ => panic!("expected a contract error"),
    }
}
