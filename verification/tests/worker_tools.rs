use project_agents::registry::{new_agent_definition, ProjectAgentEntry};
use project_agents::worker_tools::{root_tool_names, x_tool_names};
use project_agents::worker_tools::{CollectStep, CommandChunk, CommandOutput, CommandRead, CommandStream};
use project_agents::agent::{ProjectAgentToolManifest, ProjectAgentToolTarget};
use project_agents::tool_visibility::{ToolName, ToolVisibilityPolicy};
use project_agents::types::{ProjectAgentId, RelativeProjectAgentPath};
use project_agents::worker_tools::{
    command_argv, command_timeout_ms, delegate_tool_name, is_bounded_request,
    native_tool_name, output_read_budget, worker_visibility, worker_visible_tool_names,
};

fn manifest(id: &str, target: ProjectAgentToolTarget) -> ProjectAgentToolManifest {
    ProjectAgentToolManifest {
        schema_version: 1,
        id: ProjectAgentId::new(id).expect("tool id"),
        description: format!("{id} tool"),
        target,
        timeout_ms: None,
        input_schema: None,
    }
}

#[test]
fn worker_visibility_and_wrappers_follow_manifest_targets() {
    let tools = vec![
        manifest("shell", ProjectAgentToolTarget::Native { tool: "shell_command".to_string() }),
        manifest("clock", ProjectAgentToolTarget::Native { tool: "clock.curr_time".to_string() }),
        manifest(
            "run-script",
            ProjectAgentToolTarget::Command {
                program: RelativeProjectAgentPath::new("bin/run.py").expect("path"),
            },
        ),
        manifest(
            "lookup",
            ProjectAgentToolTarget::Mcp { server: "knowledge".to_string(), tool: "lookup".to_string() },
        ),
    ];
    let expected_visible = vec![
        ToolName::plain("shell_command"),
        ToolName::namespaced("clock", "curr_time"),
        ToolName::namespaced("x", "run-script"),
        ToolName::namespaced("x", "lookup"),
    ];
    assert_eq!(worker_visible_tool_names(&tools), expected_visible);
    assert_eq!(
        x_tool_names(&tools),
        vec![ToolName::namespaced("x", "run-script"), ToolName::namespaced("x", "lookup")]
    );
    assert_eq!(worker_visibility(&tools), ToolVisibilityPolicy::allow_only(expected_visible));
    assert_eq!(
        delegate_tool_name(&ProjectAgentId::new("query").expect("id")),
        ToolName::namespaced("agent", "query")
    );
}

#[test]
fn native_names_split_at_the_first_dot() {
    assert_eq!(native_tool_name("a.b.c"), ToolName::namespaced("a", "b.c"));
    assert_eq!(native_tool_name(".hidden"), ToolName::plain(".hidden"));
    assert_eq!(native_tool_name("trailing."), ToolName::plain("trailing."));
}

#[test]
fn commands_run_under_their_interpreter_within_limits() {
    assert_eq!(command_argv("tools/run.PY", "{}"), vec!["python", "tools/run.PY", "{}"]);
    assert_eq!(command_argv("tools/run.ps1", "{}"), vec!["powershell", "tools/run.ps1", "{}"]);
    assert_eq!(command_argv("tools/run", "{}"), vec!["tools/run", "{}"]);
    assert_eq!(command_timeout_ms(None), 60_000);
    assert_eq!(command_timeout_ms(Some(1_000)), 1_000);
    assert_eq!(command_timeout_ms(Some(900_000)), 300_000);
    assert_eq!(output_read_budget(0), 262_145);
    assert_eq!(output_read_budget(300_000), 1);
}

#[test]
fn worker_requests_are_bounded() {
    assert!(is_bounded_request("Inspect the target", 16 * 1024));
    assert!(!is_bounded_request("   ", 16 * 1024));
    assert!(!is_bounded_request(&"x".repeat(16 * 1024 + 1), 16 * 1024));
}

fn registry_entry(id: &str, enabled: bool) -> ProjectAgentEntry {
    let agent_id = ProjectAgentId::new(id).expect("agent id");
    let (path, definition) =
        new_agent_definition(&agent_id, format!("{id} specialist")).expect("definition");
    ProjectAgentEntry { path, enabled, definition }
}

#[test]
fn root_tools_skip_disabled_agents() {
    let names = root_tool_names(&vec![registry_entry("enabled", true), registry_entry("disabled", false)]);
    assert_eq!(names, vec![ToolName::namespaced("agent", "enabled")]);
}

fn chunk(stream: CommandStream, bytes: &[u8]) -> CommandChunk {
    CommandChunk { stream, bytes: bytes.to_vec() }
}

#[test]
fn command_output_is_routed_by_stream_until_close() {
    let mut output = CommandOutput::new();
    assert_eq!(output.read_budget(), 256 * 1024 + 1);
    let step = output.absorb(CommandRead {
        chunks: vec![
            chunk(CommandStream::Stdout, b"ok"),
            chunk(CommandStream::Stderr, b"warn"),
            chunk(CommandStream::Pty, b"!"),
        ],
        failure: None,
        closed: false,
        exit_code: None,
    });
    assert!(matches!(step, CollectStep::Continue));
    assert_eq!(output.stdout, b"ok!".to_vec());
    assert_eq!(output.stderr, b"warn".to_vec());
    assert_eq!(output.read_budget(), 256 * 1024 + 1 - 7);
    let step = output.absorb(CommandRead {
        chunks: Vec::new(),
        failure: None,
        closed: true,
        exit_code: Some(3),
    });
    assert!(matches!(step, CollectStep::Finished { exit_code: 3 }));
    let step = output.absorb(CommandRead {
        chunks: Vec::new(),
        failure: None,
        closed: true,
        exit_code: None,
    });
    assert!(matches!(step, CollectStep::Finished { exit_code: -1 }));
}

#[test]
fn command_output_over_budget_terminates_the_command() {
    let mut output = CommandOutput::new();
    let step = output.absorb(CommandRead {
        chunks: vec![
            chunk(CommandStream::Stdout, &vec![b'a'; 256 * 1024]),
            chunk(CommandStream::Stderr, b"x"),
            chunk(CommandStream::Stdout, b"never"),
        ],
        failure: None,
        closed: true,
        exit_code: Some(0),
    });
    match step {
        CollectStep::Failed { message, terminate } => {
            assert_eq!(message, "project AGENT command output exceeded 262144 bytes");
            assert!(terminate);
        }
        _ => panic!("expected the budget to stop the command"),
    }
    assert_eq!(output.stdout.len(), 256 * 1024);
    assert_eq!(output.stderr, b"x".to_vec());
}

#[test]
fn command_failure_is_reported() {
    let mut output = CommandOutput::new();
    let step = output.absorb(CommandRead {
        chunks: Vec::new(),
        failure: Some("sandbox denied".to_string()),
        closed: false,
        exit_code: None,
    });
    match step {
        CollectStep::Failed { message, terminate } => {
            assert_eq!(message, "project AGENT command failed: sandbox denied");
            assert!(!terminate);
        }
        _ => panic!("expected a failure"),
    }
}
