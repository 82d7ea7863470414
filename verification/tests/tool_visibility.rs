use project_agents::tool_visibility::{CollaborationSurfacePolicy, ToolName, ToolVisibilityPolicy};

#[test]
fn combined_policies_keep_what_both_keep() {
    let mut policy = ToolVisibilityPolicy::allow_only(vec![
        ToolName::plain("shell_command"),
        ToolName::namespaced("x", "lookup"),
    ]);
    assert!(policy.allows(&ToolName::plain("shell_command")));
    assert!(!policy.allows(&ToolName::plain("lookup")));
    let other = ToolVisibilityPolicy {
        allow: Some(vec![ToolName::namespaced("x", "lookup")]),
        deny: vec![ToolName::plain("shell_command")],
    };
    policy.intersect(other);
    assert!(policy.allows(&ToolName::namespaced("x", "lookup")));
    assert!(!policy.allows(&ToolName::plain("shell_command")));

    let mut open = ToolVisibilityPolicy::default();
    assert!(open.allows(&ToolName::plain("anything")));
    open.intersect(ToolVisibilityPolicy {
        allow: None,
        deny: vec![ToolName::plain("anything")],
    });
    assert!(!open.allows(&ToolName::plain("anything")));
    assert!(open.allows(&ToolName::plain("else")));
    assert_eq!(CollaborationSurfacePolicy::default(), CollaborationSurfacePolicy::Enabled);
}

#[test]
fn the_default_policy_allows_every_tool() {
    let policy = ToolVisibilityPolicy::default();
    assert_eq!(policy.allow, None);
    assert!(policy.deny.is_empty());
    assert!(policy.allows(&ToolName::plain("shell_command")));
    assert!(policy.allows(&ToolName::namespaced("x", "lookup")));
}
