use project_agents::mention::{
    plugin_mention_name, split_display_name_segments, split_plugin_name_segments,
    title_case_plugin_name,
};

#[test]
fn plugin_mention_name_uses_display_segments_when_they_match_plugin_name() {
    assert_eq!(
        plugin_mention_name("mcp-search", "MCP Search"),
        "MCP-Search"
    );
    assert_eq!(
        plugin_mention_name("google_calendar", "Google Calendar"),
        "Google_Calendar"
    );
}

#[test]
fn plugin_mention_name_falls_back_to_title_cased_plugin_name() {
    assert_eq!(plugin_mention_name("sample", "Sample Plugin"), "Sample");
    assert_eq!(
        plugin_mention_name("browser-use", "Browser Use"),
        "Browser-Use"
    );
}

#[test]
fn plugin_segments_keep_their_separators() {
    assert_eq!(
        split_plugin_name_segments("-a--b_c"),
        vec![
            ("a".to_string(), Some('-')),
            ("b".to_string(), Some('_')),
            ("c".to_string(), None),
        ]
    );
    assert_eq!(split_display_name_segments("  Hello, World! 2"), vec!["Hello", "World", "2"]);
    assert_eq!(title_case_plugin_name("a-b_1c"), "A-B_1c");
}
