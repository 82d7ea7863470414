use project_agents::checkpoint::{SpanStyle, StyledSpan};
use project_agents::history::{
    bound_wrapped_lines, bounded_text, completion_success, kind_title, reported_duration_ms,
    research_entry_line, research_update_header, research_update_raw_lines, tool_bullet,
    tool_call_details, tool_call_header, tool_call_raw_header, tool_detail_lines, tool_verb,
    DynamicToolCall,
    DynamicToolCallStatus, DynamicToolInvocation, DynamicToolOutputItem,
};
use project_agents::plan::{ResearchEntryKind, ResearchScope, ResearchStatus};
use project_agents::research::ResearchEntry;

fn entry(id: &str, kind: ResearchEntryKind, status: ResearchStatus) -> ResearchEntry {
    ResearchEntry {
        id: id.to_string(),
        scope: ResearchScope::Project,
        kind,
        subject: "layout".to_string(),
        statement: "Keep the sidebar fixed".to_string(),
        status,
    }
}

fn text_of(line: &[StyledSpan]) -> String {
    line.iter().map(|s| s.text.as_str()).collect()
}

fn invocation() -> DynamicToolInvocation {
    DynamicToolInvocation {
        namespace: Some("lookup".to_string()),
        tool: "search".to_string(),
        arguments: "{\"query\":\"auth\"}".to_string(),
    }
}

#[test]
fn research_update_raw_lines_list_each_entry() {
    let entries = vec![
        entry("a", ResearchEntryKind::FuturePressure, ResearchStatus::Open),
        entry("b", ResearchEntryKind::Decision, ResearchStatus::Supported),
    ];
    let lines = research_update_raw_lines(7, true, &entries);
    assert_eq!(
        lines,
        vec![
            "Research State revision 7 (changed)".to_string(),
            "open Future Pressure [project] layout: Keep the sidebar fixed".to_string(),
            "supported Decision [project] layout: Keep the sidebar fixed".to_string(),
        ]
    );
}

#[test]
fn research_update_raw_lines_mark_an_empty_state() {
    let lines = research_update_raw_lines(12, false, &[]);
    assert_eq!(
        lines,
        vec!["Research State revision 12 (unchanged)".to_string(), "(empty)".to_string()]
    );
}

#[test]
fn research_update_header_notes_an_unchanged_revision() {
    let changed = research_update_header(3, true);
    assert_eq!(text_of(&changed), "• Research State · rev 3");
    let unchanged = research_update_header(3, false);
    assert_eq!(text_of(&unchanged), "• Research State · rev 3 · unchanged");
    assert_eq!(unchanged[3].style, SpanStyle::DimItalic);
}

#[test]
fn research_entry_line_marks_status() {
    let line = research_entry_line(&entry("a", ResearchEntryKind::Fact, ResearchStatus::Rejected));
    assert_eq!(
        text_of(&line),
        "× Fact · layout [project · rejected] — Keep the sidebar fixed"
    );
    assert_eq!(line[0].style, SpanStyle::Red);
    assert_eq!(line[1].style, SpanStyle::Bold);
    assert_eq!(kind_title(ResearchEntryKind::FuturePressure), "Future Pressure");
}

#[test]
fn bounded_text_wraps_to_the_width() {
    assert_eq!(bounded_text("aaa bbb ccc", 100, 8, 4), "aaa\nbbb\nccc");
    assert_eq!(bounded_text("aaa bbb ccc", 100, 8, 80), "aaa bbb ccc");
}

#[test]
fn bounded_text_keeps_at_most_the_visible_lines() {
    let text = (0..10).map(|i| format!("l{i}")).collect::<Vec<_>>().join("\n");
    assert_eq!(
        bounded_text(&text, 1000, 8, 80),
        "l0\nl1\nl2\nl3\nl4\nl5\nl6\nl7 [truncated]"
    );
    let long = (0..50).map(|i| format!("word{i}")).collect::<Vec<_>>().join(" ");
    let shown = bounded_text(&long, 16384, 3, 10);
    assert_eq!(shown.matches('\n').count(), 2);
    assert!(shown.ends_with(" [truncated]"));
}

#[test]
fn bounded_text_cuts_long_text_at_a_char_boundary() {
    assert_eq!(
        bounded_text("abcdefghijklmnopqrstuvwxyz", 20, 8, 80),
        "abcdefgh [truncated]"
    );
    assert_eq!(bounded_text("éééééééééé", 15, 8, 80), "é [truncated]");
    assert_eq!(bounded_text("abc", 0, 8, 80), "[truncated]");
}

#[test]
fn bound_wrapped_lines_marks_dropped_lines() {
    let lines = vec!["one".to_string(), "two".to_string(), "three".to_string()];
    assert_eq!(bound_wrapped_lines(lines.clone(), 2, false), "one\ntwo [truncated]");
    assert_eq!(bound_wrapped_lines(lines, 3, false), "one\ntwo\nthree");
    assert_eq!(bound_wrapped_lines(vec![String::new()], 8, true), "[truncated]");
}

#[test]
fn tool_call_details_show_arguments_output_and_error() {
    let items = vec![
        DynamicToolOutputItem::InputText {
            text: "found 2".to_string(),
        },
        DynamicToolOutputItem::InputImage {
            image_url: "file:///a.png".to_string(),
        },
    ];
    let details = tool_call_details("{\"q\":1}", Some(&items), Some("boom"), 80);
    assert_eq!(
        details,
        vec![
            "arguments: {\"q\":1}".to_string(),
            "output: found 2\n[image] file:///a.png".to_string(),
            "error: boom".to_string(),
        ]
    );
    let none = tool_call_details("{}", Some(&Vec::new()), None, 80);
    assert_eq!(none, vec!["arguments: {}".to_string()]);
    let narrow = tool_call_details("{}", None, None, 0);
    assert_eq!(narrow, vec!["arguments: {\n}".to_string()]);
}

#[test]
fn tool_call_details_cap_output_items() {
    let items = (0..40)
        .map(|i| DynamicToolOutputItem::InputText {
            text: format!("i{i}"),
        })
        .collect::<Vec<_>>();
    let details = tool_call_details("{}", Some(&items), None, 200);
    assert_eq!(details.len(), 2);
    let mut expected = (0..32).map(|i| format!("i{i}")).collect::<Vec<_>>();
    expected.push("[truncated]".to_string());
    let wrapped_first_lines = expected[..8].join("\n");
    assert_eq!(details[1], format!("output: {wrapped_first_lines} [truncated]"));
}

#[test]
fn dynamic_tool_call_lifecycle() {
    let mut call = DynamicToolCall::new("call-1".to_string(), invocation());
    assert_eq!(call.call_id(), "call-1");
    assert_eq!(call.name(), "lookup.search");
    assert_eq!(call.success, None);
    call.mark_failed(250);
    assert_eq!(call.success, Some(false));
    assert_eq!(call.duration_ms, Some(250));
    assert_eq!(call.error.as_deref(), Some("interrupted"));
    assert_eq!(
        call.bounded_details(80),
        vec![
            "arguments: {\"query\":\"auth\"}".to_string(),
            "error: interrupted".to_string()
        ]
    );
    let mut plain = invocation();
    plain.namespace = None;
    let other = DynamicToolCall::new("call-2".to_string(), plain);
    assert_eq!(other.name(), "search");
}

#[test]
fn dynamic_tool_call_from_item_completes_finished_calls() {
    let done = DynamicToolCall::from_item(
        "call-3".to_string(),
        invocation(),
        DynamicToolCallStatus::Completed,
        None,
        None,
        None,
        Some(-5),
    );
    assert_eq!(done.success, Some(true));
    assert_eq!(done.duration_ms, Some(0));
    let failed = DynamicToolCall::from_item(
        "call-4".to_string(),
        invocation(),
        DynamicToolCallStatus::Failed,
        None,
        None,
        Some("bad".to_string()),
        Some(1200),
    );
    assert_eq!(failed.success, Some(false));
    assert_eq!(failed.duration_ms, Some(1200));
    let running = DynamicToolCall::from_item(
        "call-5".to_string(),
        invocation(),
        DynamicToolCallStatus::InProgress,
        None,
        Some(true),
        None,
        Some(10),
    );
    assert_eq!(running.success, None);
    assert_eq!(running.duration_ms, None);
    assert_eq!(
        completion_success(DynamicToolCallStatus::Failed, Some(true)),
        Some(true)
    );
    assert_eq!(reported_duration_ms(None), 0);
}

#[test]
fn tool_headers_follow_the_outcome() {
    assert_eq!(tool_verb(Some(true)), "Completed");
    assert_eq!(tool_verb(Some(false)), "Failed");
    assert_eq!(tool_verb(None), "Calling");
    assert_eq!(
        tool_call_raw_header("lookup.search", None),
        "Tool lookup.search · in progress"
    );
    assert_eq!(
        tool_bullet(Some(false)).map(|b| b.style),
        Some(SpanStyle::RedBold)
    );
    assert!(tool_bullet(None).is_none());
}

#[test]
fn tool_detail_lines_wrap_under_a_tree_prefix() {
    let details = vec!["arguments: aaa bbb".to_string(), "error: x".to_string()];
    let lines = tool_detail_lines(&details, 14);
    let texts = lines.iter().map(|l| text_of(l)).collect::<Vec<_>>();
    assert_eq!(
        texts,
        vec![
            "  └ arguments:".to_string(),
            "    aaa bbb".to_string(),
            "    error: x".to_string(),
        ]
    );
    assert_eq!(lines[0][0].style, SpanStyle::Dim);
    assert_eq!(lines[1][0].style, SpanStyle::Plain);
}

#[test]
fn tool_call_header_names_outcome_and_duration() {
    let bullet = tool_bullet(Some(true)).expect("bullet");
    let header = tool_call_header(
        bullet.clone(),
        Some(true),
        "lookup.search".to_string(),
        " (1.5s)".to_string(),
    );
    assert_eq!(text_of(&header), "• Completed lookup.search (1.5s)");
    assert_eq!(header[0], bullet);
    assert_eq!(header[2].style, SpanStyle::Bold);
    assert_eq!(header[4].style, SpanStyle::Cyan);
    assert_eq!(header[5].style, SpanStyle::Dim);
}
