use project_agents::checkpoint::{
    raw_checkpoint_lines, render_checkpoint_lines, terminal_tree_style, ContextCheckpointDetails,
    SpanStyle, TerminalHints,
    StyledSpan, TreeStyle,
};

fn checkpoint() -> ContextCheckpointDetails {
    ContextCheckpointDetails {
        checkpoint_ref: "ctx:G000002/TR000018".to_string(),
        generation_id: "G000002".to_string(),
        turn_record_id: "TR000018".to_string(),
        labels: vec!["decision".to_string(), "source".to_string()],
        state_entry_count: 4,
        window_number: 3,
        first_window_id: "01911111-1111-7111-8111-111111111111".to_string(),
        previous_window_id: Some("01922222-2222-7222-8222-222222222222".to_string()),
        window_id: "01933333-3333-7333-8333-333333333333".to_string(),
    }
}

fn rendered(lines: Vec<Vec<StyledSpan>>) -> String {
    lines
        .into_iter()
        .map(|line| line.into_iter().map(|span| span.text).collect::<String>())
        .collect::<Vec<_>>()
        .join("\n")
}

#[test]
fn checkpoint_history_tree_expands_and_folds_by_width() {
    let checkpoint = checkpoint();
    assert_eq!(
        rendered(render_checkpoint_lines(Some(&checkpoint), 100, TreeStyle::Unicode)),
        "• Context checkpoint ctx:G000002/TR000018\n  ├─ state 4 · decision, source\n  ├─ generation G000002 · record TR000018\n  └─ window 3 · 01922222 -> 01933333"
    );
    assert_eq!(
        rendered(render_checkpoint_lines(Some(&checkpoint), 50, TreeStyle::Ascii)),
        "* Context checkpoint ctx:G000002/TR000018\n  4 state entries · window 3"
    );
}

#[test]
fn checkpoint_styles_and_transcript() {
    let checkpoint = checkpoint();
    let lines = render_checkpoint_lines(Some(&checkpoint), 100, TreeStyle::Ascii);
    assert_eq!(lines[0][2].style, SpanStyle::CyanBold);
    assert_eq!(lines[3][0].text, "  `- ");
    assert_eq!(
        rendered(render_checkpoint_lines(None, 100, TreeStyle::Unicode)),
        "* Context compacted"
    );
    assert_eq!(
        raw_checkpoint_lines(Some(&checkpoint)),
        vec![
            "Context checkpoint ctx:G000002/TR000018".to_string(),
            "  generation=G000002 record=TR000018 stateEntries=4 labels=decision,source".to_string(),
            "  window=3 first=01911111-1111-7111-8111-111111111111 previous=01922222-2222-7222-8222-222222222222 current=01933333-3333-7333-8333-333333333333".to_string(),
        ]
    );
    let mut empty = checkpoint;
    empty.labels.clear();
    empty.previous_window_id = None;
    assert_eq!(
        rendered(render_checkpoint_lines(Some(&empty), 72, TreeStyle::Unicode)),
        "• Context checkpoint ctx:G000002/TR000018\n  ├─ state 4 · none\n  ├─ generation G000002 · record TR000018\n  └─ window 3 · start -> 01933333"
    );
}

#[test]
fn bare_windows_consoles_draw_ascii_trees() {
    let bare = TerminalHints {
        windows: true,
        windows_terminal_session: false,
        term_program: false,
        con_emu_ansi: false,
        ansicon: false,
    };
    assert_eq!(terminal_tree_style(bare), TreeStyle::Ascii);
    assert_eq!(
        terminal_tree_style(TerminalHints {
            windows_terminal_session: true,
            ..bare
        }),
        TreeStyle::Unicode
    );
    assert_eq!(
        terminal_tree_style(TerminalHints {
            windows: false,
            ..bare
        }),
        TreeStyle::Unicode
    );
}
