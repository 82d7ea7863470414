//! The history entry for a context checkpoint: a small tree when the
//! terminal is wide enough, one summary line when it is not, and a plain
//! transcript form.

use crate::text::{decimal, owned, push_decimal, push_str, texts};
use crate::tui::{short_window, short_window_id};
use vstd::prelude::*;

verus! {

broadcast use vstd::string::group_string_axioms;

/// Below this width the tree folds into one summary line.
pub const EXPANDED_MIN_WIDTH: u16 = 72;

/// A context checkpoint as the history shows it.
#[derive(Clone, Debug, Eq, PartialEq)]
pub struct ContextCheckpointDetails {
    pub checkpoint_ref: String,
    pub generation_id: String,
    pub turn_record_id: String,
    pub labels: Vec<String>,
    pub state_entry_count: u64,
    pub window_number: u64,
    pub first_window_id: String,
    pub previous_window_id: Option<String>,
    pub window_id: String,
}

/// Tree connectors drawn with box characters or with ASCII.
#[derive(Clone, Copy, Debug, Eq, PartialEq, Structural)]
pub enum TreeStyle {
    Unicode,
    Ascii,
}

/// How a piece of a line is drawn.
#[derive(Clone, Copy, Debug, Eq, PartialEq, Structural)]
pub enum SpanStyle {
    Plain,
    Dim,
    Bold,
    DimItalic,
    Cyan,
    CyanBold,
    Green,
    GreenBold,
    Magenta,
    Red,
    RedBold,
}

/// A piece of a rendered line.
#[derive(Clone, Debug, Eq, PartialEq)]
pub struct StyledSpan {
    pub text: String,
    pub style: SpanStyle,
}

pub open spec fn spans(line: Seq<StyledSpan>) -> Seq<(Seq<char>, SpanStyle)> {
    line.map_values(|s: StyledSpan| (s.text@, s.style))
}

pub open spec fn rendered(lines: Seq<Vec<StyledSpan>>) -> Seq<Seq<(Seq<char>, SpanStyle)>> {
    lines.map_values(|l: Vec<StyledSpan>| spans(l@))
}

/// `parts` joined by `sep`.
pub open spec fn joined(parts: Seq<Seq<char>>, sep: Seq<char>) -> Seq<char>
    decreases parts.len(),
{
    if parts.len() == 0 {
        Seq::empty()
    } else if parts.len() == 1 {
        parts[0]
    } else {
        joined(parts.drop_last(), sep) + sep + parts.last()
    }
}

pub fn join_texts(parts: &Vec<String>, sep: &str) -> (r: String)
    ensures
        r@ == joined(texts(parts@), sep@),
{
    let ghost ps = texts(parts@);
    let mut out = String::new();
    let mut i: usize = 0;
    proof {
        assert(ps.take(0) =~= Seq::<Seq<char>>::empty());
    }
    while i < parts.len()
        invariant
            i <= parts.len(),
            ps == texts(parts@),
            out@ == joined(ps.take(i as int), sep@),
        decreases parts.len() - i,
    {
        proof {
            assert(ps.take(i + 1).drop_last() =~= ps.take(i as int));
            assert(ps.take(i + 1).last() == parts@[i as int]@);
        }
        if i > 0 {
            push_str(&mut out, sep);
        } else {
            proof {
                assert(out@ =~= Seq::<char>::empty());
            }
        }
        push_str(&mut out, parts[i].as_str());
        proof {
            if i == 0 {
                assert(ps.take(1)[0] == parts@[0]@);
                assert(out@ =~= joined(ps.take(1), sep@));
            } else {
                assert(out@ =~= joined(ps.take(i + 1), sep@));
            }
        }
        i = i + 1;
    }
    proof {
        assert(ps.take(parts@.len() as int) =~= ps);
    }
    out
}

pub(crate) fn span(text: String, style: SpanStyle) -> (r: StyledSpan)
    ensures
        r.text@ == text@,
        r.style == style,
{
    StyledSpan { text, style }
}

pub open spec fn labels_text(labels: Seq<Seq<char>>) -> Seq<char> {
    if labels.len() == 0 {
        "none"@
    } else {
        joined(labels, ", "@)
    }
}

/// The lines of the checkpoint entry: the header; then, below the expanded
/// width, one summary line; otherwise the state, generation and window
/// branches of the tree.
pub open spec fn checkpoint_lines(
    c: Option<ContextCheckpointDetails>,
    width: u16,
    style: TreeStyle,
) -> Seq<Seq<(Seq<char>, SpanStyle)>> {
    match c {
        None => seq![seq![("* Context compacted"@, SpanStyle::Dim)]],
        Some(c) => {
            let bullet = match style {
                TreeStyle::Unicode => "\u{2022} "@,
                TreeStyle::Ascii => "* "@,
            };
            let header = seq![
                (bullet, SpanStyle::Cyan),
                ("Context checkpoint "@, SpanStyle::Bold),
                (c.checkpoint_ref@, SpanStyle::CyanBold),
            ];
            if width < EXPANDED_MIN_WIDTH {
                seq![
                    header,
                    seq![
                        (
                            "  "@ + decimal(c.state_entry_count as nat) + " state entries \u{b7} window "@
                                + decimal(c.window_number as nat),
                            SpanStyle::Dim,
                        ),
                    ],
                ]
            } else {
                let branch = match style {
                    TreeStyle::Unicode => "  \u{251c}\u{2500} "@,
                    TreeStyle::Ascii => "  |- "@,
                };
                let end = match style {
                    TreeStyle::Unicode => "  \u{2514}\u{2500} "@,
                    TreeStyle::Ascii => "  `- "@,
                };
                let previous = match c.previous_window_id {
                    Some(p) => short_window(p@),
                    None => "start"@,
                };
                seq![
                    header,
                    seq![
                        (branch, SpanStyle::Dim),
                        ("state "@, SpanStyle::Plain),
                        (decimal(c.state_entry_count as nat), SpanStyle::Bold),
                        (" \u{b7} "@ + labels_text(texts(c.labels@)), SpanStyle::Dim),
                    ],
                    seq![
                        (branch, SpanStyle::Dim),
                        (
                            "generation "@ + c.generation_id@ + " \u{b7} record "@
                                + c.turn_record_id@,
                            SpanStyle::Plain,
                        ),
                    ],
                    seq![
                        (end, SpanStyle::Dim),
                        (
                            "window "@ + decimal(c.window_number as nat) + " \u{b7} "@ + previous
                                + " -> "@ + short_window(c.window_id@),
                            SpanStyle::Plain,
                        ),
                    ],
                ]
            }
        },
    }
}

pub(crate) fn decimal_text(n: u64) -> (r: String)
    ensures
        r@ == decimal(n as nat),
{
    let mut s = String::new();
    push_decimal(&mut s, n);
    proof {
        assert(s@ =~= decimal(n as nat));
    }
    s
}

/// Renders the checkpoint entry.
pub fn render_checkpoint_lines(
    checkpoint: Option<&ContextCheckpointDetails>,
    width: u16,
    tree_style: TreeStyle,
) -> (r: Vec<Vec<StyledSpan>>)
    ensures
        rendered(r@) == checkpoint_lines(
            match checkpoint {
                Some(c) => Some(*c),
                None => None,
            },
            width,
            tree_style,
        ),
{
    let c = match checkpoint {
        None => {
            let r = vec![vec![span(owned("* Context compacted"), SpanStyle::Dim)]];
            proof {
                assert(spans(r@[0]@) =~= seq![("* Context compacted"@, SpanStyle::Dim)]);
                assert(rendered(r@) =~= checkpoint_lines(None, width, tree_style));
            }
            return r;
        },
        Some(c) => c,
    };
    let bullet = match tree_style {
        TreeStyle::Unicode => "\u{2022} ",
        TreeStyle::Ascii => "* ",
    };
    let header = vec![
        span(owned(bullet), SpanStyle::Cyan),
        span(owned("Context checkpoint "), SpanStyle::Bold),
        span(c.checkpoint_ref.clone(), SpanStyle::CyanBold),
    ];
    let ghost spec_lines = checkpoint_lines(Some(*c), width, tree_style);
    proof {
        assert(spans(header@) =~= spec_lines[0]);
    }
    if width < EXPANDED_MIN_WIDTH {
        let mut summary = owned("  ");
        push_decimal(&mut summary, c.state_entry_count);
        push_str(&mut summary, " state entries \u{b7} window ");
        push_decimal(&mut summary, c.window_number);
        let second = vec![span(summary, SpanStyle::Dim)];
        let r = vec![header, second];
        proof {
            assert(spans(r@[1]@) =~= spec_lines[1]);
            assert(rendered(r@) =~= spec_lines);
        }
        return r;
    }
    let branch = match tree_style {
        TreeStyle::Unicode => "  \u{251c}\u{2500} ",
        TreeStyle::Ascii => "  |- ",
    };
    let end = match tree_style {
        TreeStyle::Unicode => "  \u{2514}\u{2500} ",
        TreeStyle::Ascii => "  `- ",
    };
    let labels = if c.labels.len() == 0 {
        owned("none")
    } else {
        join_texts(&c.labels, ", ")
    };
    let mut labels_span = owned(" \u{b7} ");
    push_str(&mut labels_span, labels.as_str());
    let state_line = vec![
        span(owned(branch), SpanStyle::Dim),
        span(owned("state "), SpanStyle::Plain),
        span(decimal_text(c.state_entry_count), SpanStyle::Bold),
        span(labels_span, SpanStyle::Dim),
    ];
    let mut generation = owned("generation ");
    push_str(&mut generation, c.generation_id.as_str());
    push_str(&mut generation, " \u{b7} record ");
    push_str(&mut generation, c.turn_record_id.as_str());
    let generation_line = vec![span(owned(branch), SpanStyle::Dim), span(generation, SpanStyle::Plain)];
    let previous = match &c.previous_window_id {
        Some(p) => short_window_id(p.as_str()),
        None => owned("start"),
    };
    let mut window = owned("window ");
    push_decimal(&mut window, c.window_number);
    push_str(&mut window, " \u{b7} ");
    push_str(&mut window, previous.as_str());
    push_str(&mut window, " -> ");
    let current = short_window_id(c.window_id.as_str());
    push_str(&mut window, current.as_str());
    let window_line = vec![span(owned(end), SpanStyle::Dim), span(window, SpanStyle::Plain)];
    let r = vec![header, state_line, generation_line, window_line];
    proof {
        assert(spans(r@[1]@) =~= spec_lines[1]);
        assert(spans(r@[2]@) =~= spec_lines[2]);
        assert(spans(r@[3]@) =~= spec_lines[3]);
        assert(rendered(r@) =~= spec_lines);
    }
    r
}

/// The transcript form of the checkpoint entry.
pub open spec fn checkpoint_raw_lines(c: Option<ContextCheckpointDetails>) -> Seq<Seq<char>> {
    match c {
        None => seq!["Context compacted"@],
        Some(c) => seq![
            "Context checkpoint "@ + c.checkpoint_ref@,
            "  generation="@ + c.generation_id@ + " record="@ + c.turn_record_id@
                + " stateEntries="@ + decimal(c.state_entry_count as nat) + " labels="@ + joined(
                texts(c.labels@),
                ","@,
            ),
            "  window="@ + decimal(c.window_number as nat) + " first="@ + c.first_window_id@
                + " previous="@ + match c.previous_window_id {
                Some(p) => p@,
                None => "none"@,
            } + " current="@ + c.window_id@,
        ],
    }
}

pub fn raw_checkpoint_lines(checkpoint: Option<&ContextCheckpointDetails>) -> (r: Vec<String>)
    ensures
        texts(r@) == checkpoint_raw_lines(
            match checkpoint {
                Some(c) => Some(*c),
                None => None,
            },
        ),
{
    let c = match checkpoint {
        None => {
            let r = vec![owned("Context compacted")];
            proof {
                assert(texts(r@) =~= checkpoint_raw_lines(None));
            }
            return r;
        },
        Some(c) => c,
    };
    let mut first = owned("Context checkpoint ");
    push_str(&mut first, c.checkpoint_ref.as_str());
    let mut second = owned("  generation=");
    push_str(&mut second, c.generation_id.as_str());
    push_str(&mut second, " record=");
    push_str(&mut second, c.turn_record_id.as_str());
    push_str(&mut second, " stateEntries=");
    push_decimal(&mut second, c.state_entry_count);
    push_str(&mut second, " labels=");
    let labels = join_texts(&c.labels, ",");
    push_str(&mut second, labels.as_str());
    let mut third = owned("  window=");
    push_decimal(&mut third, c.window_number);
    push_str(&mut third, " first=");
    push_str(&mut third, c.first_window_id.as_str());
    push_str(&mut third, " previous=");
    match &c.previous_window_id {
        Some(p) => push_str(&mut third, p.as_str()),
        None => push_str(&mut third, "none"),
    }
    push_str(&mut third, " current=");
    push_str(&mut third, c.window_id.as_str());
    let r = vec![first, second, third];
    proof {
        assert(texts(r@) =~= checkpoint_raw_lines(Some(*c)));
    }
    r
}

/// What the terminal reveals about its support for box-drawing characters.
#[derive(Clone, Copy, Debug, Eq, PartialEq)]
pub struct TerminalHints {
    pub windows: bool,
    pub windows_terminal_session: bool,
    pub term_program: bool,
    pub con_emu_ansi: bool,
    pub ansicon: bool,
}

/// Box characters everywhere but in a bare Windows console: one with none
/// of the markers that modern Windows terminals set.
pub fn terminal_tree_style(hints: TerminalHints) -> (r: TreeStyle)
    ensures
        r == (if hints.windows && !hints.windows_terminal_session && !hints.term_program
            && !hints.con_emu_ansi && !hints.ansicon {
            TreeStyle::Ascii
        } else {
            TreeStyle::Unicode
        }),
{
    if hints.windows && !hints.windows_terminal_session && !hints.term_program && !hints.con_emu_ansi
        && !hints.ansicon {
        TreeStyle::Ascii
    } else {
        TreeStyle::Unicode
    }
}

} // verus!
