//! History entries for research-state updates and for dynamic tool calls:
//! their transcript lines, their styled headers and the bounded detail text
//! shown under a tool call.

use crate::checkpoint::{decimal_text, join_texts, joined, span, spans, SpanStyle, StyledSpan};
use crate::plan::{ResearchEntryKind, ResearchStatus};
use crate::research::{models, EntryModel, ResearchEntry};
use crate::research_project::{scope_name, scope_name_spec, status_name, status_name_spec};
use crate::text::{
    byte_len, byte_prefix, decimal, owned, push_char, push_str, take_bytes_at_char_boundary, texts,
    utf8_len,
};
use vstd::prelude::*;

verus! {

broadcast use vstd::string::group_string_axioms;

// ---------------------------------------------------------------------------
// Research-state updates.

/// The label of an entry kind as the history shows it.
pub open spec fn kind_title_spec(k: ResearchEntryKind) -> Seq<char> {
    match k {
        ResearchEntryKind::Fact => "Fact"@,
        ResearchEntryKind::Constraint => "Constraint"@,
        ResearchEntryKind::Goal => "Goal"@,
        ResearchEntryKind::Unknown => "Unknown"@,
        ResearchEntryKind::Hypothesis => "Hypothesis"@,
        ResearchEntryKind::Exploration => "Exploration"@,
        ResearchEntryKind::Decision => "Decision"@,
        ResearchEntryKind::FuturePressure => "Future Pressure"@,
        ResearchEntryKind::Outcome => "Outcome"@,
    }
}

pub fn kind_title(kind: ResearchEntryKind) -> (r: &'static str)
    ensures
        r@ == kind_title_spec(kind),
{
    match kind {
        ResearchEntryKind::Fact => "Fact",
        ResearchEntryKind::Constraint => "Constraint",
        ResearchEntryKind::Goal => "Goal",
        ResearchEntryKind::Unknown => "Unknown",
        ResearchEntryKind::Hypothesis => "Hypothesis",
        ResearchEntryKind::Exploration => "Exploration",
        ResearchEntryKind::Decision => "Decision",
        ResearchEntryKind::FuturePressure => "Future Pressure",
        ResearchEntryKind::Outcome => "Outcome",
    }
}

/// The symbol and style that mark an entry's status.
pub open spec fn status_mark_spec(s: ResearchStatus) -> (Seq<char>, SpanStyle) {
    match s {
        ResearchStatus::Open => ("?"@, SpanStyle::Cyan),
        ResearchStatus::Supported => ("\u{2713}"@, SpanStyle::GreenBold),
        ResearchStatus::Rejected => ("\u{d7}"@, SpanStyle::Red),
        ResearchStatus::Resolved => ("\u{25c6}"@, SpanStyle::Cyan),
        ResearchStatus::Superseded => ("\u{21ba}"@, SpanStyle::Dim),
    }
}

fn status_mark(status: ResearchStatus) -> (r: (&'static str, SpanStyle))
    ensures
        (r.0@, r.1) == status_mark_spec(status),
{
    match status {
        ResearchStatus::Open => ("?", SpanStyle::Cyan),
        ResearchStatus::Supported => ("\u{2713}", SpanStyle::GreenBold),
        ResearchStatus::Rejected => ("\u{d7}", SpanStyle::Red),
        ResearchStatus::Resolved => ("\u{25c6}", SpanStyle::Cyan),
        ResearchStatus::Superseded => ("\u{21ba}", SpanStyle::Dim),
    }
}

pub open spec fn change_word(changed: bool) -> Seq<char> {
    if changed {
        "changed"@
    } else {
        "unchanged"@
    }
}

/// The transcript line of one entry: status, kind, scope, subject and
/// statement.
pub open spec fn research_raw_entry(e: EntryModel) -> Seq<char> {
    status_name_spec(e.status) + " "@ + kind_title_spec(e.kind) + " ["@ + scope_name_spec(e.scope)
        + "] "@ + e.subject + ": "@ + e.statement
}

/// The transcript lines of a research-state update: a header with the
/// revision and whether it changed, then one line per entry, or `(empty)`.
pub open spec fn research_raw_lines(revision: u64, changed: bool, es: Seq<EntryModel>) -> Seq<
    Seq<char>,
> {
    seq![
        "Research State revision "@ + decimal(revision as nat) + " ("@ + change_word(changed)
            + ")"@,
    ] + if es.len() == 0 {
        seq!["(empty)"@]
    } else {
        es.map_values(|e: EntryModel| research_raw_entry(e))
    }
}

fn raw_entry_line(entry: &ResearchEntry) -> (r: String)
    ensures
        r@ == research_raw_entry(entry@),
{
    let mut line = owned(status_name(entry.status));
    push_str(&mut line, " ");
    push_str(&mut line, kind_title(entry.kind));
    push_str(&mut line, " [");
    push_str(&mut line, scope_name(entry.scope));
    push_str(&mut line, "] ");
    push_str(&mut line, entry.subject.as_str());
    push_str(&mut line, ": ");
    push_str(&mut line, entry.statement.as_str());
    line
}

/// The transcript lines of a research-state update.
pub fn research_update_raw_lines(revision: u64, changed: bool, entries: &[ResearchEntry]) -> (r: Vec<
    String,
>)
    ensures
        texts(r@) == research_raw_lines(revision, changed, models(entries@)),
{
    let mut header = owned("Research State revision ");
    let digits = decimal_text(revision);
    push_str(&mut header, digits.as_str());
    push_str(&mut header, " (");
    push_str(&mut header, if changed { "changed" } else { "unchanged" });
    push_str(&mut header, ")");
    let mut lines: Vec<String> = vec![header];
    let ghost es = models(entries@);
    let ghost h = lines@[0]@;
    if entries.len() == 0 {
        lines.push(owned("(empty)"));
        proof {
            assert(texts(lines@) =~= research_raw_lines(revision, changed, es));
        }
        return lines;
    }
    let mut i: usize = 0;
    while i < entries.len()
        invariant
            i <= entries.len(),
            es == models(entries@),
            texts(lines@) == seq![h] + es.take(i as int).map_values(
                |e: EntryModel| research_raw_entry(e),
            ),
        decreases entries.len() - i,
    {
        let line = raw_entry_line(&entries[i]);
        let ghost before = lines@;
        lines.push(line);
        proof {
            assert(texts(lines@) =~= texts(before).push(line@));
            assert(es[i as int] == entries@[i as int]@);
            assert(es.take(i + 1) =~= es.take(i as int).push(es[i as int]));
            assert(es.take(i + 1).map_values(|e: EntryModel| research_raw_entry(e)) =~= es.take(
                i as int,
            ).map_values(|e: EntryModel| research_raw_entry(e)).push(research_raw_entry(es[i as int])));
            assert(texts(lines@) =~= seq![h] + es.take(i + 1).map_values(
                |e: EntryModel| research_raw_entry(e),
            ));
        }
        i = i + 1;
    }
    proof {
        assert(es.take(entries@.len() as int) =~= es);
        assert(h == "Research State revision "@ + decimal(revision as nat) + " ("@ + change_word(
            changed,
        ) + ")"@);
        assert(texts(lines@) =~= research_raw_lines(revision, changed, es));
    }
    lines
}

/// The styled header of a research-state update.
pub open spec fn research_header_spans(revision: u64, changed: bool) -> Seq<(Seq<char>, SpanStyle)> {
    seq![
        ("\u{2022} "@, SpanStyle::Dim),
        ("Research State"@, SpanStyle::Bold),
        (" \u{b7} rev "@ + decimal(revision as nat), SpanStyle::Dim),
    ] + if changed {
        Seq::empty()
    } else {
        seq![(" \u{b7} unchanged"@, SpanStyle::DimItalic)]
    }
}

pub fn research_update_header(revision: u64, changed: bool) -> (r: Vec<StyledSpan>)
    ensures
        spans(r@) == research_header_spans(revision, changed),
{
    let mut rev = owned(" \u{b7} rev ");
    let digits = decimal_text(revision);
    push_str(&mut rev, digits.as_str());
    let mut r = vec![
        span(owned("\u{2022} "), SpanStyle::Dim),
        span(owned("Research State"), SpanStyle::Bold),
        span(rev, SpanStyle::Dim),
    ];
    if !changed {
        r.push(span(owned(" \u{b7} unchanged"), SpanStyle::DimItalic));
    }
    proof {
        assert(spans(r@) =~= research_header_spans(revision, changed));
    }
    r
}

/// The styled line of one entry before it is wrapped to the terminal.
pub open spec fn research_entry_spans(e: EntryModel) -> Seq<(Seq<char>, SpanStyle)> {
    let mark = status_mark_spec(e.status);
    seq![
        (mark.0 + " "@, mark.1),
        (kind_title_spec(e.kind), SpanStyle::Bold),
        (
            " \u{b7} "@ + e.subject + " ["@ + scope_name_spec(e.scope) + " \u{b7} "@
                + status_name_spec(e.status) + "] \u{2014} "@,
            SpanStyle::Dim,
        ),
        (e.statement, SpanStyle::Plain),
    ]
}

pub fn research_entry_line(entry: &ResearchEntry) -> (r: Vec<StyledSpan>)
    ensures
        spans(r@) == research_entry_spans(entry@),
{
    let (symbol, style) = status_mark(entry.status);
    let mut mark = owned(symbol);
    push_str(&mut mark, " ");
    let mut middle = owned(" \u{b7} ");
    push_str(&mut middle, entry.subject.as_str());
    push_str(&mut middle, " [");
    push_str(&mut middle, scope_name(entry.scope));
    push_str(&mut middle, " \u{b7} ");
    push_str(&mut middle, status_name(entry.status));
    push_str(&mut middle, "] \u{2014} ");
    let r = vec![
        span(mark, style),
        span(owned(kind_title(entry.kind)), SpanStyle::Bold),
        span(middle, SpanStyle::Dim),
        span(entry.statement.clone(), SpanStyle::Plain),
    ];
    proof {
        assert(spans(r@) =~= research_entry_spans(entry@));
    }
    r
}

// ---------------------------------------------------------------------------
// Dynamic tool calls.

/// Bytes of the arguments text shown under a tool call.
pub const MAX_ARGUMENT_BYTES: usize = 8192;

/// Bytes of the output or error text shown under a tool call.
pub const MAX_OUTPUT_BYTES: usize = 16384;

/// Output items shown under a tool call.
pub const MAX_OUTPUT_ITEMS: usize = 32;

/// Lines shown of each detail of a tool call.
pub const MAX_VISIBLE_LINES: usize = 8;

/// The lines into which `textwrap::wrap` breaks `text` at `width` columns.
pub uninterp spec fn wrapped_lines(text: Seq<char>, width: usize) -> Seq<Seq<char>>;

/// `textwrap::wrap` with its default options at `width` columns: the text is
/// split at `\n` line endings and each piece is broken between words so
/// that the lines fit the width; no line holds a `\n`. Which breaks it picks
/// is named by `wrapped_lines`, not written out here.
#[verifier::external_body]
fn wrap_text(text: &str, width: usize) -> (r: Vec<String>)
    ensures
        texts(r@) == wrapped_lines(text@, width),
        forall|i: int| 0 <= i < r@.len() ==> !(#[trigger] r@[i]@).contains('\n'),
{
    textwrap::wrap(text, width).into_iter().map(String::from).collect()
}

pub open spec fn at_least_one(width: usize) -> usize {
    if width == 0 {
        1
    } else {
        width
    }
}

/// The text that is wrapped: all of it when it fits in `max_bytes`,
/// otherwise the longest prefix that leaves room for ` [truncated]`.
pub open spec fn kept_text(text: Seq<char>, max_bytes: nat) -> Seq<char> {
    if utf8_len(text) > max_bytes {
        byte_prefix(text, if max_bytes >= 12 { (max_bytes - 12) as nat } else { 0 })
    } else {
        text
    }
}

/// At most `max_lines` of `lines`, joined by newlines, with `[truncated]`
/// after them when lines were dropped or the text was cut.
pub open spec fn bounded_lines(lines: Seq<Seq<char>>, max_lines: nat, byte_truncated: bool) -> Seq<
    char,
> {
    let line_truncated = lines.len() > max_lines;
    let out = joined(
        if line_truncated {
            lines.take(max_lines as int)
        } else {
            lines
        },
        "\n"@,
    );
    if byte_truncated || line_truncated {
        (if out.len() == 0 {
            out
        } else {
            out.push(' ')
        }) + "[truncated]"@
    } else {
        out
    }
}

/// A detail text as a tool call shows it: cut to `max_bytes`, wrapped to the
/// width, and cut to `max_lines`.
pub open spec fn bounded_text_spec(text: Seq<char>, max_bytes: nat, max_lines: nat, width: usize) -> Seq<
    char,
> {
    bounded_lines(
        wrapped_lines(kept_text(text, max_bytes), at_least_one(width)),
        max_lines,
        utf8_len(text) > max_bytes,
    )
}

/// How many `\n` a text holds.
pub open spec fn newline_count(s: Seq<char>) -> nat
    decreases s.len(),
{
    if s.len() == 0 {
        0
    } else {
        newline_count(s.drop_last()) + if s.last() == '\n' {
            1nat
        } else {
            0nat
        }
    }
}

proof fn lemma_newline_count_concat(a: Seq<char>, b: Seq<char>)
    ensures
        newline_count(a + b) == newline_count(a) + newline_count(b),
    decreases b.len(),
{
    if b.len() == 0 {
        assert(a + b =~= a);
    } else {
        lemma_newline_count_concat(a, b.drop_last());
        assert((a + b).drop_last() =~= a + b.drop_last());
        assert((a + b).last() == b.last());
    }
}

proof fn lemma_newline_free(s: Seq<char>)
    requires
        !s.contains('\n'),
    ensures
        newline_count(s) == 0,
    decreases s.len(),
{
    if s.len() > 0 {
        assert(!s.drop_last().contains('\n')) by {
            if s.drop_last().contains('\n') {
                let i = choose|i: int| 0 <= i < s.drop_last().len() && s.drop_last()[i] == '\n';
                assert(s[i] == '\n');
            }
        }
        assert(s.last() != '\n') by {
            if s.last() == '\n' {
                assert(s[s.len() - 1] == '\n');
            }
        }
        lemma_newline_free(s.drop_last());
    }
}

proof fn lemma_joined_newlines(parts: Seq<Seq<char>>)
    requires
        parts.len() > 0,
        forall|i: int| 0 <= i < parts.len() ==> !(#[trigger] parts[i]).contains('\n'),
    ensures
        newline_count(joined(parts, "\n"@)) == parts.len() - 1,
    decreases parts.len(),
{
    reveal_strlit("\n");
    if parts.len() == 1 {
        lemma_newline_free(parts[0]);
    } else {
        let init = parts.drop_last();
        assert forall|i: int| 0 <= i < init.len() implies !(#[trigger] init[i]).contains('\n') by {
            assert(init[i] == parts[i]);
        }
        lemma_joined_newlines(init);
        assert(!parts.last().contains('\n')) by {
            assert(parts.last() == parts[parts.len() - 1]);
        }
        lemma_newline_free(parts.last());
        lemma_newline_count_concat(joined(init, "\n"@), "\n"@);
        lemma_newline_count_concat(joined(init, "\n"@) + "\n"@, parts.last());
        assert(newline_count("\n"@) == 1) by {
            reveal_strlit("\n");
            assert("\n"@ =~= seq!['\n']);
            assert(seq!['\n'].drop_last() =~= Seq::<char>::empty());
            assert(newline_count(Seq::<char>::empty()) == 0);
        }
    }
}

/// At most `max_lines` lines are ever shown: a bounded text of lines that
/// hold no line break has fewer than `max_lines` line breaks.
pub proof fn lemma_bounded_lines_visible(lines: Seq<Seq<char>>, max_lines: nat, byte_truncated: bool)
    requires
        max_lines >= 1,
        forall|i: int| 0 <= i < lines.len() ==> !(#[trigger] lines[i]).contains('\n'),
    ensures
        newline_count(bounded_lines(lines, max_lines, byte_truncated)) < max_lines,
{
    reveal_strlit("[truncated]");
    let shown = if lines.len() > max_lines {
        lines.take(max_lines as int)
    } else {
        lines
    };
    let out = joined(shown, "\n"@);
    if shown.len() == 0 {
        assert(out =~= Seq::<char>::empty());
    } else {
        assert forall|i: int| 0 <= i < shown.len() implies !(#[trigger] shown[i]).contains('\n') by {
            assert(shown[i] == lines[i]);
        }
        lemma_joined_newlines(shown);
    }
    lemma_newline_free("[truncated]"@);
    lemma_newline_free(seq![' ']);
    lemma_newline_count_concat(out, seq![' ']);
    assert(out.push(' ') =~= out + seq![' ']);
    lemma_newline_count_concat(out, "[truncated]"@);
    lemma_newline_count_concat(out.push(' '), "[truncated]"@);
}

/// Keeps at most `max_lines` of the wrapped `lines` and marks what was
/// dropped.
pub fn bound_wrapped_lines(lines: Vec<String>, max_lines: usize, byte_truncated: bool) -> (r: String)
    ensures
        r@ == bounded_lines(texts(lines@), max_lines as nat, byte_truncated),
{
    let ghost all = texts(lines@);
    let mut lines = lines;
    let line_truncated = lines.len() > max_lines;
    lines.truncate(max_lines);
    proof {
        if line_truncated {
            assert(texts(lines@) =~= all.take(max_lines as int));
        } else {
            assert(texts(lines@) =~= all);
        }
    }
    let mut output = join_texts(&lines, "\n");
    if byte_truncated || line_truncated {
        if byte_len(output.as_str()) > 0 {
            push_char(&mut output, ' ');
        } else {
            proof {
                assert(output@.len() == 0);
            }
        }
        push_str(&mut output, "[truncated]");
    }
    output
}

/// Cuts `text` to `max_bytes`, wraps it to `width` columns and keeps at most
/// `max_lines` lines, marking with `[truncated]` what was left out.
pub fn bounded_text(text: &str, max_bytes: usize, max_lines: usize, width: usize) -> (r: String)
    ensures
        r@ == bounded_text_spec(text@, max_bytes as nat, max_lines as nat, width),
        max_lines >= 1 ==> newline_count(r@) < max_lines,
{
    let byte_truncated = byte_len(text) > max_bytes;
    let kept = if byte_truncated {
        take_bytes_at_char_boundary(text, max_bytes.saturating_sub(12))
    } else {
        owned(text)
    };
    let width = if width == 0 {
        1
    } else {
        width
    };
    let wrapped = wrap_text(kept.as_str(), width);
    proof {
        if max_lines >= 1 {
            assert forall|i: int| 0 <= i < texts(wrapped@).len() implies !(#[trigger] texts(
                wrapped@,
            )[i]).contains('\n') by {
                assert(texts(wrapped@)[i] == wrapped@[i]@);
            }
            lemma_bounded_lines_visible(texts(wrapped@), max_lines as nat, byte_truncated);
        }
    }
    bound_wrapped_lines(wrapped, max_lines, byte_truncated)
}

/// One item of a tool call's output.
#[derive(Clone, Debug, Eq, PartialEq)]
pub enum DynamicToolOutputItem {
    InputText { text: String },
    InputImage { image_url: String },
}

pub open spec fn output_item_text(i: DynamicToolOutputItem) -> Seq<char> {
    match i {
        DynamicToolOutputItem::InputText { text } => text@,
        DynamicToolOutputItem::InputImage { image_url } => "[image] "@ + image_url@,
    }
}

/// The output lines of a tool call: its first items, then `[truncated]`
/// when there were more.
pub open spec fn output_texts(items: Seq<DynamicToolOutputItem>) -> Seq<Seq<char>> {
    if items.len() > MAX_OUTPUT_ITEMS {
        items.take(MAX_OUTPUT_ITEMS as int).map_values(|i: DynamicToolOutputItem| output_item_text(i))
            + seq!["[truncated]"@]
    } else {
        items.map_values(|i: DynamicToolOutputItem| output_item_text(i))
    }
}

fn output_item_line(item: &DynamicToolOutputItem) -> (r: String)
    ensures
        r@ == output_item_text(*item),
{
    match item {
        DynamicToolOutputItem::InputText { text } => text.clone(),
        DynamicToolOutputItem::InputImage { image_url } => {
            let mut line = owned("[image] ");
            push_str(&mut line, image_url.as_str());
            line
        },
    }
}

fn output_lines(items: &Vec<DynamicToolOutputItem>) -> (r: Vec<String>)
    ensures
        texts(r@) == output_texts(items@),
{
    let n = if items.len() > MAX_OUTPUT_ITEMS {
        MAX_OUTPUT_ITEMS
    } else {
        items.len()
    };
    let ghost shown = items@.take(n as int);
    let mut out: Vec<String> = Vec::new();
    let mut i: usize = 0;
    while i < n
        invariant
            n <= items.len(),
            i <= n,
            shown == items@.take(n as int),
            texts(out@) == shown.take(i as int).map_values(
                |x: DynamicToolOutputItem| output_item_text(x),
            ),
        decreases n - i,
    {
        let line = output_item_line(&items[i]);
        let ghost before = out@;
        out.push(line);
        proof {
            assert(texts(out@) =~= texts(before).push(line@));
            assert(shown.take(i + 1) =~= shown.take(i as int).push(shown[i as int]));
            assert(shown.take(i + 1).map_values(|x: DynamicToolOutputItem| output_item_text(x))
                =~= shown.take(i as int).map_values(
                |x: DynamicToolOutputItem| output_item_text(x),
            ).push(output_item_text(shown[i as int])));
        }
        i = i + 1;
    }
    proof {
        assert(shown.take(n as int) =~= shown);
    }
    if items.len() > MAX_OUTPUT_ITEMS {
        let ghost before = out@;
        out.push(owned("[truncated]"));
        proof {
            assert(texts(out@) =~= texts(before).push("[truncated]"@));
            assert(texts(out@) =~= output_texts(items@));
        }
    } else {
        proof {
            assert(shown =~= items@);
        }
    }
    out
}

/// The details shown under a tool call: its arguments; its output, when it
/// has any; its error, when it has one. Each is bounded to the width.
pub open spec fn tool_details(
    arguments: Seq<char>,
    items: Option<Seq<DynamicToolOutputItem>>,
    error: Option<Seq<char>>,
    width: usize,
) -> Seq<Seq<char>> {
    let w = at_least_one(width);
    seq![
        "arguments: "@ + bounded_text_spec(
            arguments,
            MAX_ARGUMENT_BYTES as nat,
            MAX_VISIBLE_LINES as nat,
            w,
        ),
    ] + match items {
        Some(v) => if output_texts(v).len() == 0 {
            Seq::empty()
        } else {
            seq![
                "output: "@ + bounded_text_spec(
                    joined(output_texts(v), "\n"@),
                    MAX_OUTPUT_BYTES as nat,
                    MAX_VISIBLE_LINES as nat,
                    w,
                ),
            ]
        },
        None => Seq::empty(),
    } + match error {
        Some(e) => seq![
            "error: "@ + bounded_text_spec(e, MAX_OUTPUT_BYTES as nat, MAX_VISIBLE_LINES as nat, w),
        ],
        None => Seq::empty(),
    }
}

fn labelled(label: &str, body: String) -> (r: String)
    ensures
        r@ == label@ + body@,
{
    let mut r = owned(label);
    push_str(&mut r, body.as_str());
    r
}

/// The details shown under a tool call, each bounded to `width` columns.
pub fn tool_call_details(
    arguments: &str,
    content_items: Option<&Vec<DynamicToolOutputItem>>,
    error: Option<&str>,
    width: usize,
) -> (r: Vec<String>)
    ensures
        texts(r@) == tool_details(
            arguments@,
            match content_items {
                Some(v) => Some(v@),
                None => None,
            },
            match error {
                Some(e) => Some(e@),
                None => None,
            },
            width,
        ),
{
    let width = if width == 0 {
        1
    } else {
        width
    };
    let args = bounded_text(arguments, MAX_ARGUMENT_BYTES, MAX_VISIBLE_LINES, width);
    let mut details: Vec<String> = vec![labelled("arguments: ", args)];
    let ghost first = details@;
    if let Some(items) = content_items {
        let output = output_lines(items);
        if output.len() > 0 {
            let joined_output = join_texts(&output, "\n");
            let body = bounded_text(
                joined_output.as_str(),
                MAX_OUTPUT_BYTES,
                MAX_VISIBLE_LINES,
                width,
            );
            details.push(labelled("output: ", body));
        }
    }
    let ghost middle = details@;
    if let Some(e) = error {
        let body = bounded_text(e, MAX_OUTPUT_BYTES, MAX_VISIBLE_LINES, width);
        details.push(labelled("error: ", body));
    }
    proof {
        assert(texts(details@) =~= tool_details(
            arguments@,
            match content_items {
                Some(v) => Some(v@),
                None => None,
            },
            match error {
                Some(e) => Some(e@),
                None => None,
            },
            width,
        ));
    }
    details
}

/// What a tool call was asked to do.
#[derive(Clone, Debug, Eq, PartialEq)]
pub struct DynamicToolInvocation {
    pub namespace: Option<String>,
    pub tool: String,
    /// The arguments as compact JSON text.
    pub arguments: String,
}

/// The name a tool call is shown under: `namespace.tool`, or the tool alone.
pub open spec fn tool_call_name_spec(namespace: Option<Seq<char>>, tool: Seq<char>) -> Seq<char> {
    match namespace {
        Some(n) => n + "."@ + tool,
        None => tool,
    }
}

/// Where a tool call stands as its item reports it.
#[derive(Clone, Copy, Debug, Eq, PartialEq, Structural)]
pub enum DynamicToolCallStatus {
    InProgress,
    Completed,
    Failed,
}

/// A tool call as the history follows it: in progress until it completes
/// or fails. The clock that times it stays with the caller, who hands in
/// the elapsed milliseconds.
#[derive(Clone, Debug)]
pub struct DynamicToolCall {
    pub call_id: String,
    pub invocation: DynamicToolInvocation,
    pub duration_ms: Option<u64>,
    pub content_items: Option<Vec<DynamicToolOutputItem>>,
    pub success: Option<bool>,
    pub error: Option<String>,
}

pub open spec fn opt_text(o: Option<String>) -> Option<Seq<char>> {
    match o {
        Some(s) => Some(s@),
        None => None,
    }
}

pub open spec fn opt_items(o: Option<Vec<DynamicToolOutputItem>>) -> Option<
    Seq<DynamicToolOutputItem>,
> {
    match o {
        Some(v) => Some(v@),
        None => None,
    }
}

/// Whether a finished call succeeded: what its item says, and otherwise
/// what its status implies.
pub open spec fn completion_success_spec(
    status: DynamicToolCallStatus,
    success: Option<bool>,
) -> Option<bool> {
    match success {
        Some(b) => Some(b),
        None => match status {
            DynamicToolCallStatus::InProgress => None,
            DynamicToolCallStatus::Completed => Some(true),
            DynamicToolCallStatus::Failed => Some(false),
        },
    }
}

pub fn completion_success(status: DynamicToolCallStatus, success: Option<bool>) -> (r: Option<bool>)
    ensures
        r == completion_success_spec(status, success),
{
    match success {
        Some(b) => Some(b),
        None => match status {
            DynamicToolCallStatus::InProgress => None,
            DynamicToolCallStatus::Completed => Some(true),
            DynamicToolCallStatus::Failed => Some(false),
        },
    }
}

/// A reported duration in milliseconds, with a missing or negative one
/// taken as zero.
pub fn reported_duration_ms(duration_ms: Option<i64>) -> (r: u64)
    ensures
        r == match duration_ms {
            Some(ms) => if ms > 0 {
                ms as int
            } else {
                0
            },
            None => 0,
        },
{
    match duration_ms {
        Some(ms) => if ms > 0 {
            ms as u64
        } else {
            0
        },
        None => 0,
    }
}

impl DynamicToolCall {
    /// A call that has just started.
    pub fn new(call_id: String, invocation: DynamicToolInvocation) -> (r: Self)
        ensures
            r.call_id == call_id,
            r.invocation == invocation,
            r.duration_ms is None,
            r.content_items is None,
            r.success is None,
            r.error is None,
    {
        DynamicToolCall {
            call_id,
            invocation,
            duration_ms: None,
            content_items: None,
            success: None,
            error: None,
        }
    }

    pub fn call_id(&self) -> (r: &str)
        ensures
            r@ == self.call_id@,
    {
        self.call_id.as_str()
    }

    /// Records how the call ended.
    pub fn complete(
        &mut self,
        duration_ms: u64,
        content_items: Option<Vec<DynamicToolOutputItem>>,
        success: Option<bool>,
        error: Option<String>,
    )
        ensures
            final(self).call_id == old(self).call_id,
            final(self).invocation == old(self).invocation,
            final(self).duration_ms == Some(duration_ms),
            final(self).content_items == content_items,
            final(self).success == success,
            final(self).error == error,
    {
        self.duration_ms = Some(duration_ms);
        self.content_items = content_items;
        self.success = success;
        self.error = error;
    }

    /// Marks the call as failed by interruption after `elapsed_ms`.
    pub fn mark_failed(&mut self, elapsed_ms: u64)
        ensures
            final(self).call_id == old(self).call_id,
            final(self).invocation == old(self).invocation,
            final(self).content_items == old(self).content_items,
            final(self).duration_ms == Some(elapsed_ms),
            final(self).success == Some(false),
            final(self).error matches Some(e) && e@ == "interrupted"@,
    {
        self.duration_ms = Some(elapsed_ms);
        self.success = Some(false);
        self.error = Some(owned("interrupted"));
    }

    /// The name the call is shown under.
    pub fn name(&self) -> (r: String)
        ensures
            r@ == tool_call_name_spec(opt_text(self.invocation.namespace), self.invocation.tool@),
    {
        match &self.invocation.namespace {
            Some(namespace) => {
                let mut r = namespace.clone();
                push_str(&mut r, ".");
                push_str(&mut r, self.invocation.tool.as_str());
                r
            },
            None => self.invocation.tool.clone(),
        }
    }

    /// The details shown under the call at `width` columns.
    pub fn bounded_details(&self, width: usize) -> (r: Vec<String>)
        ensures
            texts(r@) == tool_details(
                self.invocation.arguments@,
                opt_items(self.content_items),
                opt_text(self.error),
                width,
            ),
    {
        let items = match &self.content_items {
            Some(v) => Some(v),
            None => None,
        };
        let error = match &self.error {
            Some(e) => Some(e.as_str()),
            None => None,
        };
        tool_call_details(self.invocation.arguments.as_str(), items, error, width)
    }

    /// The call as its thread item reports it: finished calls are completed
    /// at once, with the reported duration and a success that falls back on
    /// the status.
    pub fn from_item(
        id: String,
        invocation: DynamicToolInvocation,
        status: DynamicToolCallStatus,
        content_items: Option<Vec<DynamicToolOutputItem>>,
        success: Option<bool>,
        error: Option<String>,
        duration_ms: Option<i64>,
    ) -> (r: Self)
        ensures
            r.call_id == id,
            r.invocation == invocation,
            status == DynamicToolCallStatus::InProgress ==> {
                &&& r.duration_ms is None
                &&& r.content_items is None
                &&& r.success is None
                &&& r.error is None
            },
            status != DynamicToolCallStatus::InProgress ==> {
                &&& r.duration_ms == Some(
                    (match duration_ms {
                        Some(ms) => if ms > 0 {
                            ms as u64
                        } else {
                            0u64
                        },
                        None => 0u64,
                    }),
                )
                &&& r.content_items == content_items
                &&& r.success == completion_success_spec(status, success)
                &&& r.error == error
            },
    {
        let mut cell = DynamicToolCall::new(id, invocation);
        if status != DynamicToolCallStatus::InProgress {
            let ms = reported_duration_ms(duration_ms);
            let ok = completion_success(status, success);
            cell.complete(ms, content_items, ok, error);
        }
        cell
    }
}

/// The verb of a tool call's header.
pub open spec fn tool_verb_spec(success: Option<bool>) -> Seq<char> {
    match success {
        Some(true) => "Completed"@,
        Some(false) => "Failed"@,
        None => "Calling"@,
    }
}

pub fn tool_verb(success: Option<bool>) -> (r: &'static str)
    ensures
        r@ == tool_verb_spec(success),
{
    match success {
        Some(true) => "Completed",
        Some(false) => "Failed",
        None => "Calling",
    }
}

/// The state word of a tool call's transcript line.
pub open spec fn tool_state_spec(success: Option<bool>) -> Seq<char> {
    match success {
        Some(true) => "completed"@,
        Some(false) => "failed"@,
        None => "in progress"@,
    }
}

/// The first transcript line of a tool call: `Tool <name> · <state>`.
pub fn tool_call_raw_header(name: &str, success: Option<bool>) -> (r: String)
    ensures
        r@ == "Tool "@ + name@ + " \u{b7} "@ + tool_state_spec(success),
{
    let mut r = owned("Tool ");
    push_str(&mut r, name);
    push_str(&mut r, " \u{b7} ");
    push_str(
        &mut r,
        match success {
            Some(true) => "completed",
            Some(false) => "failed",
            None => "in progress",
        },
    );
    r
}

/// The bullet of a finished call: green when it succeeded, red when it
/// failed. A call in progress shows an activity indicator instead.
pub fn tool_bullet(success: Option<bool>) -> (r: Option<StyledSpan>)
    ensures
        match success {
            Some(true) => r matches Some(b) && b.text@ == "\u{2022}"@ && b.style
                == SpanStyle::GreenBold,
            Some(false) => r matches Some(b) && b.text@ == "\u{2022}"@ && b.style
                == SpanStyle::RedBold,
            None => r is None,
        },
{
    match success {
        Some(true) => Some(span(owned("\u{2022}"), SpanStyle::GreenBold)),
        Some(false) => Some(span(owned("\u{2022}"), SpanStyle::RedBold)),
        None => None,
    }
}

/// Each detail wrapped to `width` columns, all lines in order.
pub open spec fn wrapped_all(details: Seq<Seq<char>>, width: usize) -> Seq<Seq<char>>
    decreases details.len(),
{
    if details.len() == 0 {
        Seq::empty()
    } else {
        wrapped_all(details.drop_last(), width) + wrapped_lines(details.last(), width)
    }
}

/// The columns left for details under a header at `width` columns.
pub open spec fn detail_width(width: u16) -> usize {
    if width > 4 {
        (width - 4) as usize
    } else {
        1
    }
}

/// The detail lines under a tool call's header: every detail wrapped, the
/// first line behind `  └ `, the others behind four spaces.
pub open spec fn tool_detail_spans(details: Seq<Seq<char>>, width: u16) -> Seq<
    Seq<(Seq<char>, SpanStyle)>,
> {
    let lines = wrapped_all(details, detail_width(width));
    Seq::new(
        lines.len(),
        |i: int|
            if i == 0 {
                seq![("  \u{2514} "@, SpanStyle::Dim), (lines[i], SpanStyle::Dim)]
            } else {
                seq![("    "@, SpanStyle::Plain), (lines[i], SpanStyle::Dim)]
            },
    )
}

/// Wraps the details of a tool call for a terminal `width` columns wide.
pub fn tool_detail_lines(details: &Vec<String>, width: u16) -> (r: Vec<Vec<StyledSpan>>)
    ensures
        r@.len() == tool_detail_spans(texts(details@), width).len(),
        forall|i: int|
            0 <= i < r@.len() ==> spans(#[trigger] r@[i]@) == tool_detail_spans(
                texts(details@),
                width,
            )[i],
{
    let w: usize = if width > 4 {
        (width - 4) as usize
    } else {
        1
    };
    let ghost ds = texts(details@);
    let mut lines: Vec<String> = Vec::new();
    let mut i: usize = 0;
    proof {
        assert(ds.take(0) =~= Seq::<Seq<char>>::empty());
    }
    while i < details.len()
        invariant
            i <= details.len(),
            ds == texts(details@),
            w == detail_width(width),
            texts(lines@) == wrapped_all(ds.take(i as int), w),
        decreases details.len() - i,
    {
        let wrapped = wrap_text(details[i].as_str(), w);
        let ghost before = texts(lines@);
        let mut j: usize = 0;
        while j < wrapped.len()
            invariant
                j <= wrapped.len(),
                texts(lines@) == before + texts(wrapped@).take(j as int),
            decreases wrapped.len() - j,
        {
            let ghost prev = lines@;
            lines.push(wrapped[j].clone());
            proof {
                assert(texts(lines@) =~= texts(prev).push(wrapped@[j as int]@));
                assert(texts(wrapped@).take(j + 1) =~= texts(wrapped@).take(j as int).push(
                    wrapped@[j as int]@,
                ));
                assert(texts(lines@) =~= before + texts(wrapped@).take(j + 1));
            }
            j = j + 1;
        }
        proof {
            assert(texts(wrapped@).take(wrapped@.len() as int) =~= texts(wrapped@));
            assert(ds.take(i + 1).drop_last() =~= ds.take(i as int));
            assert(ds.take(i + 1).last() == details@[i as int]@);
        }
        i = i + 1;
    }
    proof {
        assert(ds.take(details@.len() as int) =~= ds);
    }
    let ghost all = texts(lines@);
    let mut out: Vec<Vec<StyledSpan>> = Vec::new();
    let mut k: usize = 0;
    while k < lines.len()
        invariant
            k <= lines.len(),
            all == texts(lines@),
            all == wrapped_all(texts(details@), detail_width(width)),
            out@.len() == k,
            forall|x: int|
                0 <= x < k ==> spans(#[trigger] out@[x]@) == tool_detail_spans(
                    texts(details@),
                    width,
                )[x],
        decreases lines.len() - k,
    {
        let line = if k == 0 {
            vec![span(owned("  \u{2514} "), SpanStyle::Dim), span(lines[k].clone(), SpanStyle::Dim)]
        } else {
            vec![span(owned("    "), SpanStyle::Plain), span(lines[k].clone(), SpanStyle::Dim)]
        };
        proof {
            assert(all[k as int] == lines@[k as int]@);
            assert(spans(line@) =~= tool_detail_spans(texts(details@), width)[k as int]);
        }
        out.push(line);
        k = k + 1;
    }
    out
}

/// The header line of a tool call: its bullet, the verb of its outcome,
/// its name and how long it took (already formatted by the caller, or
/// empty while it runs).
pub fn tool_call_header(
    bullet: StyledSpan,
    success: Option<bool>,
    name: String,
    duration_text: String,
) -> (r: Vec<StyledSpan>)
    ensures
        r@.len() == 6,
        r@[0] == bullet,
        spans(r@.subrange(1, 6)) == seq![
            (" "@, SpanStyle::Plain),
            (tool_verb_spec(success), SpanStyle::Bold),
            (" "@, SpanStyle::Plain),
            (name@, SpanStyle::Cyan),
            (duration_text@, SpanStyle::Dim),
        ],
{
    let ghost name_text = name@;
    let ghost duration = duration_text@;
    let r = vec![
        bullet,
        span(owned(" "), SpanStyle::Plain),
        span(owned(tool_verb(success)), SpanStyle::Bold),
        span(owned(" "), SpanStyle::Plain),
        span(name, SpanStyle::Cyan),
        span(duration_text, SpanStyle::Dim),
    ];
    proof {
        assert(spans(r@.subrange(1, 6)) =~= seq![
            (" "@, SpanStyle::Plain),
            (tool_verb_spec(success), SpanStyle::Bold),
            (" "@, SpanStyle::Plain),
            (name_text, SpanStyle::Cyan),
            (duration, SpanStyle::Dim),
        ]);
    }
    r
}

} // verus!
