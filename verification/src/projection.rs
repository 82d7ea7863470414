//! Bounded, task-relevant projection of durable project research: the entries
//! a task's text is about, best first, cut to a fixed count and byte budget.

use crate::plan::{ResearchEntryKind, ResearchScope, ResearchStatus};
use crate::research::{EntryModel, ResearchEntry, models};
use crate::text::{
    texts,
    take_bytes_at_char_boundary,
    fit_count,
    ascii_alnum, ascii_lower, ascii_lowercase, is_ascii_alnum,
    byte_len, char_is_alphanumeric, char_len_utf8, char_lowercase, char_to_lowercase, char_width,
    chars_lt, chars_match_at, chars_of, lemma_utf8_len_push, matches_at, owned, push_char,
    push_str, same_text, seq_lt, spec_to_lowercase, str_to_lowercase, str_trim, trim,
    unicode_alphanumeric, utf8_len,
};
use vstd::prelude::*;

verus! {

broadcast use vstd::string::group_string_axioms;

pub const RESEARCH_CONTEXT_SCHEMA_VERSION: u16 = 1;

pub const RESEARCH_CONTEXT_MAX_ENTRIES: usize = 8;

pub const RESEARCH_CONTEXT_MAX_PROJECTED_BYTES: usize = 2600;

pub const MAX_SUBJECT_BYTES: usize = 160;

pub const MAX_STATEMENT_BYTES: usize = 640;

/// Bytes an entry is charged beyond its id, subject and statement.
pub const ENTRY_OVERHEAD_BYTES: usize = 96;

/// Identifies one computed projection: the project, its research revision,
/// the task and the projection's schema.
#[derive(Clone, Debug, Eq, Hash, PartialEq)]
pub struct ResearchContextCacheKey {
    project_id: String,
    project_revision: u64,
    task_signature: String,
    schema_version: u16,
}

impl ResearchContextCacheKey {
    pub closed spec fn project_id_spec(&self) -> Seq<char> {
        self.project_id@
    }

    pub closed spec fn project_revision_spec(&self) -> u64 {
        self.project_revision
    }

    pub closed spec fn task_signature_spec(&self) -> Seq<char> {
        self.task_signature@
    }

    pub closed spec fn schema_version_spec(&self) -> u16 {
        self.schema_version
    }

    pub fn new(project_id: String, project_revision: u64, task_signature: String) -> (r: Self)
        ensures
            r.project_id_spec() == project_id@,
            r.project_revision_spec() == project_revision,
            r.task_signature_spec() == task_signature@,
            r.schema_version_spec() == RESEARCH_CONTEXT_SCHEMA_VERSION,
    {
        ResearchContextCacheKey {
            project_id,
            project_revision,
            task_signature,
            schema_version: RESEARCH_CONTEXT_SCHEMA_VERSION,
        }
    }
}

/// The entries chosen for a task and how many relevant ones were left out.
#[derive(Clone, Debug, Default, Eq, PartialEq)]
pub struct ResearchContextProjection {
    pub entries: Vec<ResearchEntry>,
    pub omitted_count: usize,
}

// ---------------------------------------------------------------------------
// Terms.

/// `t` added to the terms `ts` unless already there.
pub open spec fn add_term(ts: Seq<Seq<char>>, t: Seq<char>) -> Seq<Seq<char>> {
    if ts.contains(t) {
        ts
    } else {
        ts.push(t)
    }
}

/// Terms found so far and the ASCII word being read.
pub struct TokenState {
    pub terms: Seq<Seq<char>>,
    pub word: Seq<char>,
}

/// `ts` with the word `w` added when it is at least two characters long.
pub open spec fn flush_word(ts: Seq<Seq<char>>, w: Seq<char>) -> Seq<Seq<char>> {
    if w.len() >= 2 {
        add_term(ts, w)
    } else {
        ts
    }
}

/// Reading one character: ASCII letters, digits and `_` extend the current
/// word, lowercased; any other character ends it, and is a term of its own,
/// lowercased, when it is alphanumeric.
pub open spec fn token_step(st: TokenState, c: char) -> TokenState {
    if is_ascii_alnum(c) || c == '_' {
        TokenState { terms: st.terms, word: st.word.push(ascii_lower(c)) }
    } else {
        let ts = flush_word(st.terms, st.word);
        TokenState {
            terms: if unicode_alphanumeric(c) {
                add_term(ts, char_lowercase(c))
            } else {
                ts
            },
            word: Seq::empty(),
        }
    }
}

pub open spec fn token_run(s: Seq<char>) -> TokenState
    decreases s.len(),
{
    if s.len() == 0 {
        TokenState { terms: Seq::empty(), word: Seq::empty() }
    } else {
        token_step(token_run(s.drop_last()), s.last())
    }
}

/// The distinct terms of `s`, in order of first appearance.
pub open spec fn tokens(s: Seq<char>) -> Seq<Seq<char>> {
    flush_word(token_run(s).terms, token_run(s).word)
}

/// Whether `ts` holds `t`.
fn holds_term(ts: &Vec<String>, t: &str) -> (r: bool)
    ensures
        r == texts(ts@).contains(t@),
{
    for i in 0..ts.len()
        invariant
            forall|j: int| 0 <= j < i ==> #[trigger] ts@[j]@ != t@,
    {
        if same_text(ts[i].as_str(), t) {
            proof {
                assert(texts(ts@)[i as int] == t@);
            }
            return true;
        }
    }
    proof {
        if texts(ts@).contains(t@) {
            let j = choose|j: int| 0 <= j < texts(ts@).len() && texts(ts@)[j] == t@;
            assert(ts@[j]@ == t@);
        }
    }
    false
}

fn push_term(ts: &mut Vec<String>, t: String)
    ensures
        texts(final(ts)@) == add_term(texts(old(ts)@), t@),
{
    if !holds_term(ts, t.as_str()) {
        ts.push(t);
        proof {
            assert(texts(ts@) =~= texts(old(ts)@).push(t@));
        }
    }
}

/// The distinct terms of `text`: lowercased ASCII words of two or more
/// letters, digits or underscores, and each other alphanumeric character
/// lowercased on its own.
pub fn tokenize(text: &str) -> (r: Vec<String>)
    ensures
        texts(r@) == tokens(text@),
{
    let mut terms: Vec<String> = Vec::new();
    let mut word = String::new();
    let mut word_len: usize = 0;
    proof {
        assert(text@.take(0) =~= Seq::<char>::empty());
        assert(texts(terms@) =~= Seq::<Seq<char>>::empty());
    }
    for c in it: text.chars()
        invariant
            it.seq() == text@,
            word_len == (if word@.len() < 2 {
                word@.len()
            } else {
                2
            }),
            token_run(text@.take(it.index() as int)) == (TokenState {
                terms: texts(terms@),
                word: word@,
            }),
    {
        let ghost before = text@.take(it.index() as int);
        proof {
            assert(text@.take(it.index() + 1).drop_last() =~= before);
            assert(text@.take(it.index() + 1).last() == c);
        }
        if ascii_alnum(c) || c == '_' {
            push_char(&mut word, ascii_lowercase(c));
            if word_len < 2 {
                word_len = word_len + 1;
            }
        } else {
            if word_len >= 2 {
                let done = word;
                push_term(&mut terms, done);
            }
            word = String::new();
            word_len = 0;
            if char_is_alphanumeric(c) {
                let lower = char_to_lowercase(c);
                push_term(&mut terms, lower);
            }
        }
    }
    proof {
        assert(text@.take(text@.len() as int) =~= text@);
    }
    if word_len >= 2 {
        push_term(&mut terms, word);
    }
    terms
}

// ---------------------------------------------------------------------------
// Relevance.

/// Whether `n` occurs in `h` as a contiguous run (`str::contains`).
pub open spec fn contains_text(h: Seq<char>, n: Seq<char>) -> bool {
    exists|i: int| matches_at(h, n, i)
}

fn text_contains(h: &str, n: &str) -> (r: bool)
    ensures
        r == contains_text(h@, n@),
{
    let hs = chars_of(h);
    let ns = chars_of(n);
    if ns.len() > hs.len() {
        return false;
    }
    let last = hs.len() - ns.len();
    let mut at: usize = 0;
    loop
        invariant
            hs@ == h@,
            ns@ == n@,
            last == hs.len() - ns.len(),
            at <= last,
            forall|j: int| 0 <= j < at ==> !matches_at(h@, n@, j),
        decreases last - at,
    {
        if chars_match_at(hs.as_slice(), ns.as_slice(), at) {
            return true;
        }
        if at == last {
            proof {
                assert forall|j: int| !matches_at(h@, n@, j) by {
                    if matches_at(h@, n@, j) {
                        assert(j <= last);
                    }
                }
            }
            return false;
        }
        at = at + 1;
    }
}

/// `str::is_ascii`.
pub open spec fn is_ascii_text(t: Seq<char>) -> bool {
    forall|j: int| 0 <= j < t.len() ==> (#[trigger] t[j] as int) < 128
}

fn ascii_text(t: &str) -> (r: bool)
    ensures
        r == is_ascii_text(t@),
{
    let cs = chars_of(t);
    for i in 0..cs.len()
        invariant
            cs@ == t@,
            forall|j: int| 0 <= j < i ==> (#[trigger] t@[j] as int) < 128,
    {
        if cs[i] >= '\u{80}' {
            return false;
        }
    }
    true
}

/// How many of the terms `ts` also occur in `es`.
pub open spec fn overlap_count(ts: Seq<Seq<char>>, es: Seq<Seq<char>>) -> nat
    decreases ts.len(),
{
    if ts.len() == 0 {
        0
    } else {
        overlap_count(ts.drop_last(), es) + if es.contains(ts.last()) {
            1nat
        } else {
            0nat
        }
    }
}

/// Whether some term of `ts` that also occurs in `es` is ASCII.
pub open spec fn overlap_has_ascii(ts: Seq<Seq<char>>, es: Seq<Seq<char>>) -> bool {
    exists|i: int| 0 <= i < ts.len() && es.contains(ts[i]) && is_ascii_text(#[trigger] ts[i])
}

pub open spec fn kind_weight_spec(k: ResearchEntryKind) -> int {
    match k {
        ResearchEntryKind::Constraint => 50,
        ResearchEntryKind::Goal => 46,
        ResearchEntryKind::Decision => 44,
        ResearchEntryKind::Fact => 40,
        ResearchEntryKind::Unknown => 36,
        ResearchEntryKind::FuturePressure => 32,
        ResearchEntryKind::Hypothesis => 28,
        ResearchEntryKind::Exploration => 24,
        ResearchEntryKind::Outcome => 20,
    }
}

pub open spec fn status_weight_spec(s: ResearchStatus) -> int {
    match s {
        ResearchStatus::Supported => 20,
        ResearchStatus::Open => 12,
        ResearchStatus::Resolved => 8,
        ResearchStatus::Rejected => 0,
        ResearchStatus::Superseded => -12,
    }
}

/// How much a kind of entry weighs when ranking entries for a task.
pub fn kind_weight(kind: ResearchEntryKind) -> (r: i64)
    ensures
        r == kind_weight_spec(kind),
{
    match kind {
        ResearchEntryKind::Constraint => 50,
        ResearchEntryKind::Goal => 46,
        ResearchEntryKind::Decision => 44,
        ResearchEntryKind::Fact => 40,
        ResearchEntryKind::Unknown => 36,
        ResearchEntryKind::FuturePressure => 32,
        ResearchEntryKind::Hypothesis => 28,
        ResearchEntryKind::Exploration => 24,
        ResearchEntryKind::Outcome => 20,
    }
}

/// How much an entry's status weighs when ranking entries for a task.
pub fn status_weight(status: ResearchStatus) -> (r: i64)
    ensures
        r == status_weight_spec(status),
{
    match status {
        ResearchStatus::Supported => 20,
        ResearchStatus::Open => 12,
        ResearchStatus::Resolved => 8,
        ResearchStatus::Rejected => 0,
        ResearchStatus::Superseded => -12,
    }
}

/// Whether the lowercased subject and the lowercased task text contain one
/// another, for a task that is not blank and a subject of three or more
/// characters.
pub open spec fn subject_matches(task_lower: Seq<char>, subject_lower: Seq<char>) -> bool {
    trim(task_lower).len() > 0 && subject_lower.len() >= 3 && (contains_text(
        task_lower,
        subject_lower,
    ) || contains_text(subject_lower, task_lower))
}

/// The relevance of entry `e` to a task: `None` when neither its subject nor
/// its terms match; otherwise a hundred per shared term, eighty for a
/// matching subject, and the weights of its kind and status.
pub open spec fn relevance(
    e: EntryModel,
    task_terms: Seq<Seq<char>>,
    task_lower: Seq<char>,
    entry_terms: Seq<Seq<char>>,
    subject_lower: Seq<char>,
) -> Option<int> {
    let n = overlap_count(task_terms, entry_terms);
    let subject_match = subject_matches(task_lower, subject_lower);
    let term_match = overlap_has_ascii(task_terms, entry_terms) || n >= 2;
    if !subject_match && !term_match {
        None
    } else {
        Some(
            n * 100 + (if subject_match {
                80int
            } else {
                0int
            }) + kind_weight_spec(e.kind) + status_weight_spec(e.status),
        )
    }
}

/// Relevance of `entry` to a task, given the task's terms and lowercased
/// text and the entry's terms and lowercased subject.
pub fn relevance_score(
    entry: &ResearchEntry,
    task_terms: &Vec<String>,
    task_lower: &str,
    entry_terms: &Vec<String>,
    subject_lower: &str,
) -> (r: Option<i128>)
    ensures
        match relevance(entry@, texts(task_terms@), task_lower@, texts(entry_terms@), subject_lower@) {
            Some(v) => r is Some && r->Some_0 as int == v,
            None => r is None,
        },
{
    let ghost tt = texts(task_terms@);
    let ghost et = texts(entry_terms@);
    let mut count: usize = 0;
    let mut any_ascii = false;
    for i in 0..task_terms.len()
        invariant
            tt == texts(task_terms@),
            et == texts(entry_terms@),
            count == overlap_count(tt.take(i as int), et),
            count <= i,
            any_ascii == exists|j: int|
                0 <= j < i && et.contains(tt[j]) && is_ascii_text(#[trigger] tt[j]),
    {
        proof {
            assert(tt.take(i + 1).drop_last() =~= tt.take(i as int));
            assert(tt.take(i + 1).last() == tt[i as int]);
        }
        if holds_term(entry_terms, task_terms[i].as_str()) {
            count = count + 1;
            if ascii_text(task_terms[i].as_str()) {
                any_ascii = true;
            }
        }
    }
    proof {
        assert(tt.take(task_terms.len() as int) =~= tt);
    }
    let task_trimmed = str_trim(task_lower);
    let subject_len = chars_of(subject_lower).len();
    let subject_match = !task_trimmed.is_empty() && subject_len >= 3 && (text_contains(
        task_lower,
        subject_lower,
    ) || text_contains(subject_lower, task_lower));
    let term_match = any_ascii || count >= 2;
    if !subject_match && !term_match {
        return None;
    }
    let subject_score: i128 = if subject_match {
        80
    } else {
        0
    };
    Some(
        (count as i128) * 100 + subject_score + (kind_weight(entry.kind) as i128) + (status_weight(
            entry.status,
        ) as i128),
    )
}

/// The text an entry's terms are read from: id, subject and statement.
/// Status weighs strictly less along supported, open, resolved, rejected,
/// superseded; so of two entries of one kind that match a task alike, a
/// supported one scores above a rejected one and ranks before it.
pub proof fn lemma_status_orders_relevance(
    a: EntryModel,
    b: EntryModel,
    task_terms: Seq<Seq<char>>,
    task_lower: Seq<char>,
    entry_terms: Seq<Seq<char>>,
    subject_lower: Seq<char>,
)
    ensures
        status_weight_spec(ResearchStatus::Supported) > status_weight_spec(ResearchStatus::Open),
        status_weight_spec(ResearchStatus::Open) > status_weight_spec(ResearchStatus::Resolved),
        status_weight_spec(ResearchStatus::Resolved) > status_weight_spec(ResearchStatus::Rejected),
        status_weight_spec(ResearchStatus::Rejected) > status_weight_spec(ResearchStatus::Superseded),
        ({
            let ra = relevance(a, task_terms, task_lower, entry_terms, subject_lower);
            let rb = relevance(b, task_terms, task_lower, entry_terms, subject_lower);
            (a.kind == b.kind && a.status == ResearchStatus::Supported && b.status
                == ResearchStatus::Rejected) ==> {
                &&& ra is Some <==> rb is Some
                &&& ra is Some ==> ra->0 > rb->0 && ranked_before((ra->0, a), (rb->0, b))
            }
        }),
{
}

pub open spec fn entry_text(e: EntryModel) -> Seq<char> {
    e.id + " "@ + e.subject + " "@ + e.statement
}

/// The relevance of `e` to the task with text `task`.
pub open spec fn entry_relevance(e: EntryModel, task: Seq<char>) -> Option<int> {
    relevance(
        e,
        tokens(task),
        spec_to_lowercase(task),
        tokens(entry_text(e)),
        spec_to_lowercase(e.subject),
    )
}

fn score_entry(entry: &ResearchEntry, task_terms: &Vec<String>, task_lower: &str, Ghost(
    task,
): Ghost<Seq<char>>) -> (r: Option<i128>)
    requires
        texts(task_terms@) == tokens(task),
        task_lower@ == spec_to_lowercase(task),
    ensures
        match entry_relevance(entry@, task) {
            Some(v) => r is Some && r->Some_0 as int == v,
            None => r is None,
        },
{
    let mut text = owned(entry.id.as_str());
    push_str(&mut text, " ");
    push_str(&mut text, entry.subject.as_str());
    push_str(&mut text, " ");
    push_str(&mut text, entry.statement.as_str());
    proof {
        reveal_strlit(" ");
        assert(text@ =~= entry_text(entry@));
    }
    let entry_terms = tokenize(text.as_str());
    let subject_lower = str_to_lowercase(entry.subject.as_str());
    relevance_score(entry, task_terms, task_lower, &entry_terms, subject_lower.as_str())
}

// ---------------------------------------------------------------------------
// Ranking and selection.

/// Ranking order: higher score first, then id ascending.
pub open spec fn ranked_before(a: (int, EntryModel), b: (int, EntryModel)) -> bool {
    a.0 > b.0 || (a.0 == b.0 && seq_lt(a.1.id, b.1.id))
}

/// Where `x` goes in the ranked `s`: before the first element it ranks
/// before, so that equal elements keep their order.
pub open spec fn rank_position_from(s: Seq<(int, EntryModel)>, x: (int, EntryModel), i: int) -> int
    decreases s.len() - i,
{
    if i < 0 || i >= s.len() {
        s.len() as int
    } else if ranked_before(x, s[i]) {
        i
    } else {
        rank_position_from(s, x, i + 1)
    }
}

proof fn lemma_rank_position_bounds(s: Seq<(int, EntryModel)>, x: (int, EntryModel), i: int)
    requires
        0 <= i <= s.len(),
    ensures
        i <= rank_position_from(s, x, i) <= s.len(),
    decreases s.len() - i,
{
    if i < s.len() && !ranked_before(x, s[i]) {
        lemma_rank_position_bounds(s, x, i + 1);
    }
}

/// Stable sort by the ranking order.
pub open spec fn rank_sort(s: Seq<(int, EntryModel)>) -> Seq<(int, EntryModel)>
    decreases s.len(),
{
    if s.len() == 0 {
        s
    } else {
        let r = rank_sort(s.drop_last());
        r.insert(rank_position_from(r, s.last(), 0), s.last())
    }
}

/// The project-scoped entries of `es` relevant to `task`, with their
/// relevance, in their input order.
pub open spec fn candidates(es: Seq<EntryModel>, task: Seq<char>) -> Seq<(int, EntryModel)>
    decreases es.len(),
{
    if es.len() == 0 {
        Seq::empty()
    } else {
        let rest = candidates(es.drop_last(), task);
        let e = es.last();
        if e.scope == ResearchScope::Project && entry_relevance(e, task) is Some {
            rest.push((entry_relevance(e, task)->Some_0, e))
        } else {
            rest
        }
    }
}

/// `text` cut to at most `max` bytes: unchanged when it fits; otherwise the
/// longest prefix that leaves room for `…`, followed by `…`.
pub open spec fn truncated(s: Seq<char>, max: nat) -> Seq<char> {
    if utf8_len(s) <= max {
        s
    } else {
        let limit = if max >= char_width('\u{2026}') {
            max - char_width('\u{2026}')
        } else {
            0
        };
        s.take(fit_count(s, limit) as int).push('\u{2026}')
    }
}

/// `text` cut to at most `max_bytes` bytes at a character boundary, with
/// `…` marking the cut.
pub fn truncate_utf8(text: &str, max_bytes: usize) -> (r: String)
    ensures
        r@ == truncated(text@, max_bytes as nat),
{
    if byte_len(text) <= max_bytes {
        return owned(text);
    }
    let ellipsis_width = char_len_utf8('\u{2026}');
    let limit = max_bytes.saturating_sub(ellipsis_width);
    let mut out = take_bytes_at_char_boundary(text, limit);
    push_char(&mut out, '\u{2026}');
    out
}

/// An entry with subject and statement cut to their budgets.
pub open spec fn truncated_entry(e: EntryModel) -> EntryModel {
    EntryModel {
        subject: truncated(e.subject, MAX_SUBJECT_BYTES as nat),
        statement: truncated(e.statement, MAX_STATEMENT_BYTES as nat),
        ..e
    }
}

/// Bytes an entry is charged against the budget.
pub open spec fn entry_cost(e: EntryModel) -> int {
    utf8_len(e.subject) + utf8_len(e.statement) + utf8_len(e.id) + ENTRY_OVERHEAD_BYTES
}

/// Going through ranked entries in order, each (cut to its budgets) is taken
/// while fewer than the maximum are taken and its cost fits what is left of
/// the byte budget; entries that do not fit are passed over.
pub open spec fn selected(cs: Seq<EntryModel>, acc: Seq<EntryModel>, bytes: int) -> Seq<EntryModel>
    decreases cs.len(),
{
    if cs.len() == 0 {
        acc
    } else {
        let e = truncated_entry(cs[0]);
        if acc.len() >= RESEARCH_CONTEXT_MAX_ENTRIES || bytes + entry_cost(e)
            > RESEARCH_CONTEXT_MAX_PROJECTED_BYTES {
            selected(cs.drop_first(), acc, bytes)
        } else {
            selected(cs.drop_first(), acc.push(e), bytes + entry_cost(e))
        }
    }
}

/// The entries of a ranked candidate list.
pub open spec fn ranked_entries(cs: Seq<(int, EntryModel)>) -> Seq<EntryModel> {
    cs.map_values(|c: (int, EntryModel)| c.1)
}

/// The projection of `entries` for the task with text `task`.
pub open spec fn projection_entries(es: Seq<EntryModel>, task: Seq<char>) -> Seq<EntryModel> {
    selected(ranked_entries(rank_sort(candidates(es, task))), Seq::empty(), 0)
}

/// Scored candidates, as the mathematical pairs they stand for.
pub open spec fn scored(v: Seq<(i128, ResearchEntry)>) -> Seq<(int, EntryModel)> {
    v.map_values(|c: (i128, ResearchEntry)| (c.0 as int, c.1@))
}

fn rank_position(v: &Vec<(i128, ResearchEntry)>, score: i128, entry: &ResearchEntry) -> (i: usize)
    ensures
        i == rank_position_from(scored(v@), (score as int, entry@), 0),
{
    let ghost s = scored(v@);
    let ghost x = (score as int, entry@);
    let id = chars_of(entry.id.as_str());
    let mut i: usize = 0;
    while i < v.len()
        invariant
            i <= v.len(),
            s == scored(v@),
            x == (score as int, entry@),
            id@ == entry@.id,
            rank_position_from(s, x, 0) == rank_position_from(s, x, i as int),
        decreases v.len() - i,
    {
        proof {
            assert(s[i as int] == (v@[i as int].0 as int, v@[i as int].1@));
        }
        let other = chars_of(v[i].1.id.as_str());
        let before = score > v[i].0 || (score == v[i].0 && chars_lt(
            id.as_slice(),
            other.as_slice(),
        ));
        if before {
            return i;
        }
        i = i + 1;
    }
    i
}

/// Cost of an entry against the byte budget, or `None` when it alone
/// exceeds the budget.
fn bounded_cost(e: &ResearchEntry) -> (r: Option<usize>)
    ensures
        match r {
            Some(c) => c == entry_cost(e@) && c <= RESEARCH_CONTEXT_MAX_PROJECTED_BYTES + 1600,
            None => entry_cost(e@) > RESEARCH_CONTEXT_MAX_PROJECTED_BYTES,
        },
{
    let s = byte_len(e.subject.as_str());
    let t = byte_len(e.statement.as_str());
    let i = byte_len(e.id.as_str());
    if s > RESEARCH_CONTEXT_MAX_PROJECTED_BYTES || t > RESEARCH_CONTEXT_MAX_PROJECTED_BYTES || i
        > RESEARCH_CONTEXT_MAX_PROJECTED_BYTES {
        return None;
    }
    let c = s + t + i + ENTRY_OVERHEAD_BYTES;
    if c > RESEARCH_CONTEXT_MAX_PROJECTED_BYTES {
        return None;
    }
    Some(c)
}

/// The project-scoped entries relevant to `task_text`, best first, cut to at
/// most eight entries and 2600 charged bytes, with the count of relevant
/// entries left out.
pub fn project_research_context(entries: &[ResearchEntry], task_text: &str) -> (r:
    ResearchContextProjection)
    ensures
        models(r.entries@) == projection_entries(entries@.map_values(|e: ResearchEntry| e@), task_text@),
        r.omitted_count == candidates(entries@.map_values(|e: ResearchEntry| e@), task_text@).len()
            - r.entries@.len(),
{
    let ghost es = entries@.map_values(|e: ResearchEntry| e@);
    let task_terms = tokenize(task_text);
    let task_lower = str_to_lowercase(task_text);
    let mut ranked: Vec<(i128, ResearchEntry)> = Vec::new();
    let ghost mut plain: Seq<(int, EntryModel)> = Seq::empty();
    for i in 0..entries.len()
        invariant
            es == entries@.map_values(|e: ResearchEntry| e@),
            texts(task_terms@) == tokens(task_text@),
            task_lower@ == spec_to_lowercase(task_text@),
            plain == candidates(es.take(i as int), task_text@),
            scored(ranked@) == rank_sort(plain),
            ranked@.len() == plain.len(),
            plain.len() <= i,
    {
        proof {
            assert(es[i as int] == entries@[i as int]@);
            assert(es.take(i + 1).drop_last() =~= es.take(i as int));
            assert(es.take(i + 1).last() == entries@[i as int]@);
        }
        if entries[i].scope == ResearchScope::Project {
            let score = score_entry(&entries[i], &task_terms, task_lower.as_str(), Ghost(task_text@));
            match score {
                Some(v) => {
                    let entry = entries[i].clone();
                    let ghost em = entry@;
                    let pos = rank_position(&ranked, v, &entry);
                    proof {
                        lemma_rank_position_bounds(scored(ranked@), (v as int, em), 0);
                        assert(plain.push((v as int, em)).drop_last() =~= plain);
                    }
                    ranked.insert(pos, (v, entry));
                    proof {
                        plain = plain.push((v as int, em));
                        assert(scored(ranked@) =~= rank_sort(plain));
                    }
                },
                None => {},
            }
        }
    }
    proof {
        assert(es.take(entries.len() as int) =~= es);
    }
    let candidate_count = ranked.len();
    let ghost cs = ranked_entries(rank_sort(plain));
    let mut projected: Vec<ResearchEntry> = Vec::new();
    let mut projected_bytes: usize = 0;
    let mut j: usize = 0;
    proof {
        assert(cs.skip(0) =~= cs);
        assert(models(projected@) =~= Seq::<EntryModel>::empty());
    }
    while j < ranked.len()
        invariant
            j <= ranked.len(),
            cs == ranked_entries(scored(ranked@)),
            cs.len() == ranked.len(),
            projected_bytes <= RESEARCH_CONTEXT_MAX_PROJECTED_BYTES,
            projected.len() <= j,
            selected(cs, Seq::empty(), 0) == selected(
                cs.skip(j as int),
                models(projected@),
                projected_bytes as int,
            ),
        decreases ranked.len() - j,
    {
        let source = &ranked[j].1;
        let subject = truncate_utf8(source.subject.as_str(), MAX_SUBJECT_BYTES);
        let statement = truncate_utf8(source.statement.as_str(), MAX_STATEMENT_BYTES);
        let entry = ResearchEntry {
            id: source.id.clone(),
            scope: source.scope,
            kind: source.kind,
            subject,
            statement,
            status: source.status,
        };
        proof {
            assert(cs.skip(j as int)[0] == ranked@[j as int].1@);
            assert(entry@ == truncated_entry(cs.skip(j as int)[0]));
            assert(cs.skip(j as int).drop_first() =~= cs.skip(j + 1));
        }
        let cost = bounded_cost(&entry);
        let fits = match cost {
            Some(c) => projected.len() < RESEARCH_CONTEXT_MAX_ENTRIES && projected_bytes + c
                <= RESEARCH_CONTEXT_MAX_PROJECTED_BYTES,
            None => false,
        };
        if fits {
            let ghost before = models(projected@);
            let ghost em = entry@;
            projected_bytes = projected_bytes + cost.unwrap();
            projected.push(entry);
            proof {
                assert(models(projected@) =~= before.push(em));
            }
        }
        j = j + 1;
    }
    proof {
        assert(cs.skip(ranked.len() as int) =~= Seq::<EntryModel>::empty());
    }
    let omitted_count = candidate_count - projected.len();
    ResearchContextProjection { entries: projected, omitted_count }
}

// ---------------------------------------------------------------------------
// What every projection keeps to.

/// Bytes charged for all of `s`.
pub open spec fn total_cost(s: Seq<EntryModel>) -> int
    decreases s.len(),
{
    if s.len() == 0 {
        0
    } else {
        total_cost(s.drop_last()) + entry_cost(s.last())
    }
}

proof fn lemma_candidates_project_scoped(es: Seq<EntryModel>, task: Seq<char>)
    ensures
        forall|i: int|
            0 <= i < candidates(es, task).len() ==> (#[trigger] candidates(es, task)[i]).1.scope
                == ResearchScope::Project,
    decreases es.len(),
{
    if es.len() > 0 {
        lemma_candidates_project_scoped(es.drop_last(), task);
    }
}

proof fn lemma_rank_sort_members(s: Seq<(int, EntryModel)>)
    ensures
        rank_sort(s).len() == s.len(),
        forall|i: int|
            0 <= i < rank_sort(s).len() ==> exists|j: int|
                0 <= j < s.len() && #[trigger] rank_sort(s)[i] == #[trigger] s[j],
    decreases s.len(),
{
    if s.len() > 0 {
        let r = rank_sort(s.drop_last());
        lemma_rank_sort_members(s.drop_last());
        lemma_rank_position_bounds(r, s.last(), 0);
        let p = rank_position_from(r, s.last(), 0);
        assert forall|i: int| 0 <= i < rank_sort(s).len() implies exists|j: int|
            0 <= j < s.len() && #[trigger] rank_sort(s)[i] == #[trigger] s[j] by {
            if i == p {
                assert(rank_sort(s)[i] == s[s.len() - 1]);
            } else {
                let k = if i < p { i } else { i - 1 };
                assert(rank_sort(s)[i] == r[k]);
                let j = choose|j: int| 0 <= j < s.drop_last().len() && r[k] == s.drop_last()[j];
                assert(s.drop_last()[j] == s[j]);
            }
        }
    }
}

proof fn lemma_selected_bounded(cs: Seq<EntryModel>, acc: Seq<EntryModel>, bytes: int)
    requires
        acc.len() <= RESEARCH_CONTEXT_MAX_ENTRIES,
        bytes == total_cost(acc),
        bytes <= RESEARCH_CONTEXT_MAX_PROJECTED_BYTES,
        forall|i: int| 0 <= i < acc.len() ==> (#[trigger] acc[i]).scope == ResearchScope::Project,
        forall|i: int| 0 <= i < cs.len() ==> (#[trigger] cs[i]).scope == ResearchScope::Project,
    ensures
        selected(cs, acc, bytes).len() <= RESEARCH_CONTEXT_MAX_ENTRIES,
        total_cost(selected(cs, acc, bytes)) <= RESEARCH_CONTEXT_MAX_PROJECTED_BYTES,
        forall|i: int|
            0 <= i < selected(cs, acc, bytes).len() ==> (#[trigger] selected(cs, acc, bytes)[i]).scope
                == ResearchScope::Project,
    decreases cs.len(),
{
    if cs.len() > 0 {
        let e = truncated_entry(cs[0]);
        assert(cs[0].scope == ResearchScope::Project);
        assert forall|i: int| 0 <= i < cs.drop_first().len() implies (
        #[trigger] cs.drop_first()[i]).scope == ResearchScope::Project by {
            assert(cs.drop_first()[i] == cs[i + 1]);
        }
        if acc.len() >= RESEARCH_CONTEXT_MAX_ENTRIES || bytes + entry_cost(e)
            > RESEARCH_CONTEXT_MAX_PROJECTED_BYTES {
            lemma_selected_bounded(cs.drop_first(), acc, bytes);
        } else {
            assert(acc.push(e).drop_last() =~= acc);
            lemma_selected_bounded(cs.drop_first(), acc.push(e), bytes + entry_cost(e));
        }
    }
}

/// A projection holds at most eight entries, all project-scoped, whose
/// charged bytes together stay within the 2600-byte budget.
pub proof fn lemma_projection_bounded(es: Seq<EntryModel>, task: Seq<char>)
    ensures
        projection_entries(es, task).len() <= RESEARCH_CONTEXT_MAX_ENTRIES,
        total_cost(projection_entries(es, task)) <= RESEARCH_CONTEXT_MAX_PROJECTED_BYTES,
        forall|i: int|
            0 <= i < projection_entries(es, task).len() ==> (#[trigger] projection_entries(
                es,
                task,
            )[i]).scope == ResearchScope::Project,
{
    let c = candidates(es, task);
    lemma_candidates_project_scoped(es, task);
    lemma_rank_sort_members(c);
    let cs = ranked_entries(rank_sort(c));
    assert forall|i: int| 0 <= i < cs.len() implies (#[trigger] cs[i]).scope
        == ResearchScope::Project by {
        let j = choose|j: int| 0 <= j < c.len() && #[trigger] rank_sort(c)[i] == #[trigger] c[j];
        assert(c[j].1.scope == ResearchScope::Project);
    }
    lemma_selected_bounded(cs, Seq::empty(), 0);
}

proof fn lemma_ranked_before_transitive(a: (int, EntryModel), b: (int, EntryModel), c: (int, EntryModel))
    requires
        ranked_before(a, b),
        ranked_before(b, c),
    ensures
        ranked_before(a, c),
{
    if a.0 == b.0 && b.0 == c.0 {
        crate::text::lemma_seq_lt_transitive(a.1.id, b.1.id, c.1.id);
    }
}

/// Ranking sorts best first: no candidate ranks before one listed ahead of
/// it, so higher relevance comes first and equal relevance goes by id.
pub proof fn lemma_rank_sort_ordered(s: Seq<(int, EntryModel)>)
    ensures
        forall|i: int, j: int|
            0 <= i < j < rank_sort(s).len() ==> !ranked_before(
                #[trigger] rank_sort(s)[j],
                #[trigger] rank_sort(s)[i],
            ),
    decreases s.len(),
{
    if s.len() > 0 {
        let r = rank_sort(s.drop_last());
        let x = s.last();
        lemma_rank_sort_ordered(s.drop_last());
        lemma_rank_sort_members(s.drop_last());
        lemma_rank_position_bounds(r, x, 0);
        lemma_rank_position_from(r, x, 0);
        let p = rank_position_from(r, x, 0);
        let t = rank_sort(s);
        assert(t == r.insert(p, x));
        assert forall|i: int, j: int| 0 <= i < j < t.len() implies !ranked_before(
            #[trigger] t[j],
            #[trigger] t[i],
        ) by {
            if j < p {
                assert(t[i] == r[i] && t[j] == r[j]);
            } else if i > p {
                assert(t[i] == r[i - 1] && t[j] == r[j - 1]);
            } else if i == p {
                // x ranks before r[p], which ranks no lower than r[j - 1].
                assert(t[i] == x && t[j] == r[j - 1]);
                if ranked_before(r[j - 1], x) {
                    lemma_ranked_before_transitive(r[j - 1], x, r[p]);
                    if j - 1 > p {
                        assert(!ranked_before(r[j - 1], r[p]));
                    } else {
                        crate::text::lemma_seq_lt_irreflexive(r[p].1.id);
                    }
                }
            } else if j == p {
                assert(t[i] == r[i] && t[j] == x);
            } else {
                assert(t[i] == r[i] && t[j] == r[j - 1]);
            }
        }
    }
}

proof fn lemma_rank_position_from(s: Seq<(int, EntryModel)>, x: (int, EntryModel), i: int)
    requires
        0 <= i <= s.len(),
    ensures
        forall|j: int| i <= j < rank_position_from(s, x, i) ==> !ranked_before(x, #[trigger] s[j]),
        rank_position_from(s, x, i) < s.len() ==> ranked_before(x, s[rank_position_from(s, x, i)]),
    decreases s.len() - i,
{
    if i < s.len() && !ranked_before(x, s[i]) {
        lemma_rank_position_from(s, x, i + 1);
    }
}

} // verus!
