//! Durable research project identity: a stable project resolved from one or
//! more opaque aliases, normalized before they are stored.

use crate::plan::{
    DeltaModel, ResearchDelta, ResearchEntryKind, ResearchOperation, ResearchScope,
    ResearchStatus,
};
use crate::research::{models, EntryModel, ResearchEntry};
use crate::text::{
    byte_len, chars_lt, chars_of, lemma_seq_lt_total, lemma_seq_lt_transitive, owned, same_text,
    seq_lt, str_trim, texts, trim, utf8_len,
};
use vstd::prelude::*;

verus! {

broadcast use vstd::string::group_string_axioms;

pub const MAX_PROJECT_ALIASES: usize = 32;

pub const MAX_PROJECT_ALIAS_LEN: usize = 256;

/// Stable internal research project resolved from one or more aliases.
#[derive(Clone, Debug, Eq, PartialEq)]
pub struct ResearchProject {
    pub project_id: String,
    pub revision: u64,
}

/// Why a set of project aliases was refused.
#[derive(Clone, Copy, Debug, Eq, PartialEq, Structural)]
pub enum ResearchAliasError {
    /// No alias is left once blank ones are dropped.
    Missing,
    /// More than 32 distinct aliases.
    TooMany,
    /// An alias longer than 256 bytes.
    TooLong,
}

impl ResearchAliasError {
    pub open spec fn text(self) -> Seq<char> {
        match self {
            ResearchAliasError::Missing => "research project requires an identity alias"@,
            ResearchAliasError::TooMany => "research project has too many identity aliases"@,
            ResearchAliasError::TooLong => "research project identity alias is too long"@,
        }
    }

    /// The message this failure displays.
    pub fn message(&self) -> (r: String)
        ensures
            r@ == self.text(),
    {
        match self {
            ResearchAliasError::Missing => owned("research project requires an identity alias"),
            ResearchAliasError::TooMany => owned("research project has too many identity aliases"),
            ResearchAliasError::TooLong => owned("research project identity alias is too long"),
        }
    }
}

/// Strictly ascending: sorted, each alias once.
pub open spec fn strictly_ascending(s: Seq<Seq<char>>) -> bool {
    forall|i: int, j: int| 0 <= i < j < s.len() ==> seq_lt(#[trigger] s[i], #[trigger] s[j])
}

/// The aliases kept: trimmed, and not blank.
pub open spec fn kept_alias(aliases: Seq<Seq<char>>, a: Seq<char>) -> bool {
    exists|i: int| 0 <= i < aliases.len() && trim(#[trigger] aliases[i]) == a && a.len() > 0
}

/// Whether `s` lists exactly the kept aliases, in ascending order, each once.
pub open spec fn normalized(aliases: Seq<Seq<char>>, s: Seq<Seq<char>>) -> bool {
    &&& strictly_ascending(s)
    &&& forall|a: Seq<char>| s.contains(a) <==> kept_alias(aliases, a)
}

/// What normalizing the aliases `s` (already normalized) must refuse.
pub open spec fn alias_failure(s: Seq<Seq<char>>) -> Option<ResearchAliasError> {
    if s.len() == 0 {
        Some(ResearchAliasError::Missing)
    } else if s.len() > MAX_PROJECT_ALIASES {
        Some(ResearchAliasError::TooMany)
    } else if exists|i: int| 0 <= i < s.len() && utf8_len(#[trigger] s[i]) > MAX_PROJECT_ALIAS_LEN {
        Some(ResearchAliasError::TooLong)
    } else {
        None
    }
}

/// Adds `a` to the strictly ascending `out` unless it is already there.
fn insert_sorted_text(out: &mut Vec<String>, a: String)
    requires
        strictly_ascending(texts(old(out)@)),
    ensures
        strictly_ascending(texts(final(out)@)),
        forall|x: Seq<char>| texts(final(out)@).contains(x) <==> (texts(old(out)@).contains(x) || x == a@),
{
    let ghost before = texts(out@);
    let key = chars_of(a.as_str());
    let mut k: usize = 0;
    while k < out.len()
        invariant
            k <= out.len(),
            key@ == a@,
            before == texts(out@),
            strictly_ascending(before),
            forall|j: int| 0 <= j < k ==> seq_lt(#[trigger] before[j], a@),
        ensures
            k <= out.len(),
            before == texts(out@),
            forall|j: int| 0 <= j < k ==> seq_lt(#[trigger] before[j], a@),
            k < out.len() ==> !seq_lt(before[k as int], a@),
        decreases out.len() - k,
    {
        let other = chars_of(out[k].as_str());
        proof {
            assert(before[k as int] == out@[k as int]@);
        }
        if !chars_lt(other.as_slice(), key.as_slice()) {
            break;
        }
        k = k + 1;
    }
    proof {
        assert(before == texts(out@));
    }
    if k < out.len() && same_text(out[k].as_str(), a.as_str()) {
        proof {
            assert(before[k as int] == a@);
        }
        return;
    }
    let ghost av = a@;
    proof {
        if k < before.len() {
            lemma_seq_lt_total(before[k as int], av);
            assert(before[k as int] == out@[k as int]@);
        }
    }
    out.insert(k, a);
    proof {
        let now = texts(out@);
        assert(now =~= before.insert(k as int, av));
        assert forall|i: int, j: int| 0 <= i < j < now.len() implies seq_lt(
            #[trigger] now[i],
            #[trigger] now[j],
        ) by {
            if j < k {
                assert(seq_lt(before[i], before[j]));
            } else if i > k {
                assert(seq_lt(before[i - 1], before[j - 1]));
            } else if i == k {
                if j - 1 > k {
                    assert(seq_lt(before[k as int], before[j - 1]));
                    lemma_seq_lt_transitive(av, before[k as int], before[j - 1]);
                }
            } else if j == k {
                assert(seq_lt(before[i], av));
            } else {
                assert(seq_lt(before[i], av));
                if j - 1 > k {
                    assert(seq_lt(before[k as int], before[j - 1]));
                    lemma_seq_lt_transitive(av, before[k as int], before[j - 1]);
                }
                lemma_seq_lt_transitive(before[i], av, before[j - 1]);
            }
        }
        assert forall|x: Seq<char>| now.contains(x) <==> (before.contains(x) || x == av) by {
            if now.contains(x) {
                let i = choose|i: int| 0 <= i < now.len() && now[i] == x;
                if i < k {
                    assert(before[i] == x);
                } else if i > k {
                    assert(before[i - 1] == x);
                }
            }
            if before.contains(x) {
                let i = choose|i: int| 0 <= i < before.len() && before[i] == x;
                if i < k {
                    assert(now[i] == x);
                } else {
                    assert(now[i + 1] == x);
                }
            }
            if x == av {
                assert(now[k as int] == x);
            }
        }
    }
}

/// The aliases trimmed, without blank ones, sorted and each once; refused
/// when none is left, when more than 32 remain, or when one is longer than
/// 256 bytes.
pub fn normalize_aliases(aliases: &[String]) -> (r: Result<Vec<String>, ResearchAliasError>)
    ensures
        exists|s: Seq<Seq<char>>|
            #[trigger] normalized(texts(aliases@), s) && match alias_failure(s) {
                Some(f) => r == Err::<Vec<String>, ResearchAliasError>(f),
                None => r is Ok && texts(r->Ok_0@) == s,
            },
{
    let ghost input = texts(aliases@);
    let mut out: Vec<String> = Vec::new();
    for i in 0..aliases.len()
        invariant
            input == texts(aliases@),
            strictly_ascending(texts(out@)),
            forall|x: Seq<char>| texts(out@).contains(x) <==> kept_alias(input.take(i as int), x),
    {
        let trimmed = str_trim(aliases[i].as_str());
        let ghost prev = texts(out@);
        proof {
            assert(input[i as int] == aliases@[i as int]@);
        }
        if !trimmed.is_empty() {
            insert_sorted_text(&mut out, owned(trimmed));
        }
        proof {
            assert forall|x: Seq<char>| texts(out@).contains(x) <==> kept_alias(
                input.take(i + 1),
                x,
            ) by {
                let t = input.take(i + 1);
                if kept_alias(t, x) {
                    let j = choose|j: int| 0 <= j < t.len() && trim(#[trigger] t[j]) == x && x.len() > 0;
                    if j < i {
                        assert(input.take(i as int)[j] == t[j]);
                        assert(kept_alias(input.take(i as int), x));
                    }
                }
                if kept_alias(input.take(i as int), x) {
                    let j = choose|j: int|
                        0 <= j < input.take(i as int).len() && trim(
                            #[trigger] input.take(i as int)[j],
                        ) == x && x.len() > 0;
                    assert(t[j] == input.take(i as int)[j]);
                }
                if x == trimmed@ && x.len() > 0 {
                    assert(t[i as int] == input[i as int]);
                }
            }
        }
    }
    proof {
        assert(input.take(aliases@.len() as int) =~= input);
    }
    let ghost s = texts(out@);
    proof {
        assert(normalized(input, s));
    }
    if out.len() == 0 {
        return Err(ResearchAliasError::Missing);
    }
    if out.len() > MAX_PROJECT_ALIASES {
        return Err(ResearchAliasError::TooMany);
    }
    for i in 0..out.len()
        invariant
            s == texts(out@),
            normalized(texts(aliases@), s),
            0 < s.len() <= MAX_PROJECT_ALIASES,
            forall|j: int| 0 <= j < i ==> utf8_len(#[trigger] s[j]) <= MAX_PROJECT_ALIAS_LEN,
    {
        proof {
            assert(s[i as int] == out@[i as int]@);
        }
        if byte_len(out[i].as_str()) > MAX_PROJECT_ALIAS_LEN {
            proof {
                assert(utf8_len(s[i as int]) > MAX_PROJECT_ALIAS_LEN);
            }
            return Err(ResearchAliasError::TooLong);
        }
    }
    Ok(out)
}

// ---------------------------------------------------------------------------
// Persisting applied deltas.

pub open spec fn operation_name_spec(o: ResearchOperation) -> Seq<char> {
    match o {
        ResearchOperation::Upsert => "upsert"@,
        ResearchOperation::SetStatus => "set_status"@,
        ResearchOperation::Remove => "remove"@,
    }
}

/// The stored name of an operation.
pub fn operation_name(operation: ResearchOperation) -> (r: &'static str)
    ensures
        r@ == operation_name_spec(operation),
{
    match operation {
        ResearchOperation::Upsert => "upsert",
        ResearchOperation::SetStatus => "set_status",
        ResearchOperation::Remove => "remove",
    }
}

pub open spec fn scope_name_spec(s: ResearchScope) -> Seq<char> {
    match s {
        ResearchScope::Task => "task"@,
        ResearchScope::Project => "project"@,
    }
}

/// The stored name of a scope.
pub fn scope_name(scope: ResearchScope) -> (r: &'static str)
    ensures
        r@ == scope_name_spec(scope),
{
    match scope {
        ResearchScope::Task => "task",
        ResearchScope::Project => "project",
    }
}

pub open spec fn kind_name_spec(k: ResearchEntryKind) -> Seq<char> {
    match k {
        ResearchEntryKind::Fact => "fact"@,
        ResearchEntryKind::Constraint => "constraint"@,
        ResearchEntryKind::Goal => "goal"@,
        ResearchEntryKind::Unknown => "unknown"@,
        ResearchEntryKind::Hypothesis => "hypothesis"@,
        ResearchEntryKind::Exploration => "exploration"@,
        ResearchEntryKind::Decision => "decision"@,
        ResearchEntryKind::FuturePressure => "future_pressure"@,
        ResearchEntryKind::Outcome => "outcome"@,
    }
}

/// The stored name of an entry kind.
pub fn kind_name(kind: ResearchEntryKind) -> (r: &'static str)
    ensures
        r@ == kind_name_spec(kind),
{
    match kind {
        ResearchEntryKind::Fact => "fact",
        ResearchEntryKind::Constraint => "constraint",
        ResearchEntryKind::Goal => "goal",
        ResearchEntryKind::Unknown => "unknown",
        ResearchEntryKind::Hypothesis => "hypothesis",
        ResearchEntryKind::Exploration => "exploration",
        ResearchEntryKind::Decision => "decision",
        ResearchEntryKind::FuturePressure => "future_pressure",
        ResearchEntryKind::Outcome => "outcome",
    }
}

pub open spec fn status_name_spec(s: ResearchStatus) -> Seq<char> {
    match s {
        ResearchStatus::Open => "open"@,
        ResearchStatus::Supported => "supported"@,
        ResearchStatus::Rejected => "rejected"@,
        ResearchStatus::Resolved => "resolved"@,
        ResearchStatus::Superseded => "superseded"@,
    }
}

/// The stored name of an entry status.
pub fn status_name(status: ResearchStatus) -> (r: &'static str)
    ensures
        r@ == status_name_spec(status),
{
    match status {
        ResearchStatus::Open => "open",
        ResearchStatus::Supported => "supported",
        ResearchStatus::Rejected => "rejected",
        ResearchStatus::Resolved => "resolved",
        ResearchStatus::Superseded => "superseded",
    }
}

/// Whether every delta of a batch is project-scoped, as durable research
/// requires.
pub fn all_project_scoped(deltas: &[ResearchDelta]) -> (r: bool)
    ensures
        r == forall|i: int| 0 <= i < deltas@.len() ==> (#[trigger] deltas@[i]).scope
            == ResearchScope::Project,
{
    for i in 0..deltas.len()
        invariant
            forall|j: int| 0 <= j < i ==> (#[trigger] deltas@[j]).scope == ResearchScope::Project,
    {
        if deltas[i].scope != ResearchScope::Project {
            return false;
        }
    }
    true
}

/// Whether some delta names `id` once trimmed.
pub open spec fn touched_id(ds: Seq<ResearchDelta>, id: Seq<char>) -> bool {
    exists|i: int| 0 <= i < ds.len() && trim((#[trigger] ds[i]).id@) == id
}

/// The first project-scoped entry with id `id`.
pub open spec fn project_entry_from(es: Seq<EntryModel>, id: Seq<char>, i: int) -> Option<int>
    decreases es.len() - i,
{
    if i < 0 || i >= es.len() {
        None
    } else if es[i].scope == ResearchScope::Project && es[i].id == id {
        Some(i)
    } else {
        project_entry_from(es, id, i + 1)
    }
}

fn project_entry<'a>(entries: &'a [ResearchEntry], id: &str) -> (r: Option<&'a ResearchEntry>)
    ensures
        match project_entry_from(models(entries@), id@, 0) {
            Some(j) => r is Some && r->Some_0@ == models(entries@)[j],
            None => r is None,
        },
{
    let ghost es = models(entries@);
    let mut i: usize = 0;
    while i < entries.len()
        invariant
            i <= entries.len(),
            es == models(entries@),
            project_entry_from(es, id@, 0) == project_entry_from(es, id@, i as int),
        decreases entries.len() - i,
    {
        proof {
            assert(es[i as int] == entries@[i as int]@);
        }
        if entries[i].scope == ResearchScope::Project && same_text(entries[i].id.as_str(), id) {
            return Some(&entries[i]);
        }
        i = i + 1;
    }
    None
}

/// What the durable projection of a project becomes after a batch: for each
/// id the batch touched, trimmed, in ascending order and once, the entry now
/// held for it in project scope, or `None` when none is left.
pub fn projection_plan(deltas: &[ResearchDelta], entries: &[ResearchEntry]) -> (r: Vec<
    (String, Option<ResearchEntry>),
>)
    ensures
        strictly_ascending(r@.map_values(|p: (String, Option<ResearchEntry>)| p.0@)),
        forall|x: Seq<char>|
            r@.map_values(|p: (String, Option<ResearchEntry>)| p.0@).contains(x) <==> touched_id(
                deltas@,
                x,
            ),
        forall|k: int|
            0 <= k < r@.len() ==> match project_entry_from(models(entries@), (#[trigger] r@[k]).0@, 0) {
                Some(j) => r@[k].1 is Some && r@[k].1->Some_0@ == models(entries@)[j],
                None => r@[k].1 is None,
            },
{
    let mut ids: Vec<String> = Vec::new();
    for i in 0..deltas.len()
        invariant
            strictly_ascending(texts(ids@)),
            forall|x: Seq<char>| texts(ids@).contains(x) <==> touched_id(deltas@.take(i as int), x),
    {
        let trimmed = owned(str_trim(deltas[i].id.as_str()));
        let ghost t = trimmed@;
        insert_sorted_text(&mut ids, trimmed);
        proof {
            assert forall|x: Seq<char>| texts(ids@).contains(x) <==> touched_id(
                deltas@.take(i + 1),
                x,
            ) by {
                let d = deltas@.take(i + 1);
                if touched_id(d, x) {
                    let j = choose|j: int| 0 <= j < d.len() && trim((#[trigger] d[j]).id@) == x;
                    if j < i {
                        assert(deltas@.take(i as int)[j] == d[j]);
                    }
                }
                if touched_id(deltas@.take(i as int), x) {
                    let j = choose|j: int|
                        0 <= j < i && trim((#[trigger] deltas@.take(i as int)[j]).id@) == x;
                    assert(d[j] == deltas@.take(i as int)[j]);
                }
                if x == t {
                    assert(d[i as int] == deltas@[i as int]);
                }
            }
        }
    }
    proof {
        assert(deltas@.take(deltas@.len() as int) =~= deltas@);
    }
    let mut plan: Vec<(String, Option<ResearchEntry>)> = Vec::new();
    for k in 0..ids.len()
        invariant
            plan@.len() == k,
            forall|j: int| 0 <= j < k ==> (#[trigger] plan@[j]).0@ == ids@[j]@,
            forall|j: int|
                0 <= j < k ==> match project_entry_from(models(entries@), (#[trigger] plan@[j]).0@, 0) {
                    Some(m) => plan@[j].1 is Some && plan@[j].1->Some_0@ == models(entries@)[m],
                    None => plan@[j].1 is None,
                },
    {
        let found = match project_entry(entries, ids[k].as_str()) {
            Some(e) => Some(e.clone()),
            None => None,
        };
        plan.push((ids[k].clone(), found));
    }
    proof {
        assert(plan@.map_values(|p: (String, Option<ResearchEntry>)| p.0@) =~= texts(ids@));
    }
    plan
}

// ---------------------------------------------------------------------------
// Project identity.

/// Names the text of `uuid::Uuid::new_v5(namespace, name)`: a name-based
/// (SHA-1) UUID, written lowercase and hyphenated.
pub uninterp spec fn uuid_v5_text(namespace: Seq<u8>, name: Seq<u8>) -> Seq<char>;

/// `uuid::Uuid::new_v5` with `Display`.
#[verifier::external_body]
fn uuid_v5(namespace: &[u8; 16], name: &[u8]) -> (r: String)
    ensures
        r@ == uuid_v5_text(namespace@, name@),
{
    uuid::Uuid::new_v5(&uuid::Uuid::from_bytes(*namespace), name).to_string()
}

/// The namespace under which research project ids are derived.
pub open spec fn research_namespace() -> Seq<u8> {
    seq![
        0x91u8, 0x76u8, 0x5du8, 0x2fu8, 0x5bu8, 0x1eu8, 0x4eu8, 0x9cu8, 0x91u8, 0x21u8, 0x7du8,
        0x90u8, 0xd4u8, 0x52u8, 0x39u8, 0x83u8,
    ]
}

fn research_namespace_bytes() -> (r: [u8; 16])
    ensures
        r@ == research_namespace(),
{
    let r: [u8; 16] = [
        0x91, 0x76, 0x5d, 0x2f, 0x5b, 0x1e, 0x4e, 0x9c, 0x91, 0x21, 0x7d, 0x90, 0xd4, 0x52, 0x39,
        0x83,
    ];
    proof {
        assert(r@ =~= research_namespace());
    }
    r
}

/// The id a new research project gets: derived from its first alias.
pub open spec fn new_project_id(first_alias: Seq<char>) -> Seq<char> {
    "research-"@ + uuid_v5_text(research_namespace(), vstd::utf8::encode_utf8(first_alias))
}

pub fn new_research_project_id(first_alias: &str) -> (r: String)
    ensures
        r@ == new_project_id(first_alias@),
{
    let namespace = research_namespace_bytes();
    let id = uuid_v5(&namespace, first_alias.as_bytes());
    let mut out = owned("research-");
    crate::text::push_str(&mut out, id.as_str());
    out
}

/// Why aliases could not be resolved to one project.
#[derive(Clone, Copy, Debug, Eq, PartialEq, Structural)]
pub enum ResearchIdentityError {
    /// The aliases already belong to different projects.
    ConflictingProjects,
}

/// The project the aliases name: the one project their known aliases
/// already belong to, or a new project derived from the first alias; two
/// different existing projects conflict.
pub open spec fn resolved_project(aliases: Seq<Seq<char>>, existing: Seq<Seq<char>>) -> Result<
    Seq<char>,
    ResearchIdentityError,
> {
    if existing.len() == 0 {
        Ok(new_project_id(aliases[0]))
    } else if exists|i: int| 0 <= i < existing.len() && #[trigger] existing[i] != existing[0] {
        Err(ResearchIdentityError::ConflictingProjects)
    } else {
        Ok(existing[0])
    }
}

/// Resolves normalized aliases, given the projects their known aliases
/// already belong to.
pub fn resolve_project_id(aliases: &Vec<String>, existing: &Vec<String>) -> (r: Result<
    String,
    ResearchIdentityError,
>)
    requires
        aliases@.len() > 0,
    ensures
        match resolved_project(texts(aliases@), texts(existing@)) {
            Ok(id) => r is Ok && r->Ok_0@ == id,
            Err(e) => r == Err::<String, ResearchIdentityError>(e),
        },
{
    if existing.len() == 0 {
        proof {
            assert(texts(aliases@)[0] == aliases@[0]@);
        }
        return Ok(new_research_project_id(aliases[0].as_str()));
    }
    for i in 0..existing.len()
        invariant
            existing@.len() > 0,
            forall|j: int| 0 <= j < i ==> #[trigger] existing@[j]@ == existing@[0]@,
    {
        if !same_text(existing[i].as_str(), existing[0].as_str()) {
            proof {
                assert(texts(existing@)[i as int] != texts(existing@)[0]);
            }
            return Err(ResearchIdentityError::ConflictingProjects);
        }
    }
    proof {
        assert forall|i: int| 0 <= i < existing@.len() implies #[trigger] texts(existing@)[i] == texts(
            existing@,
        )[0] by {
            assert(existing@[i]@ == existing@[0]@);
        }
    }
    Ok(existing[0].clone())
}

} // verus!
