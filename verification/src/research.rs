//! Research state: project- and task-scoped facts, unknowns, hypotheses and
//! decisions, kept in key order and changed only by whole batches of deltas.

use crate::plan::{
    DeltaModel, ResearchDelta, ResearchEntryKind, ResearchOperation, ResearchScope,
    ResearchStatus,
};
use crate::text::{
    chars_lt, chars_of, lemma_seq_lt_irreflexive, lemma_seq_lt_total, lemma_seq_lt_transitive,
    owned, push_str, same_text, seq_lt, str_trim, trim,
};
use vstd::prelude::*;

verus! {

broadcast use vstd::string::group_string_axioms;

/// One research entry.
#[derive(Debug, Eq, PartialEq)]
pub struct ResearchEntry {
    pub id: String,
    pub scope: ResearchScope,
    pub kind: ResearchEntryKind,
    pub subject: String,
    pub statement: String,
    pub status: ResearchStatus,
}

/// The mathematical content of a research entry.
pub struct EntryModel {
    pub id: Seq<char>,
    pub scope: ResearchScope,
    pub kind: ResearchEntryKind,
    pub subject: Seq<char>,
    pub statement: Seq<char>,
    pub status: ResearchStatus,
}

impl View for ResearchEntry {
    type V = EntryModel;

    open spec fn view(&self) -> EntryModel {
        EntryModel {
            id: self.id@,
            scope: self.scope,
            kind: self.kind,
            subject: self.subject@,
            statement: self.statement@,
            status: self.status,
        }
    }
}

impl Clone for ResearchEntry {
    fn clone(&self) -> (r: Self)
        ensures
            r@ == self@,
    {
        ResearchEntry {
            id: self.id.clone(),
            scope: self.scope,
            kind: self.kind,
            subject: self.subject.clone(),
            statement: self.statement.clone(),
            status: self.status,
        }
    }
}

/// The entries' contents, in order.
pub open spec fn models(v: Seq<ResearchEntry>) -> Seq<EntryModel> {
    v.map_values(|e: ResearchEntry| e@)
}

/// Entries are identified by their scope and id.
pub type EntryKey = (ResearchScope, Seq<char>);

pub open spec fn entry_key(e: EntryModel) -> EntryKey {
    (e.scope, e.id)
}

/// Position of a scope in the key order: task scope first.
pub open spec fn scope_rank(s: ResearchScope) -> int {
    match s {
        ResearchScope::Task => 0,
        ResearchScope::Project => 1,
    }
}

/// The key order: by scope, then by id.
pub open spec fn key_lt(a: EntryKey, b: EntryKey) -> bool {
    scope_rank(a.0) < scope_rank(b.0) || (a.0 == b.0 && seq_lt(a.1, b.1))
}

/// Entries strictly ascending by key, so no key occurs twice.
pub open spec fn sorted_by_key(s: Seq<EntryModel>) -> bool {
    forall|i: int, j: int|
        0 <= i < j < s.len() ==> key_lt(#[trigger] entry_key(s[i]), #[trigger] entry_key(s[j]))
}

/// The first position at or after `i` whose key is not below `k`.
pub open spec fn lower_bound_from(s: Seq<EntryModel>, k: EntryKey, i: int) -> int
    decreases s.len() - i,
{
    if i < 0 || i >= s.len() {
        s.len() as int
    } else if key_lt(entry_key(s[i]), k) {
        lower_bound_from(s, k, i + 1)
    } else {
        i
    }
}

/// Where an entry with key `k` stands, or would stand, in `s`.
pub open spec fn lower_bound(s: Seq<EntryModel>, k: EntryKey) -> int {
    lower_bound_from(s, k, 0)
}

/// Whether `s` holds an entry with key `k`.
pub open spec fn has_key(s: Seq<EntryModel>, k: EntryKey) -> bool {
    let i = lower_bound(s, k);
    0 <= i < s.len() && entry_key(s[i]) == k
}

/// `s` with `e` in place of the entry with its key, or with `e` added.
pub open spec fn upserted(s: Seq<EntryModel>, e: EntryModel) -> Seq<EntryModel> {
    let i = lower_bound(s, entry_key(e));
    if has_key(s, entry_key(e)) {
        s.update(i, e)
    } else {
        s.insert(i, e)
    }
}

/// `s` without the entry with key `k`.
pub open spec fn removed(s: Seq<EntryModel>, k: EntryKey) -> Seq<EntryModel> {
    if has_key(s, k) {
        s.remove(lower_bound(s, k))
    } else {
        s
    }
}

/// `s` with the status of the entry with key `k` replaced.
pub open spec fn status_set(s: Seq<EntryModel>, k: EntryKey, status: ResearchStatus) -> Seq<
    EntryModel,
> {
    let i = lower_bound(s, k);
    s.update(i, EntryModel { status, ..s[i] })
}

/// The mathematical content of a research state failure.
pub enum ResearchFailure {
    EmptyId,
    MissingUpsertField { id: Seq<char>, field: Seq<char> },
    MissingStatus { id: Seq<char> },
    EntryNotFound { id: Seq<char>, scope: ResearchScope },
}

/// A text field an upsert needs: present and not blank once trimmed.
pub open spec fn upsert_text(o: Option<Seq<char>>) -> Option<Seq<char>> {
    match o {
        Some(t) => if trim(t).len() > 0 {
            Some(trim(t))
        } else {
            None
        },
        None => None,
    }
}

/// What one delta makes of the entries `s`.
pub open spec fn delta_outcome(s: Seq<EntryModel>, d: DeltaModel) -> Result<
    Seq<EntryModel>,
    ResearchFailure,
> {
    let id = trim(d.id);
    let k = (d.scope, id);
    if id.len() == 0 {
        Err(ResearchFailure::EmptyId)
    } else {
        match d.operation {
            ResearchOperation::Upsert => {
                if d.kind is None {
                    Err(ResearchFailure::MissingUpsertField { id, field: "kind"@ })
                } else if upsert_text(d.subject) is None {
                    Err(ResearchFailure::MissingUpsertField { id, field: "subject"@ })
                } else if upsert_text(d.statement) is None {
                    Err(ResearchFailure::MissingUpsertField { id, field: "statement"@ })
                } else {
                    Ok(
                        upserted(
                            s,
                            EntryModel {
                                id,
                                scope: d.scope,
                                kind: d.kind->Some_0,
                                subject: upsert_text(d.subject)->Some_0,
                                statement: upsert_text(d.statement)->Some_0,
                                status: match d.status {
                                    Some(st) => st,
                                    None => ResearchStatus::Open,
                                },
                            },
                        ),
                    )
                }
            },
            ResearchOperation::SetStatus => {
                if d.status is None {
                    Err(ResearchFailure::MissingStatus { id })
                } else if !has_key(s, k) {
                    Err(ResearchFailure::EntryNotFound { id, scope: d.scope })
                } else {
                    Ok(status_set(s, k, d.status->Some_0))
                }
            },
            ResearchOperation::Remove => Ok(removed(s, k)),
        }
    }
}

/// What a batch of deltas makes of the entries `s`, applied in order; the
/// first failure ends the batch.
pub open spec fn batch_outcome(s: Seq<EntryModel>, ds: Seq<DeltaModel>) -> Result<
    Seq<EntryModel>,
    ResearchFailure,
>
    decreases ds.len(),
{
    if ds.len() == 0 {
        Ok(s)
    } else {
        match delta_outcome(s, ds[0]) {
            Ok(next) => batch_outcome(next, ds.drop_first()),
            Err(f) => Err(f),
        }
    }
}

/// The deltas' contents, in order.
pub open spec fn delta_models(ds: Seq<ResearchDelta>) -> Seq<DeltaModel> {
    ds.map_values(|d: ResearchDelta| d@)
}

// ---------------------------------------------------------------------------
// Facts about the key order.

pub proof fn lemma_key_lt_irreflexive(a: EntryKey)
    ensures
        !key_lt(a, a),
{
    lemma_seq_lt_irreflexive(a.1);
}

pub proof fn lemma_key_lt_transitive(a: EntryKey, b: EntryKey, c: EntryKey)
    requires
        key_lt(a, b),
        key_lt(b, c),
    ensures
        key_lt(a, c),
{
    if a.0 == b.0 && b.0 == c.0 {
        lemma_seq_lt_transitive(a.1, b.1, c.1);
    }
}

pub proof fn lemma_key_lt_total(a: EntryKey, b: EntryKey)
    ensures
        a == b || key_lt(a, b) || key_lt(b, a),
{
    lemma_seq_lt_total(a.1, b.1);
    if scope_rank(a.0) == scope_rank(b.0) {
        assert(a.0 == b.0);
    }
}

/// Everything before the lower bound orders below `k`; the lower bound
/// itself, if inside `s`, does not.
proof fn lemma_lower_bound_from(s: Seq<EntryModel>, k: EntryKey, i: int)
    requires
        0 <= i <= s.len(),
    ensures
        i <= lower_bound_from(s, k, i) <= s.len(),
        forall|j: int| i <= j < lower_bound_from(s, k, i) ==> key_lt(#[trigger] entry_key(s[j]), k),
        lower_bound_from(s, k, i) < s.len() ==> !key_lt(
            entry_key(s[lower_bound_from(s, k, i)]),
            k,
        ),
    decreases s.len() - i,
{
    if i < s.len() && key_lt(entry_key(s[i]), k) {
        lemma_lower_bound_from(s, k, i + 1);
    }
}

/// In a sorted sequence nothing from the lower bound on orders below `k`.
pub proof fn lemma_lower_bound(s: Seq<EntryModel>, k: EntryKey)
    requires
        sorted_by_key(s),
    ensures
        0 <= lower_bound(s, k) <= s.len(),
        forall|j: int| 0 <= j < lower_bound(s, k) ==> key_lt(#[trigger] entry_key(s[j]), k),
        forall|j: int| lower_bound(s, k) <= j < s.len() ==> !key_lt(#[trigger] entry_key(s[j]), k),
{
    lemma_lower_bound_from(s, k, 0);
    let i = lower_bound(s, k);
    assert forall|j: int| i <= j < s.len() implies !key_lt(#[trigger] entry_key(s[j]), k) by {
        if j > i && key_lt(entry_key(s[j]), k) {
            assert(key_lt(entry_key(s[i]), entry_key(s[j])));
            lemma_key_lt_transitive(entry_key(s[i]), entry_key(s[j]), k);
        }
    }
}

/// A position with every key before it below `k` and its own key not below
/// `k` is the lower bound.
proof fn lemma_lower_bound_at(s: Seq<EntryModel>, k: EntryKey, i: int, m: int)
    requires
        0 <= m <= i <= s.len(),
        forall|j: int| 0 <= j < i ==> key_lt(#[trigger] entry_key(s[j]), k),
        i < s.len() ==> !key_lt(entry_key(s[i]), k),
    ensures
        lower_bound_from(s, k, m) == i,
    decreases i - m,
{
    if m < i {
        assert(key_lt(entry_key(s[m]), k));
        lemma_lower_bound_at(s, k, i, m + 1);
    }
}

/// In a sorted sequence the entry with key `k`, if any, is at the lower bound.
pub proof fn lemma_has_key(s: Seq<EntryModel>, k: EntryKey)
    requires
        sorted_by_key(s),
    ensures
        has_key(s, k) <==> exists|j: int| 0 <= j < s.len() && #[trigger] entry_key(s[j]) == k,
{
    lemma_lower_bound(s, k);
    if exists|j: int| 0 <= j < s.len() && #[trigger] entry_key(s[j]) == k {
        let j = choose|j: int| 0 <= j < s.len() && #[trigger] entry_key(s[j]) == k;
        let i = lower_bound(s, k);
        lemma_key_lt_irreflexive(k);
        if i < j {
            assert(key_lt(entry_key(s[i]), entry_key(s[j])));
            lemma_key_lt_total(entry_key(s[i]), k);
        }
    }
}

/// Adding or replacing an entry keeps the sequence sorted and puts the
/// entry at the lower bound of its key.
pub proof fn lemma_upserted(s: Seq<EntryModel>, e: EntryModel)
    requires
        sorted_by_key(s),
    ensures
        sorted_by_key(upserted(s, e)),
        lower_bound(upserted(s, e), entry_key(e)) == lower_bound(s, entry_key(e)),
        upserted(s, e)[lower_bound(s, entry_key(e))] == e,
        has_key(upserted(s, e), entry_key(e)),
{
    let k = entry_key(e);
    let i = lower_bound(s, k);
    lemma_lower_bound(s, k);
    let t = upserted(s, e);
    lemma_key_lt_irreflexive(k);
    if has_key(s, k) {
        assert forall|a: int, b: int| 0 <= a < b < t.len() implies key_lt(
            #[trigger] entry_key(t[a]),
            #[trigger] entry_key(t[b]),
        ) by {
            assert(key_lt(entry_key(s[a]), entry_key(s[b])));
        }
    } else {
        assert forall|a: int, b: int| 0 <= a < b < t.len() implies key_lt(
            #[trigger] entry_key(t[a]),
            #[trigger] entry_key(t[b]),
        ) by {
            if b < i {
                assert(key_lt(entry_key(s[a]), entry_key(s[b])));
            } else if a > i {
                assert(key_lt(entry_key(s[a - 1]), entry_key(s[b - 1])));
            } else if a == i {
                // k sits below every later key.
                lemma_key_lt_total(entry_key(s[i]), k);
                if b - 1 > i {
                    assert(key_lt(entry_key(s[i]), entry_key(s[b - 1])));
                    lemma_key_lt_transitive(k, entry_key(s[i]), entry_key(s[b - 1]));
                }
            } else if b == i {
                assert(key_lt(entry_key(s[a]), k));
            } else {
                assert(key_lt(entry_key(s[a]), k));
                lemma_key_lt_total(entry_key(s[i]), k);
                if b - 1 > i {
                    assert(key_lt(entry_key(s[i]), entry_key(s[b - 1])));
                    lemma_key_lt_transitive(k, entry_key(s[i]), entry_key(s[b - 1]));
                }
                lemma_key_lt_transitive(entry_key(s[a]), k, entry_key(s[b - 1]));
            }
        }
    }
    assert forall|j: int| 0 <= j < i implies key_lt(#[trigger] entry_key(t[j]), k) by {
        assert(key_lt(entry_key(s[j]), k));
    }
    lemma_lower_bound_at(t, k, i, 0);
}

/// Removing an entry keeps the sequence sorted and leaves no entry with its key.
pub proof fn lemma_removed(s: Seq<EntryModel>, k: EntryKey)
    requires
        sorted_by_key(s),
    ensures
        sorted_by_key(removed(s, k)),
        !has_key(removed(s, k), k),
{
    let t = removed(s, k);
    lemma_lower_bound(s, k);
    lemma_has_key(s, k);
    if has_key(s, k) {
        let i = lower_bound(s, k);
        assert forall|a: int, b: int| 0 <= a < b < t.len() implies key_lt(
            #[trigger] entry_key(t[a]),
            #[trigger] entry_key(t[b]),
        ) by {
            let a2 = if a < i { a } else { a + 1 };
            let b2 = if b < i { b } else { b + 1 };
            assert(t[a] == s[a2] && t[b] == s[b2]);
            assert(key_lt(entry_key(s[a2]), entry_key(s[b2])));
        }
        lemma_has_key(t, k);
        if exists|j: int| 0 <= j < t.len() && #[trigger] entry_key(t[j]) == k {
            let j = choose|j: int| 0 <= j < t.len() && #[trigger] entry_key(t[j]) == k;
            let j2 = if j < i { j } else { j + 1 };
            assert(t[j] == s[j2]);
            lemma_key_lt_irreflexive(k);
            if j2 < i {
                assert(key_lt(entry_key(s[j2]), k));
            } else {
                assert(key_lt(entry_key(s[i]), entry_key(s[j2])));
            }
        }
    }
}

/// Replacing a status keeps every key, so the sequence stays sorted.
pub proof fn lemma_status_set(s: Seq<EntryModel>, k: EntryKey, status: ResearchStatus)
    requires
        sorted_by_key(s),
        has_key(s, k),
    ensures
        sorted_by_key(status_set(s, k, status)),
        lower_bound(status_set(s, k, status), k) == lower_bound(s, k),
        has_key(status_set(s, k, status), k),
{
    let i = lower_bound(s, k);
    let t = status_set(s, k, status);
    lemma_lower_bound(s, k);
    assert forall|a: int, b: int| 0 <= a < b < t.len() implies key_lt(
        #[trigger] entry_key(t[a]),
        #[trigger] entry_key(t[b]),
    ) by {
        assert(entry_key(t[a]) == entry_key(s[a]));
        assert(entry_key(t[b]) == entry_key(s[b]));
        assert(key_lt(entry_key(s[a]), entry_key(s[b])));
    }
    assert forall|j: int| 0 <= j < i implies key_lt(#[trigger] entry_key(t[j]), k) by {
        assert(entry_key(t[j]) == entry_key(s[j]));
    }
    lemma_key_lt_irreflexive(k);
    lemma_lower_bound_at(t, k, i, 0);
}

/// Every delta that succeeds keeps the entries sorted by key.
pub proof fn lemma_delta_keeps_sorted(s: Seq<EntryModel>, d: DeltaModel)
    requires
        sorted_by_key(s),
        delta_outcome(s, d) is Ok,
    ensures
        sorted_by_key(delta_outcome(s, d)->Ok_0),
{
    let id = trim(d.id);
    let k = (d.scope, id);
    match d.operation {
        ResearchOperation::Upsert => {
            let e = EntryModel {
                id,
                scope: d.scope,
                kind: d.kind->Some_0,
                subject: upsert_text(d.subject)->Some_0,
                statement: upsert_text(d.statement)->Some_0,
                status: match d.status {
                    Some(st) => st,
                    None => ResearchStatus::Open,
                },
            };
            lemma_upserted(s, e);
        },
        ResearchOperation::SetStatus => {
            lemma_status_set(s, k, d.status->Some_0);
        },
        ResearchOperation::Remove => {
            lemma_removed(s, k);
        },
    }
}

/// Every batch that succeeds keeps the entries sorted by key.
pub proof fn lemma_batch_keeps_sorted(s: Seq<EntryModel>, ds: Seq<DeltaModel>)
    requires
        sorted_by_key(s),
        batch_outcome(s, ds) is Ok,
    ensures
        sorted_by_key(batch_outcome(s, ds)->Ok_0),
    decreases ds.len(),
{
    if ds.len() > 0 {
        lemma_delta_keeps_sorted(s, ds[0]);
        lemma_batch_keeps_sorted(delta_outcome(s, ds[0])->Ok_0, ds.drop_first());
    }
}

/// Applying a delta a second time changes nothing: upserting the same entry,
/// setting the same status and removing the same key are each idempotent.
pub proof fn lemma_delta_idempotent(s: Seq<EntryModel>, d: DeltaModel)
    requires
        sorted_by_key(s),
        delta_outcome(s, d) is Ok,
    ensures
        delta_outcome(delta_outcome(s, d)->Ok_0, d) == delta_outcome(s, d),
{
    let id = trim(d.id);
    let k = (d.scope, id);
    let t = delta_outcome(s, d)->Ok_0;
    match d.operation {
        ResearchOperation::Upsert => {
            let e = EntryModel {
                id,
                scope: d.scope,
                kind: d.kind->Some_0,
                subject: upsert_text(d.subject)->Some_0,
                statement: upsert_text(d.statement)->Some_0,
                status: match d.status {
                    Some(st) => st,
                    None => ResearchStatus::Open,
                },
            };
            lemma_upserted(s, e);
            assert(upserted(t, e) =~= t);
        },
        ResearchOperation::SetStatus => {
            let st = d.status->Some_0;
            lemma_status_set(s, k, st);
            assert(status_set(t, k, st) =~= t);
        },
        ResearchOperation::Remove => {
            lemma_removed(s, k);
        },
    }
}

/// Applying one delta to the entries a first application of it left yields
/// those same entries, so by `apply`'s contract the second call reports no
/// change and keeps the revision.
pub proof fn lemma_reapply_changes_nothing(s: Seq<EntryModel>, d: DeltaModel)
    requires
        sorted_by_key(s),
        batch_outcome(s, seq![d]) is Ok,
    ensures
        batch_outcome(batch_outcome(s, seq![d])->Ok_0, seq![d]) == Ok::<Seq<EntryModel>, ResearchFailure>(
            batch_outcome(s, seq![d])->Ok_0,
        ),
{
    assert(seq![d][0] == d);
    assert(seq![d].drop_first() =~= Seq::<DeltaModel>::empty());
    assert(delta_outcome(s, d) is Ok);
    let t = delta_outcome(s, d)->Ok_0;
    assert(batch_outcome(t, seq![d].drop_first()) == Ok::<Seq<EntryModel>, ResearchFailure>(t));
    assert(batch_outcome(s, seq![d]) == Ok::<Seq<EntryModel>, ResearchFailure>(t));
    lemma_delta_idempotent(s, d);
    assert(batch_outcome(t, seq![d]) == Ok::<Seq<EntryModel>, ResearchFailure>(t));
}

// ---------------------------------------------------------------------------
// Executable state.

/// Why a batch of research deltas was refused.
#[derive(Clone, Debug, Eq, PartialEq)]
pub enum ResearchStateError {
    EmptyId,
    MissingUpsertField { id: String, field: &'static str },
    MissingStatus { id: String },
    EntryNotFound { id: String, scope: ResearchScope },
}

impl View for ResearchStateError {
    type V = ResearchFailure;

    open spec fn view(&self) -> ResearchFailure {
        match self {
            ResearchStateError::EmptyId => ResearchFailure::EmptyId,
            ResearchStateError::MissingUpsertField { id, field } => {
                ResearchFailure::MissingUpsertField { id: id@, field: field@ }
            },
            ResearchStateError::MissingStatus { id } => ResearchFailure::MissingStatus { id: id@ },
            ResearchStateError::EntryNotFound { id, scope } => {
                ResearchFailure::EntryNotFound { id: id@, scope: *scope }
            },
        }
    }
}

/// The name `Debug` gives a scope.
pub open spec fn scope_debug_name(s: ResearchScope) -> Seq<char> {
    match s {
        ResearchScope::Task => "Task"@,
        ResearchScope::Project => "Project"@,
    }
}

/// The message a research failure displays.
pub open spec fn research_failure_text(f: ResearchFailure) -> Seq<char> {
    match f {
        ResearchFailure::EmptyId => "research entry id must not be empty"@,
        ResearchFailure::MissingUpsertField { id, field } => "research upsert `"@ + id
            + "` requires field `"@ + field + "`"@,
        ResearchFailure::MissingStatus { id } => "research status update `"@ + id
            + "` requires field `status`"@,
        ResearchFailure::EntryNotFound { id, scope } => "research entry `"@ + id
            + "` does not exist in scope `"@ + scope_debug_name(scope) + "`"@,
    }
}

impl ResearchStateError {
    /// The message this failure displays.
    pub fn message(&self) -> (r: String)
        ensures
            r@ == research_failure_text(self@),
    {
        match self {
            ResearchStateError::EmptyId => owned("research entry id must not be empty"),
            ResearchStateError::MissingUpsertField { id, field } => {
                let mut out = owned("research upsert `");
                push_str(&mut out, id.as_str());
                push_str(&mut out, "` requires field `");
                push_str(&mut out, field);
                push_str(&mut out, "`");
                out
            },
            ResearchStateError::MissingStatus { id } => {
                let mut out = owned("research status update `");
                push_str(&mut out, id.as_str());
                push_str(&mut out, "` requires field `status`");
                out
            },
            ResearchStateError::EntryNotFound { id, scope } => {
                let mut out = owned("research entry `");
                push_str(&mut out, id.as_str());
                push_str(&mut out, "` does not exist in scope `");
                match scope {
                    ResearchScope::Task => push_str(&mut out, "Task"),
                    ResearchScope::Project => push_str(&mut out, "Project"),
                }
                push_str(&mut out, "`");
                out
            },
        }
    }
}

/// Research entries in key order with the revision that counts the batches
/// that changed them.
#[derive(Debug)]
pub struct ResearchState {
    revision: u64,
    entries: Vec<ResearchEntry>,
}

/// The mathematical content of a research state.
pub struct ResearchModel {
    pub revision: u64,
    pub entries: Seq<EntryModel>,
}

impl View for ResearchState {
    type V = ResearchModel;

    closed spec fn view(&self) -> ResearchModel {
        ResearchModel { revision: self.revision, entries: models(self.entries@) }
    }
}

/// What a successful batch reports.
#[derive(Debug, Eq, PartialEq)]
pub struct ResearchApplyResult {
    pub revision: u64,
    pub changed: bool,
    pub entries: Vec<ResearchEntry>,
}

/// A read-only copy of a research state.
#[derive(Debug, Eq, PartialEq)]
pub struct ResearchStateSnapshot {
    pub revision: u64,
    pub entries: Vec<ResearchEntry>,
}

impl Default for ResearchState {
    fn default() -> (r: Self)
        ensures
            r@.revision == 0,
            r@.entries == Seq::<EntryModel>::empty(),
    {
        let r = ResearchState { revision: 0, entries: Vec::new() };
        proof {
            assert(models(r.entries@) =~= Seq::<EntryModel>::empty());
        }
        r
    }
}

/// A copy of `v`, entry by entry.
fn copy_entries(v: &Vec<ResearchEntry>) -> (r: Vec<ResearchEntry>)
    ensures
        models(r@) == models(v@),
{
    let mut r: Vec<ResearchEntry> = Vec::new();
    for i in 0..v.len()
        invariant
            r.len() == i,
            forall|j: int| 0 <= j < i ==> #[trigger] r@[j]@ == v@[j]@,
    {
        let e = v[i].clone();
        r.push(e);
    }
    proof {
        assert(models(r@) =~= models(v@));
    }
    r
}

/// Whether two entries hold the same content.
fn same_entry(a: &ResearchEntry, b: &ResearchEntry) -> (r: bool)
    ensures
        r == (a@ == b@),
{
    a.scope == b.scope && a.kind == b.kind && a.status == b.status && same_text(
        a.id.as_str(),
        b.id.as_str(),
    ) && same_text(a.subject.as_str(), b.subject.as_str()) && same_text(
        a.statement.as_str(),
        b.statement.as_str(),
    )
}

/// Whether two lists of entries hold the same contents in the same order.
fn same_entries(a: &Vec<ResearchEntry>, b: &Vec<ResearchEntry>) -> (r: bool)
    ensures
        r == (models(a@) == models(b@)),
{
    if a.len() != b.len() {
        proof {
            assert(models(a@).len() != models(b@).len());
        }
        return false;
    }
    for i in 0..a.len()
        invariant
            a.len() == b.len(),
            forall|j: int| 0 <= j < i ==> a@[j]@ == b@[j]@,
    {
        if !same_entry(&a[i], &b[i]) {
            proof {
                assert(models(a@)[i as int] != models(b@)[i as int]);
            }
            return false;
        }
    }
    proof {
        assert(models(a@) =~= models(b@));
    }
    true
}

/// Whether `e`'s key orders below the key `(scope, id)`.
fn entry_key_below(e: &ResearchEntry, scope: ResearchScope, id: &[char]) -> (r: bool)
    ensures
        r == key_lt(entry_key(e@), (scope, id@)),
{
    let rank_e: u8 = match e.scope {
        ResearchScope::Task => 0,
        ResearchScope::Project => 1,
    };
    let rank_k: u8 = match scope {
        ResearchScope::Task => 0,
        ResearchScope::Project => 1,
    };
    if rank_e != rank_k {
        return rank_e < rank_k;
    }
    let e_id = chars_of(e.id.as_str());
    chars_lt(e_id.as_slice(), id)
}

/// Where the key `(scope, id)` stands, or would stand, in `v`.
fn key_position(v: &Vec<ResearchEntry>, scope: ResearchScope, id: &[char]) -> (i: usize)
    ensures
        i == lower_bound(models(v@), (scope, id@)),
{
    let ghost m = models(v@);
    let ghost k = (scope, id@);
    let mut i: usize = 0;
    while i < v.len()
        invariant
            i <= v.len(),
            m == models(v@),
            k == (scope, id@),
            lower_bound(m, k) == lower_bound_from(m, k, i as int),
        decreases v.len() - i,
    {
        proof {
            assert(m[i as int] == v@[i as int]@);
        }
        if !entry_key_below(&v[i], scope, id) {
            return i;
        }
        i = i + 1;
    }
    i
}

/// Whether the entry at `i` has the key `(scope, id)`.
fn key_at(v: &Vec<ResearchEntry>, i: usize, scope: ResearchScope, id: &str) -> (r: bool)
    ensures
        r == (i < v.len() && entry_key(models(v@)[i as int]) == (scope, id@)),
{
    if i >= v.len() {
        return false;
    }
    v[i].scope == scope && same_text(v[i].id.as_str(), id)
}

/// A text field an upsert needs, trimmed; `None` when absent or blank.
fn required_upsert_text(value: &Option<String>) -> (r: Option<String>)
    ensures
        match r {
            Some(t) => upsert_text(crate::plan::optional_text(*value)) == Some(t@),
            None => upsert_text(crate::plan::optional_text(*value)) is None,
        },
{
    match value {
        Some(t) => {
            let trimmed = str_trim(t.as_str());
            if trimmed.is_empty() {
                None
            } else {
                Some(owned(trimmed))
            }
        },
        None => None,
    }
}

/// Applies one delta to `entries`.
fn apply_delta(entries: &mut Vec<ResearchEntry>, delta: &ResearchDelta) -> (r: Result<
    (),
    ResearchStateError,
>)
    requires
        sorted_by_key(models(old(entries)@)),
    ensures
        match delta_outcome(models(old(entries)@), delta@) {
            Ok(next) => r is Ok && models(final(entries)@) == next,
            Err(f) => r is Err && r->Err_0@ == f,
        },
{
    let id_str = str_trim(delta.id.as_str());
    if id_str.is_empty() {
        return Err(ResearchStateError::EmptyId);
    }
    let id_chars = chars_of(id_str);
    let ghost s = models(entries@);
    let ghost k = (delta.scope, id_str@);
    match delta.operation {
        ResearchOperation::Upsert => {
            let kind = match delta.kind {
                Some(kind) => kind,
                None => {
                    return Err(
                        ResearchStateError::MissingUpsertField { id: owned(id_str), field: "kind" },
                    );
                },
            };
            let subject = match required_upsert_text(&delta.subject) {
                Some(t) => t,
                None => {
                    return Err(
                        ResearchStateError::MissingUpsertField {
                            id: owned(id_str),
                            field: "subject",
                        },
                    );
                },
            };
            let statement = match required_upsert_text(&delta.statement) {
                Some(t) => t,
                None => {
                    return Err(
                        ResearchStateError::MissingUpsertField {
                            id: owned(id_str),
                            field: "statement",
                        },
                    );
                },
            };
            let status = match delta.status {
                Some(st) => st,
                None => ResearchStatus::Open,
            };
            let entry = ResearchEntry {
                id: owned(id_str),
                scope: delta.scope,
                kind,
                subject,
                statement,
                status,
            };
            let i = key_position(entries, delta.scope, id_chars.as_slice());
            let found = key_at(entries, i, delta.scope, id_str);
            proof {
                lemma_lower_bound(s, k);
            }
            if found {
                entries.set(i, entry);
            } else {
                entries.insert(i, entry);
            }
            proof {
                assert(models(entries@) =~= upserted(s, entry@));
            }
            Ok(())
        },
        ResearchOperation::SetStatus => {
            let status = match delta.status {
                Some(st) => st,
                None => {
                    return Err(ResearchStateError::MissingStatus { id: owned(id_str) });
                },
            };
            let i = key_position(entries, delta.scope, id_chars.as_slice());
            let found = key_at(entries, i, delta.scope, id_str);
            proof {
                lemma_lower_bound(s, k);
            }
            if !found {
                return Err(ResearchStateError::EntryNotFound { id: owned(id_str), scope: delta.scope });
            }
            let mut entry = entries[i].clone();
            entry.status = status;
            entries.set(i, entry);
            proof {
                assert(models(entries@) =~= status_set(s, k, status));
            }
            Ok(())
        },
        ResearchOperation::Remove => {
            let i = key_position(entries, delta.scope, id_chars.as_slice());
            let found = key_at(entries, i, delta.scope, id_str);
            proof {
                lemma_lower_bound(s, k);
            }
            if found {
                entries.remove(i);
                proof {
                    assert(models(entries@) =~= s.remove(i as int));
                }
            }
            Ok(())
        },
    }
}

impl ResearchState {
    #[verifier::type_invariant]
    spec fn entries_sorted(self) -> bool {
        sorted_by_key(models(self.entries@))
    }

    /// The number of batches that changed the entries, saturating at `u64::MAX`.
    pub fn revision(&self) -> (r: u64)
        ensures
            r == self@.revision,
    {
        self.revision
    }

    /// The entries in key order: by scope, task scope first, then by id.
    pub fn entries(&self) -> (r: Vec<ResearchEntry>)
        ensures
            models(r@) == self@.entries,
            sorted_by_key(self@.entries),
    {
        proof {
            use_type_invariant(self);
        }
        copy_entries(&self.entries)
    }

    /// A read-only copy of the revision and the entries.
    pub fn snapshot(&self) -> (r: ResearchStateSnapshot)
        ensures
            r.revision == self@.revision,
            models(r.entries@) == self@.entries,
    {
        ResearchStateSnapshot { revision: self.revision, entries: self.entries() }
    }

    /// Applies a batch of deltas in order, all or nothing. When every delta
    /// applies and the entries differ from before, the revision goes up by
    /// one; a batch that leaves the entries as they were leaves the revision
    /// too. When a delta fails the state is left untouched.
    pub fn apply(&mut self, deltas: &[ResearchDelta]) -> (r: Result<
        ResearchApplyResult,
        ResearchStateError,
    >)
        ensures
            sorted_by_key(final(self)@.entries),
            match batch_outcome(old(self)@.entries, delta_models(deltas@)) {
                Ok(next) => {
                    &&& r is Ok
                    &&& final(self)@.entries == next
                    &&& r->Ok_0.changed == (next != old(self)@.entries)
                    &&& final(self)@.revision == (if r->Ok_0.changed {
                        old(self)@.revision.saturating_add(1)
                    } else {
                        old(self)@.revision
                    })
                    &&& r->Ok_0.revision == final(self)@.revision
                    &&& models(r->Ok_0.entries@) == next
                },
                Err(f) => {
                    &&& r is Err
                    &&& r->Err_0@ == f
                    &&& final(self)@ == old(self)@
                },
            },
    {
        proof {
            use_type_invariant(&*self);
        }
        let ghost start = models(self.entries@);
        let ghost ds = delta_models(deltas@);
        let mut next = copy_entries(&self.entries);
        let mut i: usize = 0;
        proof {
            assert(ds.skip(0) =~= ds);
        }
        while i < deltas.len()
            invariant
                i <= deltas.len(),
                ds == delta_models(deltas@),
                start == models(self.entries@),
                *self == *old(self),
                sorted_by_key(start),
                sorted_by_key(models(next@)),
                batch_outcome(start, ds) == batch_outcome(models(next@), ds.skip(i as int)),
            decreases deltas.len() - i,
        {
            let ghost before = models(next@);
            proof {
                assert(ds.skip(i as int)[0] == deltas@[i as int]@);
                assert(ds.skip(i as int).drop_first() =~= ds.skip(i + 1));
            }
            let step = apply_delta(&mut next, &deltas[i]);
            match step {
                Ok(()) => {
                    proof {
                        lemma_delta_keeps_sorted(before, deltas@[i as int]@);
                    }
                },
                Err(e) => {
                    return Err(e);
                },
            }
            i = i + 1;
        }
        proof {
            assert(ds.skip(deltas.len() as int).len() == 0);
        }
        let changed = !same_entries(&next, &self.entries);
        if changed {
            self.entries = next;
            self.revision = self.revision.saturating_add(1);
        }
        let entries = self.entries();
        Ok(ResearchApplyResult { revision: self.revision, changed, entries })
    }
}

} // verus!
