//! Finding the pending items of a project AGENT: the JSON files of its
//! candidate or proposal directory, in name order, that have no recorded
//! decision yet. Reading the directory and looking for decisions stay with
//! the caller, who hands in what it found, one item at a time.

use crate::agent::ProjectAgentTaskResult;
use crate::maintenance::{
    stable_item_id, stable_item_id_spec, PendingProjectAgentItem,
    ProjectAgentMaintenanceItemKind,
};
use crate::text::{
    blank, chars_end_with, chars_lt, chars_of, decimal, has_suffix, is_blank, lemma_seq_lt_irreflexive,
    lemma_seq_lt_total, lemma_seq_lt_transitive, owned, push_str, seq_lt, texts,
};
use crate::checkpoint::decimal_text;
use crate::types::{
    valid_relative_path, ProjectAgentId, ProjectAgentValidationError, RelativeProjectAgentPath,
    PROJECT_AGENT_SCHEMA_VERSION,
};
use vstd::prelude::*;

verus! {

broadcast use vstd::string::group_string_axioms;

/// Entries a pending directory may hold.
pub const MAX_PENDING_DIRECTORY_ENTRIES: usize = 10000;

/// Pending items of one kind a project AGENT may have.
pub const MAX_PENDING_ITEMS_PER_KIND: usize = 1024;

pub open spec fn pending_directory_spec(kind: ProjectAgentMaintenanceItemKind) -> Seq<char> {
    match kind {
        ProjectAgentMaintenanceItemKind::MemoryCandidate => "memory/candidates"@,
        ProjectAgentMaintenanceItemKind::ImprovementProposal => "proposals/pending"@,
    }
}

/// The directory, relative to the agent, that holds pending items of `kind`.
pub fn pending_directory(kind: ProjectAgentMaintenanceItemKind) -> (r: &'static str)
    ensures
        r@ == pending_directory_spec(kind),
{
    match kind {
        ProjectAgentMaintenanceItemKind::MemoryCandidate => "memory/candidates",
        ProjectAgentMaintenanceItemKind::ImprovementProposal => "proposals/pending",
    }
}

/// An entry of a directory listing.
#[derive(Clone, Debug, Eq, PartialEq)]
pub struct DirectoryEntry {
    pub file_name: String,
    pub is_file: bool,
}

/// The names of the JSON files among `entries`, in listing order.
pub open spec fn json_names(entries: Seq<DirectoryEntry>) -> Seq<Seq<char>>
    decreases entries.len(),
{
    if entries.len() == 0 {
        Seq::empty()
    } else {
        let e = entries.last();
        json_names(entries.drop_last()) + if e.is_file && has_suffix(e.file_name@, ".json"@) {
            seq![e.file_name@]
        } else {
            Seq::empty()
        }
    }
}

/// Each name is at most the names after it.
pub open spec fn ascending(s: Seq<Seq<char>>) -> bool {
    forall|i: int, j: int| 0 <= i < j < s.len() ==> !seq_lt(#[trigger] s[j], #[trigger] s[i])
}

/// Inserts `a` after the names not above it, keeping `out` ascending.
fn insert_in_order(out: &mut Vec<String>, a: String)
    requires
        ascending(texts(old(out)@)),
    ensures
        ascending(texts(final(out)@)),
        texts(final(out)@).to_multiset() == texts(old(out)@).to_multiset().insert(a@),
{
    let ghost before = texts(out@);
    let key = chars_of(a.as_str());
    let mut k: usize = 0;
    while k < out.len()
        invariant
            k <= out.len(),
            key@ == a@,
            before == texts(out@),
            ascending(before),
            forall|j: int| 0 <= j < k ==> !seq_lt(a@, #[trigger] before[j]),
        ensures
            k <= out.len(),
            before == texts(out@),
            forall|j: int| 0 <= j < k ==> !seq_lt(a@, #[trigger] before[j]),
            k < out.len() ==> seq_lt(a@, before[k as int]),
        decreases out.len() - k,
    {
        let other = chars_of(out[k].as_str());
        proof {
            assert(before[k as int] == out@[k as int]@);
        }
        if chars_lt(key.as_slice(), other.as_slice()) {
            break;
        }
        k = k + 1;
    }
    let ghost av = a@;
    out.insert(k, a);
    proof {
        let now = texts(out@);
        assert(now =~= before.insert(k as int, av));
        vstd::seq_lib::to_multiset_insert(before, k as int, av);
        assert forall|i: int, j: int| 0 <= i < j < now.len() implies !seq_lt(
            #[trigger] now[j],
            #[trigger] now[i],
        ) by {
            if j < k {
                assert(now[i] == before[i] && now[j] == before[j]);
            } else if i > k {
                assert(now[i] == before[i - 1] && now[j] == before[j - 1]);
            } else if i == k {
                // now[i] is `a`, now[j] is before[j - 1] with j - 1 >= k.
                assert(now[j] == before[j - 1]);
                if seq_lt(before[j - 1], av) {
                    if j - 1 == k {
                        lemma_seq_lt_irreflexive(av);
                        lemma_seq_lt_transitive(av, before[k as int], av);
                    } else {
                        assert(!seq_lt(before[j - 1], before[k as int]));
                        lemma_seq_lt_transitive(before[j - 1], av, before[k as int]);
                    }
                }
            } else if j == k {
                assert(now[i] == before[i]);
            } else {
                assert(now[i] == before[i] && now[j] == before[j - 1]);
            }
        }
    }
}

/// The names of the JSON files among `entries`, in name order.
pub fn sorted_json_names(entries: &Vec<DirectoryEntry>) -> (r: Vec<String>)
    ensures
        ascending(texts(r@)),
        texts(r@).to_multiset() == json_names(entries@).to_multiset(),
{
    let mut out: Vec<String> = Vec::new();
    let suffix = chars_of(".json");
    proof {
        reveal_strlit(".json");
        assert(texts(out@) =~= Seq::<Seq<char>>::empty());
        assert(entries@.take(0) =~= Seq::<DirectoryEntry>::empty());
    }
    let mut i: usize = 0;
    while i < entries.len()
        invariant
            i <= entries.len(),
            suffix@ == ".json"@,
            ascending(texts(out@)),
            texts(out@).to_multiset() == json_names(entries@.take(i as int)).to_multiset(),
        decreases entries.len() - i,
    {
        let entry = &entries[i];
        let name = chars_of(entry.file_name.as_str());
        proof {
            assert(entries@.take(i + 1).drop_last() =~= entries@.take(i as int));
            assert(entries@.take(i + 1).last() == entries@[i as int]);
        }
        let ghost prev = json_names(entries@.take(i as int));
        if entry.is_file && chars_end_with(name.as_slice(), suffix.as_slice()) {
            insert_in_order(&mut out, entry.file_name.clone());
            proof {
                vstd::seq_lib::to_multiset_build(prev, entry.file_name@);
                assert(prev + seq![entry.file_name@] =~= prev.push(entry.file_name@));
            }
        } else {
            proof {
                assert(prev + Seq::<Seq<char>>::empty() =~= prev);
            }
        }
        i = i + 1;
    }
    proof {
        assert(entries@.take(entries@.len() as int) =~= entries@);
    }
    out
}

/// Name order leaves no choice: two ascending listings of the same names
/// are the same listing.
pub proof fn lemma_ascending_listing_unique(a: Seq<Seq<char>>, b: Seq<Seq<char>>)
    requires
        ascending(a),
        ascending(b),
        a.to_multiset() == b.to_multiset(),
    ensures
        a == b,
    decreases a.len(),
{
    broadcast use vstd::seq_lib::group_to_multiset_ensures;

    assert(a.len() == a.to_multiset().len());
    assert(b.len() == b.to_multiset().len());
    if a.len() == 0 {
        assert(a =~= b);
    } else {
        let x = a[0];
        let y = b[0];
        assert(a.contains(x));
        assert(b.to_multiset().count(x) > 0);
        assert(b.contains(x));
        let j = choose|j: int| 0 <= j < b.len() && b[j] == x;
        assert(a.to_multiset().count(y) > 0);
        let i = choose|i: int| 0 <= i < a.len() && a[i] == y;
        lemma_seq_lt_total(x, y);
        if seq_lt(x, y) {
            if j > 0 {
                assert(!seq_lt(b[j], b[0]));
            } else {
                lemma_seq_lt_irreflexive(x);
            }
        }
        if seq_lt(y, x) {
            if i > 0 {
                assert(!seq_lt(a[i], a[0]));
            } else {
                lemma_seq_lt_irreflexive(y);
            }
        }
        assert(x == y);
        vstd::seq_lib::to_multiset_remove(a, 0);
        vstd::seq_lib::to_multiset_remove(b, 0);
        assert(a.remove(0) =~= a.drop_first());
        assert(b.remove(0) =~= b.drop_first());
        assert forall|p: int, q: int| 0 <= p < q < a.drop_first().len() implies !seq_lt(
            #[trigger] a.drop_first()[q],
            #[trigger] a.drop_first()[p],
        ) by {
            assert(a.drop_first()[q] == a[q + 1] && a.drop_first()[p] == a[p + 1]);
        }
        assert forall|p: int, q: int| 0 <= p < q < b.drop_first().len() implies !seq_lt(
            #[trigger] b.drop_first()[q],
            #[trigger] b.drop_first()[p],
        ) by {
            assert(b.drop_first()[q] == b[q + 1] && b.drop_first()[p] == b[p + 1]);
        }
        lemma_ascending_listing_unique(a.drop_first(), b.drop_first());
        assert(a =~= seq![x] + a.drop_first());
        assert(b =~= seq![y] + b.drop_first());
    }
}

/// Why the pending items cannot be listed.
#[derive(Debug)]
pub enum PendingScanError {
    /// The directory lists more entries than it may hold.
    TooManyDirectoryEntries { maximum: usize },
    /// A file name does not make a valid agent path.
    InvalidPath(ProjectAgentValidationError),
    /// More items of the kind are pending than an agent may have.
    TooManyPendingItems { kind: ProjectAgentMaintenanceItemKind, maximum: usize },
}

/// The listing of the pending items of one kind, as it proceeds: the JSON
/// file names in order, how many have been handed out, and the items found
/// pending so far.
pub struct PendingScan {
    pub kind: ProjectAgentMaintenanceItemKind,
    pub names: Vec<String>,
    pub next: usize,
    pub pending: Vec<(String, RelativeProjectAgentPath)>,
}

pub open spec fn pending_views(v: Seq<(String, RelativeProjectAgentPath)>) -> Seq<(Seq<char>, Seq<char>)> {
    v.map_values(|p: (String, RelativeProjectAgentPath)| (p.0@, p.1@))
}

/// The agent path of the pending file `name` of `kind`.
pub open spec fn source_text(kind: ProjectAgentMaintenanceItemKind, name: Seq<char>) -> Seq<char> {
    pending_directory_spec(kind) + "/"@ + name
}

impl PendingScan {
    /// Starts from the listing of the pending directory: a listing longer
    /// than the directory may hold is refused.
    pub fn start(kind: ProjectAgentMaintenanceItemKind, entries: &Vec<DirectoryEntry>) -> (r: Result<
        PendingScan,
        PendingScanError,
    >)
        ensures
            entries@.len() > MAX_PENDING_DIRECTORY_ENTRIES <==> (r matches Err(
                PendingScanError::TooManyDirectoryEntries { maximum },
            ) && maximum == MAX_PENDING_DIRECTORY_ENTRIES),
            r is Ok <==> entries@.len() <= MAX_PENDING_DIRECTORY_ENTRIES,
            r matches Ok(s) ==> {
                &&& s.kind == kind
                &&& s.next == 0
                &&& s.pending@.len() == 0
                &&& ascending(texts(s.names@))
                &&& texts(s.names@).to_multiset() == json_names(entries@).to_multiset()
            },
    {
        if entries.len() > MAX_PENDING_DIRECTORY_ENTRIES {
            return Err(
                PendingScanError::TooManyDirectoryEntries { maximum: MAX_PENDING_DIRECTORY_ENTRIES },
            );
        }
        let names = sorted_json_names(entries);
        Ok(PendingScan { kind, names, next: 0, pending: Vec::new() })
    }

    /// The next file to look at: its item id and agent path, or the path
    /// error; nothing once every file has been handed out.
    pub fn next_candidate(&mut self) -> (r: Option<
        Result<(String, RelativeProjectAgentPath), PendingScanError>,
    >)
        ensures
            final(self).kind == old(self).kind,
            final(self).names == old(self).names,
            final(self).pending == old(self).pending,
            old(self).next >= old(self).names@.len() ==> r is None && final(self).next == old(
                self,
            ).next,
            old(self).next < old(self).names@.len() ==> {
                let text = source_text(old(self).kind, old(self).names@[old(self).next as int]@);
                &&& final(self).next == old(self).next + 1
                &&& valid_relative_path(text) ==> (r matches Some(Ok((id, p))) && p@ == text
                    && id@ == stable_item_id_spec(old(self).kind, text))
                &&& !valid_relative_path(text) ==> r matches Some(
                    Err(PendingScanError::InvalidPath(_)),
                )
            },
    {
        if self.next >= self.names.len() {
            return None;
        }
        let mut text = owned(pending_directory(self.kind));
        push_str(&mut text, "/");
        push_str(&mut text, self.names[self.next].as_str());
        self.next = self.next + 1;
        match RelativeProjectAgentPath::new(text.as_str()) {
            Ok(path) => {
                let id = stable_item_id(self.kind, &path);
                Some(Ok((id, path)))
            },
            Err(e) => Some(Err(PendingScanError::InvalidPath(e))),
        }
    }

    /// Records whether a decision about the item exists: an undecided item
    /// is pending; more pending items than an agent may have is an error.
    pub fn record(&mut self, item_id: String, source_path: RelativeProjectAgentPath, decided: bool) -> (r:
        Result<(), PendingScanError>)
        ensures
            final(self).kind == old(self).kind,
            final(self).names == old(self).names,
            final(self).next == old(self).next,
            pending_views(final(self).pending@) == if decided {
                pending_views(old(self).pending@)
            } else {
                pending_views(old(self).pending@).push((item_id@, source_path@))
            },
            r is Ok <==> final(self).pending@.len() <= MAX_PENDING_ITEMS_PER_KIND,
            r matches Err(e) ==> e matches PendingScanError::TooManyPendingItems { kind, maximum }
                && kind == old(self).kind && maximum == MAX_PENDING_ITEMS_PER_KIND,
    {
        let ghost before = pending_views(self.pending@);
        if !decided {
            let ghost pair = (item_id@, source_path@);
            self.pending.push((item_id, source_path));
            proof {
                assert(pending_views(self.pending@) =~= before.push(pair));
            }
        }
        if self.pending.len() > MAX_PENDING_ITEMS_PER_KIND {
            return Err(
                PendingScanError::TooManyPendingItems {
                    kind: self.kind,
                    maximum: MAX_PENDING_ITEMS_PER_KIND,
                },
            );
        }
        Ok(())
    }
}

/// Why a pending item file is refused.
pub open spec fn pending_item_problem(item: PendingProjectAgentItem, agent_id: Seq<char>) -> Option<
    Seq<char>,
> {
    if item.schema_version != PROJECT_AGENT_SCHEMA_VERSION {
        Some(
            "schema version "@ + decimal(item.schema_version as nat) + " does not match "@
                + decimal(PROJECT_AGENT_SCHEMA_VERSION as nat),
        )
    } else if item.agent_id@ != agent_id || is_blank(item.body@) {
        Some("agent id does not match or body is empty"@)
    } else {
        None
    }
}

/// Checks a pending item read from disk: it must have the current schema,
/// belong to the agent and have a body.
pub fn check_pending_item(item: &PendingProjectAgentItem, agent_id: &ProjectAgentId) -> (r: Option<
    String,
>)
    ensures
        match pending_item_problem(*item, agent_id@) {
            Some(t) => r matches Some(s) && s@ == t,
            None => r is None,
        },
{
    if item.schema_version != PROJECT_AGENT_SCHEMA_VERSION {
        let mut r = owned("schema version ");
        let found = decimal_text(item.schema_version as u64);
        push_str(&mut r, found.as_str());
        push_str(&mut r, " does not match ");
        let expected = decimal_text(PROJECT_AGENT_SCHEMA_VERSION as u64);
        push_str(&mut r, expected.as_str());
        return Some(r);
    }
    if !crate::text::same_text(item.agent_id.as_str(), agent_id.as_str()) || blank(item.body.as_str()) {
        return Some(owned("agent id does not match or body is empty"));
    }
    None
}

// ---------------------------------------------------------------------------
// The files a task result leaves behind.

/// A pending item file to be written, at its agent path.
#[derive(Clone, Debug, Eq, PartialEq)]
pub struct PendingFile {
    pub path: String,
    pub item: PendingProjectAgentItem,
}

/// Where a persisted result goes: its history file, and one pending file
/// per memory candidate and per improvement proposal.
#[derive(Clone, Debug, Eq, PartialEq)]
pub struct ResultFiles {
    pub history: String,
    pub memory_candidates: Vec<PendingFile>,
    pub improvement_proposals: Vec<PendingFile>,
}

/// The `i`-th pending file of `task_id` in `directory`.
pub open spec fn pending_file_path(directory: Seq<char>, task_id: Seq<char>, i: nat) -> Seq<char> {
    directory + "/"@ + task_id + "-"@ + decimal(i) + ".json"@
}

/// `f` is the pending file of body `body`, the `i`-th of `result` in
/// `directory`.
pub open spec fn pending_file_ok(
    f: PendingFile,
    directory: Seq<char>,
    result: ProjectAgentTaskResult,
    i: nat,
    body: Seq<char>,
) -> bool {
    &&& f.path@ == pending_file_path(directory, result.task_id@, i)
    &&& f.item.schema_version == PROJECT_AGENT_SCHEMA_VERSION
    &&& f.item.agent_id@ == result.agent_id@
    &&& f.item.task_id@ == result.task_id@
    &&& f.item.body@ == body
}

fn pending_files(result: &ProjectAgentTaskResult, directory: &str, bodies: &Vec<String>) -> (r: Vec<
    PendingFile,
>)
    ensures
        r@.len() == bodies@.len(),
        forall|i: int|
            0 <= i < r@.len() ==> pending_file_ok(
                #[trigger] r@[i],
                directory@,
                *result,
                i as nat,
                bodies@[i]@,
            ),
{
    let mut out: Vec<PendingFile> = Vec::new();
    let mut i: usize = 0;
    while i < bodies.len()
        invariant
            i <= bodies.len(),
            out@.len() == i,
            forall|j: int|
                0 <= j < i ==> pending_file_ok(
                    #[trigger] out@[j],
                    directory@,
                    *result,
                    j as nat,
                    bodies@[j]@,
                ),
        decreases bodies.len() - i,
    {
        let mut path = owned(directory);
        push_str(&mut path, "/");
        push_str(&mut path, result.task_id.as_str());
        push_str(&mut path, "-");
        let n = decimal_text(i as u64);
        push_str(&mut path, n.as_str());
        push_str(&mut path, ".json");
        let item = PendingProjectAgentItem::new(
            result.agent_id.duplicate(),
            result.task_id.clone(),
            bodies[i].clone(),
        );
        out.push(PendingFile { path, item });
        i = i + 1;
    }
    out
}

/// The files that persisting `result` writes, besides the current-task file.
pub fn result_files(result: &ProjectAgentTaskResult) -> (r: ResultFiles)
    ensures
        r.history@ == "tasks/history/"@ + result.task_id@ + ".json"@,
        r.memory_candidates@.len() == result.memory_candidates@.len(),
        forall|i: int|
            0 <= i < r.memory_candidates@.len() ==> pending_file_ok(
                #[trigger] r.memory_candidates@[i],
                "memory/candidates"@,
                *result,
                i as nat,
                result.memory_candidates@[i]@,
            ),
        r.improvement_proposals@.len() == result.improvement_proposals@.len(),
        forall|i: int|
            0 <= i < r.improvement_proposals@.len() ==> pending_file_ok(
                #[trigger] r.improvement_proposals@[i],
                "proposals/pending"@,
                *result,
                i as nat,
                result.improvement_proposals@[i]@,
            ),
{
    let mut history = owned("tasks/history/");
    push_str(&mut history, result.task_id.as_str());
    push_str(&mut history, ".json");
    let memory_candidates = pending_files(result, "memory/candidates", &result.memory_candidates);
    let improvement_proposals = pending_files(
        result,
        "proposals/pending",
        &result.improvement_proposals,
    );
    ResultFiles { history, memory_candidates, improvement_proposals }
}

// ---------------------------------------------------------------------------
// Task files, newest name first.

/// Entries a task directory may hold.
pub const MAX_TASK_DIRECTORY_ENTRIES: usize = 1024;

/// Each name is at least the names after it.
pub open spec fn descending(s: Seq<Seq<char>>) -> bool {
    forall|i: int, j: int| 0 <= i < j < s.len() ==> !seq_lt(#[trigger] s[i], #[trigger] s[j])
}

/// A name without its `.json` ending.
pub open spec fn json_stem(name: Seq<char>) -> Seq<char> {
    name.take(name.len() - 5)
}

proof fn lemma_json_names_suffix(entries: Seq<DirectoryEntry>)
    ensures
        forall|i: int|
            0 <= i < json_names(entries).len() ==> has_suffix(
                #[trigger] json_names(entries)[i],
                ".json"@,
            ),
    decreases entries.len(),
{
    if entries.len() > 0 {
        lemma_json_names_suffix(entries.drop_last());
        let prev = json_names(entries.drop_last());
        let all = json_names(entries);
        assert forall|i: int| 0 <= i < all.len() implies has_suffix(#[trigger] all[i], ".json"@) by {
            if i < prev.len() {
                assert(all[i] == prev[i]);
            }
        }
    }
}

proof fn lemma_reverse_multiset(s: Seq<Seq<char>>)
    ensures
        s.reverse().to_multiset() == s.to_multiset(),
    decreases s.len(),
{
    broadcast use vstd::seq_lib::group_to_multiset_ensures;

    if s.len() == 0 {
        assert(s.reverse() =~= s);
    } else {
        let x = s.last();
        let t = s.drop_last();
        lemma_reverse_multiset(t);
        assert(s.reverse() =~= seq![x] + t.reverse());
        vstd::seq_lib::lemma_multiset_commutative(seq![x], t.reverse());
        vstd::seq_lib::lemma_multiset_commutative(t.reverse(), seq![x]);
        assert(t.reverse() + seq![x] =~= t.reverse().push(x));
        assert(t.push(x) =~= s);
    }
}

/// The names of the task files among `entries`, without their `.json`
/// ending, newest name first (in descending order of the whole file name);
/// a listing longer than a task directory may hold is refused with its
/// maximum.
pub fn task_json_names(entries: &Vec<DirectoryEntry>) -> (r: Result<Vec<String>, usize>)
    ensures
        entries@.len() > MAX_TASK_DIRECTORY_ENTRIES <==> r == Err::<Vec<String>, usize>(
            MAX_TASK_DIRECTORY_ENTRIES,
        ),
        r matches Ok(names) ==> exists|full: Seq<Seq<char>>|
            {
                &&& descending(full)
                &&& full.to_multiset() == json_names(entries@).to_multiset()
                &&& #[trigger] texts(names@) == full.map_values(|n: Seq<char>| json_stem(n))
            },
{
    if entries.len() > MAX_TASK_DIRECTORY_ENTRIES {
        return Err(MAX_TASK_DIRECTORY_ENTRIES);
    }
    let sorted = sorted_json_names(entries);
    let ghost asc = texts(sorted@);
    let ghost full = asc.reverse();
    proof {
        broadcast use vstd::seq_lib::group_to_multiset_ensures;

        lemma_json_names_suffix(entries@);
        let names = json_names(entries@);
        assert forall|i: int| 0 <= i < asc.len() implies has_suffix(#[trigger] asc[i], ".json"@) by {
            assert(asc.contains(asc[i]));
            assert(asc.to_multiset().count(asc[i]) > 0);
            assert(names.to_multiset().count(asc[i]) > 0);
            assert(names.contains(asc[i]));
            let j = choose|j: int| 0 <= j < names.len() && names[j] == asc[i];
            assert(has_suffix(names[j], ".json"@));
        }
    }
    let n = sorted.len();
    let mut out: Vec<String> = Vec::new();
    let mut k: usize = 0;
    while k < n
        invariant
            n == sorted.len(),
            k <= n,
            asc == texts(sorted@),
            full == asc.reverse(),
            forall|i: int| 0 <= i < asc.len() ==> has_suffix(#[trigger] asc[i], ".json"@),
            texts(out@) == full.take(k as int).map_values(|x: Seq<char>| json_stem(x)),
        decreases n - k,
    {
        let name = &sorted[n - 1 - k];
        let cs = chars_of(name.as_str());
        proof {
            reveal_strlit(".json");
            assert(asc[n - 1 - k] == name@);
            assert(has_suffix(name@, ".json"@));
            assert(full[k as int] == asc[n - 1 - k]);
        }
        let stem = crate::text::chars_text(&cs, 0, cs.len() - 5);
        let ghost before = texts(out@);
        out.push(stem);
        proof {
            assert(cs@.subrange(0, cs@.len() - 5) =~= json_stem(name@));
            assert(texts(out@) =~= before.push(stem@));
            assert(full.take(k + 1) =~= full.take(k as int).push(full[k as int]));
            assert(full.take(k + 1).map_values(|x: Seq<char>| json_stem(x)) =~= full.take(
                k as int,
            ).map_values(|x: Seq<char>| json_stem(x)).push(json_stem(full[k as int])));
        }
        k = k + 1;
    }
    proof {
        assert(full.take(full.len() as int) =~= full);
        lemma_reverse_multiset(asc);
        assert forall|i: int, j: int| 0 <= i < j < full.len() implies !seq_lt(
            #[trigger] full[i],
            #[trigger] full[j],
        ) by {
            assert(full[i] == asc[asc.len() - 1 - i]);
            assert(full[j] == asc[asc.len() - 1 - j]);
        }
        assert(texts(out@) == full.map_values(|x: Seq<char>| json_stem(x)));
        assert(full.to_multiset() == json_names(entries@).to_multiset());
        assert(descending(full));
    }
    Ok(out)
}

} // verus!
