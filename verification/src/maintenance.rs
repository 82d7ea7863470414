//! Maintenance of project AGENT memory and improvement proposals: counts,
//! reports, stable item identifiers, body normalization and the decisions
//! taken for each pending item.

use crate::agent::{contains_path, task_result_check, ProjectAgentMemoryIndex, ProjectAgentTaskResult, ProjectAgentTaskStatus};
use crate::text::{
    char_is_whitespace, decimal, is_white_space, owned, push_char, push_decimal, push_str,
    spec_to_lowercase, str_to_lowercase,
};
use crate::types::{
    failure_text, ProjectAgentId, ProjectAgentValidationError, RelativeProjectAgentPath, ValidationFailure,
    PROJECT_AGENT_SCHEMA_VERSION,
};
use vstd::prelude::*;
use vstd::string::StringSliceAdditionalSpecFns;
use vstd::utf8::encode_utf8;

verus! {

broadcast use vstd::string::group_string_axioms;

pub const APPROX_BYTES_PER_TOKEN: usize = 4;

#[derive(Clone, Copy, Debug, Eq, PartialEq, Structural)]
pub enum ProjectAgentMaintenanceItemKind {
    MemoryCandidate,
    ImprovementProposal,
}

/// The wire name of an item kind.
pub open spec fn kind_name(kind: ProjectAgentMaintenanceItemKind) -> Seq<char> {
    match kind {
        ProjectAgentMaintenanceItemKind::MemoryCandidate => "memory_candidate"@,
        ProjectAgentMaintenanceItemKind::ImprovementProposal => "improvement_proposal"@,
    }
}

impl ProjectAgentMaintenanceItemKind {
    pub fn as_str(self) -> (r: &'static str)
        ensures
            r@ == kind_name(self),
    {
        match self {
            ProjectAgentMaintenanceItemKind::MemoryCandidate => "memory_candidate",
            ProjectAgentMaintenanceItemKind::ImprovementProposal => "improvement_proposal",
        }
    }
}

#[derive(Clone, Copy, Debug, Eq, PartialEq, Structural)]
pub enum ProjectAgentMaintenanceDisposition {
    Accepted,
    Rejected,
}

/// The wire name of a disposition.
pub open spec fn disposition_name(d: ProjectAgentMaintenanceDisposition) -> Seq<char> {
    match d {
        ProjectAgentMaintenanceDisposition::Accepted => "accepted"@,
        ProjectAgentMaintenanceDisposition::Rejected => "rejected"@,
    }
}

impl ProjectAgentMaintenanceDisposition {
    pub fn as_str(self) -> (r: &'static str)
        ensures
            r@ == disposition_name(self),
    {
        match self {
            ProjectAgentMaintenanceDisposition::Accepted => "accepted",
            ProjectAgentMaintenanceDisposition::Rejected => "rejected",
        }
    }
}

#[derive(Clone, Copy, Debug, Eq, PartialEq, Structural)]
pub enum ProjectAgentMaintenanceMode {
    Apply,
    DryRun,
}

impl ProjectAgentMaintenanceMode {
    pub fn is_dry_run(self) -> (r: bool)
        ensures
            r == (self == ProjectAgentMaintenanceMode::DryRun),
    {
        self == ProjectAgentMaintenanceMode::DryRun
    }
}

/// Which project AGENTs a maintenance pass covers.
#[derive(Clone, Debug, Eq, PartialEq)]
pub enum ProjectAgentMaintenanceTarget {
    All,
    Agent(ProjectAgentId),
}

#[derive(Clone, Debug, Eq, PartialEq)]
pub struct ProjectAgentMaintenanceOptions {
    pub actor: String,
    pub mode: ProjectAgentMaintenanceMode,
}

impl ProjectAgentMaintenanceOptions {
    /// Options for a pass that applies its decisions.
    pub fn apply(actor: &str) -> (r: Self)
        ensures
            r.actor@ == actor@,
            r.mode == ProjectAgentMaintenanceMode::Apply,
    {
        ProjectAgentMaintenanceOptions { actor: owned(actor), mode: ProjectAgentMaintenanceMode::Apply }
    }

    /// Options for a pass that only reports its decisions.
    pub fn dry_run(actor: &str) -> (r: Self)
        ensures
            r.actor@ == actor@,
            r.mode == ProjectAgentMaintenanceMode::DryRun,
    {
        ProjectAgentMaintenanceOptions { actor: owned(actor), mode: ProjectAgentMaintenanceMode::DryRun }
    }
}

#[derive(Clone, Copy, Debug, Eq, PartialEq, Structural)]
pub struct ProjectAgentPendingCounts {
    pub memory_candidates: u64,
    pub improvement_proposals: u64,
}

impl Default for ProjectAgentPendingCounts {
    fn default() -> (r: Self)
        ensures
            r.memory_candidates == 0,
            r.improvement_proposals == 0,
    {
        ProjectAgentPendingCounts { memory_candidates: 0, improvement_proposals: 0 }
    }
}

impl ProjectAgentPendingCounts {
    /// Both counts together, saturating at `u64::MAX`.
    pub fn total(self) -> (r: u64)
        ensures
            r == self.memory_candidates.saturating_add(self.improvement_proposals),
    {
        self.memory_candidates.saturating_add(self.improvement_proposals)
    }
}

#[derive(Clone, Debug, Eq, PartialEq)]
pub struct ProjectAgentMaintenanceAgentStatus {
    pub agent_id: ProjectAgentId,
    pub pending: ProjectAgentPendingCounts,
}

#[derive(Clone, Debug, Eq, PartialEq)]
pub struct ProjectAgentMaintenanceStatus {
    pub catalog_revision: u64,
    pub agents: Vec<ProjectAgentMaintenanceAgentStatus>,
}

/// The pending counts of `agents` summed per kind, each sum saturating.
pub open spec fn pending_sum(agents: Seq<ProjectAgentMaintenanceAgentStatus>) -> ProjectAgentPendingCounts
    decreases agents.len(),
{
    if agents.len() == 0 {
        ProjectAgentPendingCounts { memory_candidates: 0, improvement_proposals: 0 }
    } else {
        let before = pending_sum(agents.drop_last());
        let p = agents.last().pending;
        ProjectAgentPendingCounts {
            memory_candidates: before.memory_candidates.saturating_add(p.memory_candidates),
            improvement_proposals: before.improvement_proposals.saturating_add(
                p.improvement_proposals,
            ),
        }
    }
}

impl ProjectAgentMaintenanceStatus {
    /// The pending counts of all agents, per kind.
    pub fn pending(&self) -> (r: ProjectAgentPendingCounts)
        ensures
            r == pending_sum(self.agents@),
    {
        let mut total = ProjectAgentPendingCounts { memory_candidates: 0, improvement_proposals: 0 };
        let mut i: usize = 0;
        while i < self.agents.len()
            invariant
                i <= self.agents@.len(),
                total == pending_sum(self.agents@.take(i as int)),
            decreases self.agents.len() - i,
        {
            proof {
                assert(self.agents@.take(i + 1).drop_last() == self.agents@.take(i as int));
            }
            let p = self.agents[i].pending;
            total = ProjectAgentPendingCounts {
                memory_candidates: total.memory_candidates.saturating_add(p.memory_candidates),
                improvement_proposals: total.improvement_proposals.saturating_add(
                    p.improvement_proposals,
                ),
            };
            i = i + 1;
        }
        proof {
            assert(self.agents@.take(self.agents@.len() as int) == self.agents@);
        }
        total
    }
}

/// A maintenance status as the root thread announces it: an event id made
/// of the thread, the catalog revision and the pending total, and that
/// total.
pub fn maintenance_status_event(thread_id: &str, status: &ProjectAgentMaintenanceStatus) -> (r: (
    String,
    u64,
))
    ensures
        ({
            let p = pending_sum(status.agents@);
            let total = p.memory_candidates.saturating_add(p.improvement_proposals);
            &&& r.1 == total
            &&& r.0@ == "project-agent-maintenance-"@ + thread_id@ + "-"@ + decimal(
                status.catalog_revision as nat,
            ) + "-"@ + decimal(total as nat)
        }),
{
    let pending_count = status.pending().total();
    let mut id = owned("project-agent-maintenance-");
    push_str(&mut id, thread_id);
    push_str(&mut id, "-");
    push_decimal(&mut id, status.catalog_revision);
    push_str(&mut id, "-");
    push_decimal(&mut id, pending_count);
    (id, pending_count)
}

#[derive(Clone, Debug, Eq, PartialEq)]
pub struct ProjectAgentMaintenanceDecision {
    pub schema_version: u32,
    pub maintenance_id: String,
    pub item_id: String,
    pub kind: ProjectAgentMaintenanceItemKind,
    pub disposition: ProjectAgentMaintenanceDisposition,
    pub agent_id: ProjectAgentId,
    pub source_task_id: String,
    pub source_path: RelativeProjectAgentPath,
    pub body: String,
    pub evidence: Vec<String>,
    pub reason: String,
    pub actor: String,
    pub decided_at_ms: i64,
    pub decision_path: RelativeProjectAgentPath,
    pub accepted_path: Option<RelativeProjectAgentPath>,
}

#[derive(Clone, Debug, Eq, PartialEq)]
pub struct ProjectAgentMaintenanceReport {
    pub schema_version: u32,
    pub maintenance_id: String,
    pub agent_id: ProjectAgentId,
    pub actor: String,
    pub mode: ProjectAgentMaintenanceMode,
    pub started_at_ms: i64,
    pub completed_at_ms: i64,
    pub catalog_revision_before: u64,
    pub catalog_revision_after: u64,
    pub pending_before: ProjectAgentPendingCounts,
    pub pending_after: ProjectAgentPendingCounts,
    pub decisions: Vec<ProjectAgentMaintenanceDecision>,
}

/// The number of accepted decisions in `decisions`.
pub open spec fn accepted_in(decisions: Seq<ProjectAgentMaintenanceDecision>) -> nat
    decreases decisions.len(),
{
    if decisions.len() == 0 {
        0
    } else {
        accepted_in(decisions.drop_last()) + if decisions.last().disposition
            == ProjectAgentMaintenanceDisposition::Accepted {
            1nat
        } else {
            0nat
        }
    }
}

pub proof fn lemma_accepted_in_bounded(decisions: Seq<ProjectAgentMaintenanceDecision>)
    ensures
        accepted_in(decisions) <= decisions.len(),
    decreases decisions.len(),
{
    if decisions.len() > 0 {
        lemma_accepted_in_bounded(decisions.drop_last());
    }
}

impl ProjectAgentMaintenanceReport {
    /// The number of accepted decisions.
    pub fn accepted_count(&self) -> (r: usize)
        ensures
            r == accepted_in(self.decisions@),
    {
        let mut count: usize = 0;
        let mut i: usize = 0;
        while i < self.decisions.len()
            invariant
                i <= self.decisions@.len(),
                count == accepted_in(self.decisions@.take(i as int)),
                count <= i,
            decreases self.decisions.len() - i,
        {
            proof {
                assert(self.decisions@.take(i + 1).drop_last() == self.decisions@.take(i as int));
            }
            if self.decisions[i].disposition == ProjectAgentMaintenanceDisposition::Accepted {
                count = count + 1;
            }
            i = i + 1;
        }
        proof {
            assert(self.decisions@.take(self.decisions@.len() as int) == self.decisions@);
        }
        count
    }

    /// The number of rejected decisions: every decision not accepted.
    pub fn rejected_count(&self) -> (r: usize)
        ensures
            r == self.decisions@.len() - accepted_in(self.decisions@),
    {
        proof {
            lemma_accepted_in_bounded(self.decisions@);
        }
        self.decisions.len().saturating_sub(self.accepted_count())
    }
}

#[derive(Clone, Debug, Eq, PartialEq)]
pub struct ProjectAgentMaintenanceOutcome {
    pub mode: ProjectAgentMaintenanceMode,
    pub reports: Vec<ProjectAgentMaintenanceReport>,
    pub status: ProjectAgentMaintenanceStatus,
}

/// A memory candidate or improvement proposal awaiting maintenance.
#[derive(Clone, Debug, Eq, PartialEq)]
pub struct PendingProjectAgentItem {
    pub schema_version: u32,
    pub agent_id: ProjectAgentId,
    pub task_id: String,
    pub body: String,
}

impl PendingProjectAgentItem {
    pub fn new(agent_id: ProjectAgentId, task_id: String, body: String) -> (r: Self)
        ensures
            r.schema_version == PROJECT_AGENT_SCHEMA_VERSION,
            r.agent_id == agent_id,
            r.task_id == task_id,
            r.body == body,
    {
        PendingProjectAgentItem { schema_version: PROJECT_AGENT_SCHEMA_VERSION, agent_id, task_id, body }
    }
}

// ---------------------------------------------------------------------------
// Stable item identifiers
// ---------------------------------------------------------------------------

pub const FNV_OFFSET_BASIS: u64 = 0xcbf29ce484222325;

pub const FNV_PRIME: u64 = 0x100000001b3;

/// The 64-bit FNV-1a hash of `bytes`, continuing from `h`.
pub open spec fn fnv1a(h: u64, bytes: Seq<u8>) -> u64
    decreases bytes.len(),
{
    if bytes.len() == 0 {
        h
    } else {
        (fnv1a(h, bytes.drop_last()) ^ (bytes.last() as u64)).wrapping_mul(FNV_PRIME)
    }
}

/// The bytes an item identifier hashes: kind, `:`, source path.
pub open spec fn item_key_bytes(kind: ProjectAgentMaintenanceItemKind, source_path: Seq<char>) -> Seq<u8> {
    encode_utf8(kind_name(kind)) + seq![58u8] + encode_utf8(source_path)
}

/// The lowercase hexadecimal digit for `d < 16`.
pub open spec fn hex_digit(d: nat) -> char {
    if d < 10 {
        ((48 + d) as u32) as char
    } else {
        ((87 + d) as u32) as char
    }
}

/// `h` as exactly `width` lowercase hexadecimal digits (most significant first).
pub open spec fn hex_digits(h: nat, width: nat) -> Seq<char>
    decreases width,
{
    if width == 0 {
        Seq::empty()
    } else {
        hex_digits(h / 16, (width - 1) as nat).push(hex_digit(h % 16))
    }
}

/// The prefix of an item identifier for its kind.
pub open spec fn item_prefix(kind: ProjectAgentMaintenanceItemKind) -> Seq<char> {
    match kind {
        ProjectAgentMaintenanceItemKind::MemoryCandidate => "memory"@,
        ProjectAgentMaintenanceItemKind::ImprovementProposal => "proposal"@,
    }
}

/// The stable identifier of a pending item: its kind's prefix, `-`, and the
/// 16-digit FNV-1a hash of its kind and source path.
pub open spec fn stable_item_id_spec(kind: ProjectAgentMaintenanceItemKind, source_path: Seq<char>) -> Seq<char> {
    item_prefix(kind) + "-"@ + hex_digits(
        fnv1a(FNV_OFFSET_BASIS, item_key_bytes(kind, source_path)) as nat,
        16,
    )
}

fn fnv1a_extend(h: u64, bytes: &[u8]) -> (r: u64)
    ensures
        r == fnv1a(h, bytes@),
{
    let mut acc = h;
    let mut i: usize = 0;
    while i < bytes.len()
        invariant
            i <= bytes@.len(),
            acc == fnv1a(h, bytes@.take(i as int)),
        decreases bytes.len() - i,
    {
        proof {
            assert(bytes@.take(i + 1).drop_last() == bytes@.take(i as int));
        }
        acc = (acc ^ (bytes[i] as u64)).wrapping_mul(FNV_PRIME);
        i = i + 1;
    }
    proof {
        assert(bytes@.take(bytes@.len() as int) == bytes@);
    }
    acc
}

/// Hashing a concatenation continues from the hash of the first part.
pub proof fn lemma_fnv1a_concat(h: u64, a: Seq<u8>, b: Seq<u8>)
    ensures
        fnv1a(h, a + b) == fnv1a(fnv1a(h, a), b),
    decreases b.len(),
{
    if b.len() > 0 {
        assert((a + b).drop_last() == a + b.drop_last());
        lemma_fnv1a_concat(h, a, b.drop_last());
    } else {
        assert(a + b == a);
    }
}

fn hex_digit_of(d: u64) -> (c: char)
    requires
        d < 16,
    ensures
        c == hex_digit(d as nat),
{
    if d < 10 {
        ((48 + d) as u8) as char
    } else {
        ((87 + d) as u8) as char
    }
}

fn push_hex(out: &mut String, h: u64, width: u64)
    requires
        width <= 16,
    ensures
        final(out)@ == old(out)@ + hex_digits(h as nat, width as nat),
    decreases width,
{
    if width > 0 {
        push_hex(out, h / 16, width - 1);
        let c = hex_digit_of(h % 16);
        push_char(out, c);
        proof {
            assert(hex_digits(h as nat, width as nat) == hex_digits((h / 16) as nat, (width - 1) as nat).push(c));
        }
    } else {
        proof {
            assert(old(out)@ + Seq::<char>::empty() == old(out)@);
        }
    }
}

/// The stable identifier of the pending item at `source_path`.
pub fn stable_item_id(kind: ProjectAgentMaintenanceItemKind, source_path: &RelativeProjectAgentPath) -> (r:
    String)
    ensures
        r@ == stable_item_id_spec(kind, source_path@),
{
    let name = kind.as_str();
    let colon: [u8; 1] = [58u8];
    let h1 = fnv1a_extend(FNV_OFFSET_BASIS, name.as_bytes());
    let h2 = fnv1a_extend(h1, colon.as_slice());
    let h3 = fnv1a_extend(h2, source_path.as_str().as_bytes());
    proof {
        assert(colon@ == seq![58u8]);
        lemma_fnv1a_concat(FNV_OFFSET_BASIS, encode_utf8(kind_name(kind)), seq![58u8]);
        lemma_fnv1a_concat(
            FNV_OFFSET_BASIS,
            encode_utf8(kind_name(kind)) + seq![58u8],
            encode_utf8(source_path@),
        );
    }
    let mut id = match kind {
        ProjectAgentMaintenanceItemKind::MemoryCandidate => owned("memory"),
        ProjectAgentMaintenanceItemKind::ImprovementProposal => owned("proposal"),
    };
    push_str(&mut id, "-");
    push_hex(&mut id, h3, 16);
    id
}

// ---------------------------------------------------------------------------
// Body normalization
// ---------------------------------------------------------------------------

/// The words of `s` (maximal runs without whitespace) and whether
/// whitespace follows the last emitted word: the state after reading `s`.
pub open spec fn collapse_state(s: Seq<char>) -> (Seq<char>, bool)
    decreases s.len(),
{
    if s.len() == 0 {
        (Seq::empty(), false)
    } else {
        let (out, gap) = collapse_state(s.drop_last());
        let c = s.last();
        if is_white_space(c) {
            (out, out.len() > 0)
        } else if gap {
            (out.push(' ').push(c), false)
        } else {
            (out.push(c), false)
        }
    }
}

/// The words of `s` joined by single spaces (`split_whitespace` then `join(" ")`).
pub open spec fn collapse_whitespace(s: Seq<char>) -> Seq<char> {
    collapse_state(s).0
}

/// A body reduced to the form in which duplicates are compared.
pub open spec fn normalized_body(s: Seq<char>) -> Seq<char> {
    spec_to_lowercase(collapse_whitespace(s))
}

/// The words of `body` joined by single spaces, lowercased.
pub fn normalize_body(body: &str) -> (r: String)
    ensures
        r@ == normalized_body(body@),
{
    let mut out = String::new();
    let mut gap = false;
    for c in it: body.chars()
        invariant
            it.seq() == body@,
            (out@, gap) == collapse_state(body@.take(it.index() as int)),
    {
        proof {
            assert(body@.take(it.index() + 1).drop_last() == body@.take(it.index() as int));
        }
        if char_is_whitespace(c) {
            gap = !out.as_str().is_empty();
        } else {
            if gap {
                push_char(&mut out, ' ');
            }
            push_char(&mut out, c);
            gap = false;
        }
    }
    proof {
        assert(body@.take(body@.len() as int) == body@);
    }
    str_to_lowercase(out.as_str())
}

/// The rough token cost of a body: its UTF-8 bytes divided by four, rounded up.
pub open spec fn approx_tokens_spec(bytes: nat) -> nat {
    (bytes + 3) / 4
}

pub fn approx_tokens(body: &str) -> (r: usize)
    ensures
        r == approx_tokens_spec(encode_utf8(body@).len()),
{
    let n = body.as_bytes().len();
    n / APPROX_BYTES_PER_TOKEN + if n % APPROX_BYTES_PER_TOKEN != 0 {
        1
    } else {
        0
    }
}

// ---------------------------------------------------------------------------
// Decisions
// ---------------------------------------------------------------------------

/// Some text in `v` equals `t`.
pub open spec fn contains_text(v: Seq<String>, t: Seq<char>) -> bool {
    exists|i: int| 0 <= i < v.len() && #[trigger] v[i]@ == t
}

fn position_of_text(v: &Vec<String>, t: &str) -> (r: bool)
    ensures
        r == contains_text(v@, t@),
{
    let mut i: usize = 0;
    while i < v.len()
        invariant
            i <= v@.len(),
            forall|j: int| 0 <= j < i ==> v@[j]@ != t@,
        decreases v.len() - i,
    {
        if crate::text::same_text(v[i].as_str(), t) {
            return true;
        }
        i = i + 1;
    }
    false
}

/// The accepted memory of one project AGENT while a maintenance pass runs.
pub struct MemoryLedger {
    pub index: ProjectAgentMemoryIndex,
    /// The normalized bodies of the accepted memory items.
    pub normalized: Vec<String>,
    /// The approximate tokens the accepted memory occupies.
    pub used_tokens: usize,
}

/// What maintenance decides for one memory candidate.
pub enum MemoryVerdict {
    /// The candidate is rejected for `reason`.
    Rejected { reason: String },
    /// The candidate is accepted at `path`; `materialize` tells whether its
    /// fact file still has to be written.
    Accepted { path: RelativeProjectAgentPath, reason: String, materialize: bool },
    /// The fact path already holds a different body.
    Conflict,
}

pub open spec fn rejected_with(v: MemoryVerdict, reason: Seq<char>) -> bool {
    v matches MemoryVerdict::Rejected { reason: r } && r@ == reason
}

/// The texts of a list of paths.
pub open spec fn paths_view(s: Seq<RelativeProjectAgentPath>) -> Seq<Seq<char>> {
    s.map_values(|p: RelativeProjectAgentPath| p@)
}

/// The text of an optional path.
pub open spec fn opt_path_view(p: Option<RelativeProjectAgentPath>) -> Option<Seq<char>> {
    match p {
        Some(p) => Some(p@),
        None => None,
    }
}

/// `new` is `old` with `path` listed and `normalized` known (each at most once).
pub open spec fn ledger_records(old: MemoryLedger, new: MemoryLedger, path: Seq<char>, normalized: Seq<char>) -> bool {
    &&& new.index.schema_version == old.index.schema_version
    &&& paths_view(new.index.items@) == if contains_path(old.index.items@, path) {
        paths_view(old.index.items@)
    } else {
        paths_view(old.index.items@).push(path)
    }
    &&& new.normalized@.map_values(|s: String| s@) == if contains_text(old.normalized@, normalized) {
        old.normalized@.map_values(|s: String| s@)
    } else {
        old.normalized@.map_values(|s: String| s@).push(normalized)
    }
}

/// The contents of a ledger: index schema, listed paths, known normalized
/// bodies and tokens used.
pub struct LedgerModel {
    pub schema_version: u32,
    pub paths: Seq<Seq<char>>,
    pub normalized: Seq<Seq<char>>,
    pub used_tokens: usize,
}

pub open spec fn string_texts(v: Seq<String>) -> Seq<Seq<char>> {
    v.map_values(|s: String| s@)
}

pub open spec fn ledger_model(l: MemoryLedger) -> LedgerModel {
    LedgerModel {
        schema_version: l.index.schema_version,
        paths: paths_view(l.index.items@),
        normalized: string_texts(l.normalized@),
        used_tokens: l.used_tokens,
    }
}

/// A memory verdict's contents.
pub enum VerdictModel {
    Rejected(Seq<char>),
    Accepted { path: Seq<char>, reason: Seq<char>, materialize: bool },
    Conflict,
}

pub open spec fn verdict_model(v: MemoryVerdict) -> VerdictModel {
    match v {
        MemoryVerdict::Rejected { reason } => VerdictModel::Rejected(reason@),
        MemoryVerdict::Accepted { path, reason, materialize } => VerdictModel::Accepted {
            path: path@,
            reason: reason@,
            materialize,
        },
        MemoryVerdict::Conflict => VerdictModel::Conflict,
    }
}

/// `s` with `t` appended unless it already holds it.
pub open spec fn with_text(s: Seq<Seq<char>>, t: Seq<char>) -> Seq<Seq<char>> {
    if s.contains(t) {
        s
    } else {
        s.push(t)
    }
}

/// The verdict on one memory candidate, and the ledger after it: a source
/// rejection stands; a fact file holding the same body is recovered; one
/// holding another body conflicts; a body the ledger knows is a duplicate;
/// one that would pass the item or token limit is refused; otherwise the
/// candidate is accepted and recorded.
pub open spec fn memory_verdict(
    l: LedgerModel,
    source_reason: Option<Seq<char>>,
    body: Seq<char>,
    existing_fact: Option<Seq<char>>,
    fact_path: Seq<char>,
    max_items: u32,
    max_tokens: u32,
) -> (VerdictModel, LedgerModel) {
    let nb = normalized_body(body);
    let tokens = approx_tokens_spec(encode_utf8(body).len()) as usize;
    match source_reason {
        Some(reason) => (VerdictModel::Rejected(reason), l),
        None => match existing_fact {
            Some(existing) => if normalized_body(existing) == nb {
                (
                    VerdictModel::Accepted {
                        path: fact_path,
                        reason: "recovered an already materialized accepted-memory fact"@,
                        materialize: false,
                    },
                    LedgerModel {
                        paths: with_text(l.paths, fact_path),
                        normalized: with_text(l.normalized, nb),
                        ..l
                    },
                )
            } else {
                (VerdictModel::Conflict, l)
            },
            None => if l.normalized.contains(nb) {
                (VerdictModel::Rejected("duplicates accepted memory"@), l)
            } else if (l.paths.len() as usize).saturating_add(1) > max_items
                || l.used_tokens.saturating_add(tokens) > max_tokens {
                (VerdictModel::Rejected("accepted-memory capacity would be exceeded"@), l)
            } else {
                (
                    VerdictModel::Accepted {
                        path: fact_path,
                        reason: "validated completed source task, evidence, uniqueness, and capacity"@,
                        materialize: true,
                    },
                    LedgerModel {
                        paths: l.paths.push(fact_path),
                        normalized: l.normalized.push(nb),
                        used_tokens: l.used_tokens.saturating_add(tokens),
                        ..l
                    },
                )
            },
        },
    }
}

proof fn lemma_contains_text_model(v: Seq<String>, t: Seq<char>)
    ensures
        contains_text(v, t) <==> string_texts(v).contains(t),
{
    if contains_text(v, t) {
        let i = choose|i: int| 0 <= i < v.len() && #[trigger] v[i]@ == t;
        assert(string_texts(v)[i] == t);
    }
    if string_texts(v).contains(t) {
        let i = choose|i: int| 0 <= i < string_texts(v).len() && string_texts(v)[i] == t;
        assert(v[i]@ == t);
    }
}

proof fn lemma_contains_path_model(v: Seq<RelativeProjectAgentPath>, p: Seq<char>)
    ensures
        contains_path(v, p) <==> paths_view(v).contains(p),
{
    if contains_path(v, p) {
        let i = choose|i: int| 0 <= i < v.len() && #[trigger] v[i]@ == p;
        assert(paths_view(v)[i] == p);
    }
    if paths_view(v).contains(p) {
        let i = choose|i: int| 0 <= i < paths_view(v).len() && paths_view(v)[i] == p;
        assert(v[i]@ == p);
    }
}

/// Decides one memory candidate whose body is `body` and whose fact file
/// would be `fact_path` (currently holding `existing_fact`, if any).
pub fn decide_memory_candidate(
    ledger: &mut MemoryLedger,
    source_reason: Option<String>,
    body: &str,
    existing_fact: Option<&str>,
    fact_path: RelativeProjectAgentPath,
    max_items: u32,
    max_tokens: u32,
) -> (v: MemoryVerdict)
    ensures
        (verdict_model(v), ledger_model(*final(ledger))) == memory_verdict(
            ledger_model(*old(ledger)),
            opt_text(source_reason),
            body@,
            match existing_fact {
                Some(e) => Some(e@),
                None => None,
            },
            fact_path@,
            max_items,
            max_tokens,
        ),
        match source_reason {
            Some(reason) => v == (MemoryVerdict::Rejected { reason }) && *final(ledger) == *old(
                ledger,
            ),
            None => match existing_fact {
                Some(existing) => if normalized_body(existing@) == normalized_body(body@) {
                    &&& v matches MemoryVerdict::Accepted { path, reason, materialize }
                    &&& path == fact_path && !materialize
                    &&& reason@ == "recovered an already materialized accepted-memory fact"@
                    &&& ledger_records(*old(ledger), *final(ledger), fact_path@, normalized_body(body@))
                    &&& final(ledger).used_tokens == old(ledger).used_tokens
                } else {
                    v is Conflict && *final(ledger) == *old(ledger)
                },
                None => if contains_text(old(ledger).normalized@, normalized_body(body@)) {
                    rejected_with(v, "duplicates accepted memory"@) && *final(ledger) == *old(
                        ledger,
                    )
                } else if old(ledger).index.items.len().saturating_add(1) > max_items
                    || old(ledger).used_tokens.saturating_add(
                    approx_tokens_spec(encode_utf8(body@).len()) as usize,
                ) > max_tokens {
                    rejected_with(v, "accepted-memory capacity would be exceeded"@)
                        && *final(ledger) == *old(ledger)
                } else {
                    &&& v matches MemoryVerdict::Accepted { path, reason, materialize }
                    &&& path == fact_path && materialize
                    &&& reason@
                        == "validated completed source task, evidence, uniqueness, and capacity"@
                    &&& final(ledger).index.schema_version == old(ledger).index.schema_version
                    &&& paths_view(final(ledger).index.items@) == paths_view(old(ledger).index.items@).push(fact_path@)
                    &&& final(ledger).normalized@.map_values(|s: String| s@) == old(
                        ledger,
                    ).normalized@.map_values(|s: String| s@).push(normalized_body(body@))
                    &&& final(ledger).used_tokens == old(ledger).used_tokens.saturating_add(
                        approx_tokens_spec(encode_utf8(body@).len()) as usize,
                    )
                },
            },
        },
{
    proof {
        lemma_contains_text_model(ledger.normalized@, normalized_body(body@));
        lemma_contains_path_model(ledger.index.items@, fact_path@);
    }
    if let Some(reason) = source_reason {
        return MemoryVerdict::Rejected { reason };
    }
    let normalized = normalize_body(body);
    match existing_fact {
        Some(existing) => {
            let existing_normalized = normalize_body(existing);
            if existing_normalized == normalized {
                record_memory(ledger, &fact_path, normalized);
                return MemoryVerdict::Accepted {
                    path: fact_path,
                    reason: owned("recovered an already materialized accepted-memory fact"),
                    materialize: false,
                };
            }
            return MemoryVerdict::Conflict;
        },
        None => {},
    }
    if position_of_text(&ledger.normalized, normalized.as_str()) {
        return MemoryVerdict::Rejected { reason: owned("duplicates accepted memory") };
    }
    let tokens = approx_tokens(body);
    let next_items = ledger.index.items.len().saturating_add(1);
    let next_tokens = ledger.used_tokens.saturating_add(tokens);
    let over = next_items > max_items as usize || next_tokens > max_tokens as usize;
    proof {
        assert(tokens == approx_tokens_spec(encode_utf8(body@).len()) as usize);
    }
    if over {
        return MemoryVerdict::Rejected {
            reason: owned("accepted-memory capacity would be exceeded"),
        };
    }
    ledger.index.items.push(fact_path.duplicate());
    ledger.normalized.push(normalized);
    ledger.used_tokens = next_tokens;
    proof {
        assert(paths_view(ledger.index.items@) == paths_view(old(ledger).index.items@).push(fact_path@));
        assert(ledger.normalized@.map_values(|s: String| s@) == old(ledger).normalized@.map_values(
            |s: String| s@,
        ).push(normalized_body(body@)));
    }
    MemoryVerdict::Accepted {
        path: fact_path,
        reason: owned("validated completed source task, evidence, uniqueness, and capacity"),
        materialize: true,
    }
}

fn record_memory(ledger: &mut MemoryLedger, path: &RelativeProjectAgentPath, normalized: String)
    ensures
        ledger_records(*old(ledger), *final(ledger), path@, normalized@),
        final(ledger).used_tokens == old(ledger).used_tokens,
{
    let listed = contains_path_in(&ledger.index.items, path);
    if !listed {
        ledger.index.items.push(path.duplicate());
        proof {
            assert(paths_view(ledger.index.items@) == paths_view(old(ledger).index.items@).push(path@));
        }
    }
    if !position_of_text(&ledger.normalized, normalized.as_str()) {
        ledger.normalized.push(normalized);
        proof {
            assert(ledger.normalized@.map_values(|s: String| s@) == old(ledger).normalized@.map_values(
                |s: String| s@,
            ).push(normalized@));
        }
    }
}

fn contains_path_in(paths: &Vec<RelativeProjectAgentPath>, p: &RelativeProjectAgentPath) -> (r: bool)
    ensures
        r == contains_path(paths@, p@),
{
    let mut j: usize = 0;
    while j < paths.len()
        invariant
            j <= paths@.len(),
            forall|k: int| 0 <= k < j ==> paths@[k]@ != p@,
        decreases paths.len() - j,
    {
        if paths[j].same(p) {
            return true;
        }
        j = j + 1;
    }
    false
}

/// The decision on one improvement proposal, and the accepted bodies after
/// it: a source rejection stands; a body already accepted is a duplicate;
/// otherwise the proposal is accepted and its body recorded.
pub open spec fn proposal_verdict(accepted: Seq<Seq<char>>, source_reason: Option<Seq<char>>, body: Seq<char>) -> (
    ProjectAgentMaintenanceDisposition,
    Seq<char>,
    Seq<Seq<char>>,
) {
    match source_reason {
        Some(reason) => (ProjectAgentMaintenanceDisposition::Rejected, reason, accepted),
        None => if accepted.contains(normalized_body(body)) {
            (
                ProjectAgentMaintenanceDisposition::Rejected,
                "duplicates an accepted improvement proposal"@,
                accepted,
            )
        } else {
            (
                ProjectAgentMaintenanceDisposition::Accepted,
                "validated completed source task, evidence, and uniqueness"@,
                accepted.push(normalized_body(body)),
            )
        },
    }
}

/// Decides one improvement proposal whose body is `body`; `accepted` holds
/// the normalized bodies of the proposals accepted so far.
pub fn decide_improvement_proposal(
    accepted: &mut Vec<String>,
    source_reason: Option<String>,
    body: &str,
) -> (r: (ProjectAgentMaintenanceDisposition, String))
    ensures
        (r.0, r.1@, string_texts(final(accepted)@)) == proposal_verdict(
            string_texts(old(accepted)@),
            opt_text(source_reason),
            body@,
        ),
        match source_reason {
            Some(reason) => r.0 == ProjectAgentMaintenanceDisposition::Rejected && r.1 == reason
                && *final(accepted) == *old(accepted),
            None => if contains_text(old(accepted)@, normalized_body(body@)) {
                &&& r.0 == ProjectAgentMaintenanceDisposition::Rejected
                &&& r.1@ == "duplicates an accepted improvement proposal"@
                &&& *final(accepted) == *old(accepted)
            } else {
                &&& r.0 == ProjectAgentMaintenanceDisposition::Accepted
                &&& r.1@ == "validated completed source task, evidence, and uniqueness"@
                &&& final(accepted)@.map_values(|s: String| s@) == old(accepted)@.map_values(
                    |s: String| s@,
                ).push(normalized_body(body@))
            },
        },
{
    proof {
        lemma_contains_text_model(accepted@, normalized_body(body@));
    }
    if let Some(reason) = source_reason {
        return (ProjectAgentMaintenanceDisposition::Rejected, reason);
    }
    let normalized = normalize_body(body);
    if position_of_text(accepted, normalized.as_str()) {
        return (
            ProjectAgentMaintenanceDisposition::Rejected,
            owned("duplicates an accepted improvement proposal"),
        );
    }
    accepted.push(normalized);
    proof {
        assert(accepted@.map_values(|s: String| s@) == old(accepted)@.map_values(|s: String| s@).push(
            normalized_body(body@),
        ));
    }
    (
        ProjectAgentMaintenanceDisposition::Accepted,
        owned("validated completed source task, evidence, and uniqueness"),
    )
}

/// Where the decision about item `item_id` is recorded.
pub open spec fn decision_path_spec(
    kind: ProjectAgentMaintenanceItemKind,
    disposition: ProjectAgentMaintenanceDisposition,
    item_id: Seq<char>,
) -> Seq<char> {
    match kind {
        ProjectAgentMaintenanceItemKind::MemoryCandidate => "memory/decisions/"@ + item_id
            + ".json"@,
        ProjectAgentMaintenanceItemKind::ImprovementProposal => "proposals/"@ + disposition_name(
            disposition,
        ) + "/"@ + item_id + ".json"@,
    }
}

/// Records the decision taken about one pending item.
pub fn maintenance_decision(
    agent_id: &ProjectAgentId,
    actor: &str,
    maintenance_id: &str,
    item_id: String,
    source_path: RelativeProjectAgentPath,
    item: PendingProjectAgentItem,
    kind: ProjectAgentMaintenanceItemKind,
    disposition: ProjectAgentMaintenanceDisposition,
    evidence: Vec<String>,
    reason: String,
    accepted_path: Option<RelativeProjectAgentPath>,
    decided_at_ms: i64,
) -> (r: Result<ProjectAgentMaintenanceDecision, ProjectAgentValidationError>)
    ensures
        r is Ok <==> crate::types::valid_relative_path(
            decision_path_spec(kind, disposition, item_id@),
        ),
        r matches Err(e) ==> e@ == ValidationFailure::InvalidRelativePath(
            decision_path_spec(kind, disposition, item_id@),
        ),
        r matches Ok(d) ==> {
            &&& d.schema_version == PROJECT_AGENT_SCHEMA_VERSION
            &&& d.maintenance_id@ == maintenance_id@
            &&& d.item_id == item_id
            &&& d.kind == kind
            &&& d.disposition == disposition
            &&& d.agent_id@ == agent_id@
            &&& d.source_task_id == item.task_id
            &&& d.source_path == source_path
            &&& d.body == item.body
            &&& d.evidence == evidence
            &&& d.reason == reason
            &&& d.actor@ == actor@
            &&& d.decided_at_ms == decided_at_ms
            &&& d.decision_path@ == decision_path_spec(kind, disposition, item_id@)
            &&& opt_path_view(d.accepted_path) == match accepted_path {
                Some(p) => Some(p@),
                None => if kind == ProjectAgentMaintenanceItemKind::ImprovementProposal
                    && disposition == ProjectAgentMaintenanceDisposition::Accepted {
                    Some(d.decision_path@)
                } else {
                    None
                },
            }
        },
{
    let mut path_text = match kind {
        ProjectAgentMaintenanceItemKind::MemoryCandidate => owned("memory/decisions/"),
        ProjectAgentMaintenanceItemKind::ImprovementProposal => {
            let mut t = owned("proposals/");
            push_str(&mut t, disposition.as_str());
            push_str(&mut t, "/");
            t
        },
    };
    push_str(&mut path_text, item_id.as_str());
    push_str(&mut path_text, ".json");
    let decision_path = RelativeProjectAgentPath::new(path_text.as_str())?;
    let accepted_path = match accepted_path {
        Some(p) => Some(p),
        None => if kind == ProjectAgentMaintenanceItemKind::ImprovementProposal && disposition
            == ProjectAgentMaintenanceDisposition::Accepted {
            Some(decision_path.duplicate())
        } else {
            None
        },
    };
    Ok(ProjectAgentMaintenanceDecision {
        schema_version: PROJECT_AGENT_SCHEMA_VERSION,
        maintenance_id: owned(maintenance_id),
        item_id,
        kind,
        disposition,
        agent_id: agent_id.duplicate(),
        source_task_id: item.task_id,
        source_path,
        body: item.body,
        evidence,
        reason,
        actor: owned(actor),
        decided_at_ms,
        decision_path,
        accepted_path,
    })
}

/// What a source task's history says about a pending item: the evidence
/// to record and, when the item must be rejected, the reason.
pub open spec fn source_evidence_spec(
    task: ProjectAgentTaskResult,
    agent_id: Seq<char>,
    item: PendingProjectAgentItem,
    kind: ProjectAgentMaintenanceItemKind,
) -> (Seq<String>, Option<Seq<char>>) {
    match task_result_check(task, agent_id, item.task_id@) {
        Err(f) => (Seq::empty(), Some(failure_text(f))),
        Ok(()) => if task.status != ProjectAgentTaskStatus::Completed {
            (task.evidence@, Some("source task did not complete successfully"@))
        } else if task.evidence@.len() == 0 {
            (Seq::empty(), Some("source task contains no evidence"@))
        } else if !contains_text(
            match kind {
                ProjectAgentMaintenanceItemKind::MemoryCandidate => task.memory_candidates@,
                ProjectAgentMaintenanceItemKind::ImprovementProposal => task.improvement_proposals@,
            },
            item.body@,
        ) {
            (task.evidence@, Some("pending item is not attributable to its source task"@))
        } else {
            (task.evidence@, None)
        },
    }
}

/// Only a source task that completed can support a pending item: a task of
/// the right agent and id that ended in any other status rejects the item
/// because it did not complete, and an item that is not rejected comes from
/// a completed task with evidence that lists the item.
pub proof fn lemma_only_completed_sources_support(
    task: ProjectAgentTaskResult,
    agent_id: Seq<char>,
    item: PendingProjectAgentItem,
    kind: ProjectAgentMaintenanceItemKind,
)
    ensures
        source_evidence_spec(task, agent_id, item, kind).1 is None ==> {
            &&& task.status == ProjectAgentTaskStatus::Completed
            &&& task.evidence@.len() > 0
            &&& source_evidence_spec(task, agent_id, item, kind).0 == task.evidence@
        },
        task_result_check(task, agent_id, item.task_id@) is Ok && task.status
            != ProjectAgentTaskStatus::Completed ==> source_evidence_spec(task, agent_id, item, kind).1
            == Some("source task did not complete successfully"@),
{
}

/// The text of an optional string.
pub open spec fn opt_text(o: Option<String>) -> Option<Seq<char>> {
    match o {
        Some(s) => Some(s@),
        None => None,
    }
}

/// Judges a pending item against the history of the task it came from.
pub fn source_evidence_verdict(
    task: ProjectAgentTaskResult,
    agent_id: &ProjectAgentId,
    item: &PendingProjectAgentItem,
    kind: ProjectAgentMaintenanceItemKind,
) -> (r: (Vec<String>, Option<String>))
    ensures
        (r.0@, opt_text(r.1)) == source_evidence_spec(task, agent_id@, *item, kind),
{
    match task.validate_for(agent_id, item.task_id.as_str()) {
        Err(e) => return (Vec::new(), Some(e.message())),
        Ok(()) => {},
    }
    if task.status != ProjectAgentTaskStatus::Completed {
        return (task.evidence, Some(owned("source task did not complete successfully")));
    }
    if task.evidence.len() == 0 {
        return (Vec::new(), Some(owned("source task contains no evidence")));
    }
    let listed = match kind {
        ProjectAgentMaintenanceItemKind::MemoryCandidate => &task.memory_candidates,
        ProjectAgentMaintenanceItemKind::ImprovementProposal => &task.improvement_proposals,
    };
    if !position_of_text(listed, item.body.as_str()) {
        return (
            task.evidence,
            Some(owned("pending item is not attributable to its source task")),
        );
    }
    (task.evidence, None)
}

/// The pending counts a report records after the pass: unchanged by a dry
/// run, none left after an applied pass.
pub fn pending_after(mode: ProjectAgentMaintenanceMode, before: ProjectAgentPendingCounts) -> (r:
    ProjectAgentPendingCounts)
    ensures
        mode == ProjectAgentMaintenanceMode::DryRun ==> r == before,
        mode == ProjectAgentMaintenanceMode::Apply ==> r.memory_candidates == 0
            && r.improvement_proposals == 0,
{
    if mode.is_dry_run() {
        before
    } else {
        ProjectAgentPendingCounts { memory_candidates: 0, improvement_proposals: 0 }
    }
}

/// What a maintenance pass writes besides the new memory facts and the
/// decision records.
pub struct MaintenanceWrites {
    /// Whether `memory/index.toml` is written again.
    pub rewrite_index: bool,
    /// Whether the catalog revision moves on.
    pub advance_revision: bool,
}

/// Whether a decision accepts a memory candidate.
pub open spec fn accepts_memory(d: ProjectAgentMaintenanceDecision) -> bool {
    d.kind == ProjectAgentMaintenanceItemKind::MemoryCandidate && d.disposition
        == ProjectAgentMaintenanceDisposition::Accepted
}

/// Decides the writes of a pass in `mode` that materializes
/// `new_memory_count` facts and records `decisions`: a dry run writes
/// nothing; an applied pass rewrites the memory index when it adds facts or
/// accepts a memory candidate, and advances the catalog revision when it
/// decided anything.
pub fn maintenance_writes(
    mode: ProjectAgentMaintenanceMode,
    new_memory_count: usize,
    decisions: &Vec<ProjectAgentMaintenanceDecision>,
) -> (r: MaintenanceWrites)
    ensures
        mode == ProjectAgentMaintenanceMode::DryRun ==> !r.rewrite_index && !r.advance_revision,
        mode == ProjectAgentMaintenanceMode::Apply ==> r.rewrite_index == (new_memory_count > 0
            || exists|i: int| 0 <= i < decisions@.len() && #[trigger] accepts_memory(decisions@[i])),
        mode == ProjectAgentMaintenanceMode::Apply ==> r.advance_revision == (decisions@.len() > 0),
{
    if mode.is_dry_run() {
        return MaintenanceWrites { rewrite_index: false, advance_revision: false };
    }
    let mut accepted_memory = false;
    let mut i: usize = 0;
    while i < decisions.len()
        invariant
            i <= decisions@.len(),
            accepted_memory == exists|k: int| 0 <= k < i && #[trigger] accepts_memory(decisions@[k]),
        decreases decisions.len() - i,
    {
        let d = &decisions[i];
        if d.kind == ProjectAgentMaintenanceItemKind::MemoryCandidate && d.disposition
            == ProjectAgentMaintenanceDisposition::Accepted {
            accepted_memory = true;
        }
        proof {
            if accepts_memory(decisions@[i as int]) {
                assert(accepted_memory);
            }
        }
        i = i + 1;
    }
    MaintenanceWrites {
        rewrite_index: new_memory_count > 0 || accepted_memory,
        advance_revision: decisions.len() > 0,
    }
}

// ---------------------------------------------------------------------------
// Opening the ledger
// ---------------------------------------------------------------------------

/// The tokens of the bodies, added up and capped at the largest `usize`.
pub open spec fn ledger_tokens(bodies: Seq<Seq<char>>) -> nat
    decreases bodies.len(),
{
    if bodies.len() == 0 {
        0
    } else {
        let t = ledger_tokens(bodies.drop_last()) + approx_tokens_spec(
            encode_utf8(bodies.last()).len(),
        );
        if t > usize::MAX {
            usize::MAX as nat
        } else {
            t
        }
    }
}

/// The body read for the `i`-th indexed item, if one was read.
pub open spec fn body_at(bodies: Seq<Option<String>>, i: int) -> Option<Seq<char>> {
    if 0 <= i < bodies.len() {
        match bodies[i] {
            Some(b) => Some(b@),
            None => None,
        }
    } else {
        None
    }
}

/// The first indexed item without a body, if any.
pub open spec fn first_missing(bodies: Seq<Option<String>>, n: int, i: int) -> Option<int>
    decreases n - i,
{
    if i < 0 || i >= n {
        None
    } else if body_at(bodies, i) is None {
        Some(i)
    } else {
        first_missing(bodies, n, i + 1)
    }
}

/// The bodies of the first `n` indexed items, all present.
pub open spec fn read_bodies(bodies: Seq<Option<String>>, n: int) -> Seq<Seq<char>> {
    Seq::new(n as nat, |i: int| body_at(bodies, i)->Some_0)
}

impl MemoryLedger {
    /// The ledger of an agent whose memory index is `index` and whose
    /// indexed items read as `bodies` (by position): the first item without
    /// a body is an error; otherwise the ledger knows every normalized body
    /// and the tokens they occupy.
    pub fn open(index: ProjectAgentMemoryIndex, bodies: &Vec<Option<String>>) -> (r: Result<
        MemoryLedger,
        usize,
    >)
        ensures
            match first_missing(bodies@, index.items@.len() as int, 0) {
                Some(i) => r matches Err(j) && j == i,
                None => r matches Ok(l) && {
                    &&& l.index == index
                    &&& l.used_tokens == ledger_tokens(
                        read_bodies(bodies@, index.items@.len() as int),
                    )
                    &&& forall|t: Seq<char>|
                        contains_text(l.normalized@, t) <==> exists|i: int|
                            0 <= i < index.items@.len() && normalized_body(
                                #[trigger] body_at(bodies@, i)->Some_0,
                            ) == t
                },
            },
    {
        let n = index.items.len();
        let mut normalized: Vec<String> = Vec::new();
        let mut used: usize = 0;
        let mut i: usize = 0;
        while i < n
            invariant
                i <= n,
                n == index.items@.len(),
                first_missing(bodies@, n as int, 0) == first_missing(bodies@, n as int, i as int),
                used == ledger_tokens(read_bodies(bodies@, i as int)),
                forall|t: Seq<char>|
                    contains_text(normalized@, t) <==> exists|j: int|
                        0 <= j < i && normalized_body(#[trigger] body_at(bodies@, j)->Some_0) == t,
            decreases n - i,
        {
            let body: &str = if i < bodies.len() {
                match &bodies[i] {
                    Some(b) => b.as_str(),
                    None => {
                        return Err(i);
                    },
                }
            } else {
                return Err(i);
            };
            proof {
                assert(body_at(bodies@, i as int) == Some(body@));
                assert(read_bodies(bodies@, i + 1).drop_last() =~= read_bodies(bodies@, i as int));
                assert(read_bodies(bodies@, i + 1).last() == body@);
            }
            used = used.saturating_add(approx_tokens(body));
            let ghost before = normalized@;
            normalized.push(normalize_body(body));
            proof {
                assert forall|t: Seq<char>|
                    contains_text(normalized@, t) <==> exists|j: int|
                        0 <= j < i + 1 && normalized_body(#[trigger] body_at(bodies@, j)->Some_0)
                            == t by {
                    if contains_text(normalized@, t) {
                        let k = choose|k: int| 0 <= k < normalized@.len() && #[trigger] normalized@[k]@ == t;
                        if k < before.len() {
                            assert(before[k]@ == t);
                            assert(contains_text(before, t));
                        } else {
                            assert(normalized_body(body_at(bodies@, i as int)->Some_0) == t);
                        }
                    }
                    if exists|j: int|
                        0 <= j < i + 1 && normalized_body(#[trigger] body_at(bodies@, j)->Some_0)
                            == t {
                        let j = choose|j: int|
                            0 <= j < i + 1 && normalized_body(
                                #[trigger] body_at(bodies@, j)->Some_0,
                            ) == t;
                        if j < i {
                            assert(contains_text(before, t));
                            let k = choose|k: int| 0 <= k < before.len() && #[trigger] before[k]@ == t;
                            assert(normalized@[k]@ == t);
                        } else {
                            assert(normalized@[before.len() as int]@ == t);
                        }
                    }
                }
            }
            i = i + 1;
        }
        Ok(MemoryLedger { index, normalized, used_tokens: used })
    }
}

/// A decision as the accepted-proposal scan reads it.
#[derive(Clone, Debug, Eq, PartialEq)]
pub struct RecordedDecision {
    pub disposition: ProjectAgentMaintenanceDisposition,
    pub body: String,
}

/// The normalized bodies of the accepted proposals among `decisions`.
pub fn accepted_proposal_bodies(decisions: &Vec<RecordedDecision>) -> (r: Vec<String>)
    ensures
        forall|t: Seq<char>|
            contains_text(r@, t) <==> exists|i: int|
                0 <= i < decisions@.len() && decisions@[i].disposition
                    == ProjectAgentMaintenanceDisposition::Accepted && normalized_body(
                    #[trigger] decisions@[i].body@,
                ) == t,
{
    let mut out: Vec<String> = Vec::new();
    let mut i: usize = 0;
    while i < decisions.len()
        invariant
            i <= decisions.len(),
            forall|t: Seq<char>|
                contains_text(out@, t) <==> exists|j: int|
                    0 <= j < i && decisions@[j].disposition
                        == ProjectAgentMaintenanceDisposition::Accepted && normalized_body(
                        #[trigger] decisions@[j].body@,
                    ) == t,
        decreases decisions.len() - i,
    {
        let ghost before = out@;
        if decisions[i].disposition == ProjectAgentMaintenanceDisposition::Accepted {
            out.push(normalize_body(decisions[i].body.as_str()));
        }
        proof {
            assert forall|t: Seq<char>|
                contains_text(out@, t) <==> exists|j: int|
                    0 <= j < i + 1 && decisions@[j].disposition
                        == ProjectAgentMaintenanceDisposition::Accepted && normalized_body(
                        #[trigger] decisions@[j].body@,
                    ) == t by {
                if contains_text(out@, t) {
                    let k = choose|k: int| 0 <= k < out@.len() && #[trigger] out@[k]@ == t;
                    if k < before.len() {
                        assert(before[k]@ == t);
                        assert(contains_text(before, t));
                    }
                }
                if exists|j: int|
                    0 <= j < i + 1 && decisions@[j].disposition
                        == ProjectAgentMaintenanceDisposition::Accepted && normalized_body(
                        #[trigger] decisions@[j].body@,
                    ) == t {
                    let j = choose|j: int|
                        0 <= j < i + 1 && decisions@[j].disposition
                            == ProjectAgentMaintenanceDisposition::Accepted && normalized_body(
                            #[trigger] decisions@[j].body@,
                        ) == t;
                    if j < i {
                        assert(contains_text(before, t));
                        let k = choose|k: int| 0 <= k < before.len() && #[trigger] before[k]@ == t;
                        assert(out@[k]@ == t);
                    } else {
                        assert(out@[before.len() as int]@ == t);
                    }
                }
            }
        }
        i = i + 1;
    }
    out
}

} // verus!
