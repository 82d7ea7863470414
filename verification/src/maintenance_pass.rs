//! One maintenance pass over a project AGENT's pending items, once the
//! caller has read them: every memory candidate and then every improvement
//! proposal is judged against its source task's history, the accepted
//! memory and the accepted proposals, and the pass's report comes out with
//! what an applied pass must write.

use crate::agent::{task_result_check, ProjectAgentMemoryIndex, ProjectAgentTaskResult, ProjectAgentTaskStatus};
use crate::maintenance::{
    decide_improvement_proposal, decide_memory_candidate, maintenance_decision, maintenance_writes,
    lemma_only_completed_sources_support, opt_path_view, opt_text, pending_after, source_evidence_spec, source_evidence_verdict,
    decision_path_spec, ledger_model, memory_verdict, paths_view, proposal_verdict, string_texts, LedgerModel,
    VerdictModel, MemoryLedger, MemoryVerdict, PendingProjectAgentItem, ProjectAgentMaintenanceDecision,
    ProjectAgentMaintenanceDisposition, ProjectAgentMaintenanceItemKind,
    ProjectAgentMaintenanceMode, ProjectAgentMaintenanceReport, ProjectAgentPendingCounts,
};
use crate::text::{byte_len, decimal, owned, push_decimal, push_str, str_trim, trim, utf8_len};
use crate::types::{
    failure_text, valid_relative_path, ProjectAgentId, ProjectAgentValidationError,
    RelativeProjectAgentPath, ValidationFailure, PROJECT_AGENT_SCHEMA_VERSION,
};
use vstd::prelude::*;

verus! {

broadcast use vstd::string::group_string_axioms;

/// What reading a pending item's source task history gave.
pub enum SourceHistory {
    /// There is no history file.
    Missing,
    /// The history file is not a task result; `error` says why.
    Unreadable { error: String },
    Read(ProjectAgentTaskResult),
}

/// A pending item as its file was read.
pub struct PendingEntry {
    pub item_id: String,
    pub source_path: RelativeProjectAgentPath,
    pub item: PendingProjectAgentItem,
}

/// A pending memory candidate with its source history and whatever its
/// fact file already holds.
pub struct MemoryEntry {
    pub pending: PendingEntry,
    pub history: SourceHistory,
    pub existing_fact: Option<String>,
}

/// A pending improvement proposal with its source history.
pub struct ProposalEntry {
    pub pending: PendingEntry,
    pub history: SourceHistory,
}

/// Who runs a pass on which agent, how, and when.
pub struct MaintenanceRun {
    pub agent_id: ProjectAgentId,
    pub actor: String,
    pub maintenance_id: String,
    pub mode: ProjectAgentMaintenanceMode,
    pub started_at_ms: i64,
    pub completed_at_ms: i64,
    pub catalog_revision_before: u64,
    pub memory_max_items: u32,
    pub memory_max_tokens: u32,
}

/// What a pass decided, and what an applied pass writes.
pub struct MaintenancePass {
    pub report: ProjectAgentMaintenanceReport,
    /// The memory facts to write: path and body.
    pub new_memory: Vec<(RelativeProjectAgentPath, String)>,
    /// The memory index after the pass.
    pub memory_index: ProjectAgentMemoryIndex,
    /// Whether the memory index is written again.
    pub rewrite_index: bool,
    /// Whether the decisions are recorded.
    pub write_decisions: bool,
}

/// Why a pass stops.
pub enum MaintenancePassError {
    /// A path built from an item's identifier is not a valid path.
    InvalidPath(ProjectAgentValidationError),
    /// The fact file of an accepted memory already holds another body.
    AcceptedPathConflict(RelativeProjectAgentPath),
}

/// Where a task's history is kept.
pub open spec fn history_path_text(task_id: Seq<char>) -> Seq<char> {
    "tasks/history/"@ + task_id + ".json"@
}

/// The evidence and, for a rejection, the reason that a source history
/// gives a pending item: a history whose path is invalid, missing or
/// unreadable rejects the item; a read one is judged as the task result
/// says.
pub open spec fn history_verdict_spec(
    history: SourceHistory,
    agent_id: Seq<char>,
    item: PendingProjectAgentItem,
    kind: ProjectAgentMaintenanceItemKind,
) -> (Seq<String>, Option<Seq<char>>) {
    if !valid_relative_path(history_path_text(item.task_id@)) {
        (
            Seq::empty(),
            Some(failure_text(ValidationFailure::InvalidRelativePath(history_path_text(item.task_id@)))),
        )
    } else {
        match history {
            SourceHistory::Missing => (Seq::empty(), Some("source task history is missing"@)),
            SourceHistory::Unreadable { error } => (
                Seq::empty(),
                Some("source task history is invalid: "@ + error@),
            ),
            SourceHistory::Read(task) => source_evidence_spec(task, agent_id, item, kind),
        }
    }
}

/// The history path of a task, for the caller to read.
pub fn history_path(task_id: &str) -> (r: Result<RelativeProjectAgentPath, ProjectAgentValidationError>)
    ensures
        r is Ok <==> valid_relative_path(history_path_text(task_id@)),
        r matches Ok(p) ==> p@ == history_path_text(task_id@),
        r matches Err(e) ==> e@ == ValidationFailure::InvalidRelativePath(history_path_text(task_id@)),
{
    let mut t = owned("tasks/history/");
    push_str(&mut t, task_id);
    push_str(&mut t, ".json");
    RelativeProjectAgentPath::new(t.as_str())
}

/// Judges a pending item against its source history.
pub fn history_verdict(
    history: SourceHistory,
    agent_id: &ProjectAgentId,
    item: &PendingProjectAgentItem,
    kind: ProjectAgentMaintenanceItemKind,
) -> (r: (Vec<String>, Option<String>))
    ensures
        (r.0@, opt_text(r.1)) == history_verdict_spec(history, agent_id@, *item, kind),
{
    match history_path(item.task_id.as_str()) {
        Err(e) => return (Vec::new(), Some(e.message())),
        Ok(_) => {},
    }
    match history {
        SourceHistory::Missing => (Vec::new(), Some(owned("source task history is missing"))),
        SourceHistory::Unreadable { error } => {
            let mut reason = owned("source task history is invalid: ");
            push_str(&mut reason, error.as_str());
            (Vec::new(), Some(reason))
        },
        SourceHistory::Read(task) => source_evidence_verdict(task, agent_id, item, kind),
    }
}

/// A history that gives no rejection gives evidence.
proof fn lemma_unrejected_has_evidence(
    history: SourceHistory,
    agent_id: Seq<char>,
    item: PendingProjectAgentItem,
    kind: ProjectAgentMaintenanceItemKind,
)
    ensures
        history_verdict_spec(history, agent_id, item, kind).1 is None ==> history_verdict_spec(
            history,
            agent_id,
            item,
            kind,
        ).0.len() > 0,
{
}

/// A decision holds an accepted path exactly when it accepts, and an
/// accepting decision carries evidence.
pub open spec fn decision_consistent(d: ProjectAgentMaintenanceDecision) -> bool {
    &&& (d.accepted_path is Some <==> d.disposition == ProjectAgentMaintenanceDisposition::Accepted)
    &&& d.disposition == ProjectAgentMaintenanceDisposition::Accepted ==> d.evidence@.len() > 0
}

/// `d` records the decision about `pending` of kind `kind`, judged on
/// `history`, in the pass `run`.
pub open spec fn decision_about(
    d: ProjectAgentMaintenanceDecision,
    pending: PendingEntry,
    history: SourceHistory,
    kind: ProjectAgentMaintenanceItemKind,
    run: MaintenanceRun,
) -> bool {
    let verdict = history_verdict_spec(history, run.agent_id@, pending.item, kind);
    &&& d.kind == kind
    &&& d.item_id == pending.item_id
    &&& d.source_path == pending.source_path
    &&& d.source_task_id == pending.item.task_id
    &&& d.body == pending.item.body
    &&& d.agent_id@ == run.agent_id@
    &&& d.actor@ == run.actor@
    &&& d.maintenance_id@ == run.maintenance_id@
    &&& d.decided_at_ms == run.started_at_ms
    &&& d.evidence@ == verdict.0
    &&& (verdict.1 matches Some(reason) ==> d.disposition
        == ProjectAgentMaintenanceDisposition::Rejected && d.reason@ == reason)
    &&& decision_consistent(d)
}

/// A pass accepts an item only on the history of a source task that was
/// read and completed; a read task of the item's agent and id that did not
/// complete gets the item rejected because it did not complete.
pub proof fn lemma_acceptance_needs_completed_source(
    d: ProjectAgentMaintenanceDecision,
    pending: PendingEntry,
    history: SourceHistory,
    kind: ProjectAgentMaintenanceItemKind,
    run: MaintenanceRun,
)
    requires
        decision_about(d, pending, history, kind, run),
    ensures
        d.disposition == ProjectAgentMaintenanceDisposition::Accepted ==> (history matches SourceHistory::Read(
            t,
        ) && t.status == ProjectAgentTaskStatus::Completed),
        (history matches SourceHistory::Read(t) && t.status != ProjectAgentTaskStatus::Completed
            && task_result_check(t, run.agent_id@, pending.item.task_id@) is Ok && valid_relative_path(
            history_path_text(pending.item.task_id@),
        )) ==> (d.disposition == ProjectAgentMaintenanceDisposition::Rejected && d.reason@
            == "source task did not complete successfully"@),
{
    if let SourceHistory::Read(t) = history {
        lemma_only_completed_sources_support(t, run.agent_id@, pending.item, kind);
    }
}

/// Whether some decision accepts a memory candidate.
pub open spec fn accepts_some_memory(ds: Seq<ProjectAgentMaintenanceDecision>) -> bool {
    exists|i: int|
        0 <= i < ds.len() && (#[trigger] ds[i]).kind == ProjectAgentMaintenanceItemKind::MemoryCandidate
            && ds[i].disposition == ProjectAgentMaintenanceDisposition::Accepted
}

/// The parts of a decision that the pass decides: disposition, reason and
/// accepted path.
pub struct DecisionModel {
    pub disposition: ProjectAgentMaintenanceDisposition,
    pub reason: Seq<char>,
    pub accepted_path: Option<Seq<char>>,
}

pub open spec fn decision_model(d: ProjectAgentMaintenanceDecision) -> DecisionModel {
    DecisionModel {
        disposition: d.disposition,
        reason: d.reason@,
        accepted_path: opt_path_view(d.accepted_path),
    }
}

/// Why a pass stops, as content.
pub enum PassFailure {
    InvalidPath(ValidationFailure),
    Conflict(Seq<char>),
}

pub open spec fn pass_failure(e: MaintenancePassError) -> PassFailure {
    match e {
        MaintenancePassError::InvalidPath(e) => PassFailure::InvalidPath(e@),
        MaintenancePassError::AcceptedPathConflict(p) => PassFailure::Conflict(p@),
    }
}

/// Where an accepted memory's fact is written.
pub open spec fn fact_path_text(item_id: Seq<char>) -> Seq<char> {
    "memory/facts/"@ + item_id + ".md"@
}

/// The facts to write, as path and body.
pub open spec fn memory_views(v: Seq<(RelativeProjectAgentPath, String)>) -> Seq<(Seq<char>, Seq<char>)> {
    v.map_values(|e: (RelativeProjectAgentPath, String)| (e.0@, e.1@))
}

/// The course of the pass over the memory candidates so far: the decisions
/// taken, the facts to write, the ledger, and the failure that stopped it.
pub struct MemoryFold {
    pub decisions: Seq<DecisionModel>,
    pub new_memory: Seq<(Seq<char>, Seq<char>)>,
    pub ledger: LedgerModel,
    pub failure: Option<PassFailure>,
}

/// One memory candidate on top of `f`: its fact path must be valid; its
/// verdict comes from `memory_verdict` on the ledger so far; a conflict
/// stops the pass; its decision path must be valid.
#[verifier::opaque]
pub open spec fn memory_step_spec(f: MemoryFold, e: MemoryEntry, run: MaintenanceRun) -> MemoryFold {
    let id = e.pending.item_id@;
    let fact = fact_path_text(id);
    let reason = history_verdict_spec(
        e.history,
        run.agent_id@,
        e.pending.item,
        ProjectAgentMaintenanceItemKind::MemoryCandidate,
    ).1;
    if !valid_relative_path(fact) {
        MemoryFold {
            failure: Some(PassFailure::InvalidPath(ValidationFailure::InvalidRelativePath(fact))),
            ..f
        }
    } else {
        let (v, l) = memory_verdict(
            f.ledger,
            reason,
            e.pending.item.body@,
            match e.existing_fact {
                Some(x) => Some(x@),
                None => None,
            },
            fact,
            run.memory_max_items,
            run.memory_max_tokens,
        );
        match v {
            VerdictModel::Conflict => MemoryFold {
                failure: Some(PassFailure::Conflict(fact)),
                ..f
            },
            _ => {
                let d = match v {
                    VerdictModel::Accepted { path, reason, .. } => DecisionModel {
                        disposition: ProjectAgentMaintenanceDisposition::Accepted,
                        reason,
                        accepted_path: Some(path),
                    },
                    VerdictModel::Rejected(reason) => DecisionModel {
                        disposition: ProjectAgentMaintenanceDisposition::Rejected,
                        reason,
                        accepted_path: None,
                    },
                    VerdictModel::Conflict => DecisionModel {
                        disposition: ProjectAgentMaintenanceDisposition::Rejected,
                        reason: Seq::empty(),
                        accepted_path: None,
                    },
                };
                let path = decision_path_spec(
                    ProjectAgentMaintenanceItemKind::MemoryCandidate,
                    d.disposition,
                    id,
                );
                if !valid_relative_path(path) {
                    MemoryFold {
                        failure: Some(
                            PassFailure::InvalidPath(ValidationFailure::InvalidRelativePath(path)),
                        ),
                        ..f
                    }
                } else {
                    MemoryFold {
                        decisions: f.decisions.push(d),
                        new_memory: match v {
                            VerdictModel::Accepted { path, materialize: true, .. } => f.new_memory.push(
                                (path, e.pending.item.body@),
                            ),
                            _ => f.new_memory,
                        },
                        ledger: l,
                        failure: None,
                    }
                }
            },
        }
    }
}

/// The pass over `entries`, in order, from the ledger `l`; it stops at the
/// first failure.
pub open spec fn memory_fold(l: LedgerModel, entries: Seq<MemoryEntry>, run: MaintenanceRun) -> MemoryFold
    decreases entries.len(),
{
    if entries.len() == 0 {
        MemoryFold { decisions: Seq::empty(), new_memory: Seq::empty(), ledger: l, failure: None }
    } else {
        let f = memory_fold(l, entries.drop_last(), run);
        if f.failure is Some {
            f
        } else {
            memory_step_spec(f, entries.last(), run)
        }
    }
}

/// The course of the pass over the improvement proposals so far.
pub struct ProposalFold {
    pub decisions: Seq<DecisionModel>,
    pub accepted: Seq<Seq<char>>,
    pub failure: Option<PassFailure>,
}

/// One proposal on top of `f`: its verdict comes from `proposal_verdict` on
/// the accepted bodies so far; its decision path must be valid.
#[verifier::opaque]
pub open spec fn proposal_step_spec(f: ProposalFold, e: ProposalEntry, run: MaintenanceRun) -> ProposalFold {
    let reason = history_verdict_spec(
        e.history,
        run.agent_id@,
        e.pending.item,
        ProjectAgentMaintenanceItemKind::ImprovementProposal,
    ).1;
    let (disposition, why, accepted) = proposal_verdict(f.accepted, reason, e.pending.item.body@);
    let path = decision_path_spec(
        ProjectAgentMaintenanceItemKind::ImprovementProposal,
        disposition,
        e.pending.item_id@,
    );
    if !valid_relative_path(path) {
        ProposalFold {
            failure: Some(PassFailure::InvalidPath(ValidationFailure::InvalidRelativePath(path))),
            ..f
        }
    } else {
        ProposalFold {
            decisions: f.decisions.push(
                DecisionModel {
                    disposition,
                    reason: why,
                    accepted_path: if disposition == ProjectAgentMaintenanceDisposition::Accepted {
                        Some(path)
                    } else {
                        None
                    },
                },
            ),
            accepted,
            failure: None,
        }
    }
}

pub open spec fn proposal_fold(accepted: Seq<Seq<char>>, entries: Seq<ProposalEntry>, run: MaintenanceRun) -> ProposalFold
    decreases entries.len(),
{
    if entries.len() == 0 {
        ProposalFold { decisions: Seq::empty(), accepted, failure: None }
    } else {
        let f = proposal_fold(accepted, entries.drop_last(), run);
        if f.failure is Some {
            f
        } else {
            proposal_step_spec(f, entries.last(), run)
        }
    }
}

/// Once the memory pass has failed, it stays failed with that failure.
proof fn lemma_memory_failure_stays(l: LedgerModel, entries: Seq<MemoryEntry>, run: MaintenanceRun, i: int)
    requires
        0 <= i <= entries.len(),
        memory_fold(l, entries.take(i), run).failure is Some,
    ensures
        memory_fold(l, entries, run).failure == memory_fold(l, entries.take(i), run).failure,
    decreases entries.len() - i,
{
    if i < entries.len() {
        assert(entries.take(i + 1).drop_last() == entries.take(i));
        lemma_memory_failure_stays(l, entries, run, i + 1);
    } else {
        assert(entries.take(i) == entries);
    }
}

/// Once the proposal pass has failed, it stays failed with that failure.
proof fn lemma_proposal_failure_stays(a: Seq<Seq<char>>, entries: Seq<ProposalEntry>, run: MaintenanceRun, i: int)
    requires
        0 <= i <= entries.len(),
        proposal_fold(a, entries.take(i), run).failure is Some,
    ensures
        proposal_fold(a, entries, run).failure == proposal_fold(a, entries.take(i), run).failure,
    decreases entries.len() - i,
{
    if i < entries.len() {
        assert(entries.take(i + 1).drop_last() == entries.take(i));
        lemma_proposal_failure_stays(a, entries, run, i + 1);
    } else {
        assert(entries.take(i) == entries);
    }
}

/// A step's failure, facts and ledger do not depend on the decisions taken
/// before it, which it only extends.
proof fn lemma_memory_step_frame(f: MemoryFold, e: MemoryEntry, run: MaintenanceRun)
    ensures
        ({
            let g = memory_step_spec(f, e, run);
            let h = memory_step_spec(MemoryFold { decisions: Seq::empty(), ..f }, e, run);
            &&& g.failure == h.failure
            &&& g.new_memory == h.new_memory
            &&& h.failure is None ==> g.ledger == h.ledger && g.decisions == f.decisions + h.decisions
        }),
{
    reveal(memory_step_spec);
    let g = memory_step_spec(f, e, run);
    let h = memory_step_spec(MemoryFold { decisions: Seq::empty(), ..f }, e, run);
    if h.failure is None {
        assert(g.decisions =~= f.decisions + h.decisions);
    }
}

/// Likewise for a proposal step.
proof fn lemma_proposal_step_frame(f: ProposalFold, e: ProposalEntry, run: MaintenanceRun)
    ensures
        ({
            let g = proposal_step_spec(f, e, run);
            let h = proposal_step_spec(ProposalFold { decisions: Seq::empty(), ..f }, e, run);
            &&& g.failure == h.failure
            &&& h.failure is None ==> g.accepted == h.accepted && g.decisions == f.decisions + h.decisions
        }),
{
    reveal(proposal_step_spec);
    let g = proposal_step_spec(f, e, run);
    let h = proposal_step_spec(ProposalFold { decisions: Seq::empty(), ..f }, e, run);
    if h.failure is None {
        assert(g.decisions =~= f.decisions + h.decisions);
    }
}

fn memory_step(
    run: &MaintenanceRun,
    ledger: &mut MemoryLedger,
    entry: MemoryEntry,
    new_memory: &mut Vec<(RelativeProjectAgentPath, String)>,
) -> (r: Result<ProjectAgentMaintenanceDecision, MaintenancePassError>)
    ensures
        ({
            let f = MemoryFold {
                decisions: Seq::empty(),
                new_memory: memory_views(old(new_memory)@),
                ledger: ledger_model(*old(ledger)),
                failure: None,
            };
            let g = memory_step_spec(f, entry, *run);
            &&& (r is Err <==> g.failure is Some)
            &&& (r matches Err(e) ==> g.failure == Some(pass_failure(e)))
            &&& (r matches Ok(d) ==> {
                &&& decision_about(
                    d,
                    entry.pending,
                    entry.history,
                    ProjectAgentMaintenanceItemKind::MemoryCandidate,
                    *run,
                )
                &&& g.decisions == seq![decision_model(d)]
                &&& g.new_memory == memory_views(final(new_memory)@)
                &&& g.ledger == ledger_model(*final(ledger))
            })
        }),
{
    proof {
        reveal(memory_step_spec);
    }
    let ghost pending = entry.pending;
    let ghost history = entry.history;
    let ghost entry_model = entry;
    let ghost nm0 = memory_views(new_memory@);
    let MemoryEntry { pending: p, history: h, existing_fact } = entry;
    let PendingEntry { item_id, source_path, item } = p;
    let kind = ProjectAgentMaintenanceItemKind::MemoryCandidate;
    let (evidence, reason) = history_verdict(h, &run.agent_id, &item, kind);
    proof {
        lemma_unrejected_has_evidence(history, run.agent_id@, item, kind);
    }
    let mut fact_text = owned("memory/facts/");
    push_str(&mut fact_text, item_id.as_str());
    push_str(&mut fact_text, ".md");
    let fact_path = match RelativeProjectAgentPath::new(fact_text.as_str()) {
        Ok(path) => path,
        Err(e) => return Err(MaintenancePassError::InvalidPath(e)),
    };
    let conflict_path = fact_path.duplicate();
    let existing = match &existing_fact {
        Some(body) => Some(body.as_str()),
        None => None,
    };
    let verdict = decide_memory_candidate(
        ledger,
        reason,
        item.body.as_str(),
        existing,
        fact_path,
        run.memory_max_items,
        run.memory_max_tokens,
    );
    let (disposition, reason_text, accepted_path) = match verdict {
        MemoryVerdict::Rejected { reason } => (
            ProjectAgentMaintenanceDisposition::Rejected,
            reason,
            None,
        ),
        MemoryVerdict::Accepted { path, reason, materialize } => {
            if materialize {
                let ghost before = new_memory@;
                new_memory.push((path.duplicate(), item.body.clone()));
                proof {
                    assert(memory_views(new_memory@) =~= memory_views(before).push(
                        (path@, item.body@),
                    ));
                }
            }
            (ProjectAgentMaintenanceDisposition::Accepted, reason, Some(path))
        },
        MemoryVerdict::Conflict => {
            return Err(MaintenancePassError::AcceptedPathConflict(conflict_path));
        },
    };
    match maintenance_decision(
        &run.agent_id,
        run.actor.as_str(),
        run.maintenance_id.as_str(),
        item_id,
        source_path,
        item,
        kind,
        disposition,
        evidence,
        reason_text,
        accepted_path,
        run.started_at_ms,
    ) {
        Ok(d) => Ok(d),
        Err(e) => Err(MaintenancePassError::InvalidPath(e)),
    }
}

fn proposal_step(run: &MaintenanceRun, accepted: &mut Vec<String>, entry: ProposalEntry) -> (r:
    Result<ProjectAgentMaintenanceDecision, MaintenancePassError>)
    ensures
        ({
            let f = ProposalFold {
                decisions: Seq::empty(),
                accepted: string_texts(old(accepted)@),
                failure: None,
            };
            let g = proposal_step_spec(f, entry, *run);
            &&& (r is Err <==> g.failure is Some)
            &&& (r matches Err(e) ==> g.failure == Some(pass_failure(e)))
            &&& (r matches Ok(d) ==> {
                &&& decision_about(
                    d,
                    entry.pending,
                    entry.history,
                    ProjectAgentMaintenanceItemKind::ImprovementProposal,
                    *run,
                )
                &&& g.decisions == seq![decision_model(d)]
                &&& g.accepted == string_texts(final(accepted)@)
            })
        }),
{
    proof {
        reveal(proposal_step_spec);
    }
    let ghost history = entry.history;
    let ProposalEntry { pending: p, history: h } = entry;
    let PendingEntry { item_id, source_path, item } = p;
    let kind = ProjectAgentMaintenanceItemKind::ImprovementProposal;
    let (evidence, reason) = history_verdict(h, &run.agent_id, &item, kind);
    proof {
        lemma_unrejected_has_evidence(history, run.agent_id@, item, kind);
    }
    let (disposition, reason_text) = decide_improvement_proposal(accepted, reason, item.body.as_str());
    match maintenance_decision(
        &run.agent_id,
        run.actor.as_str(),
        run.maintenance_id.as_str(),
        item_id,
        source_path,
        item,
        kind,
        disposition,
        evidence,
        reason_text,
        None,
        run.started_at_ms,
    ) {
        Ok(d) => Ok(d),
        Err(e) => Err(MaintenancePassError::InvalidPath(e)),
    }
}

/// Runs one maintenance pass: the memory candidates in order, each judged
/// against its source history and the accepted memory in `ledger`, then the
/// improvement proposals in order, each judged against its source history
/// and the accepted proposals in `accepted`. Every pending item gets one
/// decision, memory candidates first; an item whose source history is
/// missing, unreadable or rejects it is rejected for that reason; a
/// decision holds an accepted path exactly when it accepts, and accepting
/// ones carry evidence. A dry run reports the pending counts unchanged,
/// keeps the catalog revision and writes nothing; an applied pass leaves
/// nothing pending, writes the decisions and the new facts, rewrites the
/// index when it accepted memory, and moves the revision on when it decided
/// anything.
#[verifier::rlimit(40)]
pub fn maintenance_pass(
    run: &MaintenanceRun,
    memory: Vec<MemoryEntry>,
    proposals: Vec<ProposalEntry>,
    ledger: MemoryLedger,
    accepted: Vec<String>,
) -> (r: Result<MaintenancePass, MaintenancePassError>)
    ensures
        r is Err <==> (memory_fold(ledger_model(ledger), memory@, *run).failure is Some || proposal_fold(string_texts(accepted@), proposals@, *run).failure is Some),
        memory_fold(ledger_model(ledger), memory@, *run).failure is Some ==> (r matches Err(e) && Some(pass_failure(e)) == memory_fold(ledger_model(ledger), memory@, *run).failure),
        memory_fold(ledger_model(ledger), memory@, *run).failure is None && proposal_fold(string_texts(accepted@), proposals@, *run).failure is Some ==> (r matches Err(e) && Some(
            pass_failure(e),
        ) == proposal_fold(string_texts(accepted@), proposals@, *run).failure),
        r matches Ok(pass) ==> {
            let ds = pass.report.decisions@;
            let m = memory@.len();
            let mf = memory_fold(ledger_model(ledger), memory@, *run);
            let pf = proposal_fold(string_texts(accepted@), proposals@, *run);
            &&& forall|i: int| 0 <= i < m ==> decision_model(#[trigger] ds[i]) == mf.decisions[i]
            &&& forall|j: int|
                0 <= j < proposals@.len() ==> decision_model(#[trigger] ds[m + j])
                    == pf.decisions[j]
            &&& paths_view(pass.memory_index.items@) == mf.ledger.paths
            &&& pass.memory_index.schema_version == mf.ledger.schema_version
            &&& run.mode == ProjectAgentMaintenanceMode::Apply ==> memory_views(pass.new_memory@)
                == mf.new_memory
        },
        r matches Ok(pass) ==> {
            let ds = pass.report.decisions@;
            let m = memory@.len();
            let before = ProjectAgentPendingCounts {
                memory_candidates: m as u64,
                improvement_proposals: proposals@.len() as u64,
            };
            &&& ds.len() == m + proposals@.len()
            &&& forall|i: int|
                0 <= i < m ==> decision_about(
                    #[trigger] ds[i],
                    memory@[i].pending,
                    memory@[i].history,
                    ProjectAgentMaintenanceItemKind::MemoryCandidate,
                    *run,
                )
            &&& forall|j: int|
                0 <= j < proposals@.len() ==> decision_about(
                    #[trigger] ds[m + j],
                    proposals@[j].pending,
                    proposals@[j].history,
                    ProjectAgentMaintenanceItemKind::ImprovementProposal,
                    *run,
                )
            &&& pass.report.schema_version == PROJECT_AGENT_SCHEMA_VERSION
            &&& pass.report.maintenance_id@ == run.maintenance_id@
            &&& pass.report.agent_id@ == run.agent_id@
            &&& pass.report.actor@ == run.actor@
            &&& pass.report.mode == run.mode
            &&& pass.report.started_at_ms == run.started_at_ms
            &&& pass.report.completed_at_ms == run.completed_at_ms
            &&& pass.report.catalog_revision_before == run.catalog_revision_before
            &&& pass.report.pending_before == before
            &&& run.mode == ProjectAgentMaintenanceMode::DryRun ==> {
                &&& pass.report.pending_after == before
                &&& pass.report.catalog_revision_after == run.catalog_revision_before
                &&& pass.new_memory@.len() == 0
                &&& !pass.rewrite_index
                &&& !pass.write_decisions
            }
            &&& run.mode == ProjectAgentMaintenanceMode::Apply ==> {
                &&& pass.report.pending_after == (ProjectAgentPendingCounts {
                    memory_candidates: 0,
                    improvement_proposals: 0,
                })
                &&& pass.report.catalog_revision_after == if ds.len() == 0 {
                    run.catalog_revision_before
                } else {
                    run.catalog_revision_before.saturating_add(1)
                }
                &&& pass.write_decisions
                &&& pass.rewrite_index == (pass.new_memory@.len() > 0 || accepts_some_memory(ds))
            }
        },
{
    let ghost memory_in = memory@;
    let ghost proposals_in = proposals@;
    let ghost l0 = ledger_model(ledger);
    let ghost a0 = string_texts(accepted@);
    let m = memory.len();
    let p = proposals.len();
    let mut book = ledger;
    let mut taken = accepted;
    let mut memory_left = memory;
    let mut proposals_left = proposals;
    let mut decisions: Vec<ProjectAgentMaintenanceDecision> = Vec::new();
    let mut new_memory: Vec<(RelativeProjectAgentPath, String)> = Vec::new();
    let mut i: usize = 0;
    proof {
        assert(memory_in.take(0) =~= Seq::<MemoryEntry>::empty());
        assert(memory_views(new_memory@) =~= Seq::<(Seq<char>, Seq<char>)>::empty());
    }
    while i < m
        invariant
            memory_in == memory@,
            proposals_in == proposals@,
            l0 == ledger_model(ledger),
            a0 == string_texts(accepted@),
            m == memory_in.len(),
            i <= m,
            memory_left@ == memory_in.subrange(i as int, m as int),
            memory_fold(l0, memory_in.take(i as int), *run).failure is None,
            memory_fold(l0, memory_in.take(i as int), *run).decisions.len() == i,
            memory_views(new_memory@) == memory_fold(l0, memory_in.take(i as int), *run).new_memory,
            ledger_model(book) == memory_fold(l0, memory_in.take(i as int), *run).ledger,
            decisions@.len() == i,
            forall|k: int|
                0 <= k < i ==> decision_about(
                    #[trigger] decisions@[k],
                    memory_in[k].pending,
                    memory_in[k].history,
                    ProjectAgentMaintenanceItemKind::MemoryCandidate,
                    *run,
                ) && decision_model(decisions@[k]) == memory_fold(
                    l0,
                    memory_in.take(i as int),
                    *run,
                ).decisions[k],
        decreases m - i,
    {
        let entry = memory_left.remove(0);
        let ghost entry_model = entry;
        let ghost f = memory_fold(l0, memory_in.take(i as int), *run);
        proof {
            assert(entry == memory_in[i as int]);
            assert(memory_left@ =~= memory_in.subrange(i + 1, m as int));
            assert(memory_in.take(i + 1).drop_last() =~= memory_in.take(i as int));
            assert(memory_in.take(i + 1).last() == entry);
            lemma_memory_step_frame(f, entry, *run);
        }
        let result = memory_step(run, &mut book, entry, &mut new_memory);
        let d = match result {
            Ok(d) => d,
            Err(e) => {
                proof {
                    assert(memory_fold(l0, memory_in.take(i + 1), *run) == memory_step_spec(
                        f,
                        entry_model,
                        *run,
                    ));
                    assert(memory_fold(l0, memory_in.take(i + 1), *run).failure == Some(
                        pass_failure(e),
                    ));
                    lemma_memory_failure_stays(l0, memory_in, *run, i + 1);
                    assert(memory_fold(l0, memory_in, *run).failure == Some(pass_failure(e)));
                    assert(memory_fold(l0, memory_in, *run).failure is Some);
                }
                return Err(e);
            },
        };
        let ghost prev = decisions@;
        decisions.push(d);
        proof {
            let g = memory_fold(l0, memory_in.take(i + 1), *run);
            assert forall|k: int| 0 <= k < i + 1 implies decision_about(
                #[trigger] decisions@[k],
                memory_in[k].pending,
                memory_in[k].history,
                ProjectAgentMaintenanceItemKind::MemoryCandidate,
                *run,
            ) && decision_model(decisions@[k]) == g.decisions[k] by {
                if k < i {
                    assert(decisions@[k] == prev[k]);
                }
            }
        }
        i = i + 1;
    }
    proof {
        assert(memory_in.take(m as int) =~= memory_in);
        assert(a0 == string_texts(taken@));
        assert(proposals_in.take(0) =~= Seq::<ProposalEntry>::empty());
    }
    let ghost mf = memory_fold(l0, memory_in, *run);
    let mut j: usize = 0;
    while j < p
        invariant
            memory_in == memory@,
            proposals_in == proposals@,
            l0 == ledger_model(ledger),
            a0 == string_texts(accepted@),
            m == memory_in.len(),
            p == proposals_in.len(),
            j <= p,
            mf == memory_fold(l0, memory_in, *run),
            mf.failure is None,
            proposals_left@ == proposals_in.subrange(j as int, p as int),
            proposal_fold(a0, proposals_in.take(j as int), *run).failure is None,
            proposal_fold(a0, proposals_in.take(j as int), *run).decisions.len() == j,
            string_texts(taken@) == proposal_fold(a0, proposals_in.take(j as int), *run).accepted,
            decisions@.len() == m + j,
            forall|k: int|
                0 <= k < m ==> decision_about(
                    #[trigger] decisions@[k],
                    memory_in[k].pending,
                    memory_in[k].history,
                    ProjectAgentMaintenanceItemKind::MemoryCandidate,
                    *run,
                ) && decision_model(decisions@[k]) == mf.decisions[k],
            forall|k: int|
                0 <= k < j ==> decision_about(
                    #[trigger] decisions@[m + k],
                    proposals_in[k].pending,
                    proposals_in[k].history,
                    ProjectAgentMaintenanceItemKind::ImprovementProposal,
                    *run,
                ) && decision_model(decisions@[m + k]) == proposal_fold(
                    a0,
                    proposals_in.take(j as int),
                    *run,
                ).decisions[k],
        decreases p - j,
    {
        let entry = proposals_left.remove(0);
        let ghost entry_model = entry;
        let ghost f = proposal_fold(a0, proposals_in.take(j as int), *run);
        proof {
            assert(entry == proposals_in[j as int]);
            assert(proposals_left@ =~= proposals_in.subrange(j + 1, p as int));
            assert(proposals_in.take(j + 1).drop_last() =~= proposals_in.take(j as int));
            assert(proposals_in.take(j + 1).last() == entry);
            lemma_proposal_step_frame(f, entry, *run);
        }
        let result = proposal_step(run, &mut taken, entry);
        let d = match result {
            Ok(d) => d,
            Err(e) => {
                proof {
                    assert(proposal_fold(a0, proposals_in.take(j + 1), *run) == proposal_step_spec(
                        f,
                        entry_model,
                        *run,
                    ));
                    assert(proposal_fold(a0, proposals_in.take(j + 1), *run).failure == Some(
                        pass_failure(e),
                    ));
                    lemma_proposal_failure_stays(a0, proposals_in, *run, j + 1);
                }
                return Err(e);
            },
        };
        let ghost prev = decisions@;
        decisions.push(d);
        proof {
            let g = proposal_fold(a0, proposals_in.take(j + 1), *run);
            assert forall|k: int| 0 <= k < m implies decision_about(
                #[trigger] decisions@[k],
                memory_in[k].pending,
                memory_in[k].history,
                ProjectAgentMaintenanceItemKind::MemoryCandidate,
                *run,
            ) && decision_model(decisions@[k]) == mf.decisions[k] by {
                assert(decisions@[k] == prev[k]);
            }
            assert forall|k: int| 0 <= k < j + 1 implies decision_about(
                #[trigger] decisions@[m + k],
                proposals_in[k].pending,
                proposals_in[k].history,
                ProjectAgentMaintenanceItemKind::ImprovementProposal,
                *run,
            ) && decision_model(decisions@[m + k]) == g.decisions[k] by {
                if k < j {
                    assert(decisions@[m + k] == prev[m + k]);
                }
            }
        }
        j = j + 1;
    }
    proof {
        assert(proposals_in.take(p as int) =~= proposals_in);
    }
    let before = ProjectAgentPendingCounts {
        memory_candidates: m as u64,
        improvement_proposals: p as u64,
    };
    let after = pending_after(run.mode, before);
    let writes = maintenance_writes(run.mode, new_memory.len(), &decisions);
    let revision_after = if writes.advance_revision {
        run.catalog_revision_before.saturating_add(1)
    } else {
        run.catalog_revision_before
    };
    if run.mode.is_dry_run() {
        new_memory = Vec::new();
    }
    proof {
        if run.mode == ProjectAgentMaintenanceMode::Apply {
            assert(writes.rewrite_index == (new_memory@.len() > 0 || accepts_some_memory(decisions@)))
                by {
                if accepts_some_memory(decisions@) {
                    let w = choose|w: int|
                        0 <= w < decisions@.len() && (#[trigger] decisions@[w]).kind
                            == ProjectAgentMaintenanceItemKind::MemoryCandidate
                            && decisions@[w].disposition
                            == ProjectAgentMaintenanceDisposition::Accepted;
                    assert(crate::maintenance::accepts_memory(decisions@[w]));
                }
            }
        }
    }
    let report = ProjectAgentMaintenanceReport {
        schema_version: PROJECT_AGENT_SCHEMA_VERSION,
        maintenance_id: run.maintenance_id.clone(),
        agent_id: run.agent_id.duplicate(),
        actor: run.actor.clone(),
        mode: run.mode,
        started_at_ms: run.started_at_ms,
        completed_at_ms: run.completed_at_ms,
        catalog_revision_before: run.catalog_revision_before,
        catalog_revision_after: revision_after,
        pending_before: before,
        pending_after: after,
        decisions,
    };
    Ok(
        MaintenancePass {
            report,
            new_memory,
            memory_index: book.index,
            rewrite_index: writes.rewrite_index,
            write_decisions: !run.mode.is_dry_run(),
        },
    )
}

/// The most bytes a maintenance actor may have.
pub const MAX_ACTOR_BYTES: usize = 256;

/// The actor a maintenance run records: the given one trimmed, when it
/// holds 1 to 256 bytes.
pub fn check_actor(actor: &str) -> (r: Result<String, String>)
    ensures
        r is Ok <==> 0 < utf8_len(trim(actor@)) <= MAX_ACTOR_BYTES,
        r matches Ok(a) ==> a@ == trim(actor@),
        r matches Err(e) ==> e@ == "maintenance actor must contain 1 to 256 bytes"@,
{
    let trimmed = str_trim(actor);
    let n = byte_len(trimmed);
    if n == 0 || n > MAX_ACTOR_BYTES {
        return Err(owned("maintenance actor must contain 1 to 256 bytes"));
    }
    Ok(owned(trimmed))
}

/// A signed integer in decimal.
pub open spec fn signed_decimal(n: int) -> Seq<char> {
    if n < 0 {
        "-"@ + decimal((-n) as nat)
    } else {
        decimal(n as nat)
    }
}

/// The identifier of a maintenance run started at `started_at_ms` by
/// process `process_id` as its `sequence`-th run.
pub fn maintenance_id(started_at_ms: i64, process_id: u32, sequence: u64) -> (r: String)
    ensures
        r@ == "maintenance-"@ + signed_decimal(started_at_ms as int) + "-"@ + decimal(
            process_id as nat,
        ) + "-"@ + decimal(sequence as nat),
{
    let mut r = owned("maintenance-");
    if started_at_ms < 0 {
        push_str(&mut r, "-");
        let magnitude: u64 = ((-(started_at_ms + 1)) as u64) + 1;
        push_decimal(&mut r, magnitude);
    } else {
        push_decimal(&mut r, started_at_ms as u64);
    }
    push_str(&mut r, "-");
    push_decimal(&mut r, process_id as u64);
    push_str(&mut r, "-");
    push_decimal(&mut r, sequence);
    r
}

} // verus!
