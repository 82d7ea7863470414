//! Arguments of the plan tool, including the research deltas it may carry.

use vstd::prelude::*;

verus! {

#[derive(Clone, Copy, Debug, Eq, PartialEq, Structural)]
pub enum StepStatus {
    Pending,
    InProgress,
    Completed,
}

#[derive(Clone, Debug, Eq, PartialEq)]
pub struct PlanItemArg {
    pub step: String,
    pub status: StepStatus,
}

#[derive(Clone, Debug, Eq, PartialEq)]
pub struct UpdatePlanArgs {
    /// Arguments for the `update_plan` todo/checklist tool (not plan mode).
    pub explanation: Option<String>,
    pub plan: Vec<PlanItemArg>,
    /// Optional append-only research state changes associated with this plan update.
    pub research_delta: Option<Vec<ResearchDelta>>,
}

/// Whether a research entry belongs to one task or to the whole project.
/// Task-scoped entries order before project-scoped ones.
#[derive(Clone, Copy, Debug, Eq, PartialEq, Structural, PartialOrd, Ord, Hash)]
pub enum ResearchScope {
    Task,
    Project,
}

#[derive(Clone, Copy, Debug, Eq, PartialEq, Structural)]
pub enum ResearchEntryKind {
    Fact,
    Constraint,
    Goal,
    Unknown,
    Hypothesis,
    Exploration,
    Decision,
    FuturePressure,
    Outcome,
}

#[derive(Clone, Copy, Debug, Eq, PartialEq, Structural)]
pub enum ResearchStatus {
    Open,
    Supported,
    Rejected,
    Resolved,
    Superseded,
}

#[derive(Clone, Copy, Debug, Eq, PartialEq, Structural)]
pub enum ResearchOperation {
    Upsert,
    SetStatus,
    Remove,
}

/// One change to research state.
#[derive(Clone, Debug, Eq, PartialEq)]
pub struct ResearchDelta {
    pub operation: ResearchOperation,
    pub id: String,
    pub scope: ResearchScope,
    pub kind: Option<ResearchEntryKind>,
    pub subject: Option<String>,
    pub statement: Option<String>,
    pub status: Option<ResearchStatus>,
}

/// The mathematical content of a research delta.
pub struct DeltaModel {
    pub operation: ResearchOperation,
    pub id: Seq<char>,
    pub scope: ResearchScope,
    pub kind: Option<ResearchEntryKind>,
    pub subject: Option<Seq<char>>,
    pub statement: Option<Seq<char>>,
    pub status: Option<ResearchStatus>,
}

/// The characters of an optional text field.
pub open spec fn optional_text(o: Option<String>) -> Option<Seq<char>> {
    match o {
        Some(t) => Some(t@),
        None => None,
    }
}

impl View for ResearchDelta {
    type V = DeltaModel;

    open spec fn view(&self) -> DeltaModel {
        DeltaModel {
            operation: self.operation,
            id: self.id@,
            scope: self.scope,
            kind: self.kind,
            subject: optional_text(self.subject),
            statement: optional_text(self.statement),
            status: self.status,
        }
    }
}

} // verus!
