//! Following a project AGENT task from the terminal until it ends with a
//! persisted result, and the messages that report what an action on an
//! agent came to. The polling, the clock and the requests stay with the
//! caller; each read is handed in and the next step comes back.

use crate::checkpoint::decimal_text;
use crate::task::ProjectAgentTaskPhase;
use crate::text::{decimal, owned, push_str, same_text};
use vstd::prelude::*;

verus! {

broadcast use vstd::string::group_string_axioms;

/// How long a task may stay ended without a persisted result.
pub const RESULT_WAIT_MS: u64 = 5000;

/// A task as an agent read lists it.
#[derive(Clone, Debug, Eq, PartialEq)]
pub struct TaskSighting {
    pub task_id: String,
    pub phase: ProjectAgentTaskPhase,
}

/// What one read of an agent reports about its tasks and results.
#[derive(Clone, Debug, Eq, PartialEq)]
pub struct AgentRead {
    pub current_task: Option<TaskSighting>,
    pub recent_tasks: Vec<TaskSighting>,
    /// The task of the current result, if there is one.
    pub current_result_task: Option<String>,
    /// The tasks of the recent results.
    pub recent_result_tasks: Vec<String>,
}

pub open spec fn is_active_phase(p: ProjectAgentTaskPhase) -> bool {
    p == ProjectAgentTaskPhase::Queued || p == ProjectAgentTaskPhase::Running
}

/// The first recent task named `id`, from position `i` on.
pub open spec fn recent_named_from(ts: Seq<TaskSighting>, id: Seq<char>, i: int) -> Option<
    ProjectAgentTaskPhase,
>
    decreases ts.len() - i,
{
    if i < 0 || i >= ts.len() {
        None
    } else if ts[i].task_id@ == id {
        Some(ts[i].phase)
    } else {
        recent_named_from(ts, id, i + 1)
    }
}

/// The phase of the watched task: the current task when it is the one,
/// else the first recent task that is.
pub open spec fn watched_phase(read: AgentRead, id: Seq<char>) -> Option<ProjectAgentTaskPhase> {
    match read.current_task {
        Some(t) if t.task_id@ == id => Some(t.phase),
        _ => recent_named_from(read.recent_tasks@, id, 0),
    }
}

/// Whether the watched task has ended.
pub open spec fn task_ended(read: AgentRead, id: Seq<char>) -> bool {
    match watched_phase(read, id) {
        Some(p) => !is_active_phase(p),
        None => false,
    }
}

/// Whether a result of the watched task has been persisted.
pub open spec fn result_persisted(read: AgentRead, id: Seq<char>) -> bool {
    ||| (match read.current_result_task {
        Some(t) => t@ == id,
        None => false,
    })
    ||| exists|i: int| 0 <= i < read.recent_result_tasks@.len() && #[trigger] read.recent_result_tasks@[i]@ == id
}

fn watched_task_phase(read: &AgentRead, id: &str) -> (r: Option<ProjectAgentTaskPhase>)
    ensures
        r == watched_phase(*read, id@),
{
    if let Some(t) = &read.current_task {
        if same_text(t.task_id.as_str(), id) {
            return Some(t.phase);
        }
    }
    let ts = &read.recent_tasks;
    let mut i: usize = 0;
    while i < ts.len()
        invariant
            i <= ts.len(),
            ts@ == read.recent_tasks@,
            !(match read.current_task {
                Some(t) => t.task_id@ == id@,
                None => false,
            }),
            recent_named_from(ts@, id@, 0) == recent_named_from(ts@, id@, i as int),
        decreases ts.len() - i,
    {
        if same_text(ts[i].task_id.as_str(), id) {
            return Some(ts[i].phase);
        }
        i = i + 1;
    }
    None
}

fn has_persisted_result(read: &AgentRead, id: &str) -> (r: bool)
    ensures
        r == result_persisted(*read, id@),
{
    if let Some(t) = &read.current_result_task {
        if same_text(t.as_str(), id) {
            return true;
        }
    }
    let rs = &read.recent_result_tasks;
    let mut i: usize = 0;
    while i < rs.len()
        invariant
            i <= rs.len(),
            rs@ == read.recent_result_tasks@,
            !(match read.current_result_task {
                Some(t) => t@ == id@,
                None => false,
            }),
            forall|j: int| 0 <= j < i ==> rs@[j]@ != id@,
        decreases rs.len() - i,
    {
        if same_text(rs[i].as_str(), id) {
            proof {
                assert(read.recent_result_tasks@[i as int]@ == id@);
            }
            return true;
        }
        i = i + 1;
    }
    false
}

/// What to do after a read.
#[derive(Clone, Debug, Eq, PartialEq)]
pub enum WatchStep {
    /// The task ended and its result is persisted.
    Finished,
    /// The task ended too long ago without a persisted result.
    Failed { message: String },
    /// Read again after the poll interval.
    Poll,
}

/// The watch of one task: how many reads it made, and since when (in
/// milliseconds of the caller's clock) the task has been seen ended
/// without a result.
#[derive(Clone, Debug, Eq, PartialEq)]
pub struct TaskWatch {
    pub task_id: String,
    pub polls: u64,
    pub ended_since_ms: Option<u64>,
}

pub open spec fn missing_result_text(id: Seq<char>) -> Seq<char> {
    "project AGENT task "@ + id + " ended without a persisted result"@
}

impl TaskWatch {
    pub fn new(task_id: &str) -> (r: Self)
        ensures
            r.task_id@ == task_id@,
            r.polls == 0,
            r.ended_since_ms is None,
    {
        TaskWatch { task_id: owned(task_id), polls: 0, ended_since_ms: None }
    }

    /// The id of the next read request: `project-agent-task-<task>-<poll>`.
    pub fn request_id(&self) -> (r: String)
        ensures
            r@ == "project-agent-task-"@ + self.task_id@ + "-"@ + decimal(self.polls as nat),
    {
        let mut r = owned("project-agent-task-");
        push_str(&mut r, self.task_id.as_str());
        push_str(&mut r, "-");
        let n = decimal_text(self.polls);
        push_str(&mut r, n.as_str());
        r
    }

    /// Takes one read made at `now_ms`: the task is done once it has ended
    /// with a persisted result; it fails once it has stayed ended without
    /// one for the result wait; otherwise the watch reads again, counting
    /// the poll and remembering when the task was first seen ended.
    pub fn observe(&mut self, read: &AgentRead, now_ms: u64) -> (r: WatchStep)
        ensures
            final(self).task_id == old(self).task_id,
            ({
                let id = old(self).task_id@;
                let ended = task_ended(*read, id);
                let since = match old(self).ended_since_ms {
                    Some(t) => t,
                    None => now_ms,
                };
                if ended && result_persisted(*read, id) {
                    r == WatchStep::Finished && final(self).polls == old(self).polls
                        && final(self).ended_since_ms == old(self).ended_since_ms
                } else if ended && now_ms >= since && now_ms - since >= RESULT_WAIT_MS {
                    r matches WatchStep::Failed { message } && message@ == missing_result_text(id)
                        && final(self).polls == old(self).polls
                } else {
                    &&& r == WatchStep::Poll
                    &&& final(self).polls == (if old(self).polls < u64::MAX {
                        old(self).polls + 1
                    } else {
                        old(self).polls as int
                    })
                    &&& final(self).ended_since_ms == (if ended {
                        Some(since)
                    } else {
                        None
                    })
                }
            }),
    {
        let phase = watched_task_phase(read, self.task_id.as_str());
        let ended = match phase {
            Some(p) => !p.is_active(),
            None => false,
        };
        if ended && has_persisted_result(read, self.task_id.as_str()) {
            return WatchStep::Finished;
        }
        if ended {
            let since = match self.ended_since_ms {
                Some(t) => t,
                None => now_ms,
            };
            if now_ms >= since && now_ms - since >= RESULT_WAIT_MS {
                let mut message = owned("project AGENT task ");
                push_str(&mut message, self.task_id.as_str());
                push_str(&mut message, " ended without a persisted result");
                return WatchStep::Failed { message };
            }
            self.ended_since_ms = Some(since);
        } else {
            self.ended_since_ms = None;
        }
        self.polls = self.polls.saturating_add(1);
        WatchStep::Poll
    }
}

/// The message when the whole wait runs out.
pub fn watch_timeout_message(task_id: &str) -> (r: String)
    ensures
        r@ == "timed out waiting for project AGENT task "@ + task_id@,
{
    let mut r = owned("timed out waiting for project AGENT task ");
    push_str(&mut r, task_id);
    r
}

// ---------------------------------------------------------------------------
// Messages of the agent actions.

pub open spec fn attempt_text(attempt: u64) -> Seq<char> {
    "\u{5df2}\u{521b}\u{5efa}\u{7b2c} "@ + decimal(attempt as nat) + " \u{6b21}\u{4efb}\u{52a1}\u{5c1d}\u{8bd5}\u{3002}"@
}

/// What a retry reports: the attempt it created.
pub fn retry_message(attempt: u64) -> (r: String)
    ensures
        r@ == attempt_text(attempt),
{
    let mut r = owned("\u{5df2}\u{521b}\u{5efa}\u{7b2c} ");
    let n = decimal_text(attempt);
    push_str(&mut r, n.as_str());
    push_str(&mut r, " \u{6b21}\u{4efb}\u{52a1}\u{5c1d}\u{8bd5}\u{3002}");
    r
}

pub open spec fn generation_text(generation: u64) -> Seq<char> {
    "\u{5df2}\u{91cd}\u{5efa}\u{4e3a}\u{7b2c} "@ + decimal(generation as nat) + " \u{4ee3}\u{4f1a}\u{8bdd}\u{3002}"@
}

/// What a rebuild reports: the session generation it created.
pub fn rebuild_message(generation: u64) -> (r: String)
    ensures
        r@ == generation_text(generation),
{
    let mut r = owned("\u{5df2}\u{91cd}\u{5efa}\u{4e3a}\u{7b2c} ");
    let n = decimal_text(generation);
    push_str(&mut r, n.as_str());
    push_str(&mut r, " \u{4ee3}\u{4f1a}\u{8bdd}\u{3002}");
    r
}

/// What a follow-up reports.
pub fn follow_up_message() -> (r: String)
    ensures
        r@ == "\u{5df2}\u{8ffd}\u{52a0}\u{8ddf}\u{8fdb}\u{3002}"@,
{
    owned("\u{5df2}\u{8ffd}\u{52a0}\u{8ddf}\u{8fdb}\u{3002}")
}

/// What a termination request reports.
pub fn terminate_message() -> (r: String)
    ensures
        r@ == "\u{5df2}\u{8bf7}\u{6c42}\u{7ec8}\u{6b62}\u{5f53}\u{524d}\u{4efb}\u{52a1}\u{3002}"@,
{
    owned("\u{5df2}\u{8bf7}\u{6c42}\u{7ec8}\u{6b62}\u{5f53}\u{524d}\u{4efb}\u{52a1}\u{3002}")
}

/// A report line of an agent action.
#[derive(Clone, Debug, Eq, PartialEq)]
pub enum ActionReport {
    Info(String),
    Error(String),
}

/// How an action on `@agent` is reported: its message as information, or
/// its error.
pub fn action_report(agent_id: &str, outcome: Result<String, String>) -> (r: ActionReport)
    ensures
        match outcome {
            Ok(m) => r matches ActionReport::Info(t) && t@ == "\u{9879}\u{76ee} AGENT @"@ + agent_id@
                + "\u{ff1a}"@ + m@,
            Err(e) => r matches ActionReport::Error(t) && t@ == "\u{9879}\u{76ee} AGENT @"@
                + agent_id@ + " \u{64cd}\u{4f5c}\u{5931}\u{8d25}\u{ff1a}"@ + e@,
        },
{
    let mut t = owned("\u{9879}\u{76ee} AGENT @");
    push_str(&mut t, agent_id);
    match outcome {
        Ok(m) => {
            push_str(&mut t, "\u{ff1a}");
            push_str(&mut t, m.as_str());
            ActionReport::Info(t)
        },
        Err(e) => {
            push_str(&mut t, " \u{64cd}\u{4f5c}\u{5931}\u{8d25}\u{ff1a}");
            push_str(&mut t, e.as_str());
            ActionReport::Error(t)
        },
    }
}

/// What an action on a project AGENT came to.
#[derive(Clone, Debug, Eq, PartialEq)]
pub enum WorkbenchActionOutcome {
    FollowedUp,
    Terminated,
    /// A retry created this attempt.
    Retried { attempt: u64 },
    /// A rebuild created this session generation.
    Rebuilt { generation: u64 },
    /// The action failed with this error.
    Failed { error: String },
}

/// How an outcome is reported on `@agent_id`: whether it is an error, and
/// its line.
pub open spec fn action_message(agent_id: Seq<char>, outcome: WorkbenchActionOutcome) -> (bool, Seq<char>) {
    let head = "\u{9879}\u{76ee} AGENT @"@ + agent_id;
    let ok = head + "\u{ff1a}"@;
    match outcome {
        WorkbenchActionOutcome::FollowedUp => (false, ok + "\u{5df2}\u{8ffd}\u{52a0}\u{8ddf}\u{8fdb}\u{3002}"@),
        WorkbenchActionOutcome::Terminated => (
            false,
            ok + "\u{5df2}\u{8bf7}\u{6c42}\u{7ec8}\u{6b62}\u{5f53}\u{524d}\u{4efb}\u{52a1}\u{3002}"@,
        ),
        WorkbenchActionOutcome::Retried { attempt } => (false, ok + attempt_text(attempt)),
        WorkbenchActionOutcome::Rebuilt { generation } => (false, ok + generation_text(generation)),
        WorkbenchActionOutcome::Failed { error } => (
            true,
            head + " \u{64cd}\u{4f5c}\u{5931}\u{8d25}\u{ff1a}"@ + error@,
        ),
    }
}

/// The line that reports an action's outcome, when the thread it was
/// taken on is still displayed; `None` otherwise.
pub fn workbench_action_message(agent_id: &str, outcome: &WorkbenchActionOutcome, displayed: bool) -> (r:
    Option<(bool, String)>)
    ensures
        !displayed ==> r is None,
        displayed ==> (r matches Some((is_error, line)) && (is_error, line@) == action_message(
            agent_id@,
            *outcome,
        )),
{
    if !displayed {
        return None;
    }
    let result = match outcome {
        WorkbenchActionOutcome::FollowedUp => Ok(follow_up_message()),
        WorkbenchActionOutcome::Terminated => Ok(terminate_message()),
        WorkbenchActionOutcome::Retried { attempt } => Ok(retry_message(*attempt)),
        WorkbenchActionOutcome::Rebuilt { generation } => Ok(rebuild_message(*generation)),
        WorkbenchActionOutcome::Failed { error } => Err(error.clone()),
    };
    match action_report(agent_id, result) {
        ActionReport::Info(t) => Some((false, t)),
        ActionReport::Error(t) => Some((true, t)),
    }
}

/// What the workbench's request for one action came back with.
#[derive(Clone, Debug, Eq, PartialEq)]
pub enum WorkbenchReply {
    /// The agent list was read, or could not be.
    Listed { error: Option<String> },
    /// An agent was read, or could not be.
    Read { agent_id: String, error: Option<String> },
    /// A task was started on an agent, or could not be.
    Started { agent_id: String, error: Option<String> },
    /// A prompt for a start or a follow-up was asked for.
    Prompt,
    /// A follow-up, termination, retry or rebuild came to `outcome`.
    Acted { agent_id: String, outcome: WorkbenchActionOutcome },
}

/// What the workbench shows for a reply.
#[derive(Clone, Debug, Eq, PartialEq)]
pub enum WorkbenchEffect {
    /// Nothing: the thread the request came from is no longer displayed.
    Nothing,
    ShowRoster,
    ShowDetail,
    /// Show the started task and follow it until it ends.
    ShowStartedAndWatch,
    ShowPrompt,
    Info(String),
    Error(String),
}

pub enum EffectModel {
    Nothing,
    ShowRoster,
    ShowDetail,
    ShowStartedAndWatch,
    ShowPrompt,
    Info(Seq<char>),
    Error(Seq<char>),
}

pub open spec fn effect_model(e: WorkbenchEffect) -> EffectModel {
    match e {
        WorkbenchEffect::Nothing => EffectModel::Nothing,
        WorkbenchEffect::ShowRoster => EffectModel::ShowRoster,
        WorkbenchEffect::ShowDetail => EffectModel::ShowDetail,
        WorkbenchEffect::ShowStartedAndWatch => EffectModel::ShowStartedAndWatch,
        WorkbenchEffect::ShowPrompt => EffectModel::ShowPrompt,
        WorkbenchEffect::Info(t) => EffectModel::Info(t@),
        WorkbenchEffect::Error(t) => EffectModel::Error(t@),
    }
}

/// What a reply shows on its thread.
pub open spec fn reply_effect(reply: WorkbenchReply) -> EffectModel {
    match reply {
        WorkbenchReply::Listed { error } => match error {
            None => EffectModel::ShowRoster,
            Some(e) => EffectModel::Error(
                "\u{52a0}\u{8f7d}\u{9879}\u{76ee} AGENT \u{5217}\u{8868}\u{5931}\u{8d25}\u{ff1a}"@ + e@,
            ),
        },
        WorkbenchReply::Read { agent_id, error } => match error {
            None => EffectModel::ShowDetail,
            Some(e) => EffectModel::Error(
                "\u{8bfb}\u{53d6}\u{9879}\u{76ee} AGENT @"@ + agent_id@ + " \u{5931}\u{8d25}\u{ff1a}"@
                    + e@,
            ),
        },
        WorkbenchReply::Started { agent_id, error } => match error {
            None => EffectModel::ShowStartedAndWatch,
            Some(e) => EffectModel::Error(
                "\u{9879}\u{76ee} AGENT @"@ + agent_id@
                    + " \u{53d1}\u{8d77}\u{4efb}\u{52a1}\u{5931}\u{8d25}\u{ff1a}"@ + e@,
            ),
        },
        WorkbenchReply::Prompt => EffectModel::ShowPrompt,
        WorkbenchReply::Acted { agent_id, outcome } => {
            let (is_error, line) = action_message(agent_id@, outcome);
            if is_error {
                EffectModel::Error(line)
            } else {
                EffectModel::Info(line)
            }
        },
    }
}

/// What the workbench shows for `reply`: nothing once the thread it came
/// from is no longer displayed, otherwise the view or line the reply calls
/// for.
pub fn workbench_effect(reply: &WorkbenchReply, displayed: bool) -> (r: WorkbenchEffect)
    ensures
        effect_model(r) == if displayed {
            reply_effect(*reply)
        } else {
            EffectModel::Nothing
        },
{
    if !displayed {
        return WorkbenchEffect::Nothing;
    }
    match reply {
        WorkbenchReply::Listed { error } => match error {
            None => WorkbenchEffect::ShowRoster,
            Some(e) => WorkbenchEffect::Error(list_failed_message(e.as_str())),
        },
        WorkbenchReply::Read { agent_id, error } => match error {
            None => WorkbenchEffect::ShowDetail,
            Some(e) => WorkbenchEffect::Error(read_failed_message(agent_id.as_str(), e.as_str())),
        },
        WorkbenchReply::Started { agent_id, error } => match error {
            None => WorkbenchEffect::ShowStartedAndWatch,
            Some(e) => WorkbenchEffect::Error(start_failed_message(agent_id.as_str(), e.as_str())),
        },
        WorkbenchReply::Prompt => WorkbenchEffect::ShowPrompt,
        WorkbenchReply::Acted { agent_id, outcome } => match workbench_action_message(
            agent_id.as_str(),
            outcome,
            true,
        ) {
            Some((true, line)) => WorkbenchEffect::Error(line),
            Some((false, line)) => WorkbenchEffect::Info(line),
            None => WorkbenchEffect::Nothing,
        },
    }
}

/// The error when the agent list cannot be loaded.
pub fn list_failed_message(error: &str) -> (r: String)
    ensures
        r@ == "\u{52a0}\u{8f7d}\u{9879}\u{76ee} AGENT \u{5217}\u{8868}\u{5931}\u{8d25}\u{ff1a}"@ + error@,
{
    let mut r = owned("\u{52a0}\u{8f7d}\u{9879}\u{76ee} AGENT \u{5217}\u{8868}\u{5931}\u{8d25}\u{ff1a}");
    push_str(&mut r, error);
    r
}

/// The error when an agent cannot be read.
pub fn read_failed_message(agent_id: &str, error: &str) -> (r: String)
    ensures
        r@ == "\u{8bfb}\u{53d6}\u{9879}\u{76ee} AGENT @"@ + agent_id@ + " \u{5931}\u{8d25}\u{ff1a}"@ + error@,
{
    let mut r = owned("\u{8bfb}\u{53d6}\u{9879}\u{76ee} AGENT @");
    push_str(&mut r, agent_id);
    push_str(&mut r, " \u{5931}\u{8d25}\u{ff1a}");
    push_str(&mut r, error);
    r
}

/// The error when an agent cannot start a task.
pub fn start_failed_message(agent_id: &str, error: &str) -> (r: String)
    ensures
        r@ == "\u{9879}\u{76ee} AGENT @"@ + agent_id@ + " \u{53d1}\u{8d77}\u{4efb}\u{52a1}\u{5931}\u{8d25}\u{ff1a}"@ + error@,
{
    let mut r = owned("\u{9879}\u{76ee} AGENT @");
    push_str(&mut r, agent_id);
    push_str(&mut r, " \u{53d1}\u{8d77}\u{4efb}\u{52a1}\u{5931}\u{8d25}\u{ff1a}");
    push_str(&mut r, error);
    r
}

/// The error when a finished task cannot be read back.
pub fn finished_read_failed_message(agent_id: &str, task_id: &str, error: &str) -> (r: String)
    ensures
        r@ == "\u{9879}\u{76ee} AGENT @"@ + agent_id@ + " \u{4efb}\u{52a1} "@ + task_id@
            + " \u{72b6}\u{6001}\u{8bfb}\u{53d6}\u{5931}\u{8d25}\u{ff1a}"@ + error@,
{
    let mut r = owned("\u{9879}\u{76ee} AGENT @");
    push_str(&mut r, agent_id);
    push_str(&mut r, " \u{4efb}\u{52a1} ");
    push_str(&mut r, task_id);
    push_str(&mut r, " \u{72b6}\u{6001}\u{8bfb}\u{53d6}\u{5931}\u{8d25}\u{ff1a}");
    push_str(&mut r, error);
    r
}

} // verus!
