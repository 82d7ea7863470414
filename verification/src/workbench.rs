//! The semantic task workbench as the terminal shows it: the task tree with
//! its connectors, the labels of states and executors, and the detail of
//! the selected task.

use crate::task_workspace::{
    id_view, ProjectTaskEvaluationVerdict, ProjectTaskExecutor, ProjectTaskNode,
    ProjectTaskResultStatus, ProjectTaskStatus,
};
use crate::text::{owned, push_str, same_text, texts};
use vstd::prelude::*;

verus! {

broadcast use vstd::string::group_string_axioms;

// ---------------------------------------------------------------------------
// The task tree.

/// The positions of the tasks whose parent is `parent`, among the first `n`.
pub open spec fn kids_upto(tasks: Seq<ProjectTaskNode>, parent: Option<Seq<char>>, n: int) -> Seq<
    int,
>
    decreases n,
{
    if n <= 0 || n > tasks.len() {
        Seq::empty()
    } else if id_view(tasks[n - 1].parent_task_id) == parent {
        kids_upto(tasks, parent, n - 1).push(n - 1)
    } else {
        kids_upto(tasks, parent, n - 1)
    }
}

/// The positions of the tasks whose parent is `parent`, in order.
pub open spec fn kids(tasks: Seq<ProjectTaskNode>, parent: Option<Seq<char>>) -> Seq<int> {
    kids_upto(tasks, parent, tasks.len() as int)
}

/// What precedes a task's title: nothing at the top level, a branch or a
/// last-branch connector below.
pub open spec fn connector(top: bool, last: bool) -> Seq<char> {
    if top {
        Seq::empty()
    } else if last {
        "\u{2514}\u{2500} "@
    } else {
        "\u{251c}\u{2500} "@
    }
}

/// The prefix handed down to a task's children.
pub open spec fn child_prefix(top: bool, last: bool, prefix: Seq<char>) -> Seq<char> {
    if top {
        Seq::empty()
    } else if last {
        prefix + "   "@
    } else {
        prefix + "\u{2502}  "@
    }
}

/// The rows under `parent`, depth first, each child followed by its own
/// subtree; `fuel` bounds the depth.
pub open spec fn rows_under(
    tasks: Seq<ProjectTaskNode>,
    parent: Option<Seq<char>>,
    prefix: Seq<char>,
    fuel: nat,
) -> Seq<(int, Seq<char>)>
    decreases fuel, 0nat,
{
    if fuel == 0 {
        Seq::empty()
    } else {
        rows_from(tasks, parent, prefix, kids(tasks, parent), 0, (fuel - 1) as nat)
    }
}

pub open spec fn rows_from(
    tasks: Seq<ProjectTaskNode>,
    parent: Option<Seq<char>>,
    prefix: Seq<char>,
    ks: Seq<int>,
    k: int,
    fuel: nat,
) -> Seq<(int, Seq<char>)>
    decreases fuel, ks.len() - k + 1,
{
    if k < 0 || k >= ks.len() {
        Seq::empty()
    } else {
        let i = ks[k];
        let last = k + 1 == ks.len();
        let top = parent is None;
        let here = seq![(i, prefix + connector(top, last))];
        let below = if 0 <= i < tasks.len() {
            rows_under(tasks, Some(tasks[i].task_id@), child_prefix(top, last, prefix), fuel)
        } else {
            Seq::empty()
        };
        here + below + rows_from(tasks, parent, prefix, ks, k + 1, fuel)
    }
}

/// The rows of the task tree: roots in order, each followed by its subtree,
/// with connector prefixes; a task is never placed deeper than there are
/// tasks.
pub open spec fn tree_rows(tasks: Seq<ProjectTaskNode>) -> Seq<(int, Seq<char>)> {
    rows_under(tasks, None, Seq::empty(), tasks.len())
}

pub open spec fn row_views(v: Seq<(usize, String)>) -> Seq<(int, Seq<char>)> {
    v.map_values(|r: (usize, String)| (r.0 as int, r.1@))
}

fn parent_matches(task: &ProjectTaskNode, parent: Option<&str>) -> (r: bool)
    ensures
        r == (id_view(task.parent_task_id) == match parent {
            Some(p) => Some(p@),
            None => None::<Seq<char>>,
        }),
{
    match (&task.parent_task_id, parent) {
        (Some(id), Some(p)) => same_text(id.as_str(), p),
        (None, None) => true,
        _ => false,
    }
}

fn children_of(tasks: &Vec<ProjectTaskNode>, parent: Option<&str>) -> (r: Vec<usize>)
    ensures
        r@.map_values(|i: usize| i as int) == kids(
            tasks@,
            match parent {
                Some(p) => Some(p@),
                None => None::<Seq<char>>,
            },
        ),
        forall|j: int| 0 <= j < r@.len() ==> #[trigger] r@[j] < tasks@.len(),
{
    let ghost pv = match parent {
        Some(p) => Some(p@),
        None => None::<Seq<char>>,
    };
    let mut out: Vec<usize> = Vec::new();
    for i in 0..tasks.len()
        invariant
            pv == match parent {
                Some(p) => Some(p@),
                None => None::<Seq<char>>,
            },
            out@.map_values(|i: usize| i as int) == kids_upto(tasks@, pv, i as int),
            forall|j: int| 0 <= j < out@.len() ==> #[trigger] out@[j] < i,
    {
        if parent_matches(&tasks[i], parent) {
            let ghost before = out@;
            out.push(i);
            proof {
                assert(out@.map_values(|i: usize| i as int) =~= before.map_values(
                    |i: usize| i as int,
                ).push(i as int));
            }
        }
    }
    out
}

fn rows_under_exec(
    tasks: &Vec<ProjectTaskNode>,
    parent: Option<&str>,
    prefix: &str,
    fuel: usize,
    out: &mut Vec<(usize, String)>,
)
    ensures
        row_views(final(out)@) == row_views(old(out)@) + rows_under(
            tasks@,
            match parent {
                Some(p) => Some(p@),
                None => None::<Seq<char>>,
            },
            prefix@,
            fuel as nat,
        ),
    decreases fuel, 0nat,
{
    if fuel == 0 {
        proof {
            assert(row_views(out@) =~= row_views(old(out)@) + Seq::<(int, Seq<char>)>::empty());
        }
        return;
    }
    let ks = children_of(tasks, parent);
    rows_from_exec(tasks, parent, prefix, &ks, 0, fuel - 1, out);
}

fn rows_from_exec(
    tasks: &Vec<ProjectTaskNode>,
    parent: Option<&str>,
    prefix: &str,
    ks: &Vec<usize>,
    k: usize,
    fuel: usize,
    out: &mut Vec<(usize, String)>,
)
    requires
        forall|j: int| 0 <= j < ks@.len() ==> #[trigger] ks@[j] < tasks@.len(),
    ensures
        row_views(final(out)@) == row_views(old(out)@) + rows_from(
            tasks@,
            match parent {
                Some(p) => Some(p@),
                None => None::<Seq<char>>,
            },
            prefix@,
            ks@.map_values(|i: usize| i as int),
            k as int,
            fuel as nat,
        ),
    decreases fuel, ks@.len() - k + 1,
{
    let ghost pv = match parent {
        Some(p) => Some(p@),
        None => None::<Seq<char>>,
    };
    let ghost kv = ks@.map_values(|i: usize| i as int);
    if k >= ks.len() {
        proof {
            assert(row_views(out@) =~= row_views(old(out)@) + Seq::<(int, Seq<char>)>::empty());
        }
        return;
    }
    let i = ks[k];
    let last = k + 1 == ks.len();
    let top = parent.is_none();
    let mut row_prefix = owned(prefix);
    if !top {
        if last {
            push_str(&mut row_prefix, "\u{2514}\u{2500} ");
        } else {
            push_str(&mut row_prefix, "\u{251c}\u{2500} ");
        }
    }
    let ghost start = row_views(out@);
    proof {
        assert(row_prefix@ =~= prefix@ + connector(top, last));
    }
    out.push((i, row_prefix));
    proof {
        assert(row_views(out@) =~= start + seq![(kv[k as int], prefix@ + connector(top, last))]);
    }
    let mut next_prefix = String::new();
    if !top {
        next_prefix = owned(prefix);
        if last {
            push_str(&mut next_prefix, "   ");
        } else {
            push_str(&mut next_prefix, "\u{2502}  ");
        }
    }
    proof {
        if top {
            assert(next_prefix@ =~= child_prefix(top, last, prefix@));
        } else {
            assert(next_prefix@ =~= child_prefix(top, last, prefix@));
        }
    }
    let ghost mid = row_views(out@);
    rows_under_exec(tasks, Some(tasks[i].task_id.as_str()), next_prefix.as_str(), fuel, out);
    let ghost after_sub = row_views(out@);
    rows_from_exec(tasks, parent, prefix, ks, k + 1, fuel, out);
    proof {
        assert(row_views(out@) =~= row_views(old(out)@) + rows_from(
            tasks@,
            pv,
            prefix@,
            kv,
            k as int,
            fuel as nat,
        ));
    }
}

/// The rows of the task tree: each task's position and the connector
/// prefix drawn before its title.
pub fn task_tree(tasks: &Vec<ProjectTaskNode>) -> (r: Vec<(usize, String)>)
    ensures
        row_views(r@) == tree_rows(tasks@),
{
    let mut out: Vec<(usize, String)> = Vec::new();
    proof {
        assert(row_views(out@) =~= Seq::<(int, Seq<char>)>::empty());
        reveal_strlit("");
        assert(""@ =~= Seq::<char>::empty());
    }
    rows_under_exec(tasks, None, "", tasks.len(), &mut out);
    proof {
        assert(row_views(out@) =~= tree_rows(tasks@));
    }
    out
}

// ---------------------------------------------------------------------------
// Labels.

pub open spec fn task_status_text(s: ProjectTaskStatus) -> Seq<char> {
    match s {
        ProjectTaskStatus::Pending => "\u{5f85}\u{6267}\u{884c}"@,
        ProjectTaskStatus::InProgress => "\u{6267}\u{884c}\u{4e2d}"@,
        ProjectTaskStatus::Completed => "\u{5df2}\u{5b8c}\u{6210}"@,
        ProjectTaskStatus::Rejected => "\u{5df2}\u{62d2}\u{7edd}"@,
        ProjectTaskStatus::Blocked => "\u{5df2}\u{963b}\u{585e}"@,
        ProjectTaskStatus::Failed => "\u{5931}\u{8d25}"@,
    }
}

/// The label of a task state.
pub fn task_status_label(status: ProjectTaskStatus) -> (r: &'static str)
    ensures
        r@ == task_status_text(status),
{
    match status {
        ProjectTaskStatus::Pending => "\u{5f85}\u{6267}\u{884c}",
        ProjectTaskStatus::InProgress => "\u{6267}\u{884c}\u{4e2d}",
        ProjectTaskStatus::Completed => "\u{5df2}\u{5b8c}\u{6210}",
        ProjectTaskStatus::Rejected => "\u{5df2}\u{62d2}\u{7edd}",
        ProjectTaskStatus::Blocked => "\u{5df2}\u{963b}\u{585e}",
        ProjectTaskStatus::Failed => "\u{5931}\u{8d25}",
    }
}

pub open spec fn evaluation_text(v: ProjectTaskEvaluationVerdict) -> Seq<char> {
    match v {
        ProjectTaskEvaluationVerdict::Passed => "\u{901a}\u{8fc7}"@,
        ProjectTaskEvaluationVerdict::NeedsRevision => "\u{9700}\u{4fee}\u{8ba2}"@,
        ProjectTaskEvaluationVerdict::Failed => "\u{672a}\u{901a}\u{8fc7}"@,
    }
}

/// The label of an evaluation verdict.
pub fn evaluation_label(verdict: ProjectTaskEvaluationVerdict) -> (r: &'static str)
    ensures
        r@ == evaluation_text(verdict),
{
    match verdict {
        ProjectTaskEvaluationVerdict::Passed => "\u{901a}\u{8fc7}",
        ProjectTaskEvaluationVerdict::NeedsRevision => "\u{9700}\u{4fee}\u{8ba2}",
        ProjectTaskEvaluationVerdict::Failed => "\u{672a}\u{901a}\u{8fc7}",
    }
}

pub open spec fn result_status_text(s: ProjectTaskResultStatus) -> Seq<char> {
    match s {
        ProjectTaskResultStatus::Completed => "\u{5df2}\u{5b8c}\u{6210}"@,
        ProjectTaskResultStatus::Rejected => "\u{5df2}\u{62d2}\u{7edd}"@,
        ProjectTaskResultStatus::BlockedMissingTool => "\u{7f3a}\u{5c11}\u{5de5}\u{5177}"@,
        ProjectTaskResultStatus::Failed => "\u{5931}\u{8d25}"@,
    }
}

/// The label of a recorded result's status.
pub fn result_status_label(status: ProjectTaskResultStatus) -> (r: &'static str)
    ensures
        r@ == result_status_text(status),
{
    match status {
        ProjectTaskResultStatus::Completed => "\u{5df2}\u{5b8c}\u{6210}",
        ProjectTaskResultStatus::Rejected => "\u{5df2}\u{62d2}\u{7edd}",
        ProjectTaskResultStatus::BlockedMissingTool => "\u{7f3a}\u{5c11}\u{5de5}\u{5177}",
        ProjectTaskResultStatus::Failed => "\u{5931}\u{8d25}",
    }
}

pub open spec fn executor_text(e: ProjectTaskExecutor) -> Seq<char> {
    match e {
        ProjectTaskExecutor::Unassigned => "\u{672a}\u{5206}\u{914d}"@,
        ProjectTaskExecutor::MainAgent => "\u{4e3b} AGENT"@,
        ProjectTaskExecutor::ProjectAgent { agent_id } => "@"@ + agent_id@,
    }
}

/// Who executes a task, as the workbench names it.
pub fn executor_label(executor: &ProjectTaskExecutor) -> (r: String)
    ensures
        r@ == executor_text(*executor),
{
    match executor {
        ProjectTaskExecutor::Unassigned => owned("\u{672a}\u{5206}\u{914d}"),
        ProjectTaskExecutor::MainAgent => owned("\u{4e3b} AGENT"),
        ProjectTaskExecutor::ProjectAgent { agent_id } => {
            let mut s = owned("@");
            push_str(&mut s, agent_id.as_str());
            s
        },
    }
}

/// Where a task's execution stands.
pub open spec fn execution_flow_text(t: ProjectTaskNode) -> Seq<char> {
    match t.execution_task_id {
        Some(id) => if t.status == ProjectTaskStatus::InProgress {
            "\u{6267}\u{884c}\u{4e2d}"@ + " \u{b7} internal "@ + id@
        } else {
            task_status_text(t.status) + " \u{b7} internal "@ + id@
        },
        None => if t.status == ProjectTaskStatus::Pending {
            "\u{7b49}\u{5f85}\u{5206}\u{914d}\u{6267}\u{884c}\u{8005}"@
        } else {
            task_status_text(t.status)
        },
    }
}

pub fn execution_flow(task: &ProjectTaskNode) -> (r: String)
    ensures
        r@ == execution_flow_text(*task),
{
    match &task.execution_task_id {
        Some(id) => {
            let mut s = if task.status == ProjectTaskStatus::InProgress {
                owned("\u{6267}\u{884c}\u{4e2d}")
            } else {
                owned(task_status_label(task.status))
            };
            push_str(&mut s, " \u{b7} internal ");
            push_str(&mut s, id.as_str());
            s
        },
        None => if task.status == ProjectTaskStatus::Pending {
            owned("\u{7b49}\u{5f85}\u{5206}\u{914d}\u{6267}\u{884c}\u{8005}")
        } else {
            owned(task_status_label(task.status))
        },
    }
}

/// Why a task's worker conversation cannot be opened: the task must be
/// assigned to a project AGENT and bound to a worker session.
pub open spec fn conversation_unavailable_text(t: ProjectTaskNode, session: Option<Seq<char>>) -> Option<
    Seq<char>,
> {
    match t.executor {
        ProjectTaskExecutor::ProjectAgent { .. } => if session is Some {
            None
        } else {
            Some(
                "\u{8be5}\u{4efb}\u{52a1}\u{5c1a}\u{672a}\u{542f}\u{52a8}\u{6216} worker \u{4f1a}\u{8bdd}\u{5c1a}\u{672a}\u{7ed1}\u{5b9a}"@,
            )
        },
        _ => Some("\u{8be5}\u{4efb}\u{52a1}\u{5c1a}\u{672a}\u{5206}\u{914d}\u{9879}\u{76ee} AGENT"@),
    }
}

pub fn conversation_unavailable_reason(task: &ProjectTaskNode, session_thread_id: Option<&str>) -> (r:
    Option<String>)
    ensures
        match conversation_unavailable_text(
            *task,
            match session_thread_id {
                Some(s) => Some(s@),
                None => None,
            },
        ) {
            Some(t) => r is Some && r->Some_0@ == t,
            None => r is None,
        },
{
    match &task.executor {
        ProjectTaskExecutor::ProjectAgent { .. } => match session_thread_id {
            Some(_) => None,
            None => Some(
                owned(
                    "\u{8be5}\u{4efb}\u{52a1}\u{5c1a}\u{672a}\u{542f}\u{52a8}\u{6216} worker \u{4f1a}\u{8bdd}\u{5c1a}\u{672a}\u{7ed1}\u{5b9a}",
                ),
            ),
        },
        _ => Some(owned("\u{8be5}\u{4efb}\u{52a1}\u{5c1a}\u{672a}\u{5206}\u{914d}\u{9879}\u{76ee} AGENT")),
    }
}

/// A row of the task list: its name, description and the text it is
/// searched by.
pub fn task_item_texts(task: &ProjectTaskNode, tree_prefix: &str) -> (r: (String, String, String))
    ensures
        r.0@ == tree_prefix@ + task.title@,
        r.1@ == task_status_text(task.status) + " \u{b7} "@ + executor_text(task.executor),
        r.2@ == task.task_id@ + " "@ + task.title@,
{
    let mut name = owned(tree_prefix);
    push_str(&mut name, task.title.as_str());
    let mut description = owned(task_status_label(task.status));
    push_str(&mut description, " \u{b7} ");
    let executor = executor_label(&task.executor);
    push_str(&mut description, executor.as_str());
    let mut search = owned(task.task_id.as_str());
    push_str(&mut search, " ");
    push_str(&mut search, task.title.as_str());
    (name, description, search)
}

/// Whether the task at `i` is named `id`.
pub open spec fn task_named(tasks: Seq<ProjectTaskNode>, i: int, id: Seq<char>) -> bool {
    0 <= i < tasks.len() && tasks[i].task_id@ == id
}

/// The position of the task to select first: the first one named, if any
/// is, else the first.
pub fn selected_task_index(tasks: &Vec<ProjectTaskNode>, selected: Option<&str>) -> (r: usize)
    ensures
        selected is None ==> r == 0,
        selected is Some ==> (exists|i: int| task_named(tasks@, i, selected->Some_0@)) ==> (
        task_named(tasks@, r as int, selected->Some_0@) && forall|j: int|
            0 <= j < r ==> !task_named(tasks@, j, selected->Some_0@)),
        selected is Some ==> !(exists|i: int| task_named(tasks@, i, selected->Some_0@)) ==> r == 0,
{
    match selected {
        None => 0,
        Some(id) => {
            for i in 0..tasks.len()
                invariant
                    selected == Some(id),
                    forall|j: int| 0 <= j < i ==> !task_named(tasks@, j, id@),
            {
                if same_text(tasks[i].task_id.as_str(), id) {
                    proof {
                        assert(task_named(tasks@, i as int, selected->Some_0@));
                        assert(exists|k: int| task_named(tasks@, k, selected->Some_0@));
                    }
                    return i;
                }
            }
            proof {
                assert forall|i: int| !task_named(tasks@, i, id@) by {
                    if 0 <= i < tasks@.len() {
                        assert(!task_named(tasks@, i, id@));
                    }
                }
            }
            0
        },
    }
}

// ---------------------------------------------------------------------------
// The detail pane.

/// How a line of the detail pane is drawn.
#[derive(Clone, Copy, Debug, Eq, PartialEq, Structural)]
pub enum DetailStyle {
    Plain,
    Bold,
    Dim,
    Heading,
    Error,
}

/// A project AGENT as the workbench lists it.
#[derive(Clone, Debug, Eq, PartialEq)]
pub struct RosterAgent {
    pub id: String,
    pub description: String,
    pub enabled: bool,
}

pub type DetailLine = (Seq<char>, DetailStyle);

pub open spec fn detail_views(v: Seq<(String, DetailStyle)>) -> Seq<DetailLine> {
    v.map_values(|l: (String, DetailStyle)| (l.0@, l.1))
}

/// One line per item, each after `prefix`.
pub open spec fn prefixed(prefix: Seq<char>, items: Seq<Seq<char>>, style: DetailStyle) -> Seq<
    DetailLine,
> {
    Seq::new(items.len(), |i: int| (prefix + items[i], style))
}

/// `@id` of each enabled agent, in order.
pub open spec fn enabled_mentions(agents: Seq<RosterAgent>) -> Seq<Seq<char>>
    decreases agents.len(),
{
    if agents.len() == 0 {
        Seq::empty()
    } else if agents.last().enabled {
        enabled_mentions(agents.drop_last()).push("@"@ + agents.last().id@)
    } else {
        enabled_mentions(agents.drop_last())
    }
}

pub open spec fn blank_line() -> DetailLine {
    (Seq::empty(), DetailStyle::Plain)
}

pub open spec fn requirement_part(t: ProjectTaskNode) -> Seq<DetailLine> {
    if t.requirements@.len() == 0 {
        Seq::empty()
    } else {
        seq![blank_line(), ("\u{8ffd}\u{52a0}\u{8981}\u{6c42}"@, DetailStyle::Heading)] + prefixed(
            "\u{2022} "@,
            texts(t.requirements@),
            DetailStyle::Plain,
        )
    }
}

pub open spec fn child_texts(cs: Seq<crate::task_workspace::ProjectTaskSuggestedChild>) -> Seq<Seq<char>> {
    Seq::new(cs.len(), |i: int| cs[i].title@ + " \u{b7} "@ + cs[i].objective@)
}

pub open spec fn result_part(t: ProjectTaskNode) -> Seq<DetailLine> {
    match t.result {
        None => Seq::empty(),
        Some(r) => seq![
            blank_line(),
            ("\u{7ed3}\u{679c} \u{b7} "@ + result_status_text(r.status), DetailStyle::Heading),
            (r.summary@, DetailStyle::Plain),
        ] + prefixed("\u{8bc1}\u{636e} \u{b7} "@, texts(r.evidence@), DetailStyle::Dim) + prefixed(
            "\u{4ea7}\u{7269} \u{b7} "@,
            texts(r.artifacts@),
            DetailStyle::Dim,
        ) + match r.error {
            Some(e) => seq![("\u{9519}\u{8bef} \u{b7} "@ + e@, DetailStyle::Error)],
            None => Seq::empty(),
        } + if r.suggested_children@.len() == 0 {
            Seq::empty()
        } else {
            seq![("\u{5efa}\u{8bae}\u{5b50}\u{4efb}\u{52a1}"@, DetailStyle::Heading)] + prefixed(
                "\u{2022} "@,
                child_texts(r.suggested_children@),
                DetailStyle::Plain,
            )
        },
    }
}

pub open spec fn evaluation_part(t: ProjectTaskNode) -> Seq<DetailLine> {
    match t.evaluation {
        None => Seq::empty(),
        Some(e) => seq![
            blank_line(),
            ("\u{8bc4}\u{6d4b} \u{b7} "@ + evaluation_text(e.verdict), DetailStyle::Heading),
            (e.summary@, DetailStyle::Plain),
        ] + prefixed("\u{8bc4}\u{6d4b}\u{8bc1}\u{636e} \u{b7} "@, texts(e.evidence@), DetailStyle::Dim),
    }
}

/// The detail of a task: title, id, state and executor; objective;
/// requirements; execution; result with its evidence, artifacts, error and
/// suggested children; evaluation; and the enabled executors.
pub open spec fn detail_lines(t: ProjectTaskNode, agents: Seq<RosterAgent>) -> Seq<DetailLine> {
    seq![
        (t.title@, DetailStyle::Bold),
        ("task "@ + t.task_id@, DetailStyle::Dim),
        (task_status_text(t.status) + " \u{b7} "@ + executor_text(t.executor), DetailStyle::Plain),
        blank_line(),
        ("\u{76ee}\u{6807}"@, DetailStyle::Heading),
        (t.objective@, DetailStyle::Plain),
    ] + requirement_part(t) + seq![
        blank_line(),
        ("\u{6267}\u{884c}\u{6d41}"@, DetailStyle::Heading),
        (execution_flow_text(t), DetailStyle::Plain),
    ] + result_part(t) + evaluation_part(t) + seq![
        (
            "\u{53ef}\u{7528}\u{6267}\u{884c}\u{8005}\u{ff1a}"@ + crate::checkpoint::joined(
                enabled_mentions(agents),
                ", "@,
            ),
            DetailStyle::Dim,
        ),
    ]
}

fn push_line(out: &mut Vec<(String, DetailStyle)>, text: String, style: DetailStyle)
    ensures
        detail_views(final(out)@) == detail_views(old(out)@).push((text@, style)),
{
    out.push((text, style));
    proof {
        assert(detail_views(out@) =~= detail_views(old(out)@).push((text@, style)));
    }
}

fn push_prefixed(
    out: &mut Vec<(String, DetailStyle)>,
    prefix: &str,
    items: &Vec<String>,
    style: DetailStyle,
)
    ensures
        detail_views(final(out)@) == detail_views(old(out)@) + prefixed(prefix@, texts(items@), style),
{
    let ghost start = detail_views(out@);
    for i in 0..items.len()
        invariant
            detail_views(out@) == start + prefixed(prefix@, texts(items@).take(i as int), style),
    {
        let mut line = owned(prefix);
        push_str(&mut line, items[i].as_str());
        push_line(out, line, style);
        proof {
            assert(prefixed(prefix@, texts(items@).take(i + 1), style) =~= prefixed(
                prefix@,
                texts(items@).take(i as int),
                style,
            ).push((prefix@ + items@[i as int]@, style)));
        }
    }
    proof {
        assert(texts(items@).take(items@.len() as int) =~= texts(items@));
    }
}

fn enabled_agent_mentions(agents: &Vec<RosterAgent>) -> (r: Vec<String>)
    ensures
        texts(r@) == enabled_mentions(agents@),
{
    let mut out: Vec<String> = Vec::new();
    proof {
        assert(agents@.take(0) =~= Seq::<RosterAgent>::empty());
        assert(texts(out@) =~= Seq::<Seq<char>>::empty());
    }
    for i in 0..agents.len()
        invariant
            texts(out@) == enabled_mentions(agents@.take(i as int)),
    {
        proof {
            assert(agents@.take(i + 1).drop_last() =~= agents@.take(i as int));
        }
        if agents[i].enabled {
            let mut mention = owned("@");
            push_str(&mut mention, agents[i].id.as_str());
            let ghost before = texts(out@);
            let ghost m = mention@;
            out.push(mention);
            proof {
                assert(texts(out@) =~= before.push(m));
            }
        }
    }
    proof {
        assert(agents@.take(agents@.len() as int) =~= agents@);
    }
    out
}

fn push_requirement_part(out: &mut Vec<(String, DetailStyle)>, task: &ProjectTaskNode)
    ensures
        detail_views(final(out)@) == detail_views(old(out)@) + requirement_part(*task),
{
    let ghost head = detail_views(out@);
    if task.requirements.len() > 0 {
        push_line(out, String::new(), DetailStyle::Plain);
        push_line(out, owned("\u{8ffd}\u{52a0}\u{8981}\u{6c42}"), DetailStyle::Heading);
        push_prefixed(out, "\u{2022} ", &task.requirements, DetailStyle::Plain);
    }
    proof {
        assert(detail_views(out@) =~= head + requirement_part(*task));
    }
}

fn suggested_child_lines(children: &Vec<crate::task_workspace::ProjectTaskSuggestedChild>) -> (r: Vec<String>)
    ensures
        texts(r@) == child_texts(children@),
{
    let mut child_lines: Vec<String> = Vec::new();
    for i in 0..children.len()
        invariant
            child_lines@.len() == i,
            forall|j: int| 0 <= j < i ==> (#[trigger] child_lines@[j])@ == children@[j].title@ + " \u{b7} "@ + children@[j].objective@,
    {
        let child = &children[i];
        let mut line = child.title.clone();
        push_str(&mut line, " \u{b7} ");
        push_str(&mut line, child.objective.as_str());
        child_lines.push(line);
    }
    proof {
        assert(texts(child_lines@) =~= child_texts(children@));
    }
    child_lines
}

fn push_result_part(out: &mut Vec<(String, DetailStyle)>, task: &ProjectTaskNode)
    ensures
        detail_views(final(out)@) == detail_views(old(out)@) + result_part(*task),
{
    let ghost head = detail_views(out@);
    match &task.result {
        Some(result) => {
            push_line(out, String::new(), DetailStyle::Plain);
            let mut heading = owned("\u{7ed3}\u{679c} \u{b7} ");
            push_str(&mut heading, result_status_label(result.status));
            push_line(out, heading, DetailStyle::Heading);
            push_line(out, result.summary.clone(), DetailStyle::Plain);
            let ghost a = detail_views(out@);
            push_prefixed(out, "\u{8bc1}\u{636e} \u{b7} ", &result.evidence, DetailStyle::Dim);
            push_prefixed(out, "\u{4ea7}\u{7269} \u{b7} ", &result.artifacts, DetailStyle::Dim);
            let ghost b = detail_views(out@);
            match &result.error {
                Some(e) => {
                    let mut line = owned("\u{9519}\u{8bef} \u{b7} ");
                    push_str(&mut line, e.as_str());
                    push_line(out, line, DetailStyle::Error);
                },
                None => {},
            }
            let ghost c = detail_views(out@);
            if result.suggested_children.len() > 0 {
                push_line(out, owned("\u{5efa}\u{8bae}\u{5b50}\u{4efb}\u{52a1}"), DetailStyle::Heading);
                let child_lines = suggested_child_lines(&result.suggested_children);
                push_prefixed(out, "\u{2022} ", &child_lines, DetailStyle::Plain);
            }
            proof {
                reveal_strlit("");
                assert(detail_views(out@) =~= head + result_part(*task));
            }
        },
        None => {
            proof {
                assert(detail_views(out@) =~= head + result_part(*task));
            }
        },
    }
}

fn push_evaluation_part(out: &mut Vec<(String, DetailStyle)>, task: &ProjectTaskNode)
    ensures
        detail_views(final(out)@) == detail_views(old(out)@) + evaluation_part(*task),
{
    let ghost head = detail_views(out@);
    match &task.evaluation {
        Some(evaluation) => {
            push_line(out, String::new(), DetailStyle::Plain);
            let mut heading = owned("\u{8bc4}\u{6d4b} \u{b7} ");
            push_str(&mut heading, evaluation_label(evaluation.verdict));
            push_line(out, heading, DetailStyle::Heading);
            push_line(out, evaluation.summary.clone(), DetailStyle::Plain);
            push_prefixed(out, "\u{8bc4}\u{6d4b}\u{8bc1}\u{636e} \u{b7} ", &evaluation.evidence, DetailStyle::Dim);
            proof {
                reveal_strlit("");
            }
        },
        None => {},
    }
    proof {
        assert(detail_views(out@) =~= head + evaluation_part(*task));
    }
}

/// The lines of the detail pane for `task`.
pub fn task_detail_lines(task: &ProjectTaskNode, agents: &Vec<RosterAgent>) -> (r: Vec<
    (String, DetailStyle),
>)
    ensures
        detail_views(r@) == detail_lines(*task, agents@),
{
    let mut out: Vec<(String, DetailStyle)> = Vec::new();
    push_line(&mut out, task.title.clone(), DetailStyle::Bold);
    let mut id_line = owned("task ");
    push_str(&mut id_line, task.task_id.as_str());
    push_line(&mut out, id_line, DetailStyle::Dim);
    let mut state_line = owned(task_status_label(task.status));
    push_str(&mut state_line, " \u{b7} ");
    let executor = executor_label(&task.executor);
    push_str(&mut state_line, executor.as_str());
    push_line(&mut out, state_line, DetailStyle::Plain);
    push_line(&mut out, String::new(), DetailStyle::Plain);
    push_line(&mut out, owned("\u{76ee}\u{6807}"), DetailStyle::Heading);
    push_line(&mut out, task.objective.clone(), DetailStyle::Plain);
    let ghost head = detail_views(out@);
    push_requirement_part(&mut out, task);
    push_line(&mut out, String::new(), DetailStyle::Plain);
    push_line(&mut out, owned("\u{6267}\u{884c}\u{6d41}"), DetailStyle::Heading);
    push_line(&mut out, execution_flow(task), DetailStyle::Plain);
    push_result_part(&mut out, task);
    push_evaluation_part(&mut out, task);
    let mentions = enabled_agent_mentions(agents);
    let joined = crate::checkpoint::join_texts(&mentions, ", ");
    let mut executors = owned("\u{53ef}\u{7528}\u{6267}\u{884c}\u{8005}\u{ff1a}");
    push_str(&mut executors, joined.as_str());
    push_line(&mut out, executors, DetailStyle::Dim);
    proof {
        reveal_strlit("");
        assert(detail_views(out@) =~= detail_lines(*task, agents@));
    }
    out
}

/// The detail pane when there is no task yet.
pub open spec fn empty_detail_lines(agent_count: nat) -> Seq<DetailLine> {
    seq![
        ("\u{5c1a}\u{65e0}\u{4efb}\u{52a1}"@, DetailStyle::Bold),
        ("\u{4ece}\u{5de6}\u{4fa7}\u{201c}\u{65b0}\u{5efa}\u{6839}\u{4efb}\u{52a1}\u{201d}\u{5f00}\u{59cb}\u{3002}"@, DetailStyle::Dim),
        ("\u{5df2}\u{6ce8}\u{518c}\u{6267}\u{884c}\u{8005}\u{ff1a}"@ + crate::text::decimal(agent_count), DetailStyle::Dim),
    ]
}

pub fn empty_task_detail_lines(agents: &Vec<RosterAgent>) -> (r: Vec<(String, DetailStyle)>)
    ensures
        detail_views(r@) == empty_detail_lines(agents@.len()),
{
    let mut out: Vec<(String, DetailStyle)> = Vec::new();
    push_line(&mut out, owned("\u{5c1a}\u{65e0}\u{4efb}\u{52a1}"), DetailStyle::Bold);
    push_line(
        &mut out,
        owned("\u{4ece}\u{5de6}\u{4fa7}\u{201c}\u{65b0}\u{5efa}\u{6839}\u{4efb}\u{52a1}\u{201d}\u{5f00}\u{59cb}\u{3002}"),
        DetailStyle::Dim,
    );
    let mut count = owned("\u{5df2}\u{6ce8}\u{518c}\u{6267}\u{884c}\u{8005}\u{ff1a}");
    crate::text::push_decimal(&mut count, agents.len() as u64);
    push_line(&mut out, count, DetailStyle::Dim);
    proof {
        assert(detail_views(out@) =~= empty_detail_lines(agents@.len()));
    }
    out
}

} // verus!
