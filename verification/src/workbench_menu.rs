//! The menu of the task workbench: the action that creates a root task,
//! one row per task of the tree, and the actions on the highlighted task;
//! and the picker of the executor that a task is handed to.

use crate::checkpoint::SpanStyle;
use crate::task_workspace::{ProjectTaskExecutor, ProjectTaskNode, ProjectTaskStatus};
use crate::text::{owned, push_str, same_text};
use crate::workbench::{
    conversation_unavailable_reason, conversation_unavailable_text, executor_text,
    kids, kids_upto, rows_from, rows_under, row_views, task_item_texts, task_status_text,
    task_tree, tree_rows, RosterAgent,
};
use vstd::prelude::*;

verus! {

broadcast use vstd::string::group_string_axioms;

/// What choosing a menu item does.
#[derive(Clone, Copy, Debug, Eq, PartialEq, Structural)]
pub enum MenuAction {
    /// Nothing: a section heading.
    Nothing,
    PromptCreateRoot,
    /// Open the worker conversation of the item's own task.
    OpenConversation,
    /// Open the worker conversation of the highlighted task.
    OpenSelectedConversation,
    PromptAppendRequirement,
    PromptCreateChild,
    PromptStartExecution,
    Refresh,
}

/// One item of the workbench menu.
#[derive(Clone, Debug, Eq, PartialEq)]
pub struct MenuItem {
    pub name: String,
    pub description: Option<String>,
    pub search_value: Option<String>,
    pub is_disabled: bool,
    pub disabled_reason: Option<String>,
    pub dismiss_on_select: bool,
    pub action: MenuAction,
    /// For a row of the tree: the position of its task in the workspace.
    pub task_row: Option<usize>,
    /// For a row of the tree: the task that highlighting it selects.
    pub task_index: Option<usize>,
}

pub struct MenuItemModel {
    pub name: Seq<char>,
    pub description: Option<Seq<char>>,
    pub search_value: Option<Seq<char>>,
    pub is_disabled: bool,
    pub disabled_reason: Option<Seq<char>>,
    pub dismiss_on_select: bool,
    pub action: MenuAction,
    pub task_row: Option<int>,
    pub task_index: Option<int>,
}

pub open spec fn opt_view(o: Option<String>) -> Option<Seq<char>> {
    match o {
        Some(s) => Some(s@),
        None => None,
    }
}

pub open spec fn opt_int(o: Option<usize>) -> Option<int> {
    match o {
        Some(i) => Some(i as int),
        None => None,
    }
}

impl View for MenuItem {
    type V = MenuItemModel;

    open spec fn view(&self) -> MenuItemModel {
        MenuItemModel {
            name: self.name@,
            description: opt_view(self.description),
            search_value: opt_view(self.search_value),
            is_disabled: self.is_disabled,
            disabled_reason: opt_view(self.disabled_reason),
            dismiss_on_select: self.dismiss_on_select,
            action: self.action,
            task_row: opt_int(self.task_row),
            task_index: opt_int(self.task_index),
        }
    }
}

pub open spec fn item_views(v: Seq<MenuItem>) -> Seq<MenuItemModel> {
    v.map_values(|m: MenuItem| m@)
}

/// The first position at or after `i` of a task named `id`, or -1.
pub open spec fn position_from(tasks: Seq<ProjectTaskNode>, id: Seq<char>, i: int) -> int
    decreases tasks.len() - i,
{
    if i < 0 || i >= tasks.len() {
        -1
    } else if tasks[i].task_id@ == id {
        i
    } else {
        position_from(tasks, id, i + 1)
    }
}

/// The first position of a task named `id`, or 0 when there is none.
pub open spec fn position_or_zero(tasks: Seq<ProjectTaskNode>, id: Seq<char>) -> int {
    let p = position_from(tasks, id, 0);
    if p < 0 {
        0
    } else {
        p
    }
}

proof fn lemma_position_from(tasks: Seq<ProjectTaskNode>, id: Seq<char>, i: int)
    requires
        0 <= i,
    ensures
        position_from(tasks, id, i) == -1 || (i <= position_from(tasks, id, i) < tasks.len()
            && tasks[position_from(tasks, id, i)].task_id@ == id),
    decreases tasks.len() - i,
{
    if i < tasks.len() && tasks[i].task_id@ != id {
        lemma_position_from(tasks, id, i + 1);
    }
}

/// The first position of a task named `id`, or 0.
pub fn position_of(tasks: &Vec<ProjectTaskNode>, id: &str) -> (r: usize)
    ensures
        r == position_or_zero(tasks@, id@),
        tasks@.len() > 0 ==> r < tasks@.len(),
{
    let mut i: usize = 0;
    while i < tasks.len()
        invariant
            i <= tasks.len(),
            position_from(tasks@, id@, 0) == position_from(tasks@, id@, i as int),
        decreases tasks.len() - i,
    {
        if same_text(tasks[i].task_id.as_str(), id) {
            proof {
                lemma_position_from(tasks@, id@, 0);
            }
            return i;
        }
        i = i + 1;
    }
    0
}

/// The task selected when the workbench opens: the one named, if any is,
/// else the first.
pub open spec fn selected_position(tasks: Seq<ProjectTaskNode>, selected: Option<Seq<char>>) -> int {
    match selected {
        Some(id) => position_or_zero(tasks, id),
        None => 0,
    }
}

pub open spec fn session_of(sessions: Seq<Option<String>>, i: int) -> Option<Seq<char>> {
    if 0 <= i < sessions.len() {
        opt_view(sessions[i])
    } else {
        None
    }
}

fn session_at(sessions: &Vec<Option<String>>, i: usize) -> (r: Option<&str>)
    ensures
        match r {
            Some(s) => session_of(sessions@, i as int) == Some(s@),
            None => session_of(sessions@, i as int) is None,
        },
{
    if i < sessions.len() {
        match &sessions[i] {
            Some(s) => Some(s.as_str()),
            None => None,
        }
    } else {
        None
    }
}

pub open spec fn create_root_item() -> MenuItemModel {
    MenuItemModel {
        name: "\u{ff0b} \u{65b0}\u{5efa}\u{6839}\u{4efb}\u{52a1}"@,
        description: Some("\u{5efa}\u{7acb}\u{65b0}\u{7684}\u{4efb}\u{52a1}\u{76ee}\u{6807}\u{3002}"@),
        search_value: None,
        is_disabled: false,
        disabled_reason: None,
        dismiss_on_select: true,
        action: MenuAction::PromptCreateRoot,
        task_row: None,
        task_index: None,
    }
}

/// The row of the task at `i`, drawn after `prefix`: it opens the task's
/// worker conversation when there is one, and says why not otherwise.
pub open spec fn task_row_item(
    tasks: Seq<ProjectTaskNode>,
    sessions: Seq<Option<String>>,
    i: int,
    prefix: Seq<char>,
) -> MenuItemModel {
    let t = tasks[i];
    let reason = conversation_unavailable_text(t, session_of(sessions, i));
    MenuItemModel {
        name: prefix + t.title@,
        description: Some(task_status_text(t.status) + " \u{b7} "@ + executor_text(t.executor)),
        search_value: Some(t.task_id@ + " "@ + t.title@),
        is_disabled: false,
        disabled_reason: reason,
        dismiss_on_select: reason is None,
        action: if reason is None {
            MenuAction::OpenConversation
        } else {
            MenuAction::Nothing
        },
        task_row: Some(i),
        task_index: Some(position_or_zero(tasks, t.task_id@)),
    }
}

pub open spec fn heading_item() -> MenuItemModel {
    MenuItemModel {
        name: "\u{5f53}\u{524d}\u{4efb}\u{52a1}"@,
        description: Some(
            "\u{5bf9}\u{9ad8}\u{4eae}\u{7684}\u{4efb}\u{52a1}\u{8282}\u{70b9}\u{6267}\u{884c}\u{64cd}\u{4f5c}"@,
        ),
        search_value: None,
        is_disabled: true,
        disabled_reason: None,
        dismiss_on_select: false,
        action: MenuAction::Nothing,
        task_row: None,
        task_index: None,
    }
}

pub open spec fn conversation_item(reason: Option<Seq<char>>) -> MenuItemModel {
    MenuItemModel {
        name: "  \u{6253}\u{5f00}\u{4f1a}\u{8bdd}"@,
        description: Some(
            "\u{8fdb}\u{5165}\u{8be5}\u{4efb}\u{52a1}\u{7684}\u{5b8c}\u{6574}\u{9879}\u{76ee} AGENT \u{5bf9}\u{8bdd}"@,
        ),
        search_value: None,
        is_disabled: false,
        disabled_reason: reason,
        dismiss_on_select: true,
        action: MenuAction::OpenSelectedConversation,
        task_row: None,
        task_index: None,
    }
}

pub open spec fn task_action_item(name: Seq<char>, description: Seq<char>, action: MenuAction) -> MenuItemModel {
    MenuItemModel {
        name: name,
        description: Some(description),
        search_value: Some(name + " "@ + description),
        is_disabled: false,
        disabled_reason: None,
        dismiss_on_select: true,
        action: action,
        task_row: None,
        task_index: None,
    }
}

/// The actions on the highlighted task, under their heading.
pub open spec fn selected_section(reason: Option<Seq<char>>) -> Seq<MenuItemModel> {
    seq![
        heading_item(),
        conversation_item(reason),
        task_action_item(
            "  \u{8ffd}\u{52a0}\u{8981}\u{6c42}"@,
            "\u{8865}\u{5145}\u{7ea6}\u{675f}\u{6216}\u{9a8c}\u{6536}\u{6761}\u{4ef6}"@,
            MenuAction::PromptAppendRequirement,
        ),
        task_action_item(
            "  \u{521b}\u{5efa}\u{5b50}\u{4efb}\u{52a1}"@,
            "\u{5728}\u{5f53}\u{524d}\u{8282}\u{70b9}\u{4e0b}\u{5efa}\u{7acb}\u{4efb}\u{52a1}"@,
            MenuAction::PromptCreateChild,
        ),
        task_action_item(
            "  \u{9009}\u{62e9}\u{6267}\u{884c}\u{8005}"@,
            "\u{628a}\u{5f53}\u{524d}\u{8282}\u{70b9}\u{4ea4}\u{7ed9}\u{9879}\u{76ee} AGENT"@,
            MenuAction::PromptStartExecution,
        ),
        task_action_item(
            "  \u{5237}\u{65b0}"@,
            "\u{91cd}\u{65b0}\u{8bfb}\u{53d6}\u{4efb}\u{52a1}\u{3001}\u{7ed3}\u{679c}\u{548c}\u{8bc4}\u{6d4b}"@,
            MenuAction::Refresh,
        ),
    ]
}

pub open spec fn row_items(
    tasks: Seq<ProjectTaskNode>,
    sessions: Seq<Option<String>>,
    rows: Seq<(int, Seq<char>)>,
) -> Seq<MenuItemModel> {
    rows.map_values(|r: (int, Seq<char>)| task_row_item(tasks, sessions, r.0, r.1))
}

/// The workbench menu: the root-task action, the rows of the task tree
/// and, when there are tasks, the actions on the highlighted one.
pub open spec fn menu_items(
    tasks: Seq<ProjectTaskNode>,
    sessions: Seq<Option<String>>,
    selected: Option<Seq<char>>,
) -> Seq<MenuItemModel> {
    let sel = selected_position(tasks, selected);
    seq![create_root_item()] + row_items(tasks, sessions, tree_rows(tasks)) + if tasks.len() > 0 {
        selected_section(conversation_unavailable_text(tasks[sel], session_of(sessions, sel)))
    } else {
        Seq::empty()
    }
}

/// Among the first `n` rows, the last whose task is the one at `sel`.
pub open spec fn last_row_of(
    tasks: Seq<ProjectTaskNode>,
    rows: Seq<(int, Seq<char>)>,
    sel: int,
    n: int,
) -> Option<int>
    decreases n,
{
    if n <= 0 || n > rows.len() {
        None
    } else if position_or_zero(tasks, tasks[rows[n - 1].0].task_id@) == sel {
        Some(n - 1)
    } else {
        last_row_of(tasks, rows, sel, n - 1)
    }
}

/// The item highlighted when the workbench opens: the row of the selected
/// task, after the root-task action.
pub open spec fn initial_item(tasks: Seq<ProjectTaskNode>, selected: Option<Seq<char>>) -> Option<int> {
    let rows = tree_rows(tasks);
    match last_row_of(tasks, rows, selected_position(tasks, selected), rows.len() as int) {
        Some(k) => Some(k + 1),
        None => None,
    }
}

proof fn lemma_kids_upto_bounded(tasks: Seq<ProjectTaskNode>, parent: Option<Seq<char>>, n: int)
    ensures
        forall|j: int|
            0 <= j < kids_upto(tasks, parent, n).len() ==> 0 <= #[trigger] kids_upto(
                tasks,
                parent,
                n,
            )[j] < tasks.len(),
    decreases n,
{
    if n <= 0 || n > tasks.len() {
    } else {
        lemma_kids_upto_bounded(tasks, parent, n - 1);
        let prev = kids_upto(tasks, parent, n - 1);
        let cur = kids_upto(tasks, parent, n);
        assert forall|j: int| 0 <= j < cur.len() implies 0 <= #[trigger] cur[j] < tasks.len() by {
            if j < prev.len() {
                assert(cur[j] == prev[j]);
            }
        }
    }
}

proof fn lemma_rows_under_bounded(
    tasks: Seq<ProjectTaskNode>,
    parent: Option<Seq<char>>,
    prefix: Seq<char>,
    fuel: nat,
)
    ensures
        forall|j: int|
            0 <= j < rows_under(tasks, parent, prefix, fuel).len() ==> 0 <= (#[trigger] rows_under(
                tasks,
                parent,
                prefix,
                fuel,
            )[j]).0 < tasks.len(),
    decreases fuel, 0nat,
{
    if fuel > 0 {
        lemma_kids_upto_bounded(tasks, parent, tasks.len() as int);
        let ks = kids(tasks, parent);
        assert forall|j: int| 0 <= j < ks.len() implies 0 <= #[trigger] ks[j] < tasks.len() by {
            assert(ks[j] == kids_upto(tasks, parent, tasks.len() as int)[j]);
        }
        lemma_rows_from_bounded(tasks, parent, prefix, ks, 0, (fuel - 1) as nat);
        assert(rows_under(tasks, parent, prefix, fuel) == rows_from(
            tasks,
            parent,
            prefix,
            ks,
            0,
            (fuel - 1) as nat,
        ));
    }
}

proof fn lemma_rows_from_bounded(
    tasks: Seq<ProjectTaskNode>,
    parent: Option<Seq<char>>,
    prefix: Seq<char>,
    ks: Seq<int>,
    k: int,
    fuel: nat,
)
    requires
        forall|j: int| 0 <= j < ks.len() ==> 0 <= #[trigger] ks[j] < tasks.len(),
    ensures
        forall|j: int|
            0 <= j < rows_from(tasks, parent, prefix, ks, k, fuel).len() ==> 0 <= (
            #[trigger] rows_from(tasks, parent, prefix, ks, k, fuel)[j]).0 < tasks.len(),
    decreases fuel, ks.len() - k + 1,
{
    if 0 <= k < ks.len() {
        let i = ks[k];
        let last = k + 1 == ks.len();
        let top = parent is None;
        let cp = crate::workbench::child_prefix(top, last, prefix);
        lemma_rows_under_bounded(tasks, Some(tasks[i].task_id@), cp, fuel);
        lemma_rows_from_bounded(tasks, parent, prefix, ks, k + 1, fuel);
        let here = seq![(i, prefix + crate::workbench::connector(top, last))];
        let below = rows_under(tasks, Some(tasks[i].task_id@), cp, fuel);
        let rest = rows_from(tasks, parent, prefix, ks, k + 1, fuel);
        let all = rows_from(tasks, parent, prefix, ks, k, fuel);
        assert(all == here + below + rest);
        assert forall|j: int| 0 <= j < all.len() implies 0 <= (#[trigger] all[j]).0 < tasks.len() by {
            if j == 0 {
            } else if j < 1 + below.len() {
                assert(all[j] == below[j - 1]);
            } else {
                assert(all[j] == rest[j - 1 - below.len()]);
            }
        }
    }
}

/// The menu of the workbench and what it highlights at first.
#[derive(Clone, Debug)]
pub struct WorkspaceMenu {
    pub items: Vec<MenuItem>,
    /// The item highlighted at first, if the selected task has a row.
    pub initial_selected: Option<usize>,
    /// The task whose detail is shown at first.
    pub selected_task: usize,
}

fn plain_item(name: &str, description: &str, action: MenuAction) -> (r: MenuItem)
    ensures
        r@ == task_action_item(name@, description@, action),
{
    let mut search = owned(name);
    push_str(&mut search, " ");
    push_str(&mut search, description);
    MenuItem {
        name: owned(name),
        description: Some(owned(description)),
        search_value: Some(search),
        is_disabled: false,
        disabled_reason: None,
        dismiss_on_select: true,
        action,
        task_row: None,
        task_index: None,
    }
}

fn row_item(
    tasks: &Vec<ProjectTaskNode>,
    sessions: &Vec<Option<String>>,
    i: usize,
    prefix: &str,
) -> (r: MenuItem)
    requires
        i < tasks.len(),
    ensures
        r@ == task_row_item(tasks@, sessions@, i as int, prefix@),
{
    let task = &tasks[i];
    let (name, description, search) = task_item_texts(task, prefix);
    let reason = conversation_unavailable_reason(task, session_at(sessions, i));
    let available = reason.is_none();
    let task_index = position_of(tasks, task.task_id.as_str());
    MenuItem {
        name,
        description: Some(description),
        search_value: Some(search),
        is_disabled: false,
        disabled_reason: reason,
        dismiss_on_select: available,
        action: if available {
            MenuAction::OpenConversation
        } else {
            MenuAction::Nothing
        },
        task_row: Some(i),
        task_index: Some(task_index),
    }
}

/// Lays out the workbench menu for `tasks`, whose worker sessions are
/// `sessions` (by position), highlighting the task named `selected_task_id`.
pub fn workspace_menu(
    tasks: &Vec<ProjectTaskNode>,
    sessions: &Vec<Option<String>>,
    selected_task_id: Option<&str>,
) -> (r: WorkspaceMenu)
    ensures
        item_views(r.items@) == menu_items(
            tasks@,
            sessions@,
            match selected_task_id {
                Some(s) => Some(s@),
                None => None,
            },
        ),
        opt_int(r.initial_selected) == initial_item(
            tasks@,
            match selected_task_id {
                Some(s) => Some(s@),
                None => None,
            },
        ),
        r.selected_task == selected_position(
            tasks@,
            match selected_task_id {
                Some(s) => Some(s@),
                None => None,
            },
        ),
{
    let ghost selected = match selected_task_id {
        Some(s) => Some(s@),
        None => None,
    };
    let sel: usize = match selected_task_id {
        Some(id) => position_of(tasks, id),
        None => 0,
    };
    let root = MenuItem {
        name: owned("\u{ff0b} \u{65b0}\u{5efa}\u{6839}\u{4efb}\u{52a1}"),
        description: Some(owned("\u{5efa}\u{7acb}\u{65b0}\u{7684}\u{4efb}\u{52a1}\u{76ee}\u{6807}\u{3002}")),
        search_value: None,
        is_disabled: false,
        disabled_reason: None,
        dismiss_on_select: true,
        action: MenuAction::PromptCreateRoot,
        task_row: None,
        task_index: None,
    };
    let mut items: Vec<MenuItem> = vec![root];
    let rows = task_tree(tasks);
    let ghost rs = tree_rows(tasks@);
    proof {
        lemma_rows_under_bounded(tasks@, None, Seq::empty(), tasks@.len());
        assert(row_views(rows@) == rs);
    }
    let mut initial: Option<usize> = None;
    let mut k: usize = 0;
    while k < rows.len()
        invariant
            k <= rows.len(),
            row_views(rows@) == rs,
            rs == tree_rows(tasks@),
            forall|j: int| 0 <= j < rs.len() ==> 0 <= (#[trigger] rs[j]).0 < tasks@.len(),
            sel == selected_position(tasks@, selected),
            items@.len() == k + 1,
            item_views(items@) == seq![create_root_item()] + row_items(
                tasks@,
                sessions@,
                rs.take(k as int),
            ),
            opt_int(initial) == match last_row_of(tasks@, rs, sel as int, k as int) {
                Some(x) => Some(x + 1),
                None => None::<int>,
            },
        decreases rows.len() - k,
    {
        let row_index = rows[k].0;
        proof {
            assert(rs[k as int].0 == row_index as int);
            assert(rs[k as int].1 == rows@[k as int].1@);
        }
        let item = row_item(tasks, sessions, row_index, rows[k].1.as_str());
        let ghost before = items@;
        if item.task_index == Some(sel) {
            initial = Some(items.len());
        }
        items.push(item);
        proof {
            assert(item_views(items@) =~= item_views(before).push(item@));
            assert(rs.take(k + 1) =~= rs.take(k as int).push(rs[k as int]));
            assert(row_items(tasks@, sessions@, rs.take(k + 1)) =~= row_items(
                tasks@,
                sessions@,
                rs.take(k as int),
            ).push(task_row_item(tasks@, sessions@, rs[k as int].0, rs[k as int].1)));
        }
        k = k + 1;
    }
    proof {
        assert(rs.take(rs.len() as int) =~= rs);
    }
    if tasks.len() > 0 {
        let ghost before = item_views(items@);
        let heading = MenuItem {
            name: owned("\u{5f53}\u{524d}\u{4efb}\u{52a1}"),
            description: Some(
                owned(
                    "\u{5bf9}\u{9ad8}\u{4eae}\u{7684}\u{4efb}\u{52a1}\u{8282}\u{70b9}\u{6267}\u{884c}\u{64cd}\u{4f5c}",
                ),
            ),
            search_value: None,
            is_disabled: true,
            disabled_reason: None,
            dismiss_on_select: false,
            action: MenuAction::Nothing,
            task_row: None,
            task_index: None,
        };
        let reason = conversation_unavailable_reason(&tasks[sel], session_at(sessions, sel));
        let conversation = MenuItem {
            name: owned("  \u{6253}\u{5f00}\u{4f1a}\u{8bdd}"),
            description: Some(
                owned(
                    "\u{8fdb}\u{5165}\u{8be5}\u{4efb}\u{52a1}\u{7684}\u{5b8c}\u{6574}\u{9879}\u{76ee} AGENT \u{5bf9}\u{8bdd}",
                ),
            ),
            search_value: None,
            is_disabled: false,
            disabled_reason: reason,
            dismiss_on_select: true,
            action: MenuAction::OpenSelectedConversation,
            task_row: None,
            task_index: None,
        };
        let a1 = plain_item(
            "  \u{8ffd}\u{52a0}\u{8981}\u{6c42}",
            "\u{8865}\u{5145}\u{7ea6}\u{675f}\u{6216}\u{9a8c}\u{6536}\u{6761}\u{4ef6}",
            MenuAction::PromptAppendRequirement,
        );
        let a2 = plain_item(
            "  \u{521b}\u{5efa}\u{5b50}\u{4efb}\u{52a1}",
            "\u{5728}\u{5f53}\u{524d}\u{8282}\u{70b9}\u{4e0b}\u{5efa}\u{7acb}\u{4efb}\u{52a1}",
            MenuAction::PromptCreateChild,
        );
        let a3 = plain_item(
            "  \u{9009}\u{62e9}\u{6267}\u{884c}\u{8005}",
            "\u{628a}\u{5f53}\u{524d}\u{8282}\u{70b9}\u{4ea4}\u{7ed9}\u{9879}\u{76ee} AGENT",
            MenuAction::PromptStartExecution,
        );
        let a4 = plain_item(
            "  \u{5237}\u{65b0}",
            "\u{91cd}\u{65b0}\u{8bfb}\u{53d6}\u{4efb}\u{52a1}\u{3001}\u{7ed3}\u{679c}\u{548c}\u{8bc4}\u{6d4b}",
            MenuAction::Refresh,
        );
        items.push(heading);
        items.push(conversation);
        items.push(a1);
        items.push(a2);
        items.push(a3);
        items.push(a4);
        proof {
            assert(item_views(items@) =~= before + selected_section(
                conversation_unavailable_text(tasks@[sel as int], session_of(sessions@, sel as int)),
            ));
        }
    }
    proof {
        assert(item_views(items@) =~= menu_items(tasks@, sessions@, selected));
    }
    WorkspaceMenu { items, initial_selected: initial, selected_task: sel }
}

// ---------------------------------------------------------------------------
// Executors and conversations.

/// An agent offered as the executor of a task.
#[derive(Clone, Debug, Eq, PartialEq)]
pub struct ExecutorChoice {
    pub name: String,
    pub description: String,
    pub disabled_reason: Option<String>,
    /// The agent that choosing the item starts the task with.
    pub agent_id: String,
}

/// The choice of an agent: `@id` with its description, refused when the
/// agent is disabled.
pub open spec fn executor_choice_ok(c: ExecutorChoice, a: RosterAgent) -> bool {
    &&& c.name@ == "@"@ + a.id@
    &&& c.description@ == a.description@
    &&& c.agent_id@ == a.id@
    &&& if a.enabled {
        c.disabled_reason is None
    } else {
        c.disabled_reason matches Some(r) && r@ == "\u{6b64} AGENT \u{5df2}\u{7981}\u{7528}\u{3002}"@
    }
}

/// The executor picker: one choice per registered agent, in order.
pub fn executor_choices(agents: &Vec<RosterAgent>) -> (r: Vec<ExecutorChoice>)
    ensures
        r@.len() == agents@.len(),
        forall|i: int| 0 <= i < r@.len() ==> executor_choice_ok(#[trigger] r@[i], agents@[i]),
{
    let mut out: Vec<ExecutorChoice> = Vec::new();
    for i in 0..agents.len()
        invariant
            out@.len() == i,
            forall|j: int| 0 <= j < i ==> executor_choice_ok(#[trigger] out@[j], agents@[j]),
    {
        let agent = &agents[i];
        let mut name = owned("@");
        push_str(&mut name, agent.id.as_str());
        let disabled_reason = if agent.enabled {
            None
        } else {
            Some(owned("\u{6b64} AGENT \u{5df2}\u{7981}\u{7528}\u{3002}"))
        };
        out.push(
            ExecutorChoice {
                name,
                description: agent.description.clone(),
                disabled_reason,
                agent_id: agent.id.clone(),
            },
        );
    }
    out
}

/// A request to open the worker conversation of a task.
#[derive(Clone, Debug, Eq, PartialEq)]
pub struct OpenConversationRequest {
    pub task_id: String,
    pub task_title: String,
    pub agent_id: String,
    pub session_thread_id: String,
}

/// The conversation of a task can be opened when a project AGENT executes
/// it in a bound worker session; the request names both.
pub fn open_conversation_request(task: &ProjectTaskNode, session_thread_id: Option<&str>) -> (r:
    Option<OpenConversationRequest>)
    ensures
        match (task.executor, session_thread_id) {
            (ProjectTaskExecutor::ProjectAgent { agent_id }, Some(session)) => r matches Some(q)
                && q.task_id@ == task.task_id@ && q.task_title@ == task.title@ && q.agent_id@
                == agent_id@ && q.session_thread_id@ == session@,
            _ => r is None,
        },
{
    match &task.executor {
        ProjectTaskExecutor::ProjectAgent { agent_id } => match session_thread_id {
            Some(session) => Some(
                OpenConversationRequest {
                    task_id: owned(task.task_id.as_str()),
                    task_title: task.title.clone(),
                    agent_id: owned(agent_id.as_str()),
                    session_thread_id: owned(session),
                },
            ),
            None => None,
        },
        _ => None,
    }
}

/// The mark drawn before a task's title.
pub open spec fn status_symbol_spec(s: ProjectTaskStatus) -> (Seq<char>, SpanStyle) {
    match s {
        ProjectTaskStatus::Pending => ("\u{25cb} "@, SpanStyle::Dim),
        ProjectTaskStatus::InProgress => ("\u{25cf} "@, SpanStyle::Cyan),
        ProjectTaskStatus::Completed => ("\u{2713} "@, SpanStyle::Green),
        ProjectTaskStatus::Rejected => ("\u{d7} "@, SpanStyle::Magenta),
        ProjectTaskStatus::Blocked => ("\u{25a0} "@, SpanStyle::Magenta),
        ProjectTaskStatus::Failed => ("! "@, SpanStyle::Red),
    }
}

pub fn task_status_symbol(status: ProjectTaskStatus) -> (r: (&'static str, SpanStyle))
    ensures
        (r.0@, r.1) == status_symbol_spec(status),
{
    match status {
        ProjectTaskStatus::Pending => ("\u{25cb} ", SpanStyle::Dim),
        ProjectTaskStatus::InProgress => ("\u{25cf} ", SpanStyle::Cyan),
        ProjectTaskStatus::Completed => ("\u{2713} ", SpanStyle::Green),
        ProjectTaskStatus::Rejected => ("\u{d7} ", SpanStyle::Magenta),
        ProjectTaskStatus::Blocked => ("\u{25a0} ", SpanStyle::Magenta),
        ProjectTaskStatus::Failed => ("! ", SpanStyle::Red),
    }
}


/// A workbench prompt that asks for free text.
#[derive(Clone, Debug, Eq, PartialEq)]
pub enum TaskPromptKind {
    /// Create a task under `parent_task_id`, or a root task.
    CreateTask { parent_task_id: Option<String> },
    /// Append a requirement to `task_id`.
    AppendRequirement { task_id: String },
}

/// The texts a prompt shows.
#[derive(Clone, Debug, Eq, PartialEq)]
pub struct TaskPromptTexts {
    pub title: String,
    pub placeholder: String,
    pub context: String,
}

/// What submitting a prompt asks the workbench to do.
#[derive(Clone, Debug, Eq, PartialEq)]
pub enum TaskPromptAction {
    /// Create a task; the first line of `input` is its title, the rest its
    /// objective.
    Create { parent_task_id: Option<String>, input: String },
    AppendRequirement { task_id: String, requirement: String },
}

impl TaskPromptKind {
    /// The title, placeholder and context line of the prompt.
    pub fn texts(&self) -> (r: TaskPromptTexts)
        ensures
            match self {
                TaskPromptKind::CreateTask { parent_task_id } => {
                    &&& r.title@ == "\u{521b}\u{5efa}\u{9879}\u{76ee}\u{4efb}\u{52a1}"@
                    &&& r.placeholder@
                        == "\u{7b2c}\u{4e00}\u{884c}\u{6807}\u{9898}\u{ff1b}\u{540e}\u{7eed}\u{5185}\u{5bb9}\u{4f5c}\u{4e3a}\u{76ee}\u{6807}"@
                    &&& r.context@ == match parent_task_id {
                        Some(id) => "\u{7236}\u{4efb}\u{52a1}\u{ff1a}"@ + id@,
                        None => "\u{65b0}\u{5efa}\u{6839}\u{4efb}\u{52a1}"@,
                    }
                },
                TaskPromptKind::AppendRequirement { task_id } => {
                    &&& r.title@ == "\u{8ffd}\u{52a0}\u{4efb}\u{52a1}\u{8981}\u{6c42}"@
                    &&& r.placeholder@
                        == "\u{8865}\u{5145}\u{7ea6}\u{675f}\u{6216}\u{9a8c}\u{6536}\u{8981}\u{6c42}"@
                    &&& r.context@ == "\u{4efb}\u{52a1}\u{ff1a}"@ + task_id@
                },
            },
    {
        match self {
            TaskPromptKind::CreateTask { parent_task_id } => {
                let context = match parent_task_id {
                    Some(id) => {
                        let mut c = owned("\u{7236}\u{4efb}\u{52a1}\u{ff1a}");
                        push_str(&mut c, id.as_str());
                        c
                    },
                    None => owned("\u{65b0}\u{5efa}\u{6839}\u{4efb}\u{52a1}"),
                };
                TaskPromptTexts {
                    title: owned("\u{521b}\u{5efa}\u{9879}\u{76ee}\u{4efb}\u{52a1}"),
                    placeholder: owned(
                        "\u{7b2c}\u{4e00}\u{884c}\u{6807}\u{9898}\u{ff1b}\u{540e}\u{7eed}\u{5185}\u{5bb9}\u{4f5c}\u{4e3a}\u{76ee}\u{6807}",
                    ),
                    context,
                }
            },
            TaskPromptKind::AppendRequirement { task_id } => {
                let mut context = owned("\u{4efb}\u{52a1}\u{ff1a}");
                push_str(&mut context, task_id.as_str());
                TaskPromptTexts {
                    title: owned("\u{8ffd}\u{52a0}\u{4efb}\u{52a1}\u{8981}\u{6c42}"),
                    placeholder: owned(
                        "\u{8865}\u{5145}\u{7ea6}\u{675f}\u{6216}\u{9a8c}\u{6536}\u{8981}\u{6c42}",
                    ),
                    context,
                }
            },
        }
    }

    /// The action that submitting `input` to this prompt asks for.
    pub fn submit(self, input: String) -> (r: TaskPromptAction)
        ensures
            match self {
                TaskPromptKind::CreateTask { parent_task_id } => r == (TaskPromptAction::Create {
                    parent_task_id,
                    input,
                }),
                TaskPromptKind::AppendRequirement { task_id } => r
                    == (TaskPromptAction::AppendRequirement { task_id, requirement: input }),
            },
    {
        match self {
            TaskPromptKind::CreateTask { parent_task_id } => TaskPromptAction::Create {
                parent_task_id,
                input,
            },
            TaskPromptKind::AppendRequirement { task_id } => TaskPromptAction::AppendRequirement {
                task_id,
                requirement: input,
            },
        }
    }
}

} // verus!
