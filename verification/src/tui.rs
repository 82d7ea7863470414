//! Decisions the terminal interface makes about project AGENTs: when to
//! remind of pending maintenance, how `/agent` arguments are read, and the
//! byte-level cuts used when rendering.

use crate::text::{
    byte_len, byte_prefix, char_is_whitespace, chars_of, is_white_space, owned, push_decimal,
    push_str, same_text, str_trim, take_bytes_at_char_boundary, trim, utf8_len, decimal,
    lemma_fit_count,
};
use vstd::prelude::*;

verus! {

broadcast use vstd::string::group_string_axioms;

/// A maintenance status notification for one thread.
#[derive(Clone, Debug, Eq, PartialEq)]
pub struct MaintenanceStatusNotice {
    pub thread_id: String,
    pub pending_count: u64,
    pub catalog_revision: u64,
}

/// The mathematical content of a notice.
pub struct NoticeModel {
    pub thread_id: Seq<char>,
    pub pending_count: u64,
    pub catalog_revision: u64,
}

impl View for MaintenanceStatusNotice {
    type V = NoticeModel;

    open spec fn view(&self) -> NoticeModel {
        NoticeModel {
            thread_id: self.thread_id@,
            pending_count: self.pending_count,
            catalog_revision: self.catalog_revision,
        }
    }
}

/// What identifies a reminder: the thread, the pending count and the
/// catalog revision it was shown for.
pub type ReminderKey = (Seq<char>, u64, u64);

/// The last status seen and the last reminder shown.
#[derive(Debug, Default)]
pub struct MaintenanceReminderState {
    pub last_status: Option<MaintenanceStatusNotice>,
    pub last_reminded: Option<(String, u64, u64)>,
}

pub struct ReminderModel {
    pub last_status: Option<NoticeModel>,
    pub last_reminded: Option<ReminderKey>,
}

impl View for MaintenanceReminderState {
    type V = ReminderModel;

    open spec fn view(&self) -> ReminderModel {
        ReminderModel {
            last_status: match self.last_status {
                Some(n) => Some(n@),
                None => None,
            },
            last_reminded: match self.last_reminded {
                Some(k) => Some((k.0@, k.1, k.2)),
                None => None,
            },
        }
    }
}

/// Whether to remind now, and the state after: only when no turn is busy,
/// for the current thread's last status with pending items, and not twice
/// for the same thread, count and revision.
pub open spec fn reminder_step(s: ReminderModel, thread: Option<Seq<char>>, busy: bool) -> (
    ReminderModel,
    Option<u64>,
) {
    if busy || s.last_status is None || thread is None {
        (s, None)
    } else {
        let st = s.last_status->Some_0;
        let key = (st.thread_id, st.pending_count, st.catalog_revision);
        if st.thread_id != thread->Some_0 || st.pending_count == 0 || s.last_reminded == Some(key) {
            (s, None)
        } else {
            (ReminderModel { last_reminded: Some(key), ..s }, Some(st.pending_count))
        }
    }
}

/// A status update: ignored for another thread or before a thread exists;
/// otherwise recorded (a zero count forgets the last reminder) and followed
/// by a reminder check.
pub open spec fn status_step(
    s: ReminderModel,
    thread: Option<Seq<char>>,
    n: NoticeModel,
    busy: bool,
) -> (ReminderModel, Option<u64>) {
    if thread is None || n.thread_id != thread->Some_0 {
        (s, None)
    } else {
        let s1 = ReminderModel {
            last_status: Some(n),
            last_reminded: if n.pending_count == 0 {
                None
            } else {
                s.last_reminded
            },
        };
        reminder_step(s1, thread, busy)
    }
}

fn thread_matches(current: Option<&str>, thread_id: &str) -> (r: bool)
    ensures
        r == (current is Some && current->Some_0@ == thread_id@),
{
    match current {
        Some(t) => same_text(t, thread_id),
        None => false,
    }
}

pub open spec fn thread_view(t: Option<&str>) -> Option<Seq<char>> {
    match t {
        Some(s) => Some(s@),
        None => None,
    }
}

impl MaintenanceReminderState {
    pub fn new() -> (r: Self)
        ensures
            r@.last_status is None,
            r@.last_reminded is None,
    {
        MaintenanceReminderState { last_status: None, last_reminded: None }
    }

    /// Decides whether to show a reminder now; `Some(pending)` when one is
    /// shown, which is then not shown again for the same status.
    pub fn reminder(&mut self, current_thread: Option<&str>, busy: bool) -> (r: Option<u64>)
        ensures
            (final(self)@, r) == reminder_step(old(self)@, thread_view(current_thread), busy),
    {
        if busy {
            return None;
        }
        let (key_thread, pending, revision) = match &self.last_status {
            None => {
                return None;
            },
            Some(st) => {
                if !thread_matches(current_thread, st.thread_id.as_str()) || st.pending_count == 0 {
                    return None;
                }
                (st.thread_id.clone(), st.pending_count, st.catalog_revision)
            },
        };
        let already = match &self.last_reminded {
            Some(k) => same_text(k.0.as_str(), key_thread.as_str()) && k.1 == pending && k.2
                == revision,
            None => false,
        };
        if already {
            return None;
        }
        self.last_reminded = Some((key_thread, pending, revision));
        Some(pending)
    }

    /// Records a status update and decides whether to remind now.
    pub fn on_status_updated(
        &mut self,
        current_thread: Option<&str>,
        notice: MaintenanceStatusNotice,
        busy: bool,
    ) -> (r: Option<u64>)
        ensures
            (final(self)@, r) == status_step(
                old(self)@,
                thread_view(current_thread),
                notice@,
                busy,
            ),
    {
        if !thread_matches(current_thread, notice.thread_id.as_str()) {
            return None;
        }
        if notice.pending_count == 0 {
            self.last_reminded = None;
        }
        self.last_status = Some(notice);
        self.reminder(current_thread, busy)
    }
}

/// A reminder is shown at most once for the same status: right after one is
/// shown, the same notification again shows nothing.
pub proof fn lemma_duplicate_notice_reminded_once(
    s: ReminderModel,
    thread: Option<Seq<char>>,
    n: NoticeModel,
)
    requires
        status_step(s, thread, n, false).1 is Some,
    ensures
        status_step(status_step(s, thread, n, false).0, thread, n, false).1 is None,
{
}

/// A status with nothing pending never reminds.
pub proof fn lemma_zero_pending_is_silent(
    s: ReminderModel,
    thread: Option<Seq<char>>,
    n: NoticeModel,
    busy: bool,
)
    requires
        n.pending_count == 0,
    ensures
        status_step(s, thread, n, busy).1 is None,
{
}

/// A status for another thread changes nothing and reminds of nothing.
pub proof fn lemma_other_thread_ignored(
    s: ReminderModel,
    thread: Option<Seq<char>>,
    n: NoticeModel,
    busy: bool,
)
    requires
        thread is None || n.thread_id != thread->Some_0,
    ensures
        status_step(s, thread, n, busy) == (s, None::<u64>),
{
}

/// A finished maintenance run: ignored for another thread or before a
/// thread exists; otherwise its status is recorded (a zero count forgets
/// the last reminder) and its counts are reported.
pub open spec fn completion_step(s: ReminderModel, thread: Option<Seq<char>>, n: NoticeModel) -> (
    ReminderModel,
    bool,
) {
    if thread is None || n.thread_id != thread->Some_0 {
        (s, false)
    } else {
        (
            ReminderModel {
                last_status: Some(n),
                last_reminded: if n.pending_count == 0 {
                    None
                } else {
                    s.last_reminded
                },
            },
            true,
        )
    }
}

pub open spec fn completion_text(accepted: u64, rejected: u64) -> Seq<char> {
    "Project AGENT maintenance completed: "@ + decimal(accepted as nat) + " accepted, "@ + decimal(
        rejected as nat,
    ) + " rejected."@
}

impl MaintenanceReminderState {
    /// Records the status a maintenance run ended with and returns the
    /// message that reports its counts, or nothing for another thread.
    pub fn on_maintenance_completed(
        &mut self,
        current_thread: Option<&str>,
        accepted: u64,
        rejected: u64,
        status: MaintenanceStatusNotice,
    ) -> (r: Option<String>)
        ensures
            (final(self)@, r is Some) == completion_step(
                old(self)@,
                thread_view(current_thread),
                status@,
            ),
            r matches Some(m) ==> m@ == completion_text(accepted, rejected),
    {
        if !thread_matches(current_thread, status.thread_id.as_str()) {
            return None;
        }
        if status.pending_count == 0 {
            self.last_reminded = None;
        }
        self.last_status = Some(status);
        let mut m = owned("Project AGENT maintenance completed: ");
        push_decimal(&mut m, accepted);
        push_str(&mut m, " accepted, ");
        push_decimal(&mut m, rejected);
        push_str(&mut m, " rejected.");
        Some(m)
    }
}

/// The hint shown under a maintenance reminder.
pub fn maintenance_reminder_hint() -> (r: &'static str)
    ensures
        r@ == "Run /agents-maintain when you're ready; active tasks are never interrupted."@,
{
    "Run /agents-maintain when you're ready; active tasks are never interrupted."
}

/// The error when a maintenance run fails.
pub fn maintenance_failed_message(error: &str) -> (r: String)
    ensures
        r@ == "Failed to run project AGENT maintenance: "@ + error@,
{
    let mut r = owned("Failed to run project AGENT maintenance: ");
    push_str(&mut r, error);
    r
}

/// The reminder's message.
pub open spec fn reminder_text(pending: u64) -> Seq<char> {
    "Project AGENT maintenance has "@ + decimal(pending as nat) + " pending items."@
}

pub fn maintenance_reminder_message(pending: u64) -> (r: String)
    ensures
        r@ == reminder_text(pending),
{
    let mut out = owned("Project AGENT maintenance has ");
    push_decimal(&mut out, pending);
    push_str(&mut out, " pending items.");
    out
}

/// What `/agent` was asked to do.
#[derive(Clone, Debug, Eq, PartialEq)]
pub enum WorkbenchRequest {
    /// Open the task workspace, optionally on one task.
    Open { selected_task_id: Option<String> },
    /// The arguments were not one task id.
    Usage,
}

/// What `/agents-maintain` does.
#[derive(Clone, Debug, Eq, PartialEq)]
pub enum MaintainCommand {
    /// Run maintenance for this thread.
    Run { thread_id: String },
    /// Refuse with this error.
    Refused { message: String },
}

/// Decides `/agents-maintain`: refused while a task runs (as every command
/// that is not available during a task), refused before the session has a
/// thread, and otherwise run for the current thread.
pub fn maintain_command(thread_id: Option<&str>, task_running: bool) -> (r: MaintainCommand)
    ensures
        task_running ==> (r matches MaintainCommand::Refused { message } && message@
            == "'/agents-maintain' is disabled while a task is in progress."@),
        !task_running && thread_id is None ==> (r matches MaintainCommand::Refused { message }
            && message@ == "Project AGENT maintenance is unavailable before the session starts."@),
        !task_running && thread_id is Some ==> (r matches MaintainCommand::Run { thread_id: t }
            && t@ == thread_id.unwrap()@),
{
    if task_running {
        return MaintainCommand::Refused {
            message: owned("'/agents-maintain' is disabled while a task is in progress."),
        };
    }
    match thread_id {
        Some(t) => MaintainCommand::Run { thread_id: owned(t) },
        None => MaintainCommand::Refused {
            message: owned("Project AGENT maintenance is unavailable before the session starts."),
        },
    }
}

/// The history line of an error event.
pub fn error_event_line(message: &str) -> (r: String)
    ensures
        r@ == "\u{25a0} "@ + message@,
{
    let mut r = owned("\u{25a0} ");
    push_str(&mut r, message);
    r
}

/// Whether `s` holds any whitespace.
pub open spec fn has_white_space(s: Seq<char>) -> bool {
    exists|i: int| 0 <= i < s.len() && is_white_space(#[trigger] s[i])
}

/// Reads `/agent` arguments: nothing opens the workspace, one word without
/// whitespace opens it on that task, anything else asks for the usage.
pub fn workbench_request(args: &str) -> (r: WorkbenchRequest)
    ensures
        trim(args@).len() == 0 ==> r == (WorkbenchRequest::Open { selected_task_id: None }),
        trim(args@).len() > 0 && !has_white_space(trim(args@)) ==> (r matches WorkbenchRequest::Open {
            selected_task_id: Some(t),
        } && t@ == trim(args@)),
        trim(args@).len() > 0 && has_white_space(trim(args@)) ==> r == WorkbenchRequest::Usage,
{
    let value = str_trim(args);
    if value.is_empty() {
        return WorkbenchRequest::Open { selected_task_id: None };
    }
    let chars = chars_of(value);
    for i in 0..chars.len()
        invariant
            chars@ == value@,
            value@ == trim(args@),
            value@.len() > 0,
            forall|j: int| 0 <= j < i ==> !is_white_space(#[trigger] value@[j]),
    {
        if char_is_whitespace(chars[i]) {
            return WorkbenchRequest::Usage;
        }
    }
    WorkbenchRequest::Open { selected_task_id: Some(owned(value)) }
}

/// The usage line of `/agent`.
pub open spec fn workbench_usage_text() -> Seq<char> {
    "\u{7528}\u{6cd5}\u{ff1a}/agent \u{6216} /agent <task-id>"@
}

/// The error of `/agent` before the session has a thread.
pub open spec fn workbench_unavailable_text() -> Seq<char> {
    "\u{4f1a}\u{8bdd}\u{542f}\u{52a8}\u{540e}\u{624d}\u{80fd}\u{6253}\u{5f00}\u{9879}\u{76ee}\u{4efb}\u{52a1}\u{5de5}\u{4f5c}\u{533a}\u{3002}"@
}

/// What `/agent` does.
#[derive(Clone, Debug, Eq, PartialEq)]
pub enum WorkbenchDispatch {
    /// Open the workspace of `thread_id`, optionally on one task.
    Open { thread_id: String, selected_task_id: Option<String> },
    /// Show this error and send nothing.
    Error { message: String },
}

/// Decides `/agent args` in the thread `thread_id`: before the session has
/// a thread it is an error; arguments that are not one task id show the
/// usage; otherwise the workspace opens, on the named task if any.
pub fn workbench_dispatch(thread_id: Option<&str>, args: &str) -> (r: WorkbenchDispatch)
    ensures
        thread_id is None ==> (r matches WorkbenchDispatch::Error { message } && message@
            == workbench_unavailable_text()),
        thread_id is Some && trim(args@).len() == 0 ==> (r matches WorkbenchDispatch::Open {
            thread_id: id,
            selected_task_id: None,
        } && id@ == thread_id.unwrap()@),
        thread_id is Some && trim(args@).len() > 0 && !has_white_space(trim(args@)) ==> (
        r matches WorkbenchDispatch::Open { thread_id: id, selected_task_id: Some(s) } && id@ == thread_id.unwrap()@
            && s@ == trim(args@)),
        thread_id is Some && trim(args@).len() > 0 && has_white_space(trim(args@)) ==> (
        r matches WorkbenchDispatch::Error { message } && message@ == workbench_usage_text()),
{
    let t = match thread_id {
        None => {
            return WorkbenchDispatch::Error {
                message: owned(
                    "\u{4f1a}\u{8bdd}\u{542f}\u{52a8}\u{540e}\u{624d}\u{80fd}\u{6253}\u{5f00}\u{9879}\u{76ee}\u{4efb}\u{52a1}\u{5de5}\u{4f5c}\u{533a}\u{3002}",
                ),
            };
        },
        Some(t) => t,
    };
    match workbench_request(args) {
        WorkbenchRequest::Usage => WorkbenchDispatch::Error {
            message: owned("\u{7528}\u{6cd5}\u{ff1a}/agent \u{6216} /agent <task-id>"),
        },
        WorkbenchRequest::Open { selected_task_id } => WorkbenchDispatch::Open {
            thread_id: owned(t),
            selected_task_id,
        },
    }
}

/// The first eight bytes of a window id when they end on a character
/// boundary, else the whole id.
pub open spec fn short_window(id: Seq<char>) -> Seq<char> {
    if utf8_len(byte_prefix(id, 8)) == 8 {
        byte_prefix(id, 8)
    } else {
        id
    }
}

pub fn short_window_id(window_id: &str) -> (r: String)
    ensures
        r@ == short_window(window_id@),
{
    let prefix = take_bytes_at_char_boundary(window_id, 8);
    if byte_len(prefix.as_str()) == 8 {
        prefix
    } else {
        owned(window_id)
    }
}

/// The largest character boundary of `text` at or below `index`.
pub fn floor_char_boundary(text: &str, index: usize) -> (r: usize)
    ensures
        r == utf8_len(byte_prefix(text@, index as nat)),
        r <= index,
{
    let prefix = take_bytes_at_char_boundary(text, index);
    byte_len(prefix.as_str())
}

} // verus!
