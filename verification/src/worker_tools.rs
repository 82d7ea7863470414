//! The tools a project AGENT worker sees and how its command tools run:
//! visible names, the command line, the time limit and the output budget;
//! and the bounds on requests handed to workers.

use crate::agent::{ProjectAgentTaskStatus, ProjectAgentToolManifest, ProjectAgentToolTarget};
use crate::registry::ProjectAgentEntry;
use crate::task::ProjectAgentTaskMetadata;
use crate::text::{
    ascii_lower, ascii_lowercase, byte_len, chars_end_with, chars_of, chars_text, has_suffix, owned, push_char,
    push_str, same_text, str_trim, trim, utf8_len,
};
use crate::tool_visibility::{name_set, ToolName, ToolNameModel, ToolVisibilityPolicy};
use vstd::prelude::*;

verus! {

broadcast use vstd::string::group_string_axioms;

pub const DEFAULT_COMMAND_TIMEOUT_MS: u64 = 60000;

pub const MAX_COMMAND_TIMEOUT_MS: u64 = 300000;

pub const MAX_COMMAND_OUTPUT_BYTES: usize = 262144;

pub const MAX_TASK_BYTES: usize = 16384;

pub const MAX_FOLLOW_UP_BYTES: usize = 16384;

/// The first `.` in `s`, if any.
pub open spec fn first_dot_from(s: Seq<char>, i: int) -> Option<int>
    decreases s.len() - i,
{
    if i < 0 || i >= s.len() {
        None
    } else if s[i] == '.' {
        Some(i)
    } else {
        first_dot_from(s, i + 1)
    }
}

/// A native tool's name: `namespace.name` when both sides of the first `.`
/// are non-empty, otherwise the whole value as a plain name.
pub open spec fn native_name(s: Seq<char>) -> ToolNameModel {
    match first_dot_from(s, 0) {
        Some(i) => if i > 0 && i + 1 < s.len() {
            ToolNameModel { namespace: Some(s.take(i)), name: s.skip(i + 1) }
        } else {
            ToolNameModel { namespace: None, name: s }
        },
        None => ToolNameModel { namespace: None, name: s },
    }
}

proof fn lemma_first_dot_from(s: Seq<char>, i: int)
    requires
        0 <= i <= s.len(),
    ensures
        match first_dot_from(s, i) {
            Some(k) => i <= k < s.len() && s[k] == '.',
            None => true,
        },
    decreases s.len() - i,
{
    if i < s.len() && s[i] != '.' {
        lemma_first_dot_from(s, i + 1);
    }
}

/// The tool name a native tool route names.
pub fn native_tool_name(value: &str) -> (r: ToolName)
    ensures
        r@ == native_name(value@),
{
    let cs = chars_of(value);
    let mut i: usize = 0;
    while i < cs.len()
        invariant
            cs@ == value@,
            i <= cs.len(),
            first_dot_from(value@, 0) == first_dot_from(value@, i as int),
        decreases cs.len() - i,
    {
        if cs[i] == '.' {
            proof {
                lemma_first_dot_from(value@, 0);
            }
            if i > 0 && i + 1 < cs.len() {
                let namespace = chars_text(cs.as_slice(), 0, i);
                let name = chars_text(cs.as_slice(), i + 1, cs.len());
                proof {
                    assert(value@.take(i as int) =~= cs@.subrange(0, i as int));
                    assert(value@.skip(i + 1) =~= cs@.subrange(i + 1, cs@.len() as int));
                }
                return ToolName { namespace: Some(namespace), name };
            }
            return ToolName { namespace: None, name: owned(value) };
        }
        i = i + 1;
    }
    ToolName { namespace: None, name: owned(value) }
}

/// The name under which a worker reaches one of its tools: a native tool by
/// its route, a command or MCP tool as `x.<tool id>`.
pub open spec fn visible_name(m: ProjectAgentToolManifest) -> ToolNameModel {
    match m.target {
        ProjectAgentToolTarget::Native { tool } => native_name(tool@),
        _ => ToolNameModel { namespace: Some("x"@), name: m.id@ },
    }
}

/// The names of the tools a worker may see, in manifest order.
pub fn worker_visible_tool_names(tools: &Vec<ProjectAgentToolManifest>) -> (r: Vec<ToolName>)
    ensures
        r@.len() == tools@.len(),
        forall|i: int| 0 <= i < r@.len() ==> (#[trigger] r@[i])@ == visible_name(tools@[i]),
{
    let mut names: Vec<ToolName> = Vec::new();
    for i in 0..tools.len()
        invariant
            names@.len() == i,
            forall|j: int| 0 <= j < i ==> (#[trigger] names@[j])@ == visible_name(tools@[j]),
    {
        let name = match &tools[i].target {
            ProjectAgentToolTarget::Native { tool } => native_tool_name(tool.as_str()),
            _ => ToolName::namespaced("x", tools[i].id.as_str()),
        };
        proof {
            reveal_strlit("x");
        }
        names.push(name);
    }
    names
}

/// The non-native tools among `tools`, in manifest order.
pub open spec fn wrapped_tools(tools: Seq<ProjectAgentToolManifest>) -> Seq<ProjectAgentToolManifest>
    decreases tools.len(),
{
    if tools.len() == 0 {
        Seq::empty()
    } else {
        let rest = wrapped_tools(tools.drop_last());
        match tools.last().target {
            ProjectAgentToolTarget::Native { .. } => rest,
            _ => rest.push(tools.last()),
        }
    }
}

/// The names of the wrappers a worker gets for its command and MCP tools:
/// one per non-native tool, in manifest order, under the `x` namespace.
pub fn x_tool_names(tools: &Vec<ProjectAgentToolManifest>) -> (r: Vec<ToolName>)
    ensures
        r@.len() == wrapped_tools(tools@).len(),
        forall|i: int|
            0 <= i < r@.len() ==> (#[trigger] r@[i])@ == (ToolNameModel {
                namespace: Some("x"@),
                name: wrapped_tools(tools@)[i].id@,
            }),
{
    let mut names: Vec<ToolName> = Vec::new();
    for i in 0..tools.len()
        invariant
            names@.len() == wrapped_tools(tools@.take(i as int)).len(),
            forall|j: int|
                0 <= j < names@.len() ==> (#[trigger] names@[j])@ == (ToolNameModel {
                    namespace: Some("x"@),
                    name: wrapped_tools(tools@.take(i as int))[j].id@,
                }),
    {
        proof {
            assert(tools@.take(i + 1).drop_last() =~= tools@.take(i as int));
        }
        match &tools[i].target {
            ProjectAgentToolTarget::Native { .. } => {},
            _ => {
                proof {
                    reveal_strlit("x");
                }
                names.push(ToolName::namespaced("x", tools[i].id.as_str()));
            },
        }
    }
    proof {
        assert(tools@.take(tools@.len() as int) =~= tools@);
    }
    names
}

/// A worker thread sees only its registered tools.
pub fn worker_visibility(tools: &Vec<ProjectAgentToolManifest>) -> (r: ToolVisibilityPolicy)
    ensures
        r@.deny == Set::<ToolNameModel>::empty(),
        forall|n: ToolNameModel|
            r@.allow is Some && (r@.allow->Some_0.contains(n) <==> exists|i: int|
                0 <= i < tools@.len() && visible_name(#[trigger] tools@[i]) == n),
{
    let names = worker_visible_tool_names(tools);
    let r = ToolVisibilityPolicy::allow_only(names);
    proof {
        assert forall|n: ToolNameModel|
            r@.allow is Some && (r@.allow->Some_0.contains(n) <==> exists|i: int|
                0 <= i < tools@.len() && visible_name(#[trigger] tools@[i]) == n) by {
            if r@.allow->Some_0.contains(n) {
                let i = choose|i: int| 0 <= i < names@.len() && (#[trigger] names@[i])@ == n;
                assert(visible_name(tools@[i]) == n);
            }
            if exists|i: int| 0 <= i < tools@.len() && visible_name(#[trigger] tools@[i]) == n {
                let i = choose|i: int| 0 <= i < tools@.len() && visible_name(#[trigger] tools@[i])
                    == n;
                assert(names@[i]@ == n);
            }
        }
    }
    r
}

/// The tool under which the root thread delegates to an agent.
pub fn delegate_tool_name(agent_id: &crate::types::ProjectAgentId) -> (r: ToolName)
    ensures
        r@ == (ToolNameModel { namespace: Some("agent"@), name: agent_id@ }),
{
    proof {
        reveal_strlit("agent");
    }
    ToolName::namespaced("agent", agent_id.as_str())
}

/// How long a command tool may run: its manifest's limit, or a minute by
/// default, and never more than five minutes.
pub fn command_timeout_ms(timeout_ms: Option<u64>) -> (r: u64)
    ensures
        r == (match timeout_ms {
            Some(t) => if t < MAX_COMMAND_TIMEOUT_MS {
                t
            } else {
                MAX_COMMAND_TIMEOUT_MS
            },
            None => DEFAULT_COMMAND_TIMEOUT_MS,
        }),
{
    let t = match timeout_ms {
        Some(t) => t,
        None => DEFAULT_COMMAND_TIMEOUT_MS,
    };
    if t < MAX_COMMAND_TIMEOUT_MS {
        t
    } else {
        MAX_COMMAND_TIMEOUT_MS
    }
}

/// `str::to_ascii_lowercase`.
pub open spec fn ascii_lowered(s: Seq<char>) -> Seq<char> {
    Seq::new(s.len(), |i: int| ascii_lower(s[i]))
}

fn lowered_chars(s: &str) -> (r: Vec<char>)
    ensures
        r@ == ascii_lowered(s@),
{
    let cs = chars_of(s);
    let mut out: Vec<char> = Vec::new();
    for i in 0..cs.len()
        invariant
            cs@ == s@,
            out@.len() == i,
            forall|j: int| 0 <= j < i ==> #[trigger] out@[j] == ascii_lower(s@[j]),
    {
        out.push(ascii_lowercase(cs[i]));
    }
    proof {
        assert(out@ =~= ascii_lowered(s@));
    }
    out
}

/// The command line of a command tool: Python scripts run under `python`,
/// PowerShell scripts under `powershell`, anything else directly; the JSON
/// arguments are the last word.
pub open spec fn command_line(program: Seq<char>, arguments: Seq<char>) -> Seq<Seq<char>> {
    if has_suffix(ascii_lowered(program), ".py"@) {
        seq!["python"@, program, arguments]
    } else if has_suffix(ascii_lowered(program), ".ps1"@) {
        seq!["powershell"@, program, arguments]
    } else {
        seq![program, arguments]
    }
}

pub fn command_argv(program: &str, arguments: &str) -> (r: Vec<String>)
    ensures
        r@.map_values(|s: String| s@) == command_line(program@, arguments@),
{
    let lowered = lowered_chars(program);
    let py = chars_of(".py");
    let ps1 = chars_of(".ps1");
    let mut argv: Vec<String> = Vec::new();
    if chars_end_with(lowered.as_slice(), py.as_slice()) {
        argv.push(owned("python"));
    } else if chars_end_with(lowered.as_slice(), ps1.as_slice()) {
        argv.push(owned("powershell"));
    }
    argv.push(owned(program));
    argv.push(owned(arguments));
    proof {
        assert(argv@.map_values(|s: String| s@) =~= command_line(program@, arguments@));
    }
    argv
}

/// How many more output bytes to ask a running command for: one past what
/// the output budget has left, so that going over it is noticed.
pub fn output_read_budget(collected: usize) -> (r: usize)
    ensures
        collected < MAX_COMMAND_OUTPUT_BYTES ==> r == MAX_COMMAND_OUTPUT_BYTES - collected + 1,
        collected >= MAX_COMMAND_OUTPUT_BYTES ==> r == 1,
{
    MAX_COMMAND_OUTPUT_BYTES.saturating_sub(collected).saturating_add(1)
}

/// A request handed to a worker, a task or a follow-up, is acceptable when
/// it is not blank and fits its byte budget.
pub open spec fn bounded_request(text: Seq<char>, max_bytes: nat) -> bool {
    trim(text).len() > 0 && utf8_len(text) <= max_bytes
}

pub fn is_bounded_request(text: &str, max_bytes: usize) -> (r: bool)
    ensures
        r == bounded_request(text@, max_bytes as nat),
{
    !str_trim(text).is_empty() && byte_len(text) <= max_bytes
}

/// The latest task of a worker session: among tasks bound to the session,
/// the one updated last, the later listed on a tie.
pub open spec fn is_latest_for_session(
    tasks: Seq<ProjectAgentTaskMetadata>,
    session: Seq<char>,
    k: int,
) -> bool {
    &&& 0 <= k < tasks.len()
    &&& tasks[k].session_thread_id matches Some(s) && s@ == session
    &&& forall|j: int|
        0 <= j < tasks.len() && (tasks[j].session_thread_id matches Some(s) && s@ == session) ==> (
        #[trigger] tasks[j]).updated_at < tasks[k].updated_at || (j <= k && tasks[j].updated_at
            == tasks[k].updated_at)
}

pub open spec fn bound_to(t: ProjectAgentTaskMetadata, session: Seq<char>) -> bool {
    t.session_thread_id matches Some(s) && s@ == session
}

/// The index of the session's latest task, if the session has any.
pub fn latest_task_for_session(tasks: &Vec<ProjectAgentTaskMetadata>, session: &str) -> (r: Option<
    usize,
>)
    ensures
        match r {
            Some(k) => is_latest_for_session(tasks@, session@, k as int),
            None => forall|j: int| 0 <= j < tasks@.len() ==> !bound_to(#[trigger] tasks@[j], session@),
        },
{
    let mut best: Option<usize> = None;
    for i in 0..tasks.len()
        invariant
            match best {
                Some(k) => k < i && bound_to(tasks@[k as int], session@) && forall|j: int|
                    0 <= j < i && bound_to(#[trigger] tasks@[j], session@) ==> tasks@[j].updated_at
                        < tasks@[k as int].updated_at || (j <= k && tasks@[j].updated_at
                        == tasks@[k as int].updated_at),
                None => forall|j: int| 0 <= j < i ==> !bound_to(#[trigger] tasks@[j], session@),
            },
    {
        let bound = match &tasks[i].session_thread_id {
            Some(s) => same_text(s.as_str(), session),
            None => false,
        };
        if bound {
            match best {
                Some(k) => {
                    if tasks[i].updated_at >= tasks[k].updated_at {
                        best = Some(i);
                    }
                },
                None => {
                    best = Some(i);
                },
            }
        }
    }
    best
}

/// The delegate tools of the enabled agents, in registry order.
pub open spec fn root_tools(entries: Seq<ProjectAgentEntry>) -> Seq<ToolNameModel>
    decreases entries.len(),
{
    if entries.len() == 0 {
        Seq::empty()
    } else {
        let e = entries.last();
        root_tools(entries.drop_last()) + if e.enabled {
            seq![ToolNameModel { namespace: Some("agent"@), name: e.definition.id@ }]
        } else {
            Seq::empty()
        }
    }
}

/// The tools a root thread offers: one delegate tool per enabled agent.
pub fn root_tool_names(entries: &Vec<ProjectAgentEntry>) -> (r: Vec<ToolName>)
    ensures
        r@.map_values(|n: ToolName| n@) == root_tools(entries@),
{
    let mut names: Vec<ToolName> = Vec::new();
    let mut i: usize = 0;
    proof {
        assert(entries@.take(0) =~= Seq::<ProjectAgentEntry>::empty());
        assert(names@.map_values(|n: ToolName| n@) =~= Seq::<ToolNameModel>::empty());
    }
    while i < entries.len()
        invariant
            i <= entries.len(),
            names@.map_values(|n: ToolName| n@) == root_tools(entries@.take(i as int)),
        decreases entries.len() - i,
    {
        proof {
            assert(entries@.take(i + 1).drop_last() =~= entries@.take(i as int));
            assert(entries@.take(i + 1).last() == entries@[i as int]);
        }
        let ghost before = names@;
        if entries[i].enabled {
            let name = delegate_tool_name(&entries[i].definition.id);
            names.push(name);
            proof {
                assert(names@.map_values(|n: ToolName| n@) =~= before.map_values(|n: ToolName| n@).push(
                    name@,
                ));
            }
        } else {
            proof {
                assert(root_tools(entries@.take(i + 1)) =~= root_tools(entries@.take(i as int)));
            }
        }
        i = i + 1;
    }
    proof {
        assert(entries@.take(entries@.len() as int) =~= entries@);
    }
    names
}


/// Which stream a piece of command output came from.
#[derive(Clone, Copy, Debug, Eq, PartialEq, Structural)]
pub enum CommandStream {
    Stdout,
    Stderr,
    Pty,
}

/// One piece of output read from a running command.
pub struct CommandChunk {
    pub stream: CommandStream,
    pub bytes: Vec<u8>,
}

/// One answer to a read of a running command's output.
pub struct CommandRead {
    pub chunks: Vec<CommandChunk>,
    /// Why the command failed, if it did.
    pub failure: Option<String>,
    /// Whether the command has closed.
    pub closed: bool,
    pub exit_code: Option<i32>,
}

/// What a command tool does after one read.
pub enum CollectStep {
    /// Read again.
    Continue,
    /// The command closed with this exit code.
    Finished { exit_code: i32 },
    /// Stop with `message`; `terminate` tells whether the command must be
    /// terminated first.
    Failed { message: String, terminate: bool },
}

/// The output of a running command collected so far.
pub struct CommandOutput {
    pub stdout: Vec<u8>,
    pub stderr: Vec<u8>,
}

/// The bytes of the first `k` chunks that go to standard output (a
/// terminal's output counts as standard output).
pub open spec fn routed_stdout(chunks: Seq<CommandChunk>, k: int) -> Seq<u8>
    decreases k,
{
    if k <= 0 {
        Seq::empty()
    } else {
        routed_stdout(chunks, k - 1) + if chunks[k - 1].stream == CommandStream::Stderr {
            Seq::empty()
        } else {
            chunks[k - 1].bytes@
        }
    }
}

/// The bytes of the first `k` chunks that go to standard error.
pub open spec fn routed_stderr(chunks: Seq<CommandChunk>, k: int) -> Seq<u8>
    decreases k,
{
    if k <= 0 {
        Seq::empty()
    } else {
        routed_stderr(chunks, k - 1) + if chunks[k - 1].stream == CommandStream::Stderr {
            chunks[k - 1].bytes@
        } else {
            Seq::empty()
        }
    }
}

/// Whether `base` collected bytes and the first `k` chunks exceed the
/// output budget.
pub open spec fn overflows(base: int, chunks: Seq<CommandChunk>, k: int) -> bool {
    base + routed_stdout(chunks, k).len() + routed_stderr(chunks, k).len() > MAX_COMMAND_OUTPUT_BYTES
}

/// Routing more chunks never collects fewer bytes.
pub proof fn lemma_routed_grows(chunks: Seq<CommandChunk>, k: int, j: int)
    requires
        0 <= k <= j,
    ensures
        routed_stdout(chunks, k).len() + routed_stderr(chunks, k).len() <= routed_stdout(
            chunks,
            j,
        ).len() + routed_stderr(chunks, j).len(),
    decreases j - k,
{
    if k < j {
        lemma_routed_grows(chunks, k, j - 1);
    }
}

impl CommandOutput {
    /// How many bytes have been collected.
    pub open spec fn collected(self) -> int {
        (self.stdout@.len() + self.stderr@.len()) as int
    }

    pub fn new() -> (r: Self)
        ensures
            r.stdout@ == Seq::<u8>::empty(),
            r.stderr@ == Seq::<u8>::empty(),
    {
        CommandOutput { stdout: Vec::new(), stderr: Vec::new() }
    }

    /// How many bytes the next read asks for.
    pub fn read_budget(&self) -> (r: usize)
        requires
            self.collected() <= MAX_COMMAND_OUTPUT_BYTES,
        ensures
            r == MAX_COMMAND_OUTPUT_BYTES - self.collected() + 1,
    {
        output_read_budget(self.stdout.len() + self.stderr.len())
    }

    /// Takes in one read: its chunks are added in order to their streams
    /// until the output budget is exceeded, which stops the command; else a
    /// reported failure stops it, a close finishes it (exit code -1 when
    /// none was reported), and otherwise it is read again.
    pub fn absorb(&mut self, read: CommandRead) -> (step: CollectStep)
        requires
            old(self).collected() <= MAX_COMMAND_OUTPUT_BYTES,
        ensures
            !(step matches CollectStep::Failed { terminate: true, .. }) ==> final(self).collected()
                <= MAX_COMMAND_OUTPUT_BYTES,
            overflows(old(self).collected(), read.chunks@, read.chunks@.len() as int) ==> {
                &&& step matches CollectStep::Failed { message, terminate }
                &&& message@ == "project AGENT command output exceeded 262144 bytes"@
                &&& terminate
                &&& exists|k: int|
                    1 <= k <= read.chunks@.len() && #[trigger] overflows(
                        old(self).collected(),
                        read.chunks@,
                        k,
                    ) && !overflows(old(self).collected(), read.chunks@, k - 1)
                        && final(self).stdout@ == old(self).stdout@ + routed_stdout(read.chunks@, k)
                        && final(self).stderr@ == old(self).stderr@ + routed_stderr(read.chunks@, k)
            },
            !overflows(old(self).collected(), read.chunks@, read.chunks@.len() as int) ==> {
                &&& final(self).stdout@ == old(self).stdout@ + routed_stdout(
                    read.chunks@,
                    read.chunks@.len() as int,
                )
                &&& final(self).stderr@ == old(self).stderr@ + routed_stderr(
                    read.chunks@,
                    read.chunks@.len() as int,
                )
                &&& match read.failure {
                    Some(f) => step matches CollectStep::Failed { message, terminate }
                        && message@ == "project AGENT command failed: "@ + f@ && !terminate,
                    None => if read.closed {
                        step == (CollectStep::Finished {
                            exit_code: match read.exit_code {
                                Some(c) => c,
                                None => -1i32,
                            },
                        })
                    } else {
                        step is Continue
                    },
                }
            },
    {
        let ghost base = old(self).collected();
        let ghost chunks = read.chunks@;
        let mut i: usize = 0;
        while i < read.chunks.len()
            invariant
                i <= chunks.len(),
                chunks == read.chunks@,
                base == old(self).collected(),
                base <= MAX_COMMAND_OUTPUT_BYTES,
                self.stdout@ == old(self).stdout@ + routed_stdout(chunks, i as int),
                self.stderr@ == old(self).stderr@ + routed_stderr(chunks, i as int),
                !overflows(base, chunks, i as int),
            decreases chunks.len() - i,
        {
            let chunk = &read.chunks[i];
            let over = if chunk.stream == CommandStream::Stderr {
                self.stderr.extend_from_slice(chunk.bytes.as_slice());
                proof {
                    assert(self.stderr@ =~= old(self).stderr@ + routed_stderr(chunks, i + 1));
                    assert(routed_stdout(chunks, i + 1) =~= routed_stdout(chunks, i as int));
                }
                self.stderr.len() > MAX_COMMAND_OUTPUT_BYTES - self.stdout.len()
            } else {
                self.stdout.extend_from_slice(chunk.bytes.as_slice());
                proof {
                    assert(self.stdout@ =~= old(self).stdout@ + routed_stdout(chunks, i + 1));
                    assert(routed_stderr(chunks, i + 1) =~= routed_stderr(chunks, i as int));
                }
                self.stdout.len() > MAX_COMMAND_OUTPUT_BYTES - self.stderr.len()
            };
            if over {
                proof {
                    lemma_routed_grows(chunks, i + 1, chunks.len() as int);
                    assert(overflows(base, chunks, i + 1));
                }
                return CollectStep::Failed {
                    message: owned("project AGENT command output exceeded 262144 bytes"),
                    terminate: true,
                };
            }
            i = i + 1;
        }
        match read.failure {
            Some(f) => {
                let mut message = owned("project AGENT command failed: ");
                push_str(&mut message, f.as_str());
                CollectStep::Failed { message, terminate: false }
            },
            None => if read.closed {
                CollectStep::Finished {
                    exit_code: match read.exit_code {
                        Some(c) => c,
                        None => -1,
                    },
                }
            } else {
                CollectStep::Continue
            },
        }
    }
}

} // verus!
