//! Project AGENT documents: the registry, agent definitions, tool manifests,
//! the accepted-memory index and the fixed task result protocol.

use crate::text::{
    chars_end_with, chars_lt, chars_of, chars_start_with, has_prefix, has_suffix,
    lemma_seq_lt_transitive, owned, push_str, same_text, seq_lt,
};
use crate::types::{
    and_then, bounded_text_check, checked_of, field_failure, invalid_field, non_empty_check,
    result_list_check, schema_check, task_id_check, validate_bounded_text, validate_non_empty,
    validate_result_list, validate_schema, validate_task_id, Checked, ProjectAgentId,
    ProjectAgentValidationError, RelativeProjectAgentPath, ValidationFailure,
    MAX_RESULT_LIST_ITEM_BYTES, MAX_RESULT_TEXT_BYTES, PROJECT_AGENT_SCHEMA_VERSION,
};
use vstd::prelude::*;

verus! {

broadcast use vstd::string::group_string_axioms;

// ---------------------------------------------------------------------------
// Registry
// ---------------------------------------------------------------------------

/// Where and whether one project AGENT is registered.
#[derive(Clone, Debug, Eq, PartialEq)]
pub struct ProjectAgentRegistration {
    pub path: RelativeProjectAgentPath,
    pub enabled: bool,
}

/// The catalog of project AGENTs, one registration per identifier.
#[derive(Clone, Debug, Eq, PartialEq)]
pub struct ProjectAgentRegistry {
    pub schema_version: u32,
    pub revision: u64,
    pub agents: Vec<(ProjectAgentId, ProjectAgentRegistration)>,
}

/// The registry path a registration for `agent_id` must use.
pub open spec fn expected_definition_path(agent_id: Seq<char>) -> Seq<char> {
    "agents/"@ + agent_id + "/agent.toml"@
}

/// Every registration in `agents` points at its agent's definition, checked
/// in order.
pub open spec fn registrations_check(agents: Seq<(ProjectAgentId, ProjectAgentRegistration)>) -> Checked
    decreases agents.len(),
{
    if agents.len() == 0 {
        Ok(())
    } else {
        let (id, reg) = agents.last();
        and_then(
            registrations_check(agents.drop_last()),
            if reg.path@ != expected_definition_path(id@) {
                Err(
                    ValidationFailure::RegistryPathMismatch {
                        agent_id: id@,
                        expected: expected_definition_path(id@),
                        actual: reg.path@,
                    },
                )
            } else {
                Ok(())
            },
        )
    }
}

/// Why a registration breaks the id order: a map keyed by agent id lists
/// each id once, in ascending order.
pub open spec fn unordered_text(agent_id: Seq<char>) -> Seq<char> {
    "project AGENT `"@ + agent_id + "` is listed out of id order or more than once"@
}

/// The registrations are listed in strictly ascending id order, checked
/// pair by pair from the front.
pub open spec fn order_check(agents: Seq<(ProjectAgentId, ProjectAgentRegistration)>) -> Checked
    decreases agents.len(),
{
    if agents.len() < 2 {
        Ok(())
    } else {
        and_then(
            order_check(agents.drop_last()),
            if seq_lt(agents[agents.len() - 2].0@, agents.last().0@) {
                Ok(())
            } else {
                Err(
                    ValidationFailure::InvalidField {
                        field: "agents"@,
                        reason: unordered_text(agents.last().0@),
                    },
                )
            },
        )
    }
}

/// The rules a registry obeys, checked in order: its schema version, that
/// each agent is listed once and in id order, and that every registration
/// points at its agent's definition.
pub open spec fn registry_check(r: ProjectAgentRegistry) -> Checked {
    and_then(
        schema_check("registry.toml"@, r.schema_version),
        and_then(order_check(r.agents@), registrations_check(r.agents@)),
    )
}

/// When the first `i` registrations are in order and registration `i` does
/// not follow registration `i - 1`, the order check fails there.
pub proof fn lemma_order_prefix_fails(agents: Seq<(ProjectAgentId, ProjectAgentRegistration)>, i: int)
    requires
        1 <= i < agents.len(),
        order_check(agents.take(i)) == Ok::<(), ValidationFailure>(()),
        !seq_lt(agents[i - 1].0@, agents[i].0@),
    ensures
        order_check(agents) == Err::<(), ValidationFailure>(
            ValidationFailure::InvalidField { field: "agents"@, reason: unordered_text(agents[i].0@) },
        ),
    decreases agents.len(),
{
    if i == agents.len() - 1 {
        assert(agents.drop_last() == agents.take(i));
    } else {
        assert(agents.drop_last().take(i) == agents.take(i));
        lemma_order_prefix_fails(agents.drop_last(), i);
    }
}

/// Registrations that pass the order check list each id once, ascending.
pub proof fn lemma_order_check_ascending(agents: Seq<(ProjectAgentId, ProjectAgentRegistration)>)
    requires
        order_check(agents) == Ok::<(), ValidationFailure>(()),
    ensures
        crate::registry::ids_ascending(agents),
    decreases agents.len(),
{
    if agents.len() >= 2 {
        let front = agents.drop_last();
        lemma_order_check_ascending(front);
        let n = agents.len() - 1;
        assert forall|i: int, j: int| 0 <= i < j < agents.len() implies seq_lt(
            #[trigger] agents[i].0@,
            #[trigger] agents[j].0@,
        ) by {
            if j < n {
                assert(seq_lt(front[i].0@, front[j].0@));
            } else if i < n - 1 {
                assert(seq_lt(front[i].0@, front[n - 1].0@));
                lemma_seq_lt_transitive(agents[i].0@, agents[n - 1].0@, agents[n].0@);
            }
        }
    }
}

impl Default for ProjectAgentRegistry {
    fn default() -> (r: Self)
        ensures
            r.schema_version == PROJECT_AGENT_SCHEMA_VERSION,
            r.revision == 0,
            r.agents@.len() == 0,
    {
        ProjectAgentRegistry::new()
    }
}

impl ProjectAgentRegistry {
    /// An empty registry at revision 0.
    pub fn new() -> (r: Self)
        ensures
            r.schema_version == PROJECT_AGENT_SCHEMA_VERSION,
            r.revision == 0,
            r.agents@.len() == 0,
    {
        ProjectAgentRegistry { schema_version: PROJECT_AGENT_SCHEMA_VERSION, revision: 0, agents: Vec::new() }
    }

    /// Checks the registry against [`registry_check`]; a registry that
    /// passes lists each agent once, in ascending id order, so the first
    /// path mismatch reported is the first in id order.
    pub fn validate(&self) -> (r: Result<(), ProjectAgentValidationError>)
        ensures
            checked_of(r) == registry_check(*self),
            r is Ok ==> crate::registry::ids_ascending(self.agents@),
    {
        validate_schema("registry.toml", self.schema_version)?;
        let mut k: usize = 1;
        while k < self.agents.len()
            invariant
                1 <= k,
                k <= self.agents@.len() || self.agents@.len() == 0,
                self.agents@.len() >= 1 ==> order_check(self.agents@.take(k as int)) == Ok::<
                    (),
                    ValidationFailure,
                >(()),
                schema_check("registry.toml"@, self.schema_version) is Ok,
            decreases self.agents.len() - k,
        {
            proof {
                assert(self.agents@.take(k + 1).drop_last() == self.agents@.take(k as int));
            }
            let before = chars_of(self.agents[k - 1].0.as_str());
            let after = chars_of(self.agents[k].0.as_str());
            if !chars_lt(before.as_slice(), after.as_slice()) {
                proof {
                    lemma_order_prefix_fails(self.agents@, k as int);
                }
                let mut reason = owned("project AGENT `");
                push_str(&mut reason, self.agents[k].0.as_str());
                push_str(&mut reason, "` is listed out of id order or more than once");
                return Err(ProjectAgentValidationError::InvalidField { field: "agents", reason });
            }
            k = k + 1;
        }
        proof {
            if self.agents@.len() > 0 {
                assert(self.agents@.take(self.agents@.len() as int) == self.agents@);
            }
            lemma_order_check_ascending(self.agents@);
        }
        let mut i: usize = 0;
        while i < self.agents.len()
            invariant
                i <= self.agents@.len(),
                registrations_check(self.agents@.take(i as int)) == Ok::<(), ValidationFailure>(()),
                schema_check("registry.toml"@, self.schema_version) is Ok,
                order_check(self.agents@) == Ok::<(), ValidationFailure>(()),
            decreases self.agents.len() - i,
        {
            proof {
                assert(self.agents@.take(i + 1).drop_last() == self.agents@.take(i as int));
            }
            let agent_id = &self.agents[i].0;
            let registration = &self.agents[i].1;
            let mut expected = owned("agents/");
            push_str(&mut expected, agent_id.as_str());
            push_str(&mut expected, "/agent.toml");
            if !same_text(registration.path.as_str(), expected.as_str()) {
                proof {
                    lemma_registrations_prefix_fails(self.agents@, i as int);
                }
                return Err(
                    ProjectAgentValidationError::RegistryPathMismatch {
                        agent_id: agent_id.duplicate(),
                        expected,
                        actual: owned(registration.path.as_str()),
                    },
                );
            }
            i = i + 1;
        }
        proof {
            assert(self.agents@.take(self.agents@.len() as int) == self.agents@);
        }
        Ok(())
    }
}

/// When the first `i` registrations pass and registration `i` fails, the
/// whole check fails with registration `i`'s mismatch.
pub proof fn lemma_registrations_prefix_fails(
    agents: Seq<(ProjectAgentId, ProjectAgentRegistration)>,
    i: int,
)
    requires
        0 <= i < agents.len(),
        registrations_check(agents.take(i)) == Ok::<(), ValidationFailure>(()),
        agents[i].1.path@ != expected_definition_path(agents[i].0@),
    ensures
        registrations_check(agents) == Err::<(), ValidationFailure>(
            ValidationFailure::RegistryPathMismatch {
                agent_id: agents[i].0@,
                expected: expected_definition_path(agents[i].0@),
                actual: agents[i].1.path@,
            },
        ),
    decreases agents.len(),
{
    if i == agents.len() - 1 {
        assert(agents.drop_last() == agents.take(i));
    } else {
        assert(agents.drop_last().take(i) == agents.take(i));
        lemma_registrations_prefix_fails(agents.drop_last(), i);
    }
}

// ---------------------------------------------------------------------------
// Definitions
// ---------------------------------------------------------------------------

/// The on-disk definition of one project AGENT.
#[derive(Clone, Debug, Eq, PartialEq)]
pub struct ProjectAgentDefinition {
    pub schema_version: u32,
    pub id: ProjectAgentId,
    pub description: String,
    pub constraints_file: RelativeProjectAgentPath,
    pub model: Option<String>,
    pub model_reasoning_effort: Option<String>,
    pub model_provider: Option<String>,
    pub tools: Vec<RelativeProjectAgentPath>,
    pub memory_max_items: u32,
    pub memory_max_tokens: u32,
}

/// An optional text field, when present, is not blank.
pub open spec fn optional_non_empty_check(field: Seq<char>, value: Option<String>) -> Checked {
    match value {
        Some(v) => non_empty_check(field, v@),
        None => Ok(()),
    }
}

/// Some path among `paths` equals `p`.
pub open spec fn contains_path(paths: Seq<RelativeProjectAgentPath>, p: Seq<char>) -> bool {
    exists|j: int| 0 <= j < paths.len() && #[trigger] paths[j]@ == p
}

/// The reason reported for a misplaced tool manifest.
pub open spec fn misplaced_tool_reason(tool: Seq<char>) -> Seq<char> {
    "tool manifest `"@ + tool + "` must be under tools/ and end in .x"@
}

/// The reason reported for a repeated tool manifest.
pub open spec fn duplicate_tool_reason(tool: Seq<char>) -> Seq<char> {
    "duplicate tool manifest `"@ + tool + "`"@
}

/// Every tool manifest is under `tools/`, ends in `.x` and is listed once,
/// checked in order.
pub open spec fn tools_check(tools: Seq<RelativeProjectAgentPath>) -> Checked
    decreases tools.len(),
{
    if tools.len() == 0 {
        Ok(())
    } else {
        let tool = tools.last();
        and_then(
            tools_check(tools.drop_last()),
            if !(has_prefix(tool@, "tools/"@) && has_suffix(tool@, ".x"@)) {
                Err(field_failure("tools"@, misplaced_tool_reason(tool@)))
            } else if contains_path(tools.drop_last(), tool@) {
                Err(field_failure("tools"@, duplicate_tool_reason(tool@)))
            } else {
                Ok(())
            },
        )
    }
}

/// The rules an agent definition obeys, checked in order.
pub open spec fn definition_check(d: ProjectAgentDefinition) -> Checked {
    and_then(
        schema_check("agent.toml"@, d.schema_version),
        and_then(
            non_empty_check("description"@, d.description@),
            and_then(
                optional_non_empty_check("model"@, d.model),
                and_then(
                    optional_non_empty_check("model_reasoning_effort"@, d.model_reasoning_effort),
                    and_then(
                        optional_non_empty_check("model_provider"@, d.model_provider),
                        tools_check(d.tools@),
                    ),
                ),
            ),
        ),
    )
}

fn validate_optional_non_empty(field: &'static str, value: &Option<String>) -> (r: Result<
    (),
    ProjectAgentValidationError,
>)
    ensures
        checked_of(r) == optional_non_empty_check(field@, *value),
{
    match value {
        Some(v) => validate_non_empty(field, v.as_str()),
        None => Ok(()),
    }
}

/// Whether `paths[..end]` holds a path equal to `p`.
fn contains_path_before(paths: &Vec<RelativeProjectAgentPath>, end: usize, p: &RelativeProjectAgentPath) -> (r:
    bool)
    requires
        end <= paths@.len(),
    ensures
        r == contains_path(paths@.take(end as int), p@),
{
    let mut j: usize = 0;
    while j < end
        invariant
            end <= paths@.len(),
            j <= end,
            forall|k: int| 0 <= k < j ==> paths@[k]@ != p@,
        decreases end - j,
    {
        if paths[j].same(p) {
            proof {
                assert(paths@.take(end as int)[j as int] == paths@[j as int]);
            }
            return true;
        }
        j = j + 1;
    }
    false
}

/// Whether `path` starts with `prefix`, character by character.
fn path_starts_with(path: &str, prefix: &str) -> (r: bool)
    ensures
        r == has_prefix(path@, prefix@),
{
    let p = chars_of(path);
    let q = chars_of(prefix);
    chars_start_with(p.as_slice(), q.as_slice())
}

/// Whether `path` ends with `suffix`, character by character.
fn path_ends_with(path: &str, suffix: &str) -> (r: bool)
    ensures
        r == has_suffix(path@, suffix@),
{
    let p = chars_of(path);
    let q = chars_of(suffix);
    chars_end_with(p.as_slice(), q.as_slice())
}

fn validate_tools(tools: &Vec<RelativeProjectAgentPath>) -> (r: Result<
    (),
    ProjectAgentValidationError,
>)
    ensures
        checked_of(r) == tools_check(tools@),
{
    let mut i: usize = 0;
    while i < tools.len()
        invariant
            i <= tools@.len(),
            tools_check(tools@.take(i as int)) == Ok::<(), ValidationFailure>(()),
        decreases tools.len() - i,
    {
        let tool = &tools[i];
        proof {
            assert(tools@.take(i + 1).drop_last() == tools@.take(i as int));
            assert(tools@.take(i + 1).last() == *tool);
        }
        let placed = path_starts_with(tool.as_str(), "tools/") && path_ends_with(tool.as_str(), ".x");
        let failure = if !placed {
            let mut reason = owned("tool manifest `");
            push_str(&mut reason, tool.as_str());
            push_str(&mut reason, "` must be under tools/ and end in .x");
            Some(ProjectAgentValidationError::InvalidField { field: "tools", reason })
        } else if contains_path_before(tools, i, tool) {
            let mut reason = owned("duplicate tool manifest `");
            push_str(&mut reason, tool.as_str());
            push_str(&mut reason, "`");
            Some(ProjectAgentValidationError::InvalidField { field: "tools", reason })
        } else {
            None
        };
        match failure {
            Some(e) => {
                proof {
                    assert(checked_of(Err(e)) == tools_check(tools@.take(i + 1)));
                    lemma_tools_prefix_fails(tools@, i as int, tools@.len() as int);
                    assert(tools@.take(tools@.len() as int) == tools@);
                }
                return Err(e);
            },
            None => {},
        }
        i = i + 1;
    }
    proof {
        assert(tools@.take(tools@.len() as int) == tools@);
    }
    Ok(())
}

/// The check of the first `k` tools settles at the first failing tool.
pub proof fn lemma_tools_prefix_fails(tools: Seq<RelativeProjectAgentPath>, i: int, k: int)
    requires
        0 <= i < k <= tools.len(),
        tools_check(tools.take(i)) == Ok::<(), ValidationFailure>(()),
        tools_check(tools.take(i + 1)) is Err,
    ensures
        tools_check(tools.take(k)) == tools_check(tools.take(i + 1)),
    decreases k,
{
    if k > i + 1 {
        lemma_tools_prefix_fails(tools, i, k - 1);
        assert(tools.take(k).drop_last() == tools.take(k - 1));
    }
    assert(tools.take(tools.len() as int) == tools);
}

/// Tools that pass the check are listed once each: no two positions hold
/// the same manifest path.
pub proof fn lemma_checked_tools_distinct(tools: Seq<RelativeProjectAgentPath>)
    ensures
        tools_check(tools) is Ok ==> forall|i: int, j: int|
            0 <= i < j < tools.len() ==> #[trigger] tools[i]@ != #[trigger] tools[j]@,
    decreases tools.len(),
{
    if tools.len() > 0 && tools_check(tools) is Ok {
        let rest = tools.drop_last();
        lemma_checked_tools_distinct(rest);
        assert forall|i: int, j: int| 0 <= i < j < tools.len() implies #[trigger] tools[i]@
            != #[trigger] tools[j]@ by {
            assert(rest[i] == tools[i]);
            if j < tools.len() - 1 {
                assert(rest[j] == tools[j]);
            } else if tools[i]@ == tools[j]@ {
                assert(contains_path(rest, tools.last()@));
            }
        }
    }
}

/// Every failure of the tool check is reported on the field `tools`.
pub proof fn lemma_tools_failure_field(tools: Seq<RelativeProjectAgentPath>)
    ensures
        match tools_check(tools) {
            Ok(()) => true,
            Err(ValidationFailure::InvalidField { field, .. }) => field == "tools"@,
            Err(_) => false,
        },
    decreases tools.len(),
{
    if tools.len() > 0 {
        lemma_tools_failure_field(tools.drop_last());
    }
}

/// A definition that lists one tool manifest twice does not validate, and
/// its tool check fails on the field `tools`; so a definition that validates
/// lists each tool once.
pub proof fn lemma_repeated_tool_rejected(d: ProjectAgentDefinition, i: int, j: int)
    requires
        0 <= i < j < d.tools@.len(),
        d.tools@[i]@ == d.tools@[j]@,
    ensures
        definition_check(d) is Err,
        match tools_check(d.tools@) {
            Err(ValidationFailure::InvalidField { field, .. }) => field == "tools"@,
            _ => false,
        },
{
    lemma_checked_tools_distinct(d.tools@);
    lemma_tools_failure_field(d.tools@);
}

impl ProjectAgentDefinition {
    /// Checks the definition against [`definition_check`].
    pub fn validate(&self) -> (r: Result<(), ProjectAgentValidationError>)
        ensures
            checked_of(r) == definition_check(*self),
    {
        validate_schema("agent.toml", self.schema_version)?;
        validate_non_empty("description", self.description.as_str())?;
        validate_optional_non_empty("model", &self.model)?;
        validate_optional_non_empty("model_reasoning_effort", &self.model_reasoning_effort)?;
        validate_optional_non_empty("model_provider", &self.model_provider)?;
        validate_tools(&self.tools)
    }
}

// ---------------------------------------------------------------------------
// Tool manifests
// ---------------------------------------------------------------------------

/// What a project AGENT tool invokes.
#[derive(Clone, Debug, Eq, PartialEq)]
pub enum ProjectAgentToolTarget {
    Native { tool: String },
    Command { program: RelativeProjectAgentPath },
    Mcp { server: String, tool: String },
}

/// The manifest of one project AGENT tool.
#[derive(Clone, Debug, Eq, PartialEq)]
pub struct ProjectAgentToolManifest {
    pub schema_version: u32,
    pub id: ProjectAgentId,
    pub description: String,
    pub target: ProjectAgentToolTarget,
    pub timeout_ms: Option<u64>,
    pub input_schema: Option<RelativeProjectAgentPath>,
}

/// The rules a tool target obeys.
pub open spec fn target_check(t: ProjectAgentToolTarget) -> Checked {
    match t {
        ProjectAgentToolTarget::Native { tool } => non_empty_check("tool"@, tool@),
        ProjectAgentToolTarget::Command { .. } => Ok(()),
        ProjectAgentToolTarget::Mcp { server, tool } => and_then(
            non_empty_check("server"@, server@),
            non_empty_check("tool"@, tool@),
        ),
    }
}

/// The rules a tool manifest obeys, checked in order.
pub open spec fn tool_manifest_check(m: ProjectAgentToolManifest) -> Checked {
    and_then(
        schema_check("tool manifest"@, m.schema_version),
        and_then(
            non_empty_check("description"@, m.description@),
            if m.timeout_ms == Some(0u64) {
                Err(field_failure("timeout_ms"@, "must be greater than zero when present"@))
            } else {
                target_check(m.target)
            },
        ),
    )
}

impl ProjectAgentToolManifest {
    /// Checks the manifest against [`tool_manifest_check`].
    pub fn validate(&self) -> (r: Result<(), ProjectAgentValidationError>)
        ensures
            checked_of(r) == tool_manifest_check(*self),
    {
        validate_schema("tool manifest", self.schema_version)?;
        validate_non_empty("description", self.description.as_str())?;
        if let Some(0) = self.timeout_ms {
            return Err(invalid_field("timeout_ms", "must be greater than zero when present"));
        }
        match &self.target {
            ProjectAgentToolTarget::Native { tool } => validate_non_empty("tool", tool.as_str()),
            ProjectAgentToolTarget::Command { .. } => Ok(()),
            ProjectAgentToolTarget::Mcp { server, tool } => {
                validate_non_empty("server", server.as_str())?;
                validate_non_empty("tool", tool.as_str())
            },
        }
    }
}

// ---------------------------------------------------------------------------
// Accepted-memory index
// ---------------------------------------------------------------------------

/// The index of accepted memory items of one project AGENT.
#[derive(Clone, Debug, Eq, PartialEq)]
pub struct ProjectAgentMemoryIndex {
    pub schema_version: u32,
    pub items: Vec<RelativeProjectAgentPath>,
}

/// An accepted memory item lives under one of the three memory folders.
pub open spec fn is_memory_item_path(p: Seq<char>) -> bool {
    has_prefix(p, "memory/facts/"@) || has_prefix(p, "memory/experience/"@) || has_prefix(
        p,
        "memory/bottlenecks/"@,
    )
}

/// The reason reported for a misplaced or repeated memory item.
pub open spec fn memory_item_reason(item: Seq<char>) -> Seq<char> {
    "invalid or duplicate accepted-memory path `"@ + item + "`"@
}

/// Every memory item is under a memory folder and listed once, checked in
/// order.
pub open spec fn memory_items_check(items: Seq<RelativeProjectAgentPath>) -> Checked
    decreases items.len(),
{
    if items.len() == 0 {
        Ok(())
    } else {
        let item = items.last();
        and_then(
            memory_items_check(items.drop_last()),
            if !is_memory_item_path(item@) || contains_path(items.drop_last(), item@) {
                Err(field_failure("memory.items"@, memory_item_reason(item@)))
            } else {
                Ok(())
            },
        )
    }
}

/// The rules a memory index obeys, checked in order.
pub open spec fn memory_index_check(m: ProjectAgentMemoryIndex) -> Checked {
    and_then(schema_check("memory index"@, m.schema_version), memory_items_check(m.items@))
}

impl Default for ProjectAgentMemoryIndex {
    /// An empty index at the current schema version.
    fn default() -> (r: Self)
        ensures
            r.schema_version == PROJECT_AGENT_SCHEMA_VERSION,
            r.items@.len() == 0,
    {
        ProjectAgentMemoryIndex::new()
    }
}

impl ProjectAgentMemoryIndex {
    /// An empty index at the current schema version.
    pub fn new() -> (r: Self)
        ensures
            r.schema_version == PROJECT_AGENT_SCHEMA_VERSION,
            r.items@.len() == 0,
    {
        ProjectAgentMemoryIndex { schema_version: PROJECT_AGENT_SCHEMA_VERSION, items: Vec::new() }
    }

    /// Checks the index against [`memory_index_check`].
    pub fn validate(&self) -> (r: Result<(), ProjectAgentValidationError>)
        ensures
            checked_of(r) == memory_index_check(*self),
    {
        validate_schema("memory index", self.schema_version)?;
        let items = &self.items;
        let mut i: usize = 0;
        while i < items.len()
            invariant
                i <= items@.len(),
                memory_items_check(items@.take(i as int)) == Ok::<(), ValidationFailure>(()),
                schema_check("memory index"@, self.schema_version) is Ok,
                items == &self.items,
            decreases items.len() - i,
        {
            let item = &items[i];
            proof {
                assert(items@.take(i + 1).drop_last() == items@.take(i as int));
                assert(items@.take(i + 1).last() == *item);
            }
            let placed = path_starts_with(item.as_str(), "memory/facts/") || path_starts_with(
                item.as_str(),
                "memory/experience/",
            ) || path_starts_with(item.as_str(), "memory/bottlenecks/");
            if !placed || contains_path_before(items, i, item) {
                let mut reason = owned("invalid or duplicate accepted-memory path `");
                push_str(&mut reason, item.as_str());
                push_str(&mut reason, "`");
                proof {
                    lemma_memory_items_prefix_fails(items@, i as int, items@.len() as int);
                    assert(items@.take(items@.len() as int) == items@);
                }
                return Err(ProjectAgentValidationError::InvalidField { field: "memory.items", reason });
            }
            i = i + 1;
        }
        proof {
            assert(items@.take(items@.len() as int) == items@);
        }
        Ok(())
    }
}

/// The check of the first `k` items settles at the first failing item.
pub proof fn lemma_memory_items_prefix_fails(items: Seq<RelativeProjectAgentPath>, i: int, k: int)
    requires
        0 <= i < k <= items.len(),
        memory_items_check(items.take(i)) == Ok::<(), ValidationFailure>(()),
        memory_items_check(items.take(i + 1)) is Err,
    ensures
        memory_items_check(items.take(k)) == memory_items_check(items.take(i + 1)),
    decreases k,
{
    if k > i + 1 {
        lemma_memory_items_prefix_fails(items, i, k - 1);
        assert(items.take(k).drop_last() == items.take(k - 1));
    }
    assert(items.take(items.len() as int) == items);
}

// ---------------------------------------------------------------------------
// Task results
// ---------------------------------------------------------------------------

/// The outcome a project AGENT reports for one task.
#[derive(Clone, Copy, Debug, Eq, PartialEq, Structural)]
pub enum ProjectAgentTaskStatus {
    Completed,
    RejectedOutOfScope,
    BlockedMissingTool,
    Failed,
}

/// The fixed result protocol of a project AGENT task.
#[derive(Clone, Debug, Eq, PartialEq)]
pub struct ProjectAgentTaskResult {
    pub status: ProjectAgentTaskStatus,
    pub agent_id: ProjectAgentId,
    pub task_id: String,
    pub result: String,
    pub artifacts: Vec<String>,
    pub evidence: Vec<String>,
    pub memory_candidates: Vec<String>,
    pub improvement_proposals: Vec<String>,
    pub error: Option<String>,
}

/// The reason reported when a result names another agent or task.
pub open spec fn mismatch_reason(found: Seq<char>, expected: Seq<char>) -> Seq<char> {
    "result names `"@ + found + "`, expected `"@ + expected + "`"@
}

/// Only a failed result carries an error, and it must.
pub open spec fn task_error_check(status: ProjectAgentTaskStatus, error: Option<String>) -> Checked {
    if status == ProjectAgentTaskStatus::Failed {
        match error {
            None => Err(field_failure("error"@, "is required when status is failed"@)),
            Some(e) => bounded_text_check("error"@, e@, MAX_RESULT_LIST_ITEM_BYTES as nat, true),
        }
    } else {
        match error {
            Some(_) => Err(field_failure("error"@, "must be null unless status is failed"@)),
            None => Ok(()),
        }
    }
}

/// The rules a task result obeys for `expected_agent_id` and
/// `expected_task_id`, checked in order.
pub open spec fn task_result_check(
    r: ProjectAgentTaskResult,
    expected_agent_id: Seq<char>,
    expected_task_id: Seq<char>,
) -> Checked {
    if r.agent_id@ != expected_agent_id {
        Err(field_failure("agent_id"@, mismatch_reason(r.agent_id@, expected_agent_id)))
    } else if r.task_id@ != expected_task_id {
        Err(field_failure("task_id"@, mismatch_reason(r.task_id@, expected_task_id)))
    } else {
        and_then(
            task_id_check(r.task_id@),
            and_then(
                bounded_text_check("result"@, r.result@, MAX_RESULT_TEXT_BYTES as nat, true),
                and_then(
                    result_list_check("artifacts"@, r.artifacts@),
                    and_then(
                        result_list_check("evidence"@, r.evidence@),
                        and_then(
                            result_list_check("memory_candidates"@, r.memory_candidates@),
                            and_then(
                                result_list_check("improvement_proposals"@, r.improvement_proposals@),
                                task_error_check(r.status, r.error),
                            ),
                        ),
                    ),
                ),
            ),
        )
    }
}

fn mismatch(field: &'static str, found: &str, expected: &str) -> (e: ProjectAgentValidationError)
    ensures
        e@ == field_failure(field@, mismatch_reason(found@, expected@)),
{
    let mut reason = owned("result names `");
    push_str(&mut reason, found);
    push_str(&mut reason, "`, expected `");
    push_str(&mut reason, expected);
    push_str(&mut reason, "`");
    ProjectAgentValidationError::InvalidField { field, reason }
}

impl ProjectAgentTaskResult {
    /// Checks the result against [`task_result_check`].
    pub fn validate_for(&self, expected_agent_id: &ProjectAgentId, expected_task_id: &str) -> (r:
        Result<(), ProjectAgentValidationError>)
        ensures
            checked_of(r) == task_result_check(*self, expected_agent_id@, expected_task_id@),
    {
        if !self.agent_id.same(expected_agent_id) {
            return Err(mismatch("agent_id", self.agent_id.as_str(), expected_agent_id.as_str()));
        }
        if !same_text(self.task_id.as_str(), expected_task_id) {
            return Err(mismatch("task_id", self.task_id.as_str(), expected_task_id));
        }
        validate_task_id(self.task_id.as_str())?;
        validate_bounded_text("result", self.result.as_str(), MAX_RESULT_TEXT_BYTES, true)?;
        validate_result_list("artifacts", &self.artifacts)?;
        validate_result_list("evidence", &self.evidence)?;
        validate_result_list("memory_candidates", &self.memory_candidates)?;
        validate_result_list("improvement_proposals", &self.improvement_proposals)?;
        if self.status == ProjectAgentTaskStatus::Failed {
            match &self.error {
                None => Err(invalid_field("error", "is required when status is failed")),
                Some(e) => validate_bounded_text("error", e.as_str(), MAX_RESULT_LIST_ITEM_BYTES, true),
            }
        } else {
            match &self.error {
                Some(_) => Err(invalid_field("error", "must be null unless status is failed")),
                None => Ok(()),
            }
        }
    }
}

} // verus!
