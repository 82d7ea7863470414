//! Changes to the project AGENT registry: registering a new agent with its
//! default definition, disabling one, and what bootstrapping and loading an
//! agent report.

use crate::agent::{
    definition_check, expected_definition_path, ProjectAgentDefinition, ProjectAgentRegistration,
    ProjectAgentRegistry,
};
use crate::text::{chars_lt, chars_of, owned, push_str, seq_lt};
use crate::types::{
    non_empty_check, checked_of, valid_relative_path, Checked, ProjectAgentId, ProjectAgentValidationError,
    RelativeProjectAgentPath, ValidationFailure, PROJECT_AGENT_SCHEMA_VERSION,
};
use vstd::prelude::*;

verus! {

broadcast use vstd::string::group_string_axioms;

pub const DEFAULT_MEMORY_MAX_ITEMS: u32 = 32;

pub const DEFAULT_MEMORY_MAX_TOKENS: u32 = 4000;

/// Whether bootstrapping found a registry or wrote a new one.
#[derive(Clone, Copy, Debug, Eq, PartialEq, Structural)]
pub enum BootstrapDisposition {
    Created,
    Existing,
}

#[derive(Clone, Debug, Eq, PartialEq)]
pub struct BootstrapOutcome {
    pub disposition: BootstrapDisposition,
    pub registry: ProjectAgentRegistry,
}

/// A registry entry paired with its validated on-disk definition.
#[derive(Clone, Debug, Eq, PartialEq)]
pub struct ProjectAgentEntry {
    pub path: RelativeProjectAgentPath,
    pub enabled: bool,
    pub definition: ProjectAgentDefinition,
}

/// Registrations ordered by agent id, each id once: the order of a map keyed
/// by id.
pub open spec fn ids_ascending(agents: Seq<(ProjectAgentId, ProjectAgentRegistration)>) -> bool {
    forall|i: int, j: int|
        0 <= i < j < agents.len() ==> seq_lt(#[trigger] agents[i].0@, #[trigger] agents[j].0@)
}

/// The position of the first registration for `id`, if any.
pub open spec fn registration_index_from(
    agents: Seq<(ProjectAgentId, ProjectAgentRegistration)>,
    id: Seq<char>,
    i: int,
) -> Option<int>
    decreases agents.len() - i,
{
    if i < 0 || i >= agents.len() {
        None
    } else if agents[i].0@ == id {
        Some(i)
    } else {
        registration_index_from(agents, id, i + 1)
    }
}

pub open spec fn registration_index(
    agents: Seq<(ProjectAgentId, ProjectAgentRegistration)>,
    id: Seq<char>,
) -> Option<int> {
    registration_index_from(agents, id, 0)
}

/// Where a new registration for `id` goes: before the first id that orders
/// after it.
pub open spec fn insertion_index_from(
    agents: Seq<(ProjectAgentId, ProjectAgentRegistration)>,
    id: Seq<char>,
    i: int,
) -> int
    decreases agents.len() - i,
{
    if i < 0 || i >= agents.len() {
        agents.len() as int
    } else if seq_lt(id, agents[i].0@) {
        i
    } else {
        insertion_index_from(agents, id, i + 1)
    }
}

proof fn lemma_registration_index_from(
    agents: Seq<(ProjectAgentId, ProjectAgentRegistration)>,
    id: Seq<char>,
    i: int,
)
    requires
        0 <= i <= agents.len(),
    ensures
        match registration_index_from(agents, id, i) {
            Some(k) => i <= k < agents.len() && agents[k].0@ == id && forall|j: int|
                i <= j < k ==> (#[trigger] agents[j]).0@ != id,
            None => forall|j: int| i <= j < agents.len() ==> (#[trigger] agents[j]).0@ != id,
        },
    decreases agents.len() - i,
{
    if i < agents.len() && agents[i].0@ != id {
        lemma_registration_index_from(agents, id, i + 1);
    }
}

proof fn lemma_insertion_index_from(
    agents: Seq<(ProjectAgentId, ProjectAgentRegistration)>,
    id: Seq<char>,
    i: int,
)
    requires
        0 <= i <= agents.len(),
    ensures
        i <= insertion_index_from(agents, id, i) <= agents.len(),
        forall|j: int|
            i <= j < insertion_index_from(agents, id, i) ==> !seq_lt(id, #[trigger] agents[j].0@),
        insertion_index_from(agents, id, i) < agents.len() ==> seq_lt(
            id,
            agents[insertion_index_from(agents, id, i)].0@,
        ),
    decreases agents.len() - i,
{
    if i < agents.len() && !seq_lt(id, agents[i].0@) {
        lemma_insertion_index_from(agents, id, i + 1);
    }
}

impl ProjectAgentRegistration {
    /// A copy of this registration.
    pub fn duplicate(&self) -> (r: Self)
        ensures
            r.path@ == self.path@,
            r.enabled == self.enabled,
    {
        ProjectAgentRegistration { path: self.path.duplicate(), enabled: self.enabled }
    }
}

impl ProjectAgentRegistry {
    fn index_of(&self, agent_id: &ProjectAgentId) -> (r: Option<usize>)
        ensures
            r is Some <==> registration_index(self.agents@, agent_id@) is Some,
            r is Some ==> r->Some_0 as int == registration_index(self.agents@, agent_id@)->Some_0,
    {
        let mut i: usize = 0;
        while i < self.agents.len()
            invariant
                i <= self.agents.len(),
                registration_index(self.agents@, agent_id@) == registration_index_from(
                    self.agents@,
                    agent_id@,
                    i as int,
                ),
            decreases self.agents.len() - i,
        {
            if self.agents[i].0.same(agent_id) {
                return Some(i);
            }
            i = i + 1;
        }
        None
    }

    /// The registration of `agent_id`, if it is registered.
    pub fn registration(&self, agent_id: &ProjectAgentId) -> (r: Option<&ProjectAgentRegistration>)
        ensures
            match registration_index(self.agents@, agent_id@) {
                Some(k) => r == Some(&self.agents@[k].1),
                None => r is None,
            },
    {
        proof {
            lemma_registration_index_from(self.agents@, agent_id@, 0);
        }
        match self.index_of(agent_id) {
            Some(i) => {
                proof {
                    assert(i as int == registration_index(self.agents@, agent_id@)->Some_0);
                }
                Some(&self.agents[i].1)
            },
            None => None,
        }
    }

    /// Registers a new agent, enabled, with its definition at the expected
    /// path, in id order; the revision goes up by one. Returns `false`, and
    /// leaves the registry as it was, when the agent is already registered.
    pub fn register_new(&mut self, agent_id: ProjectAgentId, path: RelativeProjectAgentPath) -> (r:
        bool)
        ensures
            r == (registration_index(old(self).agents@, agent_id@) is None),
            !r ==> *final(self) == *old(self),
            r ==> {
                let k = insertion_index_from(old(self).agents@, agent_id@, 0);
                &&& final(self).agents@.len() == old(self).agents@.len() + 1
                &&& final(self).agents@[k].0 == agent_id
                &&& final(self).agents@[k].1 == (ProjectAgentRegistration {
                    path,
                    enabled: true,
                })
                &&& final(self).agents@ == old(self).agents@.insert(k, final(self).agents@[k])
                &&& final(self).revision == old(self).revision.saturating_add(1)
                &&& final(self).schema_version == old(self).schema_version
            },
            ids_ascending(old(self).agents@) ==> ids_ascending(final(self).agents@),
    {
        proof {
            lemma_registration_index_from(self.agents@, agent_id@, 0);
            lemma_insertion_index_from(self.agents@, agent_id@, 0);
        }
        if self.index_of(&agent_id).is_some() {
            return false;
        }
        let id_chars = chars_of(agent_id.as_str());
        let mut k: usize = 0;
        while k < self.agents.len()
            invariant
                k <= self.agents.len(),
                id_chars@ == agent_id@,
                insertion_index_from(self.agents@, agent_id@, 0) == insertion_index_from(
                    self.agents@,
                    agent_id@,
                    k as int,
                ),
            ensures
                k == insertion_index_from(self.agents@, agent_id@, 0),
            decreases self.agents.len() - k,
        {
            let other = chars_of(self.agents[k].0.as_str());
            if chars_lt(id_chars.as_slice(), other.as_slice()) {
                break;
            }
            k = k + 1;
        }
        let ghost before = self.agents@;
        self.agents.insert(k, (agent_id, ProjectAgentRegistration { path, enabled: true }));
        self.revision = self.revision.saturating_add(1);
        proof {
            if ids_ascending(before) {
                let id = self.agents@[k as int].0@;
                assert forall|i: int, j: int|
                    0 <= i < j < self.agents@.len() implies seq_lt(
                    #[trigger] self.agents@[i].0@,
                    #[trigger] self.agents@[j].0@,
                ) by {
                    if j < k {
                        assert(seq_lt(before[i].0@, before[j].0@));
                    } else if i > k {
                        assert(seq_lt(before[i - 1].0@, before[j - 1].0@));
                    } else if i == k {
                        assert(seq_lt(id, before[k as int].0@));
                        if j - 1 > k {
                            assert(seq_lt(before[k as int].0@, before[j - 1].0@));
                            crate::text::lemma_seq_lt_transitive(
                                id,
                                before[k as int].0@,
                                before[j - 1].0@,
                            );
                        }
                    } else if j == k {
                        assert(!seq_lt(id, before[i].0@));
                        assert(before[i].0@ != id);
                        crate::text::lemma_seq_lt_total(id, before[i].0@);
                    } else {
                        assert(!seq_lt(id, before[i].0@));
                        assert(before[i].0@ != id);
                        crate::text::lemma_seq_lt_total(id, before[i].0@);
                        assert(seq_lt(id, before[k as int].0@));
                        if j - 1 > k {
                            assert(seq_lt(before[k as int].0@, before[j - 1].0@));
                            crate::text::lemma_seq_lt_transitive(
                                id,
                                before[k as int].0@,
                                before[j - 1].0@,
                            );
                        }
                        crate::text::lemma_seq_lt_transitive(
                            before[i].0@,
                            id,
                            before[j - 1].0@,
                        );
                    }
                }
            }
        }
        true
    }

    /// Moves the catalog revision on by one (saturating), as a maintenance
    /// pass does when it decided anything; the agents stay as they are.
    pub fn advance_revision(&mut self)
        ensures
            final(self).revision == old(self).revision.saturating_add(1),
            final(self).agents@ == old(self).agents@,
            final(self).schema_version == old(self).schema_version,
    {
        self.revision = self.revision.saturating_add(1);
    }

    /// Disables `agent_id` and bumps the revision, returning its
    /// registration as it now stands; `None`, with the registry unchanged,
    /// when the agent is not registered.
    pub fn disable(&mut self, agent_id: &ProjectAgentId) -> (r: Option<ProjectAgentRegistration>)
        ensures
            match registration_index(old(self).agents@, agent_id@) {
                None => r is None && *final(self) == *old(self),
                Some(k) => {
                    &&& r is Some
                    &&& r->Some_0.path@ == old(self).agents@[k].1.path@
                    &&& !r->Some_0.enabled
                    &&& final(self).agents@ == old(self).agents@.update(
                        k,
                        (
                            old(self).agents@[k].0,
                            ProjectAgentRegistration {
                                enabled: false,
                                ..old(self).agents@[k].1
                            },
                        ),
                    )
                    &&& final(self).revision == old(self).revision.saturating_add(1)
                    &&& final(self).schema_version == old(self).schema_version
                },
            },
            ids_ascending(old(self).agents@) ==> ids_ascending(final(self).agents@),
    {
        proof {
            lemma_registration_index_from(self.agents@, agent_id@, 0);
        }
        match self.index_of(agent_id) {
            None => None,
            Some(i) => {
                let (id, registration) = self.agents.remove(i);
                let updated = ProjectAgentRegistration { path: registration.path, enabled: false };
                let copy = updated.duplicate();
                self.agents.insert(i, (id, updated));
                self.revision = self.revision.saturating_add(1);
                proof {
                    assert(self.agents@ =~= old(self).agents@.update(
                        i as int,
                        (
                            old(self).agents@[i as int].0,
                            ProjectAgentRegistration {
                                enabled: false,
                                ..old(self).agents@[i as int].1
                            },
                        ),
                    ));
                }
                Some(copy)
            },
        }
    }
}

/// Where a new agent's definition lives.
pub open spec fn definition_path_text(agent_id: Seq<char>) -> Seq<char> {
    expected_definition_path(agent_id)
}

/// The definition a newly created agent starts with.
pub open spec fn is_default_definition(
    d: ProjectAgentDefinition,
    agent_id: Seq<char>,
    description: Seq<char>,
) -> bool {
    &&& d.schema_version == PROJECT_AGENT_SCHEMA_VERSION
    &&& d.id@ == agent_id
    &&& d.description@ == description
    &&& d.constraints_file@ == "constraints.md"@
    &&& d.model is None
    &&& d.model_reasoning_effort is None
    &&& d.model_provider is None
    &&& d.tools@.len() == 0
    &&& d.memory_max_items == DEFAULT_MEMORY_MAX_ITEMS
    &&& d.memory_max_tokens == DEFAULT_MEMORY_MAX_TOKENS
}

/// What creating an agent checks, in order: its definition path, the
/// constraints path, then the definition, of which only the description can
/// fail.
pub open spec fn new_agent_check(agent_id: Seq<char>, description: Seq<char>) -> Checked {
    if !valid_relative_path(definition_path_text(agent_id)) {
        Err(ValidationFailure::InvalidRelativePath(definition_path_text(agent_id)))
    } else if !valid_relative_path("constraints.md"@) {
        Err(ValidationFailure::InvalidRelativePath("constraints.md"@))
    } else {
        non_empty_check("description"@, description)
    }
}

/// The definition path and default definition of a new agent, once both
/// paths and the definition check out.
pub fn new_agent_definition(agent_id: &ProjectAgentId, description: String) -> (r: Result<
    (RelativeProjectAgentPath, ProjectAgentDefinition),
    ProjectAgentValidationError,
>)
    ensures
        match r {
            Ok((path, d)) => new_agent_check(agent_id@, description@) is Ok && path@
                == definition_path_text(agent_id@) && is_default_definition(
                d,
                agent_id@,
                description@,
            ) && definition_check(d) is Ok,
            Err(e) => new_agent_check(agent_id@, description@) == Err::<(), ValidationFailure>(e@),
        },
{
    let mut path = owned("agents/");
    push_str(&mut path, agent_id.as_str());
    push_str(&mut path, "/agent.toml");
    proof {
        assert(path@ =~= definition_path_text(agent_id@));
    }
    let path = RelativeProjectAgentPath::new(path.as_str())?;
    let constraints_file = RelativeProjectAgentPath::new("constraints.md")?;
    let definition = ProjectAgentDefinition {
        schema_version: PROJECT_AGENT_SCHEMA_VERSION,
        id: agent_id.duplicate(),
        description,
        constraints_file,
        model: None,
        model_reasoning_effort: None,
        model_provider: None,
        tools: Vec::new(),
        memory_max_items: DEFAULT_MEMORY_MAX_ITEMS,
        memory_max_tokens: DEFAULT_MEMORY_MAX_TOKENS,
    };
    match definition.validate() {
        Ok(()) => {},
        Err(e) => {
            return Err(e);
        },
    }
    Ok((path, definition))
}

/// Accepted memory is loaded in index order until an item would take the
/// tokens used past the budget: the tokens used with an item of `tokens`
/// tokens added (saturating at the largest `usize`), or `None` when that
/// exceeds `max_tokens`.
pub fn admit_memory(used_tokens: usize, tokens: usize, max_tokens: usize) -> (r: Option<usize>)
    ensures
        used_tokens.saturating_add(tokens) > max_tokens ==> r is None,
        used_tokens.saturating_add(tokens) <= max_tokens ==> r == Some(
            used_tokens.saturating_add(tokens),
        ),
{
    let total = used_tokens.saturating_add(tokens);
    if total > max_tokens {
        None
    } else {
        Some(total)
    }
}

/// Why a registered agent's definition cannot be loaded.
#[derive(Debug)]
pub enum EntryLoadError {
    /// The definition breaks its own rules.
    Invalid(ProjectAgentValidationError),
    /// The definition names another agent than the registry does.
    IdMismatch { expected: ProjectAgentId, actual: ProjectAgentId },
}

/// Pairs the registration of `agent_id` with its definition as read from
/// disk: the definition must pass its own checks and name `agent_id`.
pub fn load_entry(
    agent_id: &ProjectAgentId,
    registration: &ProjectAgentRegistration,
    definition: ProjectAgentDefinition,
) -> (r: Result<ProjectAgentEntry, EntryLoadError>)
    ensures
        definition_check(definition) matches Err(f) ==> (r matches Err(EntryLoadError::Invalid(e))
            && e@ == f),
        definition_check(definition) is Ok && definition.id@ != agent_id@ ==> (r matches Err(
            EntryLoadError::IdMismatch { expected, actual },
        ) && expected@ == agent_id@ && actual@ == definition.id@),
        definition_check(definition) is Ok && definition.id@ == agent_id@ ==> (r matches Ok(entry)
            && entry.path@ == registration.path@ && entry.enabled == registration.enabled
            && entry.definition == definition),
{
    match definition.validate() {
        Err(e) => return Err(EntryLoadError::Invalid(e)),
        Ok(()) => {},
    }
    if !crate::text::same_text(definition.id.as_str(), agent_id.as_str()) {
        return Err(
            EntryLoadError::IdMismatch { expected: agent_id.duplicate(), actual: definition.id.duplicate() },
        );
    }
    Ok(
        ProjectAgentEntry {
            path: registration.path.duplicate(),
            enabled: registration.enabled,
            definition,
        },
    )
}

/// Why a tool cannot be added to a definition.
#[derive(Debug)]
pub enum ToolAddError {
    /// The definition already lists the manifest.
    AlreadyListed,
    /// The definition with the manifest added breaks its rules.
    Invalid(ProjectAgentValidationError),
}

/// Whether `definition` already lists the tool manifest at `manifest_path`.
pub fn lists_tool(definition: &ProjectAgentDefinition, manifest_path: &RelativeProjectAgentPath) -> (r: bool)
    ensures
        r == crate::agent::contains_path(definition.tools@, manifest_path@),
{
    let mut j: usize = 0;
    while j < definition.tools.len()
        invariant
            j <= definition.tools@.len(),
            forall|k: int| 0 <= k < j ==> (#[trigger] definition.tools@[k])@ != manifest_path@,
        decreases definition.tools.len() - j,
    {
        if definition.tools[j].same(manifest_path) {
            return true;
        }
        j = j + 1;
    }
    false
}

/// Adds the tool manifest at `manifest_path` to `definition`: refused,
/// with the definition unchanged, when it already lists the manifest;
/// otherwise the manifest is appended and the definition checked again.
pub fn add_tool(definition: &mut ProjectAgentDefinition, manifest_path: RelativeProjectAgentPath) -> (r:
    Result<(), ToolAddError>)
    ensures
        crate::agent::contains_path(old(definition).tools@, manifest_path@) ==> (r matches Err(
            ToolAddError::AlreadyListed,
        ) && *final(definition) == *old(definition)),
        !crate::agent::contains_path(old(definition).tools@, manifest_path@) ==> {
            &&& final(definition).tools@ == old(definition).tools@.push(manifest_path)
            &&& *final(definition) == (ProjectAgentDefinition { tools: final(definition).tools, ..*old(definition) })
            &&& match definition_check(*final(definition)) {
                Ok(()) => r is Ok,
                Err(f) => r matches Err(ToolAddError::Invalid(e)) && e@ == f,
            }
        },
{
    if lists_tool(definition, &manifest_path) {
        return Err(ToolAddError::AlreadyListed);
    }
    definition.tools.push(manifest_path);
    match definition.validate() {
        Ok(()) => Ok(()),
        Err(e) => Err(ToolAddError::Invalid(e)),
    }
}

} // verus!
