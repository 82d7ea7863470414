//! The catalog that `@` and `$` mentions search: recent project AGENT
//! tasks first, then enabled project AGENTs, skills and plugins.

use crate::mention::{mention_name, plugin_mention_name};
use crate::text::{chars_of, chars_text, owned, push_str, same_text, str_trim, texts, trim};
use crate::checkpoint::{join_texts, joined};
use crate::checkpoint::decimal_text;
use crate::text::decimal;
use crate::workbench::RosterAgent;
use vstd::prelude::*;

verus! {

broadcast use vstd::string::group_string_axioms;

/// What a candidate mentions.
#[derive(Clone, Copy, Debug, Eq, PartialEq, Structural)]
pub enum MentionType {
    ProjectAgentTask,
    ProjectAgent,
    Skill,
    Plugin,
}

/// A recent task of a project AGENT that can be mentioned.
#[derive(Clone, Debug, Eq, PartialEq)]
pub struct ProjectAgentTaskMention {
    pub root_thread_id: String,
    pub task_id: String,
    pub task_title: String,
    pub agent_id: String,
    pub session_thread_id: String,
}

pub struct TaskMentionModel {
    pub root_thread_id: Seq<char>,
    pub task_id: Seq<char>,
    pub task_title: Seq<char>,
    pub agent_id: Seq<char>,
    pub session_thread_id: Seq<char>,
}

impl View for ProjectAgentTaskMention {
    type V = TaskMentionModel;

    open spec fn view(&self) -> TaskMentionModel {
        TaskMentionModel {
            root_thread_id: self.root_thread_id@,
            task_id: self.task_id@,
            task_title: self.task_title@,
            agent_id: self.agent_id@,
            session_thread_id: self.session_thread_id@,
        }
    }
}

fn clone_task(t: &ProjectAgentTaskMention) -> (r: ProjectAgentTaskMention)
    ensures
        r@ == t@,
{
    ProjectAgentTaskMention {
        root_thread_id: t.root_thread_id.clone(),
        task_id: t.task_id.clone(),
        task_title: t.task_title.clone(),
        agent_id: t.agent_id.clone(),
        session_thread_id: t.session_thread_id.clone(),
    }
}

/// What choosing a candidate does.
#[derive(Clone, Debug, Eq, PartialEq)]
pub enum Selection {
    Tool { insert_text: String, path: Option<String> },
    ProjectAgentTask(ProjectAgentTaskMention),
}

pub enum SelectionModel {
    Tool { insert_text: Seq<char>, path: Option<Seq<char>> },
    ProjectAgentTask(TaskMentionModel),
}

pub open spec fn opt_view(o: Option<String>) -> Option<Seq<char>> {
    match o {
        Some(s) => Some(s@),
        None => None,
    }
}

impl View for Selection {
    type V = SelectionModel;

    open spec fn view(&self) -> SelectionModel {
        match self {
            Selection::Tool { insert_text, path } => SelectionModel::Tool {
                insert_text: insert_text@,
                path: opt_view(*path),
            },
            Selection::ProjectAgentTask(t) => SelectionModel::ProjectAgentTask(t@),
        }
    }
}

/// One entry of the mention catalog.
#[derive(Clone, Debug, Eq, PartialEq)]
pub struct Candidate {
    pub display_name: String,
    pub description: Option<String>,
    pub search_terms: Vec<String>,
    pub mention_type: MentionType,
    pub selection: Selection,
}

pub struct CandidateModel {
    pub display_name: Seq<char>,
    pub description: Option<Seq<char>>,
    pub search_terms: Seq<Seq<char>>,
    pub mention_type: MentionType,
    pub selection: SelectionModel,
}

impl View for Candidate {
    type V = CandidateModel;

    open spec fn view(&self) -> CandidateModel {
        CandidateModel {
            display_name: self.display_name@,
            description: opt_view(self.description),
            search_terms: texts(self.search_terms@),
            mention_type: self.mention_type,
            selection: self.selection@,
        }
    }
}

pub open spec fn candidate_views(v: Seq<Candidate>) -> Seq<CandidateModel> {
    v.map_values(|c: Candidate| c@)
}

/// The candidate of a recent task: `@agent · title`, found by the agent,
/// the task id, the title and the session thread.
pub open spec fn task_candidate(t: TaskMentionModel) -> CandidateModel {
    CandidateModel {
        display_name: "@"@ + t.agent_id + " \u{b7} "@ + t.task_title,
        description: Some(t.task_id),
        search_terms: seq![t.agent_id, t.task_id, t.task_title, t.session_thread_id],
        mention_type: MentionType::ProjectAgentTask,
        selection: SelectionModel::ProjectAgentTask(t),
    }
}

pub fn project_agent_task_candidate(task: &ProjectAgentTaskMention) -> (r: Candidate)
    ensures
        r@ == task_candidate(task@),
{
    let mut display_name = owned("@");
    push_str(&mut display_name, task.agent_id.as_str());
    push_str(&mut display_name, " \u{b7} ");
    push_str(&mut display_name, task.task_title.as_str());
    let search_terms = vec![
        task.agent_id.clone(),
        task.task_id.clone(),
        task.task_title.clone(),
        task.session_thread_id.clone(),
    ];
    let r = Candidate {
        display_name,
        description: Some(task.task_id.clone()),
        search_terms,
        mention_type: MentionType::ProjectAgentTask,
        selection: Selection::ProjectAgentTask(clone_task(task)),
    };
    proof {
        assert(texts(r.search_terms@) =~= seq![
            task.agent_id@,
            task.task_id@,
            task.task_title@,
            task.session_thread_id@,
        ]);
    }
    r
}

/// The candidate of a project AGENT: `@id`, found by its id and its
/// description.
pub open spec fn agent_candidate(id: Seq<char>, description: Seq<char>) -> CandidateModel {
    CandidateModel {
        display_name: "@"@ + id,
        description: Some(description),
        search_terms: seq![id, description],
        mention_type: MentionType::ProjectAgent,
        selection: SelectionModel::Tool { insert_text: "@"@ + id, path: None },
    }
}

pub fn project_agent_candidate(agent: &RosterAgent) -> (r: Candidate)
    ensures
        r@ == agent_candidate(agent.id@, agent.description@),
{
    let mut display_name = owned("@");
    push_str(&mut display_name, agent.id.as_str());
    let mut insert_text = owned("@");
    push_str(&mut insert_text, agent.id.as_str());
    let r = Candidate {
        display_name,
        description: Some(agent.description.clone()),
        search_terms: vec![agent.id.clone(), agent.description.clone()],
        mention_type: MentionType::ProjectAgent,
        selection: Selection::Tool { insert_text, path: None },
    };
    proof {
        assert(texts(r.search_terms@) =~= seq![agent.id@, agent.description@]);
    }
    r
}

/// A skill as the catalog sees it: its name, the name and description it
/// is displayed with, and the path of its `SKILL.md`.
#[derive(Clone, Debug, Eq, PartialEq)]
pub struct SkillMention {
    pub name: String,
    pub display_name: String,
    pub description: String,
    pub path: String,
}

/// The candidate of a skill: found by its name, and by its display name
/// when that differs; inserted as `$name`.
pub open spec fn skill_candidate_spec(s: SkillMention) -> CandidateModel {
    CandidateModel {
        display_name: s.display_name@,
        description: if trim(s.description@).len() == 0 {
            None
        } else {
            Some(trim(s.description@))
        },
        search_terms: if s.display_name@ == s.name@ {
            seq![s.name@]
        } else {
            seq![s.name@, s.display_name@]
        },
        mention_type: MentionType::Skill,
        selection: SelectionModel::Tool { insert_text: "$"@ + s.name@, path: Some(s.path@) },
    }
}

pub fn skill_candidate(skill: &SkillMention) -> (r: Candidate)
    ensures
        r@ == skill_candidate_spec(*skill),
{
    let trimmed = str_trim(skill.description.as_str());
    let description = if trimmed.is_empty() {
        None
    } else {
        Some(owned(trimmed))
    };
    let search_terms = if same_text(skill.display_name.as_str(), skill.name.as_str()) {
        vec![skill.name.clone()]
    } else {
        vec![skill.name.clone(), skill.display_name.clone()]
    };
    let mut insert_text = owned("$");
    push_str(&mut insert_text, skill.name.as_str());
    let r = Candidate {
        display_name: skill.display_name.clone(),
        description,
        search_terms,
        mention_type: MentionType::Skill,
        selection: Selection::Tool { insert_text, path: Some(skill.path.clone()) },
    };
    proof {
        if skill.display_name@ == skill.name@ {
            assert(texts(r.search_terms@) =~= seq![skill.name@]);
        } else {
            assert(texts(r.search_terms@) =~= seq![skill.name@, skill.display_name@]);
        }
    }
    r
}

/// A plugin as the catalog sees it.
#[derive(Clone, Debug, Eq, PartialEq)]
pub struct PluginSummary {
    /// `name@marketplace`, or the name alone.
    pub config_name: String,
    pub display_name: String,
    pub description: Option<String>,
    pub has_skills: bool,
    pub mcp_server_names: Vec<String>,
    pub app_connector_ids: Vec<String>,
}

/// The index of the first `@` in `s` at or after `i`, or the length.
pub open spec fn first_at_from(s: Seq<char>, i: int) -> int
    decreases s.len() - i,
{
    if i >= s.len() || i < 0 {
        s.len() as int
    } else if s[i] == '@' {
        i
    } else {
        first_at_from(s, i + 1)
    }
}

/// `split_once('@')`, with the whole name and no marketplace when there is
/// no `@`.
pub open spec fn config_parts(s: Seq<char>) -> (Seq<char>, Seq<char>) {
    let k = first_at_from(s, 0);
    if k < s.len() {
        (s.take(k), s.skip(k + 1))
    } else {
        (s, Seq::empty())
    }
}

proof fn lemma_first_at_from(s: Seq<char>, i: int)
    requires
        0 <= i <= s.len(),
    ensures
        i <= first_at_from(s, i) <= s.len(),
        first_at_from(s, i) < s.len() ==> s[first_at_from(s, i)] == '@',
    decreases s.len() - i,
{
    if i < s.len() && s[i] != '@' {
        lemma_first_at_from(s, i + 1);
    }
}

/// The plugin's name and marketplace.
pub fn split_config_name(config_name: &str) -> (r: (String, String))
    ensures
        (r.0@, r.1@) == config_parts(config_name@),
{
    let cs = chars_of(config_name);
    let mut i: usize = 0;
    while i < cs.len() && cs[i] != '@'
        invariant
            cs@ == config_name@,
            i <= cs.len(),
            first_at_from(cs@, 0) == first_at_from(cs@, i as int),
        decreases cs.len() - i,
    {
        i = i + 1;
    }
    proof {
        lemma_first_at_from(cs@, i as int);
    }
    if i < cs.len() {
        let name = chars_text(&cs, 0, i);
        let market = chars_text(&cs, i + 1, cs.len());
        proof {
            assert(cs@.subrange(0, i as int) =~= cs@.take(i as int));
            assert(cs@.subrange(i + 1, cs@.len() as int) =~= cs@.skip(i + 1));
        }
        (name, market)
    } else {
        (owned(config_name), String::new())
    }
}

/// `1 <one>` or `<n> <many>`.
pub open spec fn count_label(n: nat, one: Seq<char>, many: Seq<char>) -> Seq<char> {
    if n == 1 {
        "1 "@ + one
    } else {
        decimal(n) + " "@ + many
    }
}

/// What a plugin offers: skills, MCP servers, apps.
pub open spec fn capability_labels(p: PluginSummary) -> Seq<Seq<char>> {
    (if p.has_skills {
        seq!["skills"@]
    } else {
        Seq::empty()
    }) + (if p.mcp_server_names@.len() > 0 {
        seq![count_label(p.mcp_server_names@.len(), "MCP server"@, "MCP servers"@)]
    } else {
        Seq::empty()
    }) + (if p.app_connector_ids@.len() > 0 {
        seq![count_label(p.app_connector_ids@.len(), "app"@, "apps"@)]
    } else {
        Seq::empty()
    })
}

fn count_text(n: usize, one: &str, many: &str) -> (r: String)
    ensures
        r@ == count_label(n as nat, one@, many@),
{
    if n == 1 {
        let mut r = owned("1 ");
        push_str(&mut r, one);
        r
    } else {
        let mut r = decimal_text(n as u64);
        push_str(&mut r, " ");
        push_str(&mut r, many);
        r
    }
}

pub fn plugin_capability_labels(plugin: &PluginSummary) -> (r: Vec<String>)
    ensures
        texts(r@) == capability_labels(*plugin),
{
    let mut labels: Vec<String> = Vec::new();
    if plugin.has_skills {
        labels.push(owned("skills"));
    }
    let ghost a = texts(labels@);
    if plugin.mcp_server_names.len() > 0 {
        labels.push(count_text(plugin.mcp_server_names.len(), "MCP server", "MCP servers"));
    }
    let ghost b = texts(labels@);
    if plugin.app_connector_ids.len() > 0 {
        labels.push(count_text(plugin.app_connector_ids.len(), "app", "apps"));
    }
    proof {
        assert(texts(labels@) =~= capability_labels(*plugin));
    }
    labels
}

/// The plugin's own description, or what it offers.
pub open spec fn plugin_description_spec(p: PluginSummary) -> Seq<char> {
    match p.description {
        Some(d) => d@,
        None => if capability_labels(p).len() == 0 {
            "Plugin"@
        } else {
            "Plugin - "@ + joined(capability_labels(p), " - "@)
        },
    }
}

pub fn plugin_description(plugin: &PluginSummary) -> (r: Option<String>)
    ensures
        r matches Some(d) && d@ == plugin_description_spec(*plugin),
{
    let labels = plugin_capability_labels(plugin);
    match &plugin.description {
        Some(d) => Some(d.clone()),
        None => if labels.len() == 0 {
            Some(owned("Plugin"))
        } else {
            let mut r = owned("Plugin - ");
            let rest = join_texts(&labels, " - ");
            push_str(&mut r, rest.as_str());
            Some(r)
        },
    }
}

/// The candidate of a plugin: found by its name, its configured name, its
/// display name when that differs and its marketplace when it has one;
/// inserted as `@` and its mention name.
pub open spec fn plugin_candidate_spec(p: PluginSummary) -> CandidateModel {
    let (name, market) = config_parts(p.config_name@);
    CandidateModel {
        display_name: p.display_name@,
        description: Some(plugin_description_spec(p)),
        search_terms: seq![name, p.config_name@] + (if p.display_name@ != name {
            seq![p.display_name@]
        } else {
            Seq::empty()
        }) + (if market.len() > 0 {
            seq![market]
        } else {
            Seq::empty()
        }),
        mention_type: MentionType::Plugin,
        selection: SelectionModel::Tool {
            insert_text: "@"@ + mention_name(name, p.display_name@),
            path: Some("plugin://"@ + p.config_name@),
        },
    }
}

pub fn plugin_candidate(plugin: &PluginSummary) -> (r: Candidate)
    ensures
        r@ == plugin_candidate_spec(*plugin),
{
    let (plugin_name, marketplace_name) = split_config_name(plugin.config_name.as_str());
    let mention = plugin_mention_name(plugin_name.as_str(), plugin.display_name.as_str());
    let mut search_terms: Vec<String> = vec![plugin_name.clone(), plugin.config_name.clone()];
    let ghost first = texts(search_terms@);
    if !same_text(plugin.display_name.as_str(), plugin_name.as_str()) {
        search_terms.push(plugin.display_name.clone());
    }
    let ghost second = texts(search_terms@);
    if !marketplace_name.as_str().is_empty() {
        search_terms.push(marketplace_name);
    }
    let mut insert_text = owned("@");
    push_str(&mut insert_text, mention.as_str());
    let mut path = owned("plugin://");
    push_str(&mut path, plugin.config_name.as_str());
    let description = plugin_description(plugin);
    let r = Candidate {
        display_name: plugin.display_name.clone(),
        description,
        search_terms,
        mention_type: MentionType::Plugin,
        selection: Selection::Tool { insert_text, path: Some(path) },
    };
    proof {
        assert(texts(r.search_terms@) =~= plugin_candidate_spec(*plugin).search_terms);
    }
    r
}

/// The mentionable project AGENTs and their recent tasks.
#[derive(Clone, Debug)]
pub struct ProjectAgentMentionCatalog {
    pub agents: Vec<RosterAgent>,
    pub recent_tasks: Vec<ProjectAgentTaskMention>,
}

/// The candidates of the enabled agents, in order.
pub open spec fn enabled_agent_candidates(agents: Seq<RosterAgent>) -> Seq<CandidateModel>
    decreases agents.len(),
{
    if agents.len() == 0 {
        Seq::empty()
    } else {
        let a = agents.last();
        enabled_agent_candidates(agents.drop_last()) + if a.enabled {
            seq![agent_candidate(a.id@, a.description@)]
        } else {
            Seq::empty()
        }
    }
}

/// The whole catalog: recent tasks, enabled agents, skills, plugins.
pub open spec fn catalog_spec(
    skills: Option<Seq<SkillMention>>,
    plugins: Option<Seq<PluginSummary>>,
    project_agents: Option<(Seq<RosterAgent>, Seq<TaskMentionModel>)>,
) -> Seq<CandidateModel> {
    (match project_agents {
        Some((agents, tasks)) => tasks.map_values(|t: TaskMentionModel| task_candidate(t))
            + enabled_agent_candidates(agents),
        None => Seq::empty(),
    }) + (match skills {
        Some(s) => s.map_values(|k: SkillMention| skill_candidate_spec(k)),
        None => Seq::empty(),
    }) + (match plugins {
        Some(p) => p.map_values(|q: PluginSummary| plugin_candidate_spec(q)),
        None => Seq::empty(),
    })
}

pub open spec fn catalog_view(c: ProjectAgentMentionCatalog) -> (Seq<RosterAgent>, Seq<
    TaskMentionModel,
>) {
    (c.agents@, c.recent_tasks@.map_values(|t: ProjectAgentTaskMention| t@))
}

pub fn build_search_catalog(
    skills: Option<&[SkillMention]>,
    plugins: Option<&[PluginSummary]>,
    project_agents: Option<&ProjectAgentMentionCatalog>,
) -> (r: Vec<Candidate>)
    ensures
        candidate_views(r@) == catalog_spec(
            match skills {
                Some(s) => Some(s@),
                None => None,
            },
            match plugins {
                Some(p) => Some(p@),
                None => None,
            },
            match project_agents {
                Some(c) => Some(catalog_view(*c)),
                None => None,
            },
        ),
{
    let mut out: Vec<Candidate> = Vec::new();
    let ghost g0 = candidate_views(out@);
    if let Some(catalog) = project_agents {
        let tasks = &catalog.recent_tasks;
        let ghost ts = tasks@.map_values(|t: ProjectAgentTaskMention| t@);
        let mut i: usize = 0;
        while i < tasks.len()
            invariant
                i <= tasks.len(),
                ts == tasks@.map_values(|t: ProjectAgentTaskMention| t@),
                candidate_views(out@) == ts.take(i as int).map_values(
                    |t: TaskMentionModel| task_candidate(t),
                ),
            decreases tasks.len() - i,
        {
            let c = project_agent_task_candidate(&tasks[i]);
            let ghost before = out@;
            out.push(c);
            proof {
                assert(candidate_views(out@) =~= candidate_views(before).push(c@));
                assert(ts.take(i + 1) =~= ts.take(i as int).push(ts[i as int]));
                assert(ts.take(i + 1).map_values(|t: TaskMentionModel| task_candidate(t))
                    =~= ts.take(i as int).map_values(|t: TaskMentionModel| task_candidate(t)).push(
                    task_candidate(ts[i as int]),
                ));
            }
            i = i + 1;
        }
        proof {
            assert(ts.take(tasks@.len() as int) =~= ts);
        }
        let ghost after_tasks = candidate_views(out@);
        let agents = &catalog.agents;
        let mut j: usize = 0;
        proof {
            assert(agents@.take(0) =~= Seq::<RosterAgent>::empty());
            assert(candidate_views(out@) =~= after_tasks + enabled_agent_candidates(
                agents@.take(0),
            ));
        }
        while j < agents.len()
            invariant
                j <= agents.len(),
                candidate_views(out@) == after_tasks + enabled_agent_candidates(
                    agents@.take(j as int),
                ),
            decreases agents.len() - j,
        {
            proof {
                assert(agents@.take(j + 1).drop_last() =~= agents@.take(j as int));
                assert(agents@.take(j + 1).last() == agents@[j as int]);
            }
            if agents[j].enabled {
                let c = project_agent_candidate(&agents[j]);
                let ghost before = out@;
                out.push(c);
                proof {
                    assert(candidate_views(out@) =~= candidate_views(before).push(c@));
                    assert(candidate_views(out@) =~= after_tasks + enabled_agent_candidates(
                        agents@.take(j + 1),
                    ));
                }
            } else {
                proof {
                    assert(candidate_views(out@) =~= after_tasks + enabled_agent_candidates(
                        agents@.take(j + 1),
                    ));
                }
            }
            j = j + 1;
        }
        proof {
            assert(agents@.take(agents@.len() as int) =~= agents@);
        }
    }
    let ghost g1 = candidate_views(out@);
    if let Some(skills) = skills {
        let mut i: usize = 0;
        while i < skills.len()
            invariant
                i <= skills.len(),
                candidate_views(out@) == g1 + skills@.take(i as int).map_values(
                    |k: SkillMention| skill_candidate_spec(k),
                ),
            decreases skills.len() - i,
        {
            let c = skill_candidate(&skills[i]);
            let ghost before = out@;
            out.push(c);
            proof {
                assert(candidate_views(out@) =~= candidate_views(before).push(c@));
                assert(skills@.take(i + 1) =~= skills@.take(i as int).push(skills@[i as int]));
                assert(skills@.take(i + 1).map_values(|k: SkillMention| skill_candidate_spec(k))
                    =~= skills@.take(i as int).map_values(
                    |k: SkillMention| skill_candidate_spec(k),
                ).push(skill_candidate_spec(skills@[i as int])));
            }
            i = i + 1;
        }
        proof {
            assert(skills@.take(skills@.len() as int) =~= skills@);
        }
    } else {
        proof {
            assert(candidate_views(out@) =~= g1 + Seq::<CandidateModel>::empty());
        }
    }
    let ghost g2 = candidate_views(out@);
    if let Some(plugins) = plugins {
        let mut i: usize = 0;
        while i < plugins.len()
            invariant
                i <= plugins.len(),
                candidate_views(out@) == g2 + plugins@.take(i as int).map_values(
                    |q: PluginSummary| plugin_candidate_spec(q),
                ),
            decreases plugins.len() - i,
        {
            let c = plugin_candidate(&plugins[i]);
            let ghost before = out@;
            out.push(c);
            proof {
                assert(candidate_views(out@) =~= candidate_views(before).push(c@));
                assert(plugins@.take(i + 1) =~= plugins@.take(i as int).push(plugins@[i as int]));
                assert(plugins@.take(i + 1).map_values(|q: PluginSummary| plugin_candidate_spec(q))
                    =~= plugins@.take(i as int).map_values(
                    |q: PluginSummary| plugin_candidate_spec(q),
                ).push(plugin_candidate_spec(plugins@[i as int])));
            }
            i = i + 1;
        }
        proof {
            assert(plugins@.take(plugins@.len() as int) =~= plugins@);
        }
    } else {
        proof {
            assert(candidate_views(out@) =~= g2 + Seq::<CandidateModel>::empty());
        }
    }
    proof {
        let s = match skills {
            Some(s) => Some(s@),
            None => None,
        };
        let p = match plugins {
            Some(p) => Some(p@),
            None => None,
        };
        let a = match project_agents {
            Some(c) => Some(catalog_view(*c)),
            None => None,
        };
        assert(candidate_views(out@) =~= catalog_spec(s, p, a));
    }
    out
}

} // verus!
