//! Thread-scoped restrictions over the tools a thread may see and call, and
//! the policy for the host's generic collaboration surface.

use crate::text::same_text;
use vstd::prelude::*;

verus! {

broadcast use vstd::string::group_string_axioms;

/// A tool's name: plain, or inside a namespace.
#[derive(Debug, Eq, PartialEq, Hash)]
pub struct ToolName {
    pub namespace: Option<String>,
    pub name: String,
}

/// The mathematical content of a tool name.
pub struct ToolNameModel {
    pub namespace: Option<Seq<char>>,
    pub name: Seq<char>,
}

impl View for ToolName {
    type V = ToolNameModel;

    open spec fn view(&self) -> ToolNameModel {
        ToolNameModel {
            namespace: match self.namespace {
                Some(n) => Some(n@),
                None => None,
            },
            name: self.name@,
        }
    }
}

impl Clone for ToolName {
    fn clone(&self) -> (r: Self)
        ensures
            r@ == self@,
    {
        let namespace = match &self.namespace {
            Some(n) => Some(n.clone()),
            None => None,
        };
        ToolName { namespace, name: self.name.clone() }
    }
}

impl ToolName {
    /// A name outside any namespace.
    pub fn plain(name: &str) -> (r: ToolName)
        ensures
            r@ == (ToolNameModel { namespace: None, name: name@ }),
    {
        ToolName { namespace: None, name: name.to_string() }
    }

    /// A name inside `namespace`.
    pub fn namespaced(namespace: &str, name: &str) -> (r: ToolName)
        ensures
            r@ == (ToolNameModel { namespace: Some(namespace@), name: name@ }),
    {
        ToolName { namespace: Some(namespace.to_string()), name: name.to_string() }
    }

    /// Whether two names are the same name.
    pub fn same(&self, other: &ToolName) -> (r: bool)
        ensures
            r == (self@ == other@),
    {
        let same_namespace = match (&self.namespace, &other.namespace) {
            (Some(a), Some(b)) => same_text(a.as_str(), b.as_str()),
            (None, None) => true,
            _ => false,
        };
        same_namespace && same_text(self.name.as_str(), other.name.as_str())
    }
}

/// The names held by a list, as a set.
pub open spec fn name_set(v: Seq<ToolName>) -> Set<ToolNameModel> {
    Set::new(|n: ToolNameModel| exists|i: int| 0 <= i < v.len() && (#[trigger] v[i])@ == n)
}

/// A composable restriction over the tools of one thread. An absent allow
/// set leaves the tools unchanged; allow sets of several policies intersect;
/// deny sets unite and take precedence over allows.
#[derive(Clone, Debug, Eq, PartialEq)]
pub struct ToolVisibilityPolicy {
    pub allow: Option<Vec<ToolName>>,
    pub deny: Vec<ToolName>,
}

/// The mathematical content of a policy.
pub struct PolicyModel {
    pub allow: Option<Set<ToolNameModel>>,
    pub deny: Set<ToolNameModel>,
}

impl View for ToolVisibilityPolicy {
    type V = PolicyModel;

    open spec fn view(&self) -> PolicyModel {
        PolicyModel {
            allow: match self.allow {
                Some(v) => Some(name_set(v@)),
                None => None,
            },
            deny: name_set(self.deny@),
        }
    }
}

/// Whether the name `n` survives the policy `p`.
pub open spec fn policy_allows(p: PolicyModel, n: ToolNameModel) -> bool {
    (match p.allow {
        Some(a) => a.contains(n),
        None => true,
    }) && !p.deny.contains(n)
}

/// The policy that keeps what both `a` and `b` keep.
pub open spec fn policy_meet(a: PolicyModel, b: PolicyModel) -> PolicyModel {
    PolicyModel {
        allow: match (a.allow, b.allow) {
            (Some(x), Some(y)) => Some(x.intersect(y)),
            (Some(x), None) => Some(x),
            (None, Some(y)) => Some(y),
            (None, None) => None,
        },
        deny: a.deny.union(b.deny),
    }
}

/// Whether `v` holds `name`.
fn holds_name(v: &Vec<ToolName>, name: &ToolName) -> (r: bool)
    ensures
        r == name_set(v@).contains(name@),
{
    for i in 0..v.len()
        invariant
            forall|j: int| 0 <= j < i ==> (#[trigger] v@[j])@ != name@,
    {
        if v[i].same(name) {
            return true;
        }
    }
    false
}

impl ToolVisibilityPolicy {
    /// A policy that exposes only the names given.
    pub fn allow_only(names: Vec<ToolName>) -> (r: Self)
        ensures
            r@.allow == Some(name_set(names@)),
            r@.deny == Set::<ToolNameModel>::empty(),
    {
        let r = ToolVisibilityPolicy { allow: Some(names), deny: Vec::new() };
        proof {
            assert(name_set(r.deny@) =~= Set::<ToolNameModel>::empty());
        }
        r
    }

    /// Whether a concrete tool name survives this policy.
    pub fn allows(&self, name: &ToolName) -> (r: bool)
        ensures
            r == policy_allows(self@, name@),
    {
        let allowed = match &self.allow {
            Some(a) => holds_name(a, name),
            None => true,
        };
        allowed && !holds_name(&self.deny, name)
    }

    /// Combines another contributor's policy into this one.
    pub fn intersect(&mut self, other: Self)
        ensures
            final(self)@ == policy_meet(old(self)@, other@),
    {
        let ToolVisibilityPolicy { allow: other_allow, deny: other_deny } = other;
        let current = self.allow.take();
        let next = match (current, other_allow) {
            (Some(current), Some(next)) => {
                let mut kept: Vec<ToolName> = Vec::new();
                for i in 0..current.len()
                    invariant
                        forall|n: ToolNameModel| #[trigger]
                            name_set(kept@).contains(n) <==> (exists|j: int|
                                0 <= j < i && (#[trigger] current@[j])@ == n) && name_set(
                                next@,
                            ).contains(n),
                {
                    if holds_name(&next, &current[i]) {
                        let ghost before = kept@;
                        kept.push(current[i].clone());
                        proof {
                            assert forall|n: ToolNameModel| #[trigger]
                                name_set(kept@).contains(n) <==> name_set(before).contains(n) || n
                                    == current@[i as int]@ by {
                                if name_set(kept@).contains(n) {
                                    let j = choose|j: int|
                                        0 <= j < kept@.len() && (#[trigger] kept@[j])@ == n;
                                    if j < before.len() {
                                        assert(before[j] == kept@[j]);
                                    }
                                }
                                if name_set(before).contains(n) {
                                    let j = choose|j: int|
                                        0 <= j < before.len() && (#[trigger] before[j])@ == n;
                                    assert(kept@[j] == before[j]);
                                }
                                if n == current@[i as int]@ {
                                    assert(kept@[before.len() as int]@ == n);
                                }
                            }
                        }
                    }
                }
                proof {
                    assert(name_set(kept@) =~= name_set(current@).intersect(name_set(next@)));
                }
                Some(kept)
            },
            (Some(current), None) => Some(current),
            (None, Some(next)) => Some(next),
            (None, None) => None,
        };
        self.allow = next;
        let ghost deny_before = self.deny@;
        let mut extra = other_deny;
        self.deny.append(&mut extra);
        proof {
            assert(self.deny@ =~= deny_before + other.deny@);
            assert forall|n: ToolNameModel| #[trigger]
                name_set(self.deny@).contains(n) <==> name_set(deny_before).contains(n)
                    || name_set(other.deny@).contains(n) by {
                if name_set(self.deny@).contains(n) {
                    let j = choose|j: int| 0 <= j < self.deny@.len() && (#[trigger] self.deny@[j])@
                        == n;
                    if j < deny_before.len() {
                        assert(deny_before[j] == self.deny@[j]);
                    } else {
                        assert(other.deny@[j - deny_before.len()] == self.deny@[j]);
                    }
                }
                if name_set(deny_before).contains(n) {
                    let j = choose|j: int| 0 <= j < deny_before.len() && (#[trigger] deny_before[j])@
                        == n;
                    assert(self.deny@[j] == deny_before[j]);
                }
                if name_set(other.deny@).contains(n) {
                    let j = choose|j: int| 0 <= j < other.deny@.len() && (
                    #[trigger] other.deny@[j])@ == n;
                    assert(self.deny@[j + deny_before.len()] == other.deny@[j]);
                }
            }
            assert(name_set(self.deny@) =~= name_set(deny_before).union(name_set(other.deny@)));
        }
    }
}

/// Combining two policies keeps exactly the names both keep.
pub proof fn lemma_intersect_allows(a: PolicyModel, b: PolicyModel, n: ToolNameModel)
    ensures
        policy_allows(policy_meet(a, b), n) == (policy_allows(a, n) && policy_allows(b, n)),
{
}

/// Contributes thread-scoped tool restrictions before the host builds the
/// tools a model sees and the registry that executes them. Hosts apply the
/// policy to both, so hiding a tool also stops its direct dispatch.
pub trait ToolVisibilityContributor<Store> {
    fn visibility(&self, session_store: &Store, thread_store: &Store) -> ToolVisibilityPolicy;
}

/// Thread-scoped policy for the host-owned generic collaboration surface.
#[derive(Clone, Copy, Debug, Eq, PartialEq, Structural)]
pub enum CollaborationSurfacePolicy {
    /// Keep the host's normal generic collaboration behavior.
    Enabled,
    /// Hide generic collaboration tools, usage hints, and mode instructions.
    Disabled,
}

impl Default for ToolVisibilityPolicy {
    /// The policy that leaves every tool visible: no allow set, nothing
    /// denied.
    fn default() -> (r: Self)
        ensures
            r.allow is None,
            r.deny@.len() == 0,
            forall|n: ToolNameModel| #[trigger] policy_allows(r@, n),
    {
        let r = ToolVisibilityPolicy { allow: None, deny: Vec::new() };
        proof {
            assert forall|n: ToolNameModel| #[trigger] policy_allows(r@, n) by {
                assert(!name_set(r.deny@).contains(n));
            }
        }
        r
    }
}

impl Default for CollaborationSurfacePolicy {
    fn default() -> (r: Self)
        ensures
            r == CollaborationSurfacePolicy::Enabled,
    {
        CollaborationSurfacePolicy::Enabled
    }
}

/// Contributes thread-scoped policy for generic collaboration surfaces.
pub trait CollaborationSurfaceContributor<Store> {
    fn policy(&self, session_store: &Store, thread_store: &Store) -> CollaborationSurfacePolicy;
}

} // verus!
