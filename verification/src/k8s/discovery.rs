//! Custom resources: which discovered API resources are watched, and the
//! status shown for a custom object.
use vstd::prelude::*;

use crate::text::{opt_str_eq, str_eq};

verus! {

/// Built-in resources that are handled via typed watchers, as (group, plural).
/// Anything discovered that isn't in this list is treated as a CRD.
pub open spec fn builtin_resources() -> Seq<(Seq<char>, Seq<char>)> {
    seq![
        (""@, "pods"@),
        (""@, "services"@),
        (""@, "configmaps"@),
        (""@, "secrets"@),
        (""@, "namespaces"@),
        (""@, "nodes"@),
        (""@, "persistentvolumes"@),
        (""@, "persistentvolumeclaims"@),
        ("apps"@, "deployments"@),
        ("apps"@, "statefulsets"@),
        ("apps"@, "daemonsets"@),
        ("batch"@, "jobs"@),
        ("batch"@, "cronjobs"@),
        ("networking.k8s.io"@, "ingresses"@),
    ]
}

pub open spec fn is_builtin_resource(group: Seq<char>, plural: Seq<char>) -> bool {
    builtin_resources().contains((group, plural))
}

fn builtin_list() -> (r: Vec<(&'static str, &'static str)>)
    ensures
        r@.map_values(|p: (&'static str, &'static str)| (p.0@, p.1@)) == builtin_resources(),
{
    let r = vec![
        ("", "pods"),
        ("", "services"),
        ("", "configmaps"),
        ("", "secrets"),
        ("", "namespaces"),
        ("", "nodes"),
        ("", "persistentvolumes"),
        ("", "persistentvolumeclaims"),
        ("apps", "deployments"),
        ("apps", "statefulsets"),
        ("apps", "daemonsets"),
        ("batch", "jobs"),
        ("batch", "cronjobs"),
        ("networking.k8s.io", "ingresses"),
    ];
    assert(r@.map_values(|p: (&'static str, &'static str)| (p.0@, p.1@)) =~= builtin_resources());
    r
}

/// Whether (group, plural) names a built-in resource with a typed watcher.
pub fn is_builtin(group: &str, plural: &str) -> (r: bool)
    ensures
        r == is_builtin_resource(group@, plural@),
{
    let list = builtin_list();
    let ghost views = list@.map_values(|p: (&'static str, &'static str)| (p.0@, p.1@));
    let n = list.len();
    let mut i: usize = 0;
    while i < n
        invariant
            n == list@.len(),
            i <= n,
            views == builtin_resources(),
            views == list@.map_values(|p: (&'static str, &'static str)| (p.0@, p.1@)),
            forall|k: int| 0 <= k < i ==> views[k] != (group@, plural@),
        decreases n - i,
    {
        let (g, p) = list[i];
        if str_eq(g, group) && str_eq(p, plural) {
            assert(views[i as int] == (group@, plural@));
            return true;
        }
        i += 1;
    }
    false
}

/// A discovered API resource is watched as a custom resource when it supports
/// both LIST and WATCH and is not one of the built-in kinds.
pub fn is_watchable_custom_resource(
    group: &str,
    plural: &str,
    supports_list: bool,
    supports_watch: bool,
) -> (r: bool)
    ensures
        r == (supports_list && supports_watch && !is_builtin_resource(group@, plural@)),
{
    if !supports_list || !supports_watch {
        return false;
    }
    !is_builtin(group, plural)
}

/// The namespace a custom-resource watcher is restricted to: the requested
/// one for namespaced resources; cluster-scoped ones are watched across the
/// cluster.
pub fn custom_watch_namespace(namespaced: bool, namespace: Option<&str>) -> (r: Option<String>)
    ensures
        !namespaced ==> r is None,
        namespaced ==> match namespace {
            Some(ns) => r matches Some(n) && n@ == ns@,
            None => r is None,
        },
{
    if !namespaced {
        return None;
    }
    match namespace {
        Some(ns) => Some(ns.to_owned()),
        None => None,
    }
}

// ─── Custom object status ────────────────────────────────────────────────────

/// One entry of `.status.conditions[]`; each field is `None` when absent or
/// not a string.
pub struct DynamicCondition {
    pub type_: Option<String>,
    pub status: Option<String>,
    pub reason: Option<String>,
}

/// The `.status` of a custom object: `conditions` is `None` unless it is an
/// array; `phase` is `None` unless it is a string.
pub struct DynamicStatus {
    pub conditions: Option<Vec<DynamicCondition>>,
    pub phase: Option<String>,
}

/// A custom object as far as its status goes: `status` is `None` when the
/// object has no `.status` field.
pub struct DynamicObject {
    pub status: Option<DynamicStatus>,
}

/// A condition of type "Ready".
pub open spec fn is_readiness_condition(c: DynamicCondition) -> bool {
    c.type_ matches Some(t) && t@ == "Ready"@
}

/// Index of the first readiness condition.
pub open spec fn first_readiness_condition(s: Seq<DynamicCondition>) -> Option<int>
    decreases s.len(),
{
    if s.len() == 0 {
        None
    } else if is_readiness_condition(s[0]) {
        Some(0)
    } else {
        match first_readiness_condition(s.drop_first()) {
            Some(i) => Some(i + 1),
            None => None,
        }
    }
}

/// What a readiness condition says: "Ready" when its status is "True",
/// else its reason, falling back to "NotReady" (status "False") or "Unknown".
pub open spec fn condition_text(c: DynamicCondition) -> Seq<char> {
    if c.status matches Some(s) && s@ == "True"@ {
        "Ready"@
    } else if c.status matches Some(s) && s@ == "False"@ {
        match c.reason {
            Some(r) => r@,
            None => "NotReady"@,
        }
    } else {
        match c.reason {
            Some(r) => r@,
            None => "Unknown"@,
        }
    }
}

/// The status of a custom object: its first Ready condition, else
/// `.status.phase`, else "Unknown".
pub open spec fn dynamic_status_text(obj: DynamicObject) -> Seq<char> {
    match obj.status {
        None => "Unknown"@,
        Some(st) => {
            let conds = match st.conditions {
                Some(c) => c@,
                None => Seq::empty(),
            };
            match first_readiness_condition(conds) {
                Some(i) => condition_text(conds[i]),
                None => match st.phase {
                    Some(p) => p@,
                    None => "Unknown"@,
                },
            }
        },
    }
}

fn condition_text_exec(c: &DynamicCondition) -> (r: String)
    ensures
        r@ == condition_text(*c),
{
    if opt_str_eq(&c.status, "True") {
        return "Ready".to_owned();
    }
    let fallback = if opt_str_eq(&c.status, "False") {
        "NotReady"
    } else {
        "Unknown"
    };
    match &c.reason {
        Some(r) => r.clone(),
        None => fallback.to_owned(),
    }
}

/// Extract status from a custom object by checking `.status.conditions[]`
/// for a condition with `type == "Ready"`, falling back to
/// `.status.phase`.
pub fn dynamic_status(obj: &DynamicObject) -> (r: String)
    ensures
        r@ == dynamic_status_text(*obj),
{
    let status = match &obj.status {
        Some(s) => s,
        None => {
            return "Unknown".to_owned();
        },
    };
    if let Some(conds) = &status.conditions {
        let n = conds.len();
        let mut i: usize = 0;
        assert(conds@.skip(0) =~= conds@);
        while i < n
            invariant
                n == conds@.len(),
                i <= n,
                obj.status matches Some(st) && st.conditions matches Some(c) && c@ == conds@,
                first_readiness_condition(conds@) == match first_readiness_condition(
                    conds@.skip(i as int),
                ) {
                    Some(j) => Some(j + i),
                    None => None::<int>,
                },
            decreases n - i,
        {
            assert(conds@.skip(i as int).drop_first() =~= conds@.skip(i + 1));
            assert(conds@.skip(i as int)[0] == conds@[i as int]);
            let c = &conds[i];
            if opt_str_eq(&c.type_, "Ready") {
                assert(first_readiness_condition(conds@.skip(i as int)) == Some(0int));
                return condition_text_exec(c);
            }
            i += 1;
        }
        assert(first_readiness_condition(conds@.skip(n as int)) is None);
    }
    match &status.phase {
        Some(p) => p.clone(),
        None => "Unknown".to_owned(),
    }
}



/// The built-in resources, watched by typed watchers and never as custom
/// resources, are exactly pods, services, config maps, secrets, namespaces,
/// nodes, persistent volumes and claims (core group), deployments, stateful
/// sets and daemon sets ("apps"), jobs and cron jobs ("batch"), and ingresses
/// ("networking.k8s.io"). A resource is watched as a custom resource exactly
/// when it supports LIST and WATCH and is none of these.
pub proof fn law_builtin_resources(group: Seq<char>, plural: Seq<char>)
    ensures
        is_builtin_resource(group, plural) <==> ((group == ""@ && plural == "pods"@)
            || (group == ""@ && plural == "services"@)
            || (group == ""@ && plural == "configmaps"@)
            || (group == ""@ && plural == "secrets"@)
            || (group == ""@ && plural == "namespaces"@)
            || (group == ""@ && plural == "nodes"@)
            || (group == ""@ && plural == "persistentvolumes"@)
            || (group == ""@ && plural == "persistentvolumeclaims"@)
            || (group == "apps"@ && plural == "deployments"@)
            || (group == "apps"@ && plural == "statefulsets"@)
            || (group == "apps"@ && plural == "daemonsets"@)
            || (group == "batch"@ && plural == "jobs"@)
            || (group == "batch"@ && plural == "cronjobs"@)
            || (group == "networking.k8s.io"@ && plural == "ingresses"@)),
{
    if is_builtin_resource(group, plural) {
        let i = choose|i: int| 0 <= i < builtin_resources().len() && builtin_resources()[i] == (group, plural);
        assert(0 <= i < 14);
    }
    if group == ""@ && plural == "pods"@ {
        assert(builtin_resources()[0] == (group, plural));
    }
    if group == ""@ && plural == "services"@ {
        assert(builtin_resources()[1] == (group, plural));
    }
    if group == ""@ && plural == "configmaps"@ {
        assert(builtin_resources()[2] == (group, plural));
    }
    if group == ""@ && plural == "secrets"@ {
        assert(builtin_resources()[3] == (group, plural));
    }
    if group == ""@ && plural == "namespaces"@ {
        assert(builtin_resources()[4] == (group, plural));
    }
    if group == ""@ && plural == "nodes"@ {
        assert(builtin_resources()[5] == (group, plural));
    }
    if group == ""@ && plural == "persistentvolumes"@ {
        assert(builtin_resources()[6] == (group, plural));
    }
    if group == ""@ && plural == "persistentvolumeclaims"@ {
        assert(builtin_resources()[7] == (group, plural));
    }
    if group == "apps"@ && plural == "deployments"@ {
        assert(builtin_resources()[8] == (group, plural));
    }
    if group == "apps"@ && plural == "statefulsets"@ {
        assert(builtin_resources()[9] == (group, plural));
    }
    if group == "apps"@ && plural == "daemonsets"@ {
        assert(builtin_resources()[10] == (group, plural));
    }
    if group == "batch"@ && plural == "jobs"@ {
        assert(builtin_resources()[11] == (group, plural));
    }
    if group == "batch"@ && plural == "cronjobs"@ {
        assert(builtin_resources()[12] == (group, plural));
    }
    if group == "networking.k8s.io"@ && plural == "ingresses"@ {
        assert(builtin_resources()[13] == (group, plural));
    }
}

// ─── Laws ────────────────────────────────────────────────────────────────────

/// The first Ready condition is the one found: with no Ready condition
/// before index `i` and a Ready condition at `i`, the search answers `i`;
/// with no Ready condition at all it answers nothing.
proof fn lemma_first_ready_condition(conds: Seq<DynamicCondition>, i: int)
    ensures
        (forall|j: int| 0 <= j < conds.len() ==> !(#[trigger] conds[j].type_ matches Some(t) && t@
            == "Ready"@)) ==> first_readiness_condition(conds) is None,
        0 <= i < conds.len() && (conds[i].type_ matches Some(t) && t@ == "Ready"@) && (forall|j: int|
            0 <= j < i ==> !(#[trigger] conds[j].type_ matches Some(t) && t@ == "Ready"@))
            ==> first_readiness_condition(conds) == Some(i),
    decreases conds.len(),
{
    if conds.len() > 0 {
        let rest = conds.drop_first();
        lemma_first_ready_condition(rest, i - 1);
        assert forall|j: int| 0 <= j < rest.len() implies rest[j] == conds[j + 1] by {}
        if (forall|j: int| 0 <= j < conds.len() ==> !(#[trigger] conds[j].type_ matches Some(t)
            && t@ == "Ready"@)) {
            assert(!(conds[0].type_ matches Some(t) && t@ == "Ready"@));
            assert forall|j: int| 0 <= j < rest.len() implies !(#[trigger] rest[j].type_ matches Some(
                t,
            ) && t@ == "Ready"@) by {
                assert(rest[j] == conds[j + 1]);
            }
        }
        if 0 < i < conds.len() && (conds[i].type_ matches Some(t) && t@ == "Ready"@) && (forall|
            j: int,
        | 0 <= j < i ==> !(#[trigger] conds[j].type_ matches Some(t) && t@ == "Ready"@)) {
            assert(!(conds[0].type_ matches Some(t) && t@ == "Ready"@));
            assert(rest[i - 1] == conds[i]);
            assert forall|j: int| 0 <= j < i - 1 implies !(#[trigger] rest[j].type_ matches Some(t)
                && t@ == "Ready"@) by {
                assert(rest[j] == conds[j + 1]);
            }
        }
    }
}

/// A custom object's status: "Unknown" without a `.status`; when its
/// conditions hold no condition of type "Ready" (or there are none), its
/// phase, "Unknown" without one; otherwise what the first Ready condition
/// says: "Ready" for status "True", else its reason, falling back to
/// "NotReady" for status "False" and to "Unknown" for any other status.
pub proof fn law_dynamic_status_reads_ready_condition_then_phase(obj: DynamicObject, i: int)
    ensures
        obj.status is None ==> dynamic_status_text(obj) == "Unknown"@,
        obj.status matches Some(st) ==> ((st.conditions is None || forall|j: int|
            0 <= j < st.conditions->0@.len() ==> !(#[trigger] st.conditions->0@[j].type_ matches Some(
                t,
            ) && t@ == "Ready"@)) ==> dynamic_status_text(obj) == match st.phase {
            Some(p) => p@,
            None => "Unknown"@,
        }),
        obj.status matches Some(st) ==> match st.conditions {
            Some(cs) => (0 <= i < cs@.len() && (cs@[i].type_ matches Some(t) && t@ == "Ready"@)
                && (forall|j: int|
                0 <= j < i ==> !(#[trigger] cs@[j].type_ matches Some(t) && t@ == "Ready"@)))
                ==> dynamic_status_text(obj) == if cs@[i].status matches Some(v) && v@ == "True"@ {
                "Ready"@
            } else {
                match cs@[i].reason {
                    Some(r) => r@,
                    None => if cs@[i].status matches Some(v) && v@ == "False"@ {
                        "NotReady"@
                    } else {
                        "Unknown"@
                    },
                }
            },
            None => true,
        },
{
    if let Some(st) = obj.status {
        match st.conditions {
            Some(cs) => lemma_first_ready_condition(cs@, i),
            None => {},
        }
    }
}

} // verus!
