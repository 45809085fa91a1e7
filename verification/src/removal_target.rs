//! Which skill a planned removal is about: the agent's own entry, else
//! (removing from every agent) another agent's, else the one Master of
//! that name in the scope's Master stores.

use vstd::prelude::*;

use crate::lock::quoted_message;
use crate::manager::{find_skill, no_config, not_found, is_no_config, is_not_found, skill_names, AgentConfig, ConfigError};
use crate::models::{clone_opt, same_skill, AgentResources, ResourceScope, Skill};
use crate::table::{key_pos, lemma_key_pos_bounds};
use crate::text::{owned, str_eq};

verus! {

/// What reading one Master store gave: the skills found there, or the
/// read's error.
#[derive(Debug)]
pub struct StoreSkills {
    pub store: String,
    pub skills: Result<Vec<Skill>, ConfigError>,
}

pub open spec fn shown_path(p: Option<String>) -> Seq<char> {
    match p {
        Some(s) => s@,
        None => "<unknown>"@,
    }
}

pub open spec fn two_masters_message(name: Seq<char>, store: Seq<char>, a: Seq<char>, b: Seq<char>) -> Seq<char> {
    "skill '"@ + name + "' has two Masters in "@ + store + ": '"@ + a + "' and '"@ + b
        + "'. Remove or rename one of them, then re-run."@
}

/// A Master found in a store, as removal uses it: its canonical path is
/// its own skill file when it records none.
pub open spec fn as_master(k: Skill, s: Skill) -> bool {
    &&& k.name == s.name
    &&& k.description == s.description
    &&& k.source_path == s.source_path
    &&& k.canonical_path == (if s.canonical_path is None {
        s.source_path
    } else {
        s.canonical_path
    })
    &&& k.enabled == s.enabled
    &&& k.author == s.author
    &&& k.version == s.version
    &&& k.tools@ == s.tools@
    &&& k.content == s.content
}

/// The verdict of one store on `name`: nothing there, its one Master, or
/// a refusal naming the first two Masters of that name.
pub open spec fn store_verdict(store: Seq<char>, skills: Seq<Skill>, name: Seq<char>, r: Result<Option<Skill>, ConfigError>) -> bool {
    let names = skill_names(skills);
    let i = key_pos(names, name);
    if !names.contains(name) {
        r == Ok::<Option<Skill>, ConfigError>(None)
    } else if forall|k: int| i < k < names.len() ==> #[trigger] names[k] != name {
        r matches Ok(Some(m)) && as_master(m, skills[i])
    } else {
        exists|j: int|
            #![trigger names[j]]
            i < j < names.len() && names[j] == name && (forall|k: int| i < k < j ==> #[trigger] names[k] != name) && (
            r matches Err(ConfigError::InvalidConfig(m)) && m@ == two_masters_message(
                name,
                store,
                shown_path(skills[i].source_path),
                shown_path(skills[j].source_path),
            ))
    }
}

fn shown(p: &Option<String>) -> (r: String)
    ensures
        r@ == shown_path(*p),
{
    match p {
        Some(s) => s.clone(),
        None => {
            proof {
                reveal_strlit("<unknown>");
            }
            owned("<unknown>")
        },
    }
}

fn store_lookup(store: &str, skills: &Vec<Skill>, name: &str) -> (r: Result<Option<Skill>, ConfigError>)
    ensures
        store_verdict(store@, skills@, name@, r),
{
    let i = match find_skill(skills, name) {
        None => {
            return Ok(None);
        },
        Some(i) => i,
    };
    let ghost names = skill_names(skills@);
    let mut j: usize = i + 1;
    while j < skills.len()
        invariant
            i < j <= skills.len(),
            names == skill_names(skills@),
            i == key_pos(names, name@),
            names.contains(name@),
            forall|k: int| i < k < j ==> #[trigger] names[k] != name@,
        decreases skills.len() - j,
    {
        if str_eq(skills[j].name.as_str(), name) {
            assert(names[j as int] == name@);
            let a = shown(&skills[i].source_path);
            let b = shown(&skills[j].source_path);
            let m1 = quoted_message("skill '", name, "' has two Masters in ");
            let m2 = quoted_message(m1.as_str(), store, ": '");
            let m3 = quoted_message(m2.as_str(), a.as_str(), "' and '");
            let m = quoted_message(m3.as_str(), b.as_str(), "'. Remove or rename one of them, then re-run.");
            proof {
                assert(m@ =~= two_masters_message(name@, store@, a@, b@));
            }
            return Err(ConfigError::InvalidConfig(m));
        }
        j = j + 1;
    }
    let s = &skills[i];
    let canonical = if s.canonical_path.is_none() {
        clone_opt(&s.source_path)
    } else {
        clone_opt(&s.canonical_path)
    };
    let m = Skill {
        name: s.name.clone(),
        description: clone_opt(&s.description),
        source_path: clone_opt(&s.source_path),
        canonical_path: canonical,
        enabled: s.enabled,
        author: clone_opt(&s.author),
        version: clone_opt(&s.version),
        tools: crate::models::clone_strings(&s.tools),
        content: clone_opt(&s.content),
    };
    Ok(Some(m))
}

/// The first agent (in order) that holds a skill named `name`.
pub open spec fn first_holder(agents: Seq<AgentResources>, name: Seq<char>) -> int
    decreases agents.len(),
{
    if agents.len() == 0 {
        0
    } else if skill_names(agents[0].skills@).contains(name) {
        0
    } else {
        1 + first_holder(agents.drop_first(), name)
    }
}

proof fn lemma_first_holder(agents: Seq<AgentResources>, name: Seq<char>, i: int)
    requires
        0 <= i <= agents.len(),
        forall|k: int| 0 <= k < i ==> !skill_names(#[trigger] agents[k].skills@).contains(name),
        i == agents.len() || skill_names(agents[i].skills@).contains(name),
    ensures
        first_holder(agents, name) == i,
    decreases i,
{
    if i > 0 {
        let t = agents.drop_first();
        assert forall|k: int| 0 <= k < i - 1 implies !skill_names(#[trigger] t[k].skills@).contains(name) by {
            assert(t[k] == agents[k + 1]);
        }
        lemma_first_holder(t, name, i - 1);
    }
}

/// What one Master store says of `name`: nothing (no store, or no Master
/// of that name), its one Master, or the refusal of two Masters or of an
/// unreadable store.
pub open spec fn store_check(s: Option<StoreSkills>, name: Seq<char>, r: Result<Option<Skill>, ConfigError>) -> bool {
    match s {
        None => r == Ok::<Option<Skill>, ConfigError>(None),
        Some(ss) => match ss.skills {
            Err(e) => r == Err::<Option<Skill>, ConfigError>(e),
            Ok(v) => store_verdict(ss.store@, v@, name, r),
        },
    }
}

/// Both stores validated, the project's `p` first: the first refusal, else
/// the project's Master of `name`, else the global one's (or none).
pub open spec fn stores_checked(
    p: Option<StoreSkills>,
    g: Option<StoreSkills>,
    name: Seq<char>,
    r: Result<Option<Skill>, ConfigError>,
) -> bool {
    exists|xp: Result<Option<Skill>, ConfigError>|
        #![trigger store_check(p, name, xp)]
        store_check(p, name, xp) && match xp {
            Err(e) => r == Err::<Option<Skill>, ConfigError>(e),
            Ok(fp) => exists|xg: Result<Option<Skill>, ConfigError>|
                #![trigger store_check(g, name, xg)]
                store_check(g, name, xg) && match xg {
                    Err(e) => r == Err::<Option<Skill>, ConfigError>(e),
                    Ok(fg) => r == Ok::<Option<Skill>, ConfigError>(if fp is Some {
                        fp
                    } else {
                        fg
                    }),
                },
        }
}

fn check_store(s: Option<StoreSkills>, name: &str) -> (r: Result<Option<Skill>, ConfigError>)
    ensures
        store_check(s, name@, r),
{
    match s {
        None => Ok(None),
        Some(ss) => match ss.skills {
            Err(e) => Err(e),
            Ok(v) => store_lookup(ss.store.as_str(), &v, name),
        },
    }
}

fn check_stores(p: Option<StoreSkills>, g: Option<StoreSkills>, name: &str) -> (r: Result<Option<Skill>, ConfigError>)
    ensures
        stores_checked(p, g, name@, r),
{
    let ghost pp = p;
    let ghost gg = g;
    let xp = check_store(p, name);
    let ghost xpv = xp;
    match xp {
        Err(e) => {
            assert(store_check(pp, name@, xpv));
            Err(e)
        },
        Ok(fp) => {
            let xg = check_store(g, name);
            let ghost xgv = xg;
            let r = match xg {
                Err(e) => Err(e),
                Ok(fg) => if fp.is_some() {
                    Ok(fp)
                } else {
                    Ok(fg)
                },
            };
            assert(store_check(gg, name@, xgv));
            assert(store_check(pp, name@, xpv));
            r
        },
    }
}

/// The in-scope project store: read unless the scope is global.
pub open spec fn project_in_scope(scope: ResourceScope, project_store: Option<StoreSkills>) -> Option<StoreSkills> {
    if scope != ResourceScope::GlobalOnly {
        project_store
    } else {
        None
    }
}

/// The in-scope global store: read unless the scope is the project's.
pub open spec fn global_in_scope(scope: ResourceScope, global_store: Option<StoreSkills>) -> Option<StoreSkills> {
    if scope != ResourceScope::ProjectOnly {
        global_store
    } else {
        None
    }
}

/// The skill a planned removal of `name` is about (nothing loaded:
/// refused). Removing from this agent alone: its own entry, else not found.
/// Removing from every agent: first the scope's Master stores are validated
/// in full — the project's (`project_store`, read when there is a root)
/// unless the scope is global, then the global one unless it is the
/// project's — and two Masters of that name, or a store that cannot be
/// fully read, refuse the removal whatever else holds the name. Then the
/// agent's own entry, else the first entry of that name among the other
/// agents (in `agents` order), else the stores' one Master (the project's
/// first). Not found anywhere: `ResourceNotFound`.
pub fn skill_for_planned_removal(
    name: &str,
    all_agents: bool,
    scope: ResourceScope,
    config: &Option<AgentConfig>,
    agents: &Vec<AgentResources>,
    project_store: Option<StoreSkills>,
    global_store: Option<StoreSkills>,
) -> (r: Result<Skill, ConfigError>)
    ensures
        match config {
            None => (r matches Err(e) && is_no_config(e)),
            Some(c) => {
                let own = skill_names(c.skills@).contains(name@);
                let own_skill = c.skills@[key_pos(skill_names(c.skills@), name@)];
                if !all_agents {
                    if own {
                        r matches Ok(k) && same_skill(k, own_skill)
                    } else {
                        r matches Err(e) && is_not_found(e, "skill"@, name@)
                    }
                } else {
                    exists|x: Result<Option<Skill>, ConfigError>|
                        #![trigger stores_checked(project_in_scope(scope, project_store), global_in_scope(scope, global_store), name@, x)]
                        stores_checked(
                            project_in_scope(scope, project_store),
                            global_in_scope(scope, global_store),
                            name@,
                            x,
                        ) && match x {
                            Err(e) => r == Err::<Skill, ConfigError>(e),
                            Ok(found) => if own {
                                r matches Ok(k) && same_skill(k, own_skill)
                            } else if first_holder(agents@, name@) < agents@.len() {
                                let a = agents@[first_holder(agents@, name@)].skills@;
                                r matches Ok(k) && same_skill(k, a[key_pos(skill_names(a), name@)])
                            } else {
                                match found {
                                    Some(k) => r == Ok::<Skill, ConfigError>(k),
                                    None => (r matches Err(e) && is_not_found(e, "skill"@, name@)),
                                }
                            },
                        }
                }
            },
        },
{
    let c = match config {
        None => {
            return Err(no_config());
        },
        Some(c) => c,
    };
    if !all_agents {
        return match find_skill(&c.skills, name) {
            Some(i) => Ok(c.skills[i].duplicate()),
            None => Err(not_found("skill", name)),
        };
    }
    let ghost ps = project_in_scope(scope, project_store);
    let ghost gs = global_in_scope(scope, global_store);
    let p = if scope != ResourceScope::GlobalOnly {
        project_store
    } else {
        None
    };
    let g = if scope != ResourceScope::ProjectOnly {
        global_store
    } else {
        None
    };
    assert(p == ps && g == gs);
    let checked = check_stores(p, g, name);
    let ghost xv = checked;
    let found = match checked {
        Err(e) => {
            return Err(e);
        },
        Ok(f) => f,
    };
    match find_skill(&c.skills, name) {
        Some(i) => {
            return Ok(c.skills[i].duplicate());
        },
        None => {},
    }
    let mut a: usize = 0;
    while a < agents.len()
        invariant
            a <= agents.len(),
            forall|k: int| 0 <= k < a ==> !skill_names(#[trigger] agents@[k].skills@).contains(name@),
            all_agents,
            *config == Some(*c),
            !skill_names(c.skills@).contains(name@),
            ps == project_in_scope(scope, project_store),
            gs == global_in_scope(scope, global_store),
            stores_checked(ps, gs, name@, xv),
            xv == Ok::<Option<Skill>, ConfigError>(found),
        decreases agents.len() - a,
    {
        match find_skill(&agents[a].skills, name) {
            Some(i) => {
                proof {
                    lemma_first_holder(agents@, name@, a as int);
                }
                return Ok(agents[a].skills[i].duplicate());
            },
            None => {},
        }
        a = a + 1;
    }
    proof {
        lemma_first_holder(agents@, name@, a as int);
    }
    match found {
        Some(k) => Ok(k),
        None => Err(not_found("skill", name)),
    }
}

proof fn lemma_key_pos_at_most(keys: Seq<Seq<char>>, k: Seq<char>, i: int)
    requires
        0 <= i < keys.len(),
        keys[i] == k,
    ensures
        key_pos(keys, k) <= i,
    decreases i,
{
    if keys[0] != k {
        assert(keys.drop_first()[i - 1] == keys[i]);
        lemma_key_pos_at_most(keys.drop_first(), k, i - 1);
    }
}

/// A store holding two Masters that declare `name`.
pub open spec fn holds_twice(store: Option<StoreSkills>, name: Seq<char>) -> bool {
    store matches Some(ss) && ss.skills matches Ok(v) && exists|i: int, j: int|
        0 <= i < j < v.len() && #[trigger] v@[i].name@ == name && #[trigger] v@[j].name@ == name
}

/// A store that could not be read in full.
pub open spec fn unreadable(store: Option<StoreSkills>) -> bool {
    store matches Some(ss) && ss.skills is Err
}

proof fn lemma_twice_refused(store: Option<StoreSkills>, name: Seq<char>, x: Result<Option<Skill>, ConfigError>)
    requires
        store_check(store, name, x),
        holds_twice(store, name),
    ensures
        x is Err,
{
    let v = store->Some_0.skills->Ok_0@;
    let names = skill_names(v);
    let (i, j) = choose|i: int, j: int| 0 <= i < j < v.len() && #[trigger] v[i].name@ == name && #[trigger] v[j].name@
        == name;
    assert(names[i] == name && names[j] == name);
    lemma_key_pos_at_most(names, name, i);
    assert(names.contains(name));
}

/// Validating the Master stores refuses whenever either in-scope store is
/// unreadable or holds two Masters of the name, whatever the other store
/// holds: nothing found elsewhere (the caller's entry, a peer's, the other
/// store's Master) can stand in for that refusal.
pub proof fn lemma_store_refusals_win(
    p: Option<StoreSkills>,
    g: Option<StoreSkills>,
    name: Seq<char>,
    x: Result<Option<Skill>, ConfigError>,
)
    requires
        stores_checked(p, g, name, x),
    ensures
        unreadable(p) ==> x == Err::<Option<Skill>, ConfigError>(p->Some_0.skills->Err_0),
        unreadable(g) || holds_twice(g, name) || holds_twice(p, name) ==> x is Err,
        x matches Ok(Some(k)) ==> k.name@ == name,
{
    let xp = choose|xp: Result<Option<Skill>, ConfigError>| #[trigger] store_check(p, name, xp) && match xp {
        Err(e) => x == Err::<Option<Skill>, ConfigError>(e),
        Ok(fp) => exists|xg: Result<Option<Skill>, ConfigError>|
            #![trigger store_check(g, name, xg)]
            store_check(g, name, xg) && match xg {
                Err(e) => x == Err::<Option<Skill>, ConfigError>(e),
                Ok(fg) => x == Ok::<Option<Skill>, ConfigError>(if fp is Some {
                    fp
                } else {
                    fg
                }),
            },
    };
    if holds_twice(p, name) {
        lemma_twice_refused(p, name, xp);
    }
    if let Ok(fp) = xp {
        let xg = choose|xg: Result<Option<Skill>, ConfigError>| #[trigger] store_check(g, name, xg) && match xg {
            Err(e) => x == Err::<Option<Skill>, ConfigError>(e),
            Ok(fg) => x == Ok::<Option<Skill>, ConfigError>(if fp is Some {
                fp
            } else {
                fg
            }),
        };
        if holds_twice(g, name) {
            lemma_twice_refused(g, name, xg);
        }
        lemma_found_has_name(p, name, xp);
        lemma_found_has_name(g, name, xg);
    }
}

proof fn lemma_found_has_name(store: Option<StoreSkills>, name: Seq<char>, x: Result<Option<Skill>, ConfigError>)
    requires
        store_check(store, name, x),
    ensures
        x matches Ok(Some(k)) ==> k.name@ == name,
{
    if let Some(ss) = store {
        if let Ok(v) = ss.skills {
            let names = skill_names(v@);
            if names.contains(name) {
                lemma_key_pos_bounds(names, name);
            }
        }
    }
}

} // verus!
