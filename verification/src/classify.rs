//! Where each agent's Referrer for a skill goes at a scope, and which agents
//! share one Referrer directory (granting to one grants to all of them).

use vstd::prelude::*;

use crate::removal::vs;
use crate::text::{owned, str_eq};

verus! {

/// Where an agent's Referrer for a skill goes at a scope.
#[derive(Debug, PartialEq, Eq)]
pub enum LinkNeed {
    /// The directory this agent reads skills from. Not necessarily private:
    /// several agents resolve to the shared `.agents/skills`.
    NeedsLink { referrer_dir: String },
    /// The agent's skills dir cannot be resolved for this scope.
    Unsupported,
}

/// One agent's classification for a scope.
#[derive(Debug, PartialEq, Eq)]
pub struct AgentLinkPlan {
    pub agent_id: String,
    pub need: LinkNeed,
    pub installed: bool,
    /// Other agents resolving to the same Referrer directory at this scope.
    pub shared_with: Vec<String>,
}

/// The coverage view of an [`AgentLinkPlan`] for a scope.
#[derive(Debug, PartialEq, Eq)]
pub struct AgentSkillCoverageView {
    pub id: String,
    pub scope: String,
    pub needs_link: bool,
    pub supported: bool,
    pub shared_with: Vec<String>,
}

impl AgentSkillCoverageView {
    /// Project a classified plan into the coverage view for `scope`.
    pub fn from_plan(plan: &AgentLinkPlan, scope: &str) -> (v: Self)
        ensures
            v.id@ == plan.agent_id@,
            v.scope@ == scope@,
            v.needs_link == plan.need is NeedsLink,
            v.supported == !(plan.need is Unsupported),
            vs(v.shared_with@) == vs(plan.shared_with@),
    {
        let mut shared: Vec<String> = Vec::new();
        let mut i: usize = 0;
        while i < plan.shared_with.len()
            invariant
                i <= plan.shared_with.len(),
                vs(shared@) == vs(plan.shared_with@).take(i as int),
            decreases plan.shared_with.len() - i,
        {
            let ghost before = vs(shared@);
            let x = plan.shared_with[i].clone();
            let ghost xv = x@;
            shared.push(x);
            assert(vs(shared@) =~= before.push(xv));
            assert(vs(plan.shared_with@).take(i + 1) =~= vs(plan.shared_with@).take(i as int).push(xv));
            i = i + 1;
        }
        assert(vs(plan.shared_with@).take(plan.shared_with.len() as int) =~= vs(plan.shared_with@));
        AgentSkillCoverageView {
            id: plan.agent_id.clone(),
            scope: owned(scope),
            needs_link: match plan.need {
                LinkNeed::NeedsLink { .. } => true,
                LinkNeed::Unsupported => false,
            },
            supported: match plan.need {
                LinkNeed::Unsupported => false,
                _ => true,
            },
            shared_with: shared,
        }
    }
}

/// An agent of the roster with its resolved Referrer directory at a scope
/// (`None` when it has none there).
#[derive(Debug)]
pub struct RosterEntry {
    pub id: String,
    pub referrer_dir: Option<String>,
}

/// The ids of the other agents whose resolved Referrer directory is `dir`.
pub open spec fn sharers(agent_id: Seq<char>, dir: Seq<char>, roster: Seq<RosterEntry>) -> Seq<Seq<char>>
    decreases roster.len(),
{
    if roster.len() == 0 {
        Seq::empty()
    } else {
        let rest = sharers(agent_id, dir, roster.drop_last());
        let e = roster.last();
        if e.id@ != agent_id && (e.referrer_dir matches Some(d) && d@ == dir) {
            rest.push(e.id@)
        } else {
            rest
        }
    }
}

/// Every other agent of `roster` whose Referrer directory is the same one
/// (both compared resolved).
pub fn shared_with(agent_id: &str, dir: &str, roster: &Vec<RosterEntry>) -> (out: Vec<String>)
    ensures
        vs(out@) == sharers(agent_id@, dir@, roster@),
{
    let mut out: Vec<String> = Vec::new();
    let mut i: usize = 0;
    while i < roster.len()
        invariant
            i <= roster.len(),
            vs(out@) == sharers(agent_id@, dir@, roster@.take(i as int)),
        decreases roster.len() - i,
    {
        assert(roster@.take(i + 1).drop_last() =~= roster@.take(i as int));
        let e = &roster[i];
        let same = match &e.referrer_dir {
            Some(d) => str_eq(d.as_str(), dir),
            None => false,
        };
        if !str_eq(e.id.as_str(), agent_id) && same {
            let ghost before = vs(out@);
            out.push(e.id.clone());
            assert(vs(out@) =~= before.push(e.id@));
        }
        i = i + 1;
    }
    assert(roster@.take(roster.len() as int) =~= roster@);
    out
}

/// Every other agent that would receive a skill through the same Referrer
/// directory as `agent_id`, whose link need at the scope is `need`: the
/// sharers of that directory, or nobody when the agent cannot take a link.
pub fn skill_target_shares_with(agent_id: &str, need: &LinkNeed, roster: &Vec<RosterEntry>) -> (out: Vec<String>)
    ensures
        match need {
            LinkNeed::NeedsLink { referrer_dir } => vs(out@) == sharers(agent_id@, referrer_dir@, roster@),
            LinkNeed::Unsupported => out@.len() == 0,
        },
{
    match need {
        LinkNeed::NeedsLink { referrer_dir } => shared_with(agent_id, referrer_dir.as_str(), roster),
        LinkNeed::Unsupported => Vec::new(),
    }
}

/// Classify one agent from its resolved Referrer directory: it needs a link
/// there, shared with every other agent resolving to it, or it is
/// unsupported at this scope.
pub fn classify_agent(agent_id: &str, referrer_dir: Option<&str>, installed: bool, roster: &Vec<RosterEntry>) -> (p:
    AgentLinkPlan)
    ensures
        p.agent_id@ == agent_id@,
        p.installed == installed,
        match referrer_dir {
            Some(d) => (p.need matches LinkNeed::NeedsLink { referrer_dir: r } && r@ == d@) && vs(p.shared_with@)
                == sharers(agent_id@, d@, roster@),
            None => p.need is Unsupported && p.shared_with@.len() == 0,
        },
{
    match referrer_dir {
        Some(d) => AgentLinkPlan {
            agent_id: owned(agent_id),
            need: LinkNeed::NeedsLink { referrer_dir: owned(d) },
            installed,
            shared_with: shared_with(agent_id, d, roster),
        },
        None => AgentLinkPlan { agent_id: owned(agent_id), need: LinkNeed::Unsupported, installed, shared_with: Vec::new() },
    }
}

} // verus!
