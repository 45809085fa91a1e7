//! One agent's loaded configuration and the resource operations on it.
//!
//! A mutation here is the change applied to the freshly loaded resource list,
//! with every refusal decided before anything changes: on an error the
//! configuration is left exactly as it was. Reading the list fresh under the
//! write lock before the change, and saving (and restoring the previous list
//! when the save fails) after it, are the caller's.

use vstd::prelude::*;

use crate::classify::LinkNeed;
use crate::install::AgentInstallResult;
use crate::models::{clone_opt, ResourceScope, Skill};
use crate::removal::{contains_str, vs, Layout, PruneStatus, ReadEffect, RemovalOutcome, RemovalPlan};
use crate::lock::quoted_message;
use crate::paths::{file_name, file_name_spec, join, join_spec, parent, parent_spec};
use crate::sanitize::{sanitize_name, sanitized};
use crate::text::{chars_of, has_prefix, slice_chars, starts_with, string_from};
use crate::table::{key_pos, lemma_key_pos, lemma_key_pos_bounds};
use crate::text::{owned, str_eq};

verus! {

/// An MCP server entry of an agent's config.
#[derive(Debug)]
pub struct McpServer {
    pub name: String,
    /// The command of a stdio server.
    pub command: Option<String>,
    pub args: Vec<String>,
    /// The URL of a remote server.
    pub url: Option<String>,
    pub enabled: bool,
    /// Request timeout in seconds; no agent config dialect stores it.
    pub timeout: Option<u64>,
}

/// A sub-agent definition.
#[derive(Debug)]
pub struct SubAgent {
    pub name: String,
    pub description: Option<String>,
    pub instruction: Option<String>,
    /// The file it was read from, when it is persisted.
    pub source_path: Option<String>,
}

impl SubAgent {
    /// A sub-agent with only its name set.
    pub fn new(name: &str) -> (a: Self)
        ensures
            a.name@ == name@,
            a.description is None,
            a.instruction is None,
            a.source_path is None,
    {
        SubAgent { name: owned(name), description: None, instruction: None, source_path: None }
    }
}

/// The resources loaded for one agent.
#[derive(Debug)]
pub struct AgentConfig {
    pub mcps: Vec<McpServer>,
    pub skills: Vec<Skill>,
    pub sub_agents: Vec<SubAgent>,
}

/// Why a config operation failed.
#[derive(Debug, PartialEq, Eq)]
pub enum ConfigError {
    InvalidConfig(String),
    ResourceExists { resource: String, name: String },
    ResourceNotFound { resource: String, name: String },
    UnsupportedOperation { operation: String, resource: String, agent: String },
    ValidationFailed(String),
    Io(String),
}

/// Outcome of an install into an agent.
#[derive(Debug)]
pub struct SkillAdd {
    /// The skill as it exists on disk after the call.
    pub skill: Skill,
    /// The skill was already installed and nothing was written.
    pub already_installed: bool,
    /// This call claimed and wrote the Master.
    pub wrote_master: bool,
    /// Agent skills dirs where this call created a fresh referrer.
    pub created_referrer_dirs: Vec<String>,
}

/// The partial update of a sub-agent: only the fields present are
/// overwritten.
#[derive(Debug, Default)]
pub struct SubAgentPatch {
    pub name: Option<String>,
    pub description: Option<String>,
    pub instruction: Option<String>,
}

/// A patch applied to a sub-agent.
pub open spec fn patched(a: SubAgent, p: SubAgentPatch) -> SubAgent {
    SubAgent {
        name: match p.name {
            Some(n) => n,
            None => a.name,
        },
        description: match p.description {
            Some(d) => Some(d),
            None => a.description,
        },
        instruction: match p.instruction {
            Some(i) => Some(i),
            None => a.instruction,
        },
        source_path: a.source_path,
    }
}

impl SubAgentPatch {
    /// Overwrite the fields this patch carries.
    pub fn apply_to(self, agent: &mut SubAgent)
        ensures
            *final(agent) == patched(*old(agent), self),
    {
        if let Some(name) = self.name {
            agent.name = name;
        }
        if let Some(desc) = self.description {
            agent.description = Some(desc);
        }
        if let Some(instr) = self.instruction {
            agent.instruction = Some(instr);
        }
    }
}

pub open spec fn mcp_names(s: Seq<McpServer>) -> Seq<Seq<char>> {
    s.map_values(|m: McpServer| m.name@)
}

pub open spec fn agent_names(s: Seq<SubAgent>) -> Seq<Seq<char>> {
    s.map_values(|a: SubAgent| a.name@)
}

pub open spec fn skill_names(s: Seq<Skill>) -> Seq<Seq<char>> {
    s.map_values(|k: Skill| k.name@)
}

fn find_mcp(v: &Vec<McpServer>, name: &str) -> (r: Option<usize>)
    ensures
        r matches Some(i) ==> i < v.len() && i == key_pos(mcp_names(v@), name@) && v@[i as int].name@
            == name@ && mcp_names(v@).contains(name@),
        r is None ==> !mcp_names(v@).contains(name@) && key_pos(mcp_names(v@), name@) == v.len(),
{
    let mut i: usize = 0;
    while i < v.len()
        invariant
            i <= v.len(),
            forall|j: int| 0 <= j < i ==> #[trigger] mcp_names(v@)[j] != name@,
        decreases v.len() - i,
    {
        if str_eq(v[i].name.as_str(), name) {
            proof {
                lemma_key_pos(mcp_names(v@), name@, i as int);
                assert(mcp_names(v@)[i as int] == name@);
            }
            return Some(i);
        }
        i = i + 1;
    }
    proof {
        lemma_key_pos(mcp_names(v@), name@, i as int);
        lemma_key_pos_bounds(mcp_names(v@), name@);
    }
    None
}

pub(crate) fn find_agent(v: &Vec<SubAgent>, name: &str) -> (r: Option<usize>)
    ensures
        r matches Some(i) ==> i < v.len() && i == key_pos(agent_names(v@), name@) && v@[i as int].name@
            == name@ && agent_names(v@).contains(name@),
        r is None ==> !agent_names(v@).contains(name@) && key_pos(agent_names(v@), name@) == v.len(),
{
    let mut i: usize = 0;
    while i < v.len()
        invariant
            i <= v.len(),
            forall|j: int| 0 <= j < i ==> #[trigger] agent_names(v@)[j] != name@,
        decreases v.len() - i,
    {
        if str_eq(v[i].name.as_str(), name) {
            proof {
                lemma_key_pos(agent_names(v@), name@, i as int);
                assert(agent_names(v@)[i as int] == name@);
            }
            return Some(i);
        }
        i = i + 1;
    }
    proof {
        lemma_key_pos(agent_names(v@), name@, i as int);
        lemma_key_pos_bounds(agent_names(v@), name@);
    }
    None
}

pub(crate) fn find_skill(v: &Vec<Skill>, name: &str) -> (r: Option<usize>)
    ensures
        r matches Some(i) ==> i < v.len() && i == key_pos(skill_names(v@), name@) && v@[i as int].name@
            == name@ && skill_names(v@).contains(name@),
        r is None ==> !skill_names(v@).contains(name@) && key_pos(skill_names(v@), name@) == v.len(),
{
    let mut i: usize = 0;
    while i < v.len()
        invariant
            i <= v.len(),
            forall|j: int| 0 <= j < i ==> #[trigger] skill_names(v@)[j] != name@,
        decreases v.len() - i,
    {
        if str_eq(v[i].name.as_str(), name) {
            proof {
                lemma_key_pos(skill_names(v@), name@, i as int);
                assert(skill_names(v@)[i as int] == name@);
            }
            return Some(i);
        }
        i = i + 1;
    }
    proof {
        lemma_key_pos(skill_names(v@), name@, i as int);
        lemma_key_pos_bounds(skill_names(v@), name@);
    }
    None
}

/// `UnsupportedOperation` for `operation` on `resource` by `agent`.
pub open spec fn is_unsupported(e: ConfigError, operation: Seq<char>, resource: Seq<char>, agent: Seq<char>) -> bool {
    e matches ConfigError::UnsupportedOperation { operation: o, resource: r, agent: a } && o@ == operation
        && r@ == resource && a@ == agent
}

pub open spec fn is_not_found(e: ConfigError, resource: Seq<char>, name: Seq<char>) -> bool {
    e matches ConfigError::ResourceNotFound { resource: r, name: n } && r@ == resource && n@ == name
}

pub open spec fn is_exists(e: ConfigError, resource: Seq<char>, name: Seq<char>) -> bool {
    e matches ConfigError::ResourceExists { resource: r, name: n } && r@ == resource && n@ == name
}

pub open spec fn is_no_config(e: ConfigError) -> bool {
    e matches ConfigError::InvalidConfig(m) && m@ == "No configuration loaded"@
}

pub(crate) fn unsupported(operation: &str, resource: &str, agent: &str) -> (e: ConfigError)
    ensures
        is_unsupported(e, operation@, resource@, agent@),
{
    ConfigError::UnsupportedOperation { operation: owned(operation), resource: owned(resource), agent: owned(agent) }
}

pub(crate) fn not_found(resource: &str, name: &str) -> (e: ConfigError)
    ensures
        is_not_found(e, resource@, name@),
{
    ConfigError::ResourceNotFound { resource: owned(resource), name: owned(name) }
}

pub(crate) fn exists_error(resource: &str, name: &str) -> (e: ConfigError)
    ensures
        is_exists(e, resource@, name@),
{
    ConfigError::ResourceExists { resource: owned(resource), name: owned(name) }
}

pub(crate) fn no_config() -> (e: ConfigError)
    ensures
        is_no_config(e),
{
    ConfigError::InvalidConfig(owned("No configuration loaded"))
}

/// The plan of a flat config-entry removal: no on-disk path besides
/// `paths`, nothing skipped, no confirmation needed.
pub(crate) fn flat_plan(paths: Vec<String>) -> (p: RemovalPlan)
    ensures
        p.layout == Layout::Copy,
        p.paths == paths,
        p.skipped@.len() == 0,
        !p.needs_confirm,
        !p.shared_master_kept,
{
    RemovalPlan { layout: Layout::Copy, paths, skipped: Vec::new(), needs_confirm: false, shared_master_kept: false }
}

/// A removal outcome for a resource that exists: executed or not, nothing
/// pruned, nothing failed.
pub open spec fn flat_outcome(o: RemovalOutcome, executed: bool) -> bool {
    &&& o.executed == executed
    &&& o.prune is NotRun
    &&& o.failed_paths@.len() == 0
    &&& !o.absent
    &&& o.plan.layout == Layout::Copy
    &&& o.plan.skipped@.len() == 0
    &&& !o.plan.needs_confirm
    &&& !o.plan.shared_master_kept
}

pub(crate) fn outcome(plan: RemovalPlan, executed: bool) -> (o: RemovalOutcome)
    ensures
        o.plan == plan,
        o.executed == executed,
        o.prune is NotRun,
        o.failed_paths@.len() == 0,
        !o.absent,
{
    RemovalOutcome { plan, executed, prune: PruneStatus::NotRun, failed_paths: Vec::new(), absent: false }
}

/// The manager's config holds `mcps`, its other resources as in `c`.
pub open spec fn mcps_now(m: ConfigManager, c: AgentConfig, mcps: Seq<McpServer>) -> bool {
    m.config matches Some(d) && d.mcps@ == mcps && d.skills == c.skills && d.sub_agents == c.sub_agents
}

/// One agent's config manager.
#[derive(Debug)]
pub struct ConfigManager {
    /// The agent's display name.
    pub agent: String,
    /// The agent's id.
    pub agent_id: String,
    /// The agent's config holds MCP servers.
    pub supports_mcp: bool,
    /// The agent's config can switch MCP servers on and off.
    pub supports_mcp_enable_disable: bool,
    /// The agent keeps sub-agents in the write scope.
    pub supports_sub_agents: bool,
    pub write_scope: ResourceScope,
    pub project_root: Option<String>,
    /// The loaded configuration, `None` before a load.
    pub config: Option<AgentConfig>,
}

/// Two MCP servers hold the same values.
pub open spec fn same_mcp(a: McpServer, b: McpServer) -> bool {
    &&& a.name == b.name
    &&& a.command == b.command
    &&& a.args@ == b.args@
    &&& a.url == b.url
    &&& a.enabled == b.enabled
    &&& a.timeout == b.timeout
}

impl McpServer {
    /// A copy.
    pub fn duplicate(&self) -> (r: Self)
        ensures
            same_mcp(r, *self),
    {
        McpServer {
            name: self.name.clone(),
            command: clone_opt(&self.command),
            args: crate::models::clone_strings(&self.args),
            url: clone_opt(&self.url),
            enabled: self.enabled,
            timeout: self.timeout,
        }
    }
}

pub open spec fn unmanaged_rename_message(name: Seq<char>) -> Seq<char> {
    "MCP server '"@ + name + "' has unmanaged native fields that cannot be preserved by renaming it"@
}

fn unmanaged_rename(name: &str) -> (e: ConfigError)
    ensures
        e matches ConfigError::InvalidConfig(m) && m@ == unmanaged_rename_message(name@),
{
    ConfigError::InvalidConfig(quoted_message(
        "MCP server '",
        name,
        "' has unmanaged native fields that cannot be preserved by renaming it",
    ))
}

/// Whether a server other than the one at `index` is named `new_name`.
fn name_taken_elsewhere(v: &Vec<McpServer>, index: usize, new_name: &str) -> (r: bool)
    ensures
        r == exists|j: int| 0 <= j < v@.len() && j != index && #[trigger] mcp_names(v@)[j] == new_name@,
{
    let mut j: usize = 0;
    while j < v.len()
        invariant
            j <= v.len(),
            forall|k: int| 0 <= k < j && k != index ==> #[trigger] mcp_names(v@)[k] != new_name@,
        decreases v.len() - j,
    {
        if j != index && str_eq(v[j].name.as_str(), new_name) {
            assert(mcp_names(v@)[j as int] == new_name@);
            return true;
        }
        j = j + 1;
    }
    false
}

impl ConfigManager {
    /// Add an MCP server; refused when the agent has no MCP config, when
    /// nothing is loaded, or when a server of that name exists.
    pub fn add_mcp(&mut self, mcp: McpServer) -> (r: Result<(), ConfigError>)
        ensures
            !old(self).supports_mcp ==> (r matches Err(e) && is_unsupported(e, "add"@, "MCP server"@, old(self).agent@)),
            old(self).supports_mcp ==> match old(self).config {
                None => (r matches Err(e) && is_no_config(e)),
                Some(c) => if mcp_names(c.mcps@).contains(mcp.name@) {
                r matches Err(e) && is_exists(e, "MCP server"@, mcp.name@)
            } else {
                r is Ok && (final(self).config matches Some(d) && d.mcps@ == c.mcps@.push(mcp) && d.skills == c.skills
                    && d.sub_agents == c.sub_agents)
            },
            },
            r is Err ==> *final(self) == *old(self),
            r is Ok ==> final(self).agent == old(self).agent,
    {
        if !self.supports_mcp {
            return Err(unsupported("add", "MCP server", self.agent.as_str()));
        }
        let mut c = match self.config.take() {
            None => {
                return Err(no_config());
            },
            Some(c) => c,
        };
        match find_mcp(&c.mcps, mcp.name.as_str()) {
            Some(_) => {
                let e = exists_error("MCP server", mcp.name.as_str());
                self.config = Some(c);
                Err(e)
            },
            None => {
                c.mcps.push(mcp);
                self.config = Some(c);
                Ok(())
            },
        }
    }

    /// The first MCP server named `name`.
    pub fn get_mcp(&self, name: &str) -> (r: Option<&McpServer>)
        ensures
            match self.config {
                None => r is None,
                Some(c) => if mcp_names(c.mcps@).contains(name@) {
                    r matches Some(m) && *m == c.mcps@[key_pos(mcp_names(c.mcps@), name@)]
                } else {
                    r is None
                },
            },
    {
        match &self.config {
            None => None,
            Some(c) => match find_mcp(&c.mcps, name) {
                Some(i) => {
                    assert(mcp_names(c.mcps@)[i as int] == name@);
                    Some(&c.mcps[i])
                },
                None => None,
            },
        }
    }

    /// Add an MCP server only when every field it carries survives a reload:
    /// refused, as "add without losing fields", when the agent has an MCP
    /// config and the server has a timeout (no dialect stores one) or
    /// `fits_exactly` is false, the agent dialect's verdict on `mcp`;
    /// otherwise [`Self::add_mcp`].
    pub fn add_mcp_exact(&mut self, mcp: McpServer, fits_exactly: bool) -> (r: Result<(), ConfigError>)
        ensures
            old(self).supports_mcp && (mcp.timeout is Some || !fits_exactly) ==> (r matches Err(e) && is_unsupported(
                e,
                "add without losing fields"@,
                "MCP server"@,
                old(self).agent@,
            )),
            !(old(self).supports_mcp && (mcp.timeout is Some || !fits_exactly)) ==> {
                &&& !old(self).supports_mcp ==> (r matches Err(e) && is_unsupported(e, "add"@, "MCP server"@, old(self).agent@))
                &&& old(self).supports_mcp ==> match old(self).config {
                    None => (r matches Err(e) && is_no_config(e)),
                    Some(c) => if mcp_names(c.mcps@).contains(mcp.name@) {
                        r matches Err(e) && is_exists(e, "MCP server"@, mcp.name@)
                    } else {
                        r is Ok && (final(self).config matches Some(d) && d.mcps@ == c.mcps@.push(mcp) && d.skills
                            == c.skills && d.sub_agents == c.sub_agents)
                    },
                }
            },
            r is Err ==> *final(self) == *old(self),
            r is Ok ==> final(self).agent == old(self).agent,
    {
        if self.supports_mcp && (mcp.timeout.is_some() || !fits_exactly) {
            return Err(unsupported("add without losing fields", "MCP server", self.agent.as_str()));
        }
        self.add_mcp(mcp)
    }

    /// Replace the server named `name` by `mcp`. Refused when the agent has
    /// no MCP config, nothing is loaded, there is no such server, another
    /// server already has `mcp`'s name, or `mcp` would not survive a reload:
    /// it carries a timeout (which no config dialect stores) or
    /// `fits_exactly`, the agent dialect's verdict on `mcp`, is false. A
    /// rename is refused as well when the current entry has native fields the
    /// config writer cannot carry over to a new name: `rename_loses_fields`
    /// is that verdict on the current entry, or why it could not be reached.
    pub fn update_mcp(
        &mut self,
        name: &str,
        mcp: McpServer,
        fits_exactly: bool,
        rename_loses_fields: Result<bool, ConfigError>,
    ) -> (r: Result<(), ConfigError>)
        ensures
            !old(self).supports_mcp ==> (r matches Err(e) && is_unsupported(e, "update"@, "MCP server"@, old(self).agent@)),
            old(self).supports_mcp ==> match old(self).config {
                None => (r matches Err(e) && is_no_config(e)),
                Some(c) => {
                let names = mcp_names(c.mcps@);
                let i = key_pos(names, name@);
                if !names.contains(name@) {
                    r matches Err(e) && is_not_found(e, "MCP server"@, name@)
                } else if exists|j: int| 0 <= j < names.len() && j != i && #[trigger] names[j] == mcp.name@ {
                    r matches Err(e) && is_exists(e, "MCP server"@, mcp.name@)
                } else if mcp.timeout is Some || !fits_exactly {
                    r matches Err(e) && is_unsupported(e, "update without losing fields"@, "MCP server"@, old(self).agent@)
                } else if mcp.name@ != name@ && rename_loses_fields is Err {
                    r == Err::<(), ConfigError>(rename_loses_fields->Err_0)
                } else if mcp.name@ != name@ && rename_loses_fields == Ok::<bool, ConfigError>(true) {
                    r matches Err(ConfigError::InvalidConfig(m)) && m@ == unmanaged_rename_message(name@)
                } else {
                    r is Ok && (final(self).config matches Some(d) && d.mcps@ == c.mcps@.update(i, mcp)
                        && d.skills == c.skills && d.sub_agents == c.sub_agents)
                }
            },
            },
            r is Err ==> *final(self) == *old(self),
            r is Ok ==> final(self).agent == old(self).agent,
    {
        if !self.supports_mcp {
            return Err(unsupported("update", "MCP server", self.agent.as_str()));
        }
        let mut c = match self.config.take() {
            None => {
                return Err(no_config());
            },
            Some(c) => c,
        };
        let ghost names = mcp_names(c.mcps@);
        let index = match find_mcp(&c.mcps, name) {
            None => {
                let e = not_found("MCP server", name);
                self.config = Some(c);
                return Err(e);
            },
            Some(i) => i,
        };
        let clash = name_taken_elsewhere(&c.mcps, index, mcp.name.as_str());
        if clash {
            let e = exists_error("MCP server", mcp.name.as_str());
            self.config = Some(c);
            return Err(e);
        }
        if mcp.timeout.is_some() || !fits_exactly {
            let e = unsupported("update without losing fields", "MCP server", self.agent.as_str());
            self.config = Some(c);
            return Err(e);
        }
        if !str_eq(mcp.name.as_str(), name) {
            match rename_loses_fields {
                Err(e) => {
                    self.config = Some(c);
                    return Err(e);
                },
                Ok(true) => {
                    self.config = Some(c);
                    return Err(unmanaged_rename(name));
                },
                Ok(false) => {},
            }
        }
        c.mcps.set(index, mcp);
        self.config = Some(c);
        Ok(())
    }

    /// Apply `change` to the server named `name` as it is loaded now, then
    /// store what it gives under the same refusals as [`Self::update_mcp`],
    /// with `fits_exactly` the agent dialect's verdict on the changed
    /// server. Returns the stored server. `change` receives a copy of the
    /// current entry; its error is returned as is.
    pub fn update_mcp_with<F: FnOnce(McpServer) -> Result<McpServer, ConfigError>, P: Fn(&McpServer) -> bool>(
        &mut self,
        name: &str,
        change: F,
        fits_exactly: P,
        rename_loses_fields: Result<bool, ConfigError>,
    ) -> (r: Result<McpServer, ConfigError>)
        requires
            forall|m: McpServer| #[trigger] change.requires((m,)),
            forall|m: &McpServer| #[trigger] fits_exactly.requires((m,)),
        ensures
            !old(self).supports_mcp ==> (r matches Err(e) && is_unsupported(e, "update"@, "MCP server"@, old(self).agent@)),
            old(self).supports_mcp ==> match old(self).config {
                None => (r matches Err(e) && is_no_config(e)),
                Some(c) => {
                let names = mcp_names(c.mcps@);
                let i = key_pos(names, name@);
                if !names.contains(name@) {
                    r matches Err(e) && is_not_found(e, "MCP server"@, name@)
                } else {
                    exists|cur: McpServer, changed: Result<McpServer, ConfigError>|
                        #![trigger change.ensures((cur,), changed)]
                        same_mcp(cur, c.mcps@[i]) && change.ensures((cur,), changed) && match changed {
                            Err(e) => r == Err::<McpServer, ConfigError>(e),
                            Ok(u) => if exists|j: int| 0 <= j < names.len() && j != i && #[trigger] names[j] == u.name@ {
                                r matches Err(e) && is_exists(e, "MCP server"@, u.name@)
                            } else if u.timeout is Some {
                                r matches Err(e) && is_unsupported(
                                    e,
                                    "update without losing fields"@,
                                    "MCP server"@,
                                    old(self).agent@,
                                )
                            } else {
                                exists|fits: bool|
                                    #![trigger fits_exactly.ensures((&u,), fits)]
                                    fits_exactly.ensures((&u,), fits) && if !fits {
                                        r matches Err(e) && is_unsupported(
                                            e,
                                            "update without losing fields"@,
                                            "MCP server"@,
                                            old(self).agent@,
                                        )
                                    } else if u.name@ != name@ && rename_loses_fields is Err {
                                        r == Err::<McpServer, ConfigError>(rename_loses_fields->Err_0)
                                    } else if u.name@ != name@ && rename_loses_fields == Ok::<bool, ConfigError>(true) {
                                        r matches Err(ConfigError::InvalidConfig(m)) && m@ == unmanaged_rename_message(
                                            name@,
                                        )
                                    } else {
                                        r matches Ok(v) && same_mcp(v, u) && (final(self).config matches Some(d)
                                            && d.mcps@ == c.mcps@.update(i, u) && d.skills == c.skills && d.sub_agents
                                            == c.sub_agents)
                                    }
                            },
                        }
                }
            },
            },
            r is Err ==> *final(self) == *old(self),
            r is Ok ==> final(self).agent == old(self).agent,
    {
        if !self.supports_mcp {
            return Err(unsupported("update", "MCP server", self.agent.as_str()));
        }
        let mut c = match self.config.take() {
            None => {
                return Err(no_config());
            },
            Some(c) => c,
        };
        let index = match find_mcp(&c.mcps, name) {
            None => {
                let e = not_found("MCP server", name);
                self.config = Some(c);
                return Err(e);
            },
            Some(i) => i,
        };
        let cur = c.mcps[index].duplicate();
        let ghost gcur = cur;
        let changed = change(cur);
        let ghost gchanged = changed;
        assert(change.ensures((gcur,), gchanged));
        let updated = match changed {
            Err(e) => {
                self.config = Some(c);
                return Err(e);
            },
            Ok(u) => u,
        };
        let clash = name_taken_elsewhere(&c.mcps, index, updated.name.as_str());
        if clash {
            let e = exists_error("MCP server", updated.name.as_str());
            self.config = Some(c);
            return Err(e);
        }
        if updated.timeout.is_some() {
            let e = unsupported("update without losing fields", "MCP server", self.agent.as_str());
            self.config = Some(c);
            return Err(e);
        }
        let fits = fits_exactly(&updated);
        if !fits {
            let e = unsupported("update without losing fields", "MCP server", self.agent.as_str());
            self.config = Some(c);
            return Err(e);
        }
        if !str_eq(updated.name.as_str(), name) {
            match rename_loses_fields {
                Err(e) => {
                    self.config = Some(c);
                    return Err(e);
                },
                Ok(true) => {
                    self.config = Some(c);
                    return Err(unmanaged_rename(name));
                },
                Ok(false) => {},
            }
        }
        let out = updated.duplicate();
        c.mcps.set(index, updated);
        self.config = Some(c);
        Ok(out)
    }

    /// Plan, and unless a dry run carry out, the removal of an MCP server,
    /// after `preflight` (a shared-reader safety check) agreed. The removal
    /// rewrites a config entry and deletes no path, so the plan's paths are
    /// empty and it needs no confirmation: it executes exactly when it is no
    /// dry run.
    pub fn remove_mcp_planned_checked<F: FnOnce(&Vec<McpServer>) -> Result<(), ConfigError>>(
        &mut self,
        name: &str,
        dry_run: bool,
        confirm: bool,
        preflight: F,
    ) -> (r: Result<RemovalOutcome, ConfigError>)
        requires
            forall|v: &Vec<McpServer>| #[trigger] preflight.requires((v,)),
        ensures
            !old(self).supports_mcp ==> (r matches Err(e) && is_unsupported(e, "remove"@, "MCP server"@, old(self).agent@)),
            old(self).supports_mcp ==> match old(self).config {
                None => (r matches Err(e) && is_no_config(e)),
                Some(c) => if !mcp_names(c.mcps@).contains(name@) {
                r matches Err(e) && is_not_found(e, "MCP server"@, name@)
            } else {
                exists|p: Result<(), ConfigError>| #[trigger] preflight.ensures((&c.mcps,), p) && match p {
                    Err(e) => r == Err::<RemovalOutcome, ConfigError>(e),
                    Ok(_) => r matches Ok(o) && flat_outcome(o, !dry_run) && o.plan.paths@.len() == 0 && (
                    dry_run ==> *final(self) == *old(self)) && (!dry_run ==> mcps_now(*final(self), c, c.mcps@.remove(key_pos(mcp_names(c.mcps@), name@)))),
                }
            },
            },
            r is Err ==> *final(self) == *old(self),
    {
        if !self.supports_mcp {
            return Err(unsupported("remove", "MCP server", self.agent.as_str()));
        }
        let mut c = match self.config.take() {
            None => {
                return Err(no_config());
            },
            Some(c) => c,
        };
        let index = match find_mcp(&c.mcps, name) {
            None => {
                let e = not_found("MCP server", name);
                self.config = Some(c);
                return Err(e);
            },
            Some(i) => i,
        };
        let pre = preflight(&c.mcps);
        match pre {
            Err(e) => {
                self.config = Some(c);
                Err(e)
            },
            Ok(()) => {
                let plan = flat_plan(Vec::new());
                let executed = !dry_run && (!plan.needs_confirm || confirm);
                if executed {
                    let _ = c.mcps.remove(index);
                }
                self.config = Some(c);
                Ok(outcome(plan, executed))
            },
        }
    }

    /// [`Self::remove_mcp_planned_checked`] with no shared-reader check.
    pub fn remove_mcp_planned(&mut self, name: &str, dry_run: bool, confirm: bool) -> (r: Result<
        RemovalOutcome,
        ConfigError,
    >)
        ensures
            !old(self).supports_mcp ==> (r matches Err(e) && is_unsupported(e, "remove"@, "MCP server"@, old(self).agent@)),
            old(self).supports_mcp ==> match old(self).config {
                None => (r matches Err(e) && is_no_config(e)),
                Some(c) => if !mcp_names(c.mcps@).contains(name@) {
                r matches Err(e) && is_not_found(e, "MCP server"@, name@)
            } else {
                r matches Ok(o) && flat_outcome(o, !dry_run) && o.plan.paths@.len() == 0 && (dry_run ==> *final(self)
                    == *old(self)) && (!dry_run ==> mcps_now(*final(self), c, c.mcps@.remove(key_pos(mcp_names(c.mcps@), name@))))
            },
            },
            r is Err ==> *final(self) == *old(self),
    {
        let allow = |v: &Vec<McpServer>| -> (p: Result<(), ConfigError>)
            ensures
                p is Ok,
            { Ok(()) };
        self.remove_mcp_planned_checked(name, dry_run, confirm, allow)
    }

    /// Remove an MCP server outright.
    pub fn remove_mcp(&mut self, name: &str) -> (r: Result<(), ConfigError>)
        ensures
            !old(self).supports_mcp ==> (r matches Err(e) && is_unsupported(e, "remove"@, "MCP server"@, old(self).agent@)),
            old(self).supports_mcp ==> match old(self).config {
                None => (r matches Err(e) && is_no_config(e)),
                Some(c) => if !mcp_names(c.mcps@).contains(name@) {
                r matches Err(e) && is_not_found(e, "MCP server"@, name@)
            } else {
                r is Ok && (final(self).config matches Some(d) && d.mcps@ == c.mcps@.remove(
                    key_pos(mcp_names(c.mcps@), name@),
                ) && d.skills == c.skills && d.sub_agents == c.sub_agents)
            },
            },
            r is Err ==> *final(self) == *old(self),
    {
        match self.remove_mcp_planned(name, false, true) {
            Ok(_) => Ok(()),
            Err(e) => Err(e),
        }
    }

    fn set_mcp_enabled(&mut self, name: &str, enabled: bool) -> (r: Result<(), ConfigError>)
        ensures
            !old(self).supports_mcp_enable_disable ==> (r matches Err(e) && is_unsupported(
                e,
                if enabled {
                    "enable"@
                } else {
                    "disable"@
                },
                "MCP server"@,
                old(self).agent@,
            )),
            old(self).supports_mcp_enable_disable ==> match old(self).config {
                None => (r matches Err(e) && is_no_config(e)),
                Some(c) => if !mcp_names(c.mcps@).contains(
                name@,
            ) {
                r matches Err(e) && is_not_found(e, "MCP server"@, name@)
            } else {
                let i = key_pos(mcp_names(c.mcps@), name@);
                r is Ok && (final(self).config matches Some(d) && d.mcps@ == c.mcps@.update(
                    i,
                    McpServer { enabled, ..c.mcps@[i] },
                ) && d.skills == c.skills && d.sub_agents == c.sub_agents)
            },
            },
            r is Err ==> *final(self) == *old(self),
    {
        if !self.supports_mcp_enable_disable {
            let op = if enabled {
                "enable"
            } else {
                "disable"
            };
            return Err(unsupported(op, "MCP server", self.agent.as_str()));
        }
        let mut c = match self.config.take() {
            None => {
                return Err(no_config());
            },
            Some(c) => c,
        };
        match find_mcp(&c.mcps, name) {
            None => {
                let e = not_found("MCP server", name);
                self.config = Some(c);
                Err(e)
            },
            Some(i) => {
                let ghost before = c.mcps@;
                let mut m = c.mcps.remove(i);
                m.enabled = enabled;
                c.mcps.insert(i, m);
                assert(c.mcps@ =~= before.update(i as int, McpServer { enabled, ..before[i as int] }));
                self.config = Some(c);
                Ok(())
            },
        }
    }

    /// Switch the server named `name` off; nothing else changes.
    pub fn disable_mcp(&mut self, name: &str) -> (r: Result<(), ConfigError>)
        ensures
            !old(self).supports_mcp_enable_disable ==> (r matches Err(e) && is_unsupported(e, "disable"@, "MCP server"@, old(self).agent@)),
            old(self).supports_mcp_enable_disable ==> match old(self).config {
                None => (r matches Err(e) && is_no_config(e)),
                Some(c) => if !mcp_names(c.mcps@).contains(
                name@,
            ) {
                r matches Err(e) && is_not_found(e, "MCP server"@, name@)
            } else {
                let i = key_pos(mcp_names(c.mcps@), name@);
                r is Ok && (final(self).config matches Some(d) && d.mcps@ == c.mcps@.update(
                    i,
                    McpServer { enabled: false, ..c.mcps@[i] },
                ) && d.skills == c.skills && d.sub_agents == c.sub_agents)
            },
            },
            r is Err ==> *final(self) == *old(self),
    {
        self.set_mcp_enabled(name, false)
    }

    /// Switch the server named `name` on; nothing else changes.
    pub fn enable_mcp(&mut self, name: &str) -> (r: Result<(), ConfigError>)
        ensures
            !old(self).supports_mcp_enable_disable ==> (r matches Err(e) && is_unsupported(e, "enable"@, "MCP server"@, old(self).agent@)),
            old(self).supports_mcp_enable_disable ==> match old(self).config {
                None => (r matches Err(e) && is_no_config(e)),
                Some(c) => if !mcp_names(c.mcps@).contains(
                name@,
            ) {
                r matches Err(e) && is_not_found(e, "MCP server"@, name@)
            } else {
                let i = key_pos(mcp_names(c.mcps@), name@);
                r is Ok && (final(self).config matches Some(d) && d.mcps@ == c.mcps@.update(
                    i,
                    McpServer { enabled: true, ..c.mcps@[i] },
                ) && d.skills == c.skills && d.sub_agents == c.sub_agents)
            },
            },
            r is Err ==> *final(self) == *old(self),
    {
        self.set_mcp_enabled(name, true)
    }

    /// Remove an MCP server on behalf of a request that removes it from the
    /// agents in `requested`, which must include this one. `spares` is the
    /// check that no agent outside the request still reads this server's
    /// backing; it runs only when the server exists.
    pub fn remove_mcp_planned_single_guarded<F: FnOnce() -> Result<(), ConfigError>>(
        &mut self,
        name: &str,
        dry_run: bool,
        confirm: bool,
        requested: &Vec<String>,
        spares: F,
    ) -> (r: Result<RemovalOutcome, ConfigError>)
        requires
            spares.requires(()),
        ensures
            !crate::removal::vs(requested@).contains(old(self).agent_id@) ==> (r matches Err(
                ConfigError::InvalidConfig(m),
            ) && m@ == "removal request does not include the target agent"@),
            crate::removal::vs(requested@).contains(old(self).agent_id@) && old(self).write_scope
                == ResourceScope::Both ==> (r matches Err(ConfigError::InvalidConfig(m)) && m@
                == "MCP removal requires one write scope"@),
            crate::removal::vs(requested@).contains(old(self).agent_id@) && old(self).write_scope
                != ResourceScope::Both ==> {
                &&& !old(self).supports_mcp ==> (r matches Err(e) && is_unsupported(
                    e,
                    "remove"@,
                    "MCP server"@,
                    old(self).agent@,
                ))
                &&& old(self).supports_mcp ==> match old(self).config {
                    None => (r matches Err(e) && is_no_config(e)),
                    Some(c) => if !mcp_names(c.mcps@).contains(name@) {
                        r matches Err(e) && is_not_found(e, "MCP server"@, name@)
                    } else {
                        exists|p: Result<(), ConfigError>| #[trigger]
                            spares.ensures((), p) && match p {
                                Err(e) => r == Err::<RemovalOutcome, ConfigError>(e),
                                Ok(_) => r matches Ok(o) && flat_outcome(o, !dry_run) && o.plan.paths@.len()
                                    == 0 && (dry_run ==> *final(self) == *old(self)) && (!dry_run
                                    ==> mcps_now(
                                    *final(self),
                                    c,
                                    c.mcps@.remove(key_pos(mcp_names(c.mcps@), name@)),
                                )),
                            }
                    },
                }
            },
            r is Err ==> *final(self) == *old(self),
    {
        if !crate::removal::contains_str(requested, self.agent_id.as_str()) {
            return Err(ConfigError::InvalidConfig(owned("removal request does not include the target agent")));
        }
        if self.write_scope == ResourceScope::Both {
            return Err(ConfigError::InvalidConfig(owned("MCP removal requires one write scope")));
        }
        let check = move |v: &Vec<McpServer>| -> (p: Result<(), ConfigError>)
            requires
                spares.requires(()),
            ensures
                mcp_names(v@).contains(name@) ==> spares.ensures((), p),
                !mcp_names(v@).contains(name@) ==> p is Ok,
            {
                if find_mcp(v, name).is_some() {
                    spares()
                } else {
                    Ok(())
                }
            };
        self.remove_mcp_planned_checked(name, dry_run, confirm, check)
    }

    /// The skill named `name`.
    pub fn get_skill(&self, name: &str) -> (r: Option<&Skill>)
        ensures
            match self.config {
                None => r is None,
                Some(c) => if skill_names(c.skills@).contains(name@) {
                    r matches Some(k) && *k == c.skills@[key_pos(skill_names(c.skills@), name@)]
                } else {
                    r is None
                },
            },
    {
        match &self.config {
            None => None,
            Some(c) => match find_skill(&c.skills, name) {
                Some(i) => Some(&c.skills[i]),
                None => None,
            },
        }
    }

    /// Skills are links and folders, not config entries: switching one on or
    /// off is refused, after a missing skill is reported as not found.
    fn set_skill_enabled(&self, name: &str, enabled: bool) -> (r: Result<(), ConfigError>)
        ensures
            match self.config {
                None => (r matches Err(e) && is_no_config(e)),
                Some(c) => if !skill_names(c.skills@).contains(name@) {
                    r matches Err(e) && is_not_found(e, "skill"@, name@)
                } else {
                    r matches Err(e) && is_unsupported(
                        e,
                        if enabled {
                            "enable"@
                        } else {
                            "disable"@
                        },
                        "skill"@,
                        self.agent@,
                    )
                },
            },
    {
        match &self.config {
            None => Err(no_config()),
            Some(c) => match find_skill(&c.skills, name) {
                None => Err(not_found("skill", name)),
                Some(_) => {
                    let op = if enabled {
                        "enable"
                    } else {
                        "disable"
                    };
                    Err(unsupported(op, "skill", self.agent.as_str()))
                },
            },
        }
    }

    /// Refused: a skill cannot be switched off (see `set_skill_enabled`).
    pub fn disable_skill(&mut self, name: &str) -> (r: Result<(), ConfigError>)
        ensures
            *final(self) == *old(self),
            match old(self).config {
                None => (r matches Err(e) && is_no_config(e)),
                Some(c) => if !skill_names(c.skills@).contains(name@) {
                    r matches Err(e) && is_not_found(e, "skill"@, name@)
                } else {
                    r matches Err(e) && is_unsupported(e, "disable"@, "skill"@, old(self).agent@)
                },
            },
    {
        self.set_skill_enabled(name, false)
    }

    /// Refused: a skill cannot be switched on (see `set_skill_enabled`).
    pub fn enable_skill(&mut self, name: &str) -> (r: Result<(), ConfigError>)
        ensures
            *final(self) == *old(self),
            match old(self).config {
                None => (r matches Err(e) && is_no_config(e)),
                Some(c) => if !skill_names(c.skills@).contains(name@) {
                    r matches Err(e) && is_not_found(e, "skill"@, name@)
                } else {
                    r matches Err(e) && is_unsupported(e, "enable"@, "skill"@, old(self).agent@)
                },
            },
    {
        self.set_skill_enabled(name, true)
    }

    /// Every loaded sub-agent, in order.
    pub fn list_sub_agents(&self) -> (r: Vec<&SubAgent>)
        ensures
            match self.config {
                None => r.len() == 0,
                Some(c) => r.len() == c.sub_agents.len() && forall|i: int|
                    0 <= i < r.len() ==> *#[trigger] r@[i] == c.sub_agents@[i],
            },
    {
        let mut out: Vec<&SubAgent> = Vec::new();
        match &self.config {
            None => {},
            Some(c) => {
                let mut i: usize = 0;
                while i < c.sub_agents.len()
                    invariant
                        i <= c.sub_agents.len(),
                        out.len() == i,
                        forall|j: int| 0 <= j < i ==> *#[trigger] out@[j] == c.sub_agents@[j],
                    decreases c.sub_agents.len() - i,
                {
                    out.push(&c.sub_agents[i]);
                    i = i + 1;
                }
            },
        }
        out
    }

    /// The sub-agent named `name`.
    pub fn get_sub_agent(&self, name: &str) -> (r: Option<&SubAgent>)
        ensures
            match self.config {
                None => r is None,
                Some(c) => if agent_names(c.sub_agents@).contains(name@) {
                    r matches Some(a) && *a == c.sub_agents@[key_pos(agent_names(c.sub_agents@), name@)]
                } else {
                    r is None
                },
            },
    {
        match &self.config {
            None => None,
            Some(c) => match find_agent(&c.sub_agents, name) {
                Some(i) => Some(&c.sub_agents[i]),
                None => None,
            },
        }
    }

    /// Add a sub-agent; refused when nothing is loaded, the agent keeps no
    /// sub-agents in its write scope, or one of that name exists.
    pub fn add_sub_agent(&mut self, agent: SubAgent) -> (r: Result<(), ConfigError>)
        ensures
            match old(self).config {
                None => (r matches Err(e) && is_no_config(e)),
                Some(c) => if !old(self).supports_sub_agents {
                    r matches Err(e) && is_unsupported(e, "mutate"@, "sub-agent"@, old(self).agent@)
                } else if agent_names(c.sub_agents@).contains(agent.name@) {
                    r matches Err(e) && is_exists(e, "sub_agent"@, agent.name@)
                } else {
                    r is Ok && agents_now(*final(self), c, c.sub_agents@.push(agent))
                },
            },
            r is Err ==> *final(self) == *old(self),
    {
        let mut c = match self.config.take() {
            None => {
                return Err(no_config());
            },
            Some(c) => c,
        };
        if !self.supports_sub_agents {
            let e = unsupported("mutate", "sub-agent", self.agent.as_str());
            self.config = Some(c);
            return Err(e);
        }
        match find_agent(&c.sub_agents, agent.name.as_str()) {
            Some(_) => {
                let e = exists_error("sub_agent", agent.name.as_str());
                self.config = Some(c);
                Err(e)
            },
            None => {
                c.sub_agents.push(agent);
                self.config = Some(c);
                Ok(())
            },
        }
    }

    /// Patch the sub-agent named `name`: refused when nothing is loaded, the
    /// agent keeps no sub-agents in its write scope, the patch renames it to a
    /// name already taken, or there is no such sub-agent.
    pub fn update_sub_agent(&mut self, name: &str, patch: SubAgentPatch) -> (r: Result<(), ConfigError>)
        ensures
            match old(self).config {
                None => (r matches Err(e) && is_no_config(e)),
                Some(c) => if !old(self).supports_sub_agents {
                    r matches Err(e) && is_unsupported(e, "mutate"@, "sub-agent"@, old(self).agent@)
                } else if patch.name matches Some(n) && n@ != name@ && agent_names(c.sub_agents@).contains(
                    n@,
                ) {
                    r matches Err(e) && is_exists(e, "sub_agent"@, patch.name->Some_0@)
                } else if !agent_names(c.sub_agents@).contains(name@) {
                    r matches Err(e) && is_not_found(e, "sub_agent"@, name@)
                } else {
                    let i = key_pos(agent_names(c.sub_agents@), name@);
                    r is Ok && agents_now(
                        *final(self),
                        c,
                        c.sub_agents@.update(i, patched(c.sub_agents@[i], patch)),
                    )
                },
            },
            r is Err ==> *final(self) == *old(self),
    {
        let mut c = match self.config.take() {
            None => {
                return Err(no_config());
            },
            Some(c) => c,
        };
        if !self.supports_sub_agents {
            let e = unsupported("mutate", "sub-agent", self.agent.as_str());
            self.config = Some(c);
            return Err(e);
        }
        match &patch.name {
            Some(n) => {
                if !str_eq(n.as_str(), name) && find_agent(&c.sub_agents, n.as_str()).is_some() {
                    let e = exists_error("sub_agent", n.as_str());
                    self.config = Some(c);
                    return Err(e);
                }
            },
            None => {},
        }
        match find_agent(&c.sub_agents, name) {
            None => {
                let e = not_found("sub_agent", name);
                self.config = Some(c);
                Err(e)
            },
            Some(i) => {
                let ghost before = c.sub_agents@;
                let mut a = c.sub_agents.remove(i);
                patch.apply_to(&mut a);
                c.sub_agents.insert(i, a);
                assert(c.sub_agents@ =~= before.update(i as int, patched(before[i as int], patch)));
                self.config = Some(c);
                Ok(())
            },
        }
    }

    /// Plan, and unless a dry run carry out, the removal of a sub-agent. The
    /// plan lists its backing file when it has one; it is never destructive
    /// of shared data, so it executes exactly when it is no dry run. A dry run
    /// needs a loaded config only; a real one also needs the agent to keep
    /// sub-agents in its write scope.
    pub fn remove_sub_agent_planned(&mut self, name: &str, dry_run: bool, confirm: bool) -> (r: Result<
        RemovalOutcome,
        ConfigError,
    >)
        ensures
            match old(self).config {
                None => (r matches Err(e) && is_no_config(e)),
                Some(c) => if !dry_run && !old(self).supports_sub_agents {
                    r matches Err(e) && is_unsupported(e, "mutate"@, "sub-agent"@, old(self).agent@)
                } else if !agent_names(c.sub_agents@).contains(name@) {
                    r matches Err(e) && is_not_found(e, "sub_agent"@, name@)
                } else {
                    let i = key_pos(agent_names(c.sub_agents@), name@);
                    r matches Ok(o) && flat_outcome(o, !dry_run) && crate::removal::vs(o.plan.paths@)
                        == match c.sub_agents@[i].source_path {
                        Some(p) => seq![p@],
                        None => Seq::<Seq<char>>::empty(),
                    } && (dry_run ==> *final(self) == *old(self)) && (!dry_run ==> agents_now(
                        *final(self),
                        c,
                        c.sub_agents@.remove(i),
                    ))
                },
            },
            r is Err ==> *final(self) == *old(self),
    {
        let mut c = match self.config.take() {
            None => {
                return Err(no_config());
            },
            Some(c) => c,
        };
        if !dry_run && !self.supports_sub_agents {
            let e = unsupported("mutate", "sub-agent", self.agent.as_str());
            self.config = Some(c);
            return Err(e);
        }
        let index = match find_agent(&c.sub_agents, name) {
            None => {
                let e = not_found("sub_agent", name);
                self.config = Some(c);
                return Err(e);
            },
            Some(i) => i,
        };
        let mut paths: Vec<String> = Vec::new();
        match &c.sub_agents[index].source_path {
            Some(p) => paths.push(p.clone()),
            None => {},
        }
        assert(crate::removal::vs(paths@) =~= match c.sub_agents@[index as int].source_path {
            Some(p) => seq![p@],
            None => Seq::<Seq<char>>::empty(),
        });
        let plan = flat_plan(paths);
        let executed = !dry_run && (!plan.needs_confirm || confirm);
        if executed {
            let _ = c.sub_agents.remove(index);
        }
        self.config = Some(c);
        Ok(outcome(plan, executed))
    }

    /// Remove a sub-agent outright.
    pub fn remove_sub_agent(&mut self, name: &str) -> (r: Result<(), ConfigError>)
        ensures
            match old(self).config {
                None => (r matches Err(e) && is_no_config(e)),
                Some(c) => if !old(self).supports_sub_agents {
                    r matches Err(e) && is_unsupported(e, "mutate"@, "sub-agent"@, old(self).agent@)
                } else if !agent_names(c.sub_agents@).contains(name@) {
                    r matches Err(e) && is_not_found(e, "sub_agent"@, name@)
                } else {
                    r is Ok && agents_now(
                        *final(self),
                        c,
                        c.sub_agents@.remove(key_pos(agent_names(c.sub_agents@), name@)),
                    )
                },
            },
            r is Err ==> *final(self) == *old(self),
    {
        match self.remove_sub_agent_planned(name, false, true) {
            Ok(_) => Ok(()),
            Err(e) => Err(e),
        }
    }
}

/// The manager's config holds `agents` as its sub-agents, its other
/// resources as in `c`.
pub open spec fn agents_now(m: ConfigManager, c: AgentConfig, agents: Seq<SubAgent>) -> bool {
    m.config matches Some(d) && d.sub_agents@ == agents && d.mcps == c.mcps && d.skills == c.skills
}

/// Adding a server whose name is free and then looking its name up finds it,
/// at the end of the list; removing that name again gives back the list as
/// it was before the add.
pub proof fn lemma_add_then_remove_mcp(before: Seq<McpServer>, m: McpServer)
    requires
        !mcp_names(before).contains(m.name@),
    ensures
        mcp_names(before.push(m)).contains(m.name@),
        key_pos(mcp_names(before.push(m)), m.name@) == before.len(),
        before.push(m)[before.len() as int] == m,
        before.push(m).remove(key_pos(mcp_names(before.push(m)), m.name@)) == before,
{
    let after = before.push(m);
    assert forall|j: int| 0 <= j < before.len() implies #[trigger] mcp_names(after)[j] != m.name@ by {
        assert(mcp_names(after)[j] == mcp_names(before)[j]);
    }
    assert(mcp_names(after)[before.len() as int] == m.name@);
    lemma_key_pos(mcp_names(after), m.name@, before.len() as int);
    assert(after.remove(before.len() as int) =~= before);
}

/// Disabling a server and enabling it again leaves it enabled with every
/// other field as it was.
pub proof fn lemma_disable_then_enable(s: Seq<McpServer>, i: int)
    requires
        0 <= i < s.len(),
    ensures
        s.update(i, McpServer { enabled: false, ..s[i] }).update(
            i,
            McpServer { enabled: true, ..s.update(i, McpServer { enabled: false, ..s[i] })[i] },
        ) == s.update(i, McpServer { enabled: true, ..s[i] }),
{
    assert(s.update(i, McpServer { enabled: false, ..s[i] }).update(
        i,
        McpServer { enabled: true, ..s.update(i, McpServer { enabled: false, ..s[i] })[i] },
    ) =~= s.update(i, McpServer { enabled: true, ..s[i] }));
}

/// What a planned skill removal comes to once its effect on the agent's
/// reads is known.
#[derive(Debug)]
pub enum SkillRemovalVerdict {
    /// Refuse the executing call with this error.
    Refuse(ConfigError),
    /// Report a preview of `plan`; `blocks` says whether the commit would be
    /// refused (and so whether no lock prune may be promised).
    Preview { plan: RemovalPlan, blocks: bool, still_read_from: Vec<String> },
    /// Carry out `plan`.
    Commit { plan: RemovalPlan, still_read_from: Vec<String> },
}

/// Every survivor (resolved) is among the skipped paths (resolved).
pub open spec fn all_reported(survivors: Seq<Seq<char>>, skipped: Seq<Seq<char>>) -> bool {
    forall|i: int| 0 <= i < survivors.len() ==> skipped.contains(#[trigger] survivors[i])
}

/// `acc` followed by each of `more` not already present.
pub open spec fn union_into(acc: Seq<Seq<char>>, more: Seq<Seq<char>>) -> Seq<Seq<char>>
    decreases more.len(),
{
    if more.len() == 0 {
        acc
    } else {
        let p = union_into(acc, more.drop_last());
        if p.contains(more.last()) {
            p
        } else {
            p.push(more.last())
        }
    }
}

/// `parts` joined with `", "`.
pub open spec fn comma_joined(parts: Seq<Seq<char>>) -> Seq<char>
    decreases parts.len(),
{
    if parts.len() == 0 {
        Seq::empty()
    } else if parts.len() == 1 {
        parts[0]
    } else {
        comma_joined(parts.drop_last()) + ", "@ + parts.last()
    }
}

/// Whether the removal would be refused: an all-agents removal that leaves
/// any survivor (or could not read every dir), or a single-agent removal
/// that leaves this agent reading the skill without having taken anything
/// away, unless the planner spared everything and said so.
pub open spec fn removal_blocks(
    all_agents: bool,
    survivors: Seq<Seq<char>>,
    changed: bool,
    incomplete: bool,
    spared: bool,
) -> bool {
    if all_agents {
        survivors.len() > 0 || incomplete
    } else {
        survivors.len() > 0 && !changed && !spared
    }
}

pub open spec fn spared_everything(
    kept_before: bool,
    survivors_resolved: Seq<Seq<char>>,
    skipped_resolved: Seq<Seq<char>>,
    paths_empty: bool,
    survivors_nonempty: bool,
) -> bool {
    !kept_before && all_reported(survivors_resolved, skipped_resolved) && paths_empty && survivors_nonempty
}

pub open spec fn refusal_reason(all_agents: bool, where_: Seq<char>) -> Seq<char> {
    if all_agents {
        "skill still discoverable afterwards in: "@ + where_
    } else if where_.len() == 0 {
        "skill it reads from the shared master"@
    } else {
        "skill it reads from the shared master; it is still served to this agent from: "@ + where_
    }
}

pub open spec fn refusal_operation(all_agents: bool) -> Seq<char> {
    if all_agents {
        "remove from every agent"@
    } else {
        "remove for this agent alone"@
    }
}

pub(crate) fn join_comma(parts: &Vec<String>) -> (r: String)
    ensures
        r@ == comma_joined(vs(parts@)),
{
    let mut acc: String = owned("");
    proof {
        reveal_strlit("");
    }
    let mut i: usize = 0;
    while i < parts.len()
        invariant
            i <= parts.len(),
            acc@ == comma_joined(vs(parts@).take(i as int)),
        decreases parts.len() - i,
    {
        assert(vs(parts@).take(i + 1).drop_last() =~= vs(parts@).take(i as int));
        if i == 0 {
            acc = parts[0].clone();
            assert(vs(parts@).take(1) =~= seq![parts@[0]@]);
        } else {
            acc = quoted_message(acc.as_str(), ", ", parts[i].as_str());
        }
        i = i + 1;
    }
    assert(vs(parts@).take(parts.len() as int) =~= vs(parts@));
    acc
}

fn union_strings(acc: &mut Vec<String>, more: &Vec<String>)
    ensures
        vs(final(acc)@) == union_into(vs(old(acc)@), vs(more@)),
{
    let ghost a0 = vs(acc@);
    let mut i: usize = 0;
    while i < more.len()
        invariant
            i <= more.len(),
            a0 == vs(old(acc)@),
            vs(acc@) == union_into(a0, vs(more@).take(i as int)),
        decreases more.len() - i,
    {
        assert(vs(more@).take(i + 1).drop_last() =~= vs(more@).take(i as int));
        if !contains_str(acc, more[i].as_str()) {
            let ghost before = vs(acc@);
            acc.push(more[i].clone());
            assert(vs(acc@) =~= before.push(more@[i as int]@));
        }
        i = i + 1;
    }
    assert(vs(more@).take(more.len() as int) =~= vs(more@));
}

fn every_reported(survivors: &Vec<String>, skipped: &Vec<String>) -> (r: bool)
    ensures
        r == all_reported(vs(survivors@), vs(skipped@)),
{
    let mut i: usize = 0;
    while i < survivors.len()
        invariant
            i <= survivors.len(),
            forall|j: int| 0 <= j < i ==> vs(skipped@).contains(#[trigger] vs(survivors@)[j]),
        decreases survivors.len() - i,
    {
        if !contains_str(skipped, survivors[i].as_str()) {
            assert(!vs(skipped@).contains(vs(survivors@)[i as int]));
            return false;
        }
        i = i + 1;
    }
    true
}

/// Decide a planned skill removal from its plan and its effect on the
/// agent's reads (`survivors_resolved` and `skipped_resolved` are the
/// resolved forms of `effect.survivors` and `plan.skipped`, `incomplete`
/// whether some read dir could not be listed). The plan is marked kept when
/// the removal is blocked; a removal that changed the agent's reads reports
/// its survivors among the skipped paths; a blocked one names every place
/// the skill is still read from. An executing call that is blocked is
/// refused; one that spared everything is only previewed; a dry run (or an
/// unconfirmed destructive plan) is previewed; anything else is committed.
pub fn skill_removal_verdict(
    plan: RemovalPlan,
    effect: &ReadEffect,
    survivors_resolved: &Vec<String>,
    skipped_resolved: &Vec<String>,
    incomplete: bool,
    all_agents: bool,
    dry_run: bool,
    confirm: bool,
    agent: &str,
) -> (r: SkillRemovalVerdict)
    ensures
        ({
            let executed = !dry_run && (!plan.needs_confirm || confirm);
            let spared = spared_everything(
                plan.shared_master_kept,
                vs(survivors_resolved@),
                vs(skipped_resolved@),
                plan.paths@.len() == 0,
                effect.survivors@.len() > 0,
            );
            let blocks = removal_blocks(
                all_agents,
                vs(effect.survivors@),
                effect.changed,
                incomplete,
                spared,
            );
            let kept = plan.shared_master_kept || blocks;
            let skipped = if effect.changed {
                union_into(vs(plan.skipped@), vs(effect.survivors@))
            } else {
                vs(plan.skipped@)
            };
            let still = if blocks {
                union_into(union_into(Seq::empty(), vs(effect.survivors@)), skipped)
            } else {
                Seq::empty()
            };
            if executed && blocks {
                r matches SkillRemovalVerdict::Refuse(e) && is_unsupported(
                    e,
                    refusal_operation(all_agents),
                    refusal_reason(all_agents, comma_joined(still)),
                    agent@,
                )
            } else {
                let preview_kept = spared || (all_agents && kept && plan.paths@.len() == 0);
                match r {
                    SkillRemovalVerdict::Preview { plan: p, blocks: b, still_read_from: s } => (preview_kept || !executed)
                        && b == (preview_kept || blocks) && p.shared_master_kept == (kept || preview_kept)
                        && vs(p.skipped@) == skipped && p.paths == plan.paths && p.layout == plan.layout
                        && p.needs_confirm == plan.needs_confirm && vs(s@) == still,
                    SkillRemovalVerdict::Commit { plan: p, still_read_from: s } => !preview_kept && executed
                        && p.shared_master_kept == kept && vs(p.skipped@) == skipped && p.paths == plan.paths
                        && p.layout == plan.layout && p.needs_confirm == plan.needs_confirm && vs(s@) == still,
                    SkillRemovalVerdict::Refuse(_) => false,
                }
            }
        }),
{
    let mut plan = plan;
    let executed = !dry_run && (!plan.needs_confirm || confirm);
    let reported = !plan.shared_master_kept && every_reported(survivors_resolved, skipped_resolved);
    let spared = reported && plan.paths.len() == 0 && effect.survivors.len() > 0;
    let blocks = if all_agents {
        effect.survivors.len() > 0 || incomplete
    } else {
        effect.survivors.len() > 0 && !effect.changed && !spared
    };
    plan.shared_master_kept = plan.shared_master_kept || blocks;
    if effect.changed {
        union_strings(&mut plan.skipped, &effect.survivors);
    }
    let mut still: Vec<String> = Vec::new();
    assert(vs(still@) =~= Seq::<Seq<char>>::empty());
    if blocks {
        union_strings(&mut still, &effect.survivors);
        union_strings(&mut still, &plan.skipped);
    }
    proof {
        if !blocks {
            assert(vs(still@) =~= Seq::<Seq<char>>::empty());
        }
    }
    if executed && blocks {
        let where_ = join_comma(&still);
        if all_agents {
            let reason = quoted_message("skill still discoverable afterwards in: ", where_.as_str(), "");
            proof {
                reveal_strlit("");
                assert(reason@ =~= "skill still discoverable afterwards in: "@ + where_@);
            }
            return SkillRemovalVerdict::Refuse(unsupported("remove from every agent", reason.as_str(), agent));
        } else {
            let reason = if crate::text::chars_of(where_.as_str()).len() == 0 {
                owned("skill it reads from the shared master")
            } else {
                let m = quoted_message(
                    "skill it reads from the shared master; it is still served to this agent from: ",
                    where_.as_str(),
                    "",
                );
                proof {
                    reveal_strlit("");
                    assert(m@ =~= "skill it reads from the shared master; it is still served to this agent from: "@
                        + where_@);
                }
                m
            };
            return SkillRemovalVerdict::Refuse(unsupported("remove for this agent alone", reason.as_str(), agent));
        }
    }
    if spared || (all_agents && plan.shared_master_kept && plan.paths.len() == 0) {
        plan.shared_master_kept = true;
        return SkillRemovalVerdict::Preview { plan, blocks: true, still_read_from: still };
    }
    if !executed {
        return SkillRemovalVerdict::Preview { plan, blocks, still_read_from: still };
    }
    SkillRemovalVerdict::Commit { plan, still_read_from: still }
}

impl SkillAdd {
    /// A re-add of a skill that was already installed: nothing written, and
    /// the skill reported is the one already there.
    pub fn already_installed(skill: Skill) -> (a: Self)
        ensures
            a.skill == skill,
            a.already_installed,
            !a.wrote_master,
            a.created_referrer_dirs@.len() == 0,
    {
        SkillAdd { skill, already_installed: true, wrote_master: false, created_referrer_dirs: Vec::new() }
    }

    /// A real install, carrying the materializer's own receipt.
    pub fn installed(skill: Skill, wrote_master: bool, created_referrer_dirs: Vec<String>) -> (a: Self)
        ensures
            a.skill == skill,
            !a.already_installed,
            a.wrote_master == wrote_master,
            a.created_referrer_dirs == created_referrer_dirs,
    {
        SkillAdd { skill, already_installed: false, wrote_master, created_referrer_dirs }
    }
}

impl ConfigManager {
    /// The single-agent add path's verdict on the materializer's result: an
    /// agent that needs a link must have received it without error (else the
    /// name counts as taken); an agent with no skills dir here is not checked.
    pub fn ensure_single_agent_installed(
        results: &Vec<AgentInstallResult>,
        link_need: &LinkNeed,
        skill_name: &str,
    ) -> (r: Result<(), ConfigError>)
        ensures
            match link_need {
                LinkNeed::Unsupported => r is Ok,
                LinkNeed::NeedsLink { .. } => if results.len() > 0 && results@[0].error is None {
                    r is Ok
                } else {
                    r matches Err(e) && is_exists(e, "skill"@, skill_name@)
                },
            },
    {
        match link_need {
            LinkNeed::Unsupported => Ok(()),
            LinkNeed::NeedsLink { .. } => {
                if results.len() > 0 && results[0].error.is_none() {
                    Ok(())
                } else {
                    Err(exists_error("skill", skill_name))
                }
            },
        }
    }

    /// Re-adding a skill the agent already has: a no-op when the agent's slot
    /// is already a link to this skill's Master, otherwise the name is taken.
    pub fn readd_outcome(existing: &Skill, slot_links_master: bool) -> (r: Result<SkillAdd, ConfigError>)
        ensures
            slot_links_master ==> (r matches Ok(a) && crate::models::same_skill(a.skill, *existing) && a.already_installed && !a.wrote_master
                && a.created_referrer_dirs@.len() == 0),
            !slot_links_master ==> (r matches Err(e) && is_exists(e, "skill"@, existing.name@)),
    {
        if slot_links_master {
            Ok(SkillAdd::already_installed(existing.duplicate()))
        } else {
            Err(exists_error("skill", existing.name.as_str()))
        }
    }
}

/// A `~/`-prefixed path resolved under `home` when it is known; any other
/// path as given.
pub open spec fn resolved_source(sp: Seq<char>, home: Option<Seq<char>>) -> Seq<char> {
    if starts_with(sp, "~/"@) && home is Some {
        join_spec(home->Some_0, sp.skip(2))
    } else {
        sp
    }
}

pub fn resolve_source_path(sp: &str, home: Option<&str>) -> (r: String)
    ensures
        r@ == resolved_source(
            sp@,
            match home {
                Some(h) => Some(h@),
                None => None,
            },
        ),
{
    let v = chars_of(sp);
    let tilde = chars_of("~/");
    proof {
        reveal_strlit("~/");
    }
    if has_prefix(&v, &tilde) {
        match home {
            Some(h) => {
                let rest = string_from(&slice_chars(&v, 2, v.len()));
                assert(v@.subrange(2, v.len() as int) =~= v@.skip(2));
                join(h, rest.as_str())
            },
            None => owned(sp),
        }
    } else {
        owned(sp)
    }
}

pub open spec fn ov(o: Option<&str>) -> Option<Seq<char>> {
    match o {
        Some(x) => Some(x@),
        None => None,
    }
}

pub open spec fn default_skill_file(name: Seq<char>, target_dir: Option<Seq<char>>) -> Option<Seq<char>> {
    match target_dir {
        Some(d) => Some(join_spec(join_spec(d, sanitized(name)), "SKILL.md"@)),
        None => None,
    }
}

fn default_file(name: &str, target_dir: Option<&str>) -> (r: Option<String>)
    ensures
        match (r, default_skill_file(name@, ov(target_dir))) {
            (Some(x), Some(y)) => x@ == y,
            (None, None) => true,
            _ => false,
        },
{
    match target_dir {
        Some(d) => {
            let safe = sanitize_name(name);
            let dir = join(d, safe.as_str());
            Some(join(dir.as_str(), "SKILL.md"))
        },
        None => None,
    }
}

/// The `SKILL.md` an update of `existing` writes: its Master (canonical
/// path) first, else the file it was read from, else the agent's own slot.
pub open spec fn update_file_spec(existing: Skill, name: Seq<char>, target_dir: Option<Seq<char>>, home: Option<Seq<char>>) -> Option<
    Seq<char>,
> {
    match existing.canonical_path {
        Some(cp) => Some(resolved_source(cp@, home)),
        None => match existing.source_path {
            Some(sp) => Some(resolved_source(sp@, home)),
            None => default_skill_file(name, target_dir),
        },
    }
}

/// The `SKILL.md` a single-agent removal of `existing` starts from: the
/// file it was read from, else the agent's own slot.
pub open spec fn removal_file_spec(existing: Skill, name: Seq<char>, target_dir: Option<Seq<char>>, home: Option<Seq<char>>) -> Option<
    Seq<char>,
> {
    match existing.source_path {
        Some(sp) => Some(resolved_source(sp@, home)),
        None => default_skill_file(name, target_dir),
    }
}

pub fn skill_update_file(existing: &Skill, name: &str, target_dir: Option<&str>, home: Option<&str>) -> (r: Option<String>)
    ensures
        match (r, update_file_spec(*existing, name@, ov(target_dir), ov(home))) {
            (Some(x), Some(y)) => x@ == y,
            (None, None) => true,
            _ => false,
        },
{
    match &existing.canonical_path {
        Some(cp) => Some(resolve_source_path(cp.as_str(), home)),
        None => match &existing.source_path {
            Some(sp) => Some(resolve_source_path(sp.as_str(), home)),
            None => default_file(name, target_dir),
        },
    }
}

pub fn skill_removal_file(existing: &Skill, name: &str, target_dir: Option<&str>, home: Option<&str>) -> (r: Option<String>)
    ensures
        match (r, removal_file_spec(*existing, name@, ov(target_dir), ov(home))) {
            (Some(x), Some(y)) => x@ == y,
            (None, None) => true,
            _ => false,
        },
{
    match &existing.source_path {
        Some(sp) => Some(resolve_source_path(sp.as_str(), home)),
        None => default_file(name, target_dir),
    }
}

/// How an update that renames a skill moves its file.
#[derive(Debug, PartialEq, Eq)]
pub enum SkillFileRename {
    /// The file sits in the skill's own folder: rename that folder (the
    /// Master, relinking its Referrers when it has any).
    Master,
    /// A loose `<old>.md` file: rename it to this path.
    File { to: String },
    /// Nothing to rename.
    Keep,
}

pub open spec fn rename_spec(path: Seq<char>, old_name: Seq<char>, new_name: Seq<char>) -> Option<Seq<char>> {
    let safe_old = sanitized(old_name);
    match parent_spec(path) {
        None => None,
        Some(p) => if file_name_spec(p) == Some(safe_old) {
            None
        } else if file_name_spec(path) == Some(safe_old + ".md"@) {
            Some(join_spec(p, sanitized(new_name) + ".md"@))
        } else {
            None
        },
    }
}

/// The rename an update of `old_name` to `new_name` does on `path`: none
/// when the name is unchanged; the skill's folder when `path` sits in a
/// folder named after the old name; a loose `<old>.md` file renamed beside
/// itself; otherwise none.
pub fn skill_file_rename(path: &str, old_name: &str, new_name: &str) -> (r: SkillFileRename)
    ensures
        old_name@ == new_name@ ==> r is Keep,
        old_name@ != new_name@ ==> match parent_spec(path@) {
            None => r is Keep,
            Some(p) => if file_name_spec(p) == Some(sanitized(old_name@)) {
                r is Master
            } else {
                match rename_spec(path@, old_name@, new_name@) {
                    Some(to) => (r matches SkillFileRename::File { to: t } && t@ == to),
                    None => r is Keep,
                }
            },
        },
{
    if crate::text::str_eq(old_name, new_name) {
        return SkillFileRename::Keep;
    }
    let safe_old = sanitize_name(old_name);
    let p = match parent(path) {
        None => {
            return SkillFileRename::Keep;
        },
        Some(p) => p,
    };
    let folder_matches = match file_name(p.as_str()) {
        Some(n) => crate::text::str_eq(n.as_str(), safe_old.as_str()),
        None => false,
    };
    if folder_matches {
        return SkillFileRename::Master;
    }
    let old_file = quoted_message("", safe_old.as_str(), ".md");
    proof {
        reveal_strlit("");
        reveal_strlit(".md");
        assert(old_file@ =~= safe_old@ + ".md"@);
    }
    let file_matches = match file_name(path) {
        Some(n) => crate::text::str_eq(n.as_str(), old_file.as_str()),
        None => false,
    };
    if file_matches {
        let safe_new = sanitize_name(new_name);
        let new_file = quoted_message("", safe_new.as_str(), ".md");
        assert(new_file@ =~= safe_new@ + ".md"@);
        SkillFileRename::File { to: join(p.as_str(), new_file.as_str()) }
    } else {
        SkillFileRename::Keep
    }
}

/// The record an update leaves: the file did not move, so the old paths
/// stay; a renamed Master keeps the link layout (both paths at the new
/// file); a renamed copy is read from its new file and has no Master.
pub fn updated_skill_record(skill: Skill, existing: &Skill, final_path: &str, original_path: &str, relinked_universal: bool) -> (r:
    Skill)
    ensures
        r.name == skill.name,
        r.description == skill.description,
        r.enabled == skill.enabled,
        r.author == skill.author,
        r.version == skill.version,
        r.tools == skill.tools,
        r.content == skill.content,
        final_path@ == original_path@ ==> r.source_path == existing.source_path && r.canonical_path
            == existing.canonical_path,
        final_path@ != original_path@ && relinked_universal ==> (r.source_path matches Some(sp) && sp@
            == final_path@) && (r.canonical_path matches Some(cp) && cp@ == final_path@),
        final_path@ != original_path@ && !relinked_universal ==> (r.source_path matches Some(sp) && sp@
            == final_path@) && r.canonical_path is None,
{
    let mut fs = skill;
    if crate::text::str_eq(final_path, original_path) {
        fs.source_path = clone_opt(&existing.source_path);
        fs.canonical_path = clone_opt(&existing.canonical_path);
    } else if relinked_universal {
        fs.source_path = Some(owned(final_path));
        fs.canonical_path = Some(owned(final_path));
    } else {
        fs.source_path = Some(owned(final_path));
        fs.canonical_path = None;
    }
    fs
}

/// What a single-agent removal deletes for one skill file.
#[derive(Debug, PartialEq, Eq)]
pub enum SkillPathRemoval {
    /// The agent's Referrer link (the Master it points at stays).
    UnlinkReferrer { link: String },
    /// The skill's own folder (after its containment is re-checked).
    RemoveDir { dir: String },
    /// A loose file.
    RemoveFile { path: String },
    /// Nothing: a linked skill with no agent dir to unlink from.
    Nothing,
}

/// A linked skill loses only this agent's link in its write dir; otherwise
/// the folder named after the skill that holds the file goes, or just the
/// file when it is loose.
pub fn skill_path_removal(path: &str, safe_name: &str, is_link: bool, target_dir: Option<&str>) -> (r: SkillPathRemoval)
    ensures
        is_link ==> match target_dir {
            Some(t) => (r matches SkillPathRemoval::UnlinkReferrer { link } && link@ == join_spec(t@, safe_name@)),
            None => r is Nothing,
        },
        !is_link ==> match parent_spec(path@) {
            None => (r matches SkillPathRemoval::RemoveFile { path: p } && p@ == path@),
            Some(d) => if file_name_spec(d) == Some(safe_name@) {
                r matches SkillPathRemoval::RemoveDir { dir } && dir@ == d
            } else {
                r matches SkillPathRemoval::RemoveFile { path: p } && p@ == path@
            },
        },
{
    if is_link {
        return match target_dir {
            Some(t) => SkillPathRemoval::UnlinkReferrer { link: join(t, safe_name) },
            None => SkillPathRemoval::Nothing,
        };
    }
    match parent(path) {
        None => SkillPathRemoval::RemoveFile { path: owned(path) },
        Some(d) => {
            let named = match file_name(d.as_str()) {
                Some(n) => crate::text::str_eq(n.as_str(), safe_name),
                None => false,
            };
            if named {
                SkillPathRemoval::RemoveDir { dir: d }
            } else {
                SkillPathRemoval::RemoveFile { path: owned(path) }
            }
        },
    }
}

/// A skill gone by the time the removal holds the lock: this removal's goal
/// already met when the caller's view held it, a real not-found otherwise.
pub fn absent_skill_removal(was_in_callers_view: bool, name: &str) -> (r: Result<(), ConfigError>)
    ensures
        was_in_callers_view ==> r is Ok,
        !was_in_callers_view ==> (r matches Err(e) && is_not_found(e, "skill"@, name@)),
{
    if was_in_callers_view {
        Ok(())
    } else {
        Err(not_found("skill", name))
    }
}

/// A patch overwrites exactly the fields it carries: a field it sets takes
/// the patch's value, a field it leaves out keeps the sub-agent's, and the
/// backing file never changes.
pub proof fn lemma_patch_overwrites_carried_fields(a: SubAgent, p: SubAgentPatch)
    ensures
        p.name matches Some(n) ==> patched(a, p).name == n,
        p.name is None ==> patched(a, p).name == a.name,
        p.description matches Some(d) ==> patched(a, p).description == Some(d),
        p.description is None ==> patched(a, p).description == a.description,
        p.instruction matches Some(i) ==> patched(a, p).instruction == Some(i),
        p.instruction is None ==> patched(a, p).instruction == a.instruction,
        patched(a, p).source_path == a.source_path,
{
}

/// Updating a sub-agent with a patch that carries a description (or an
/// instruction) leaves that sub-agent holding it, and only it changed.
pub proof fn lemma_update_sets_patched_fields(
    m2: ConfigManager,
    c: AgentConfig,
    name: Seq<char>,
    patch: SubAgentPatch,
)
    requires
        agent_names(c.sub_agents@).contains(name),
        agents_now(
            m2,
            c,
            c.sub_agents@.update(
                key_pos(agent_names(c.sub_agents@), name),
                patched(c.sub_agents@[key_pos(agent_names(c.sub_agents@), name)], patch),
            ),
        ),
    ensures
        ({
            let i = key_pos(agent_names(c.sub_agents@), name);
            let now = m2.config->Some_0.sub_agents@;
            &&& now.len() == c.sub_agents@.len()
            &&& patch.description matches Some(d) ==> now[i].description == Some(d)
            &&& patch.instruction matches Some(x) ==> now[i].instruction == Some(x)
            &&& forall|j: int| 0 <= j < now.len() && j != i ==> now[j] == c.sub_agents@[j]
        }),
{
    lemma_key_pos_bounds(agent_names(c.sub_agents@), name);
}

/// Adding a sub-agent whose name is free keeps every other sub-agent and
/// its resources, and looking its name up afterwards finds it (at the end);
/// removing that name again gives back the list as it was.
pub proof fn lemma_add_sub_agent_then_find(m2: ConfigManager, c: AgentConfig, agent: SubAgent)
    requires
        !agent_names(c.sub_agents@).contains(agent.name@),
        agents_now(m2, c, c.sub_agents@.push(agent)),
    ensures
        m2.config matches Some(d) && d.mcps == c.mcps && d.skills == c.skills && d.sub_agents@.len()
            == c.sub_agents@.len() + 1,
        ({
            let now = m2.config->Some_0.sub_agents@;
            &&& agent_names(now).contains(agent.name@)
            &&& now[key_pos(agent_names(now), agent.name@)] == agent
            &&& forall|j: int| 0 <= j < c.sub_agents@.len() ==> now[j] == c.sub_agents@[j]
            &&& now.remove(key_pos(agent_names(now), agent.name@)) == c.sub_agents@
        }),
{
    let before = c.sub_agents@;
    let after = before.push(agent);
    assert forall|j: int| 0 <= j < before.len() implies #[trigger] agent_names(after)[j] != agent.name@ by {
        assert(agent_names(after)[j] == agent_names(before)[j]);
    }
    assert(agent_names(after)[before.len() as int] == agent.name@);
    lemma_key_pos(agent_names(after), agent.name@, before.len() as int);
    assert(after.remove(before.len() as int) =~= before);
}

/// Removing a sub-agent takes exactly that entry out: the others stay, in
/// order, and the MCP servers and skills are untouched.
pub proof fn lemma_remove_sub_agent_takes_only_it(m2: ConfigManager, c: AgentConfig, name: Seq<char>)
    requires
        agent_names(c.sub_agents@).contains(name),
        agents_now(m2, c, c.sub_agents@.remove(key_pos(agent_names(c.sub_agents@), name))),
    ensures
        ({
            let i = key_pos(agent_names(c.sub_agents@), name);
            let now = m2.config->Some_0.sub_agents@;
            &&& m2.config->Some_0.mcps == c.mcps && m2.config->Some_0.skills == c.skills
            &&& now.len() + 1 == c.sub_agents@.len()
            &&& c.sub_agents@[i].name@ == name
            &&& forall|j: int| 0 <= j < i ==> now[j] == c.sub_agents@[j]
            &&& forall|j: int| i <= j < now.len() ==> now[j] == c.sub_agents@[j + 1]
        }),
{
    lemma_key_pos_bounds(agent_names(c.sub_agents@), name);
}

} // verus!
