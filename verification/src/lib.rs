use vstd::prelude::*;

pub mod text;
pub mod remote;
pub mod table;
pub mod models;
pub mod lock;
pub mod sanitize;
pub mod paths;
pub mod removal;
pub mod prune;
pub mod classify;
pub mod install;
pub mod rename;
pub mod resync;
pub mod manager;
pub mod discovery;
pub mod repair;
pub mod audit;
pub mod skill_doc;
pub mod repair_run;
pub mod add_skill;
pub mod removal_target;
pub mod update_skill;
pub mod remove_skill;
pub mod sub_agent_removal;
