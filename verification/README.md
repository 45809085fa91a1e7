# aghub_core

The skill, MCP and sub-agent bookkeeping of aghub, one hub for many AI coding
agents, written in Verus. The decisions the library makes are functions with
contracts that Verus proves; what touches the disk, the network or a parser is
left to the caller.

- `src/` is the verified library. Skills are installed once, as a Master in a
  shared store, and linked into each agent's skills directory; the library
  decides what an install, add, update, rename, resync, removal, repair or
  lock prune does, step by step, from what the caller observed on disk. The
  steps that need the file system are state machines (`install_step`,
  `add_skill_step`, `update_skill_step`, `remove_skill_step`, `rename_step`,
  `resync_step`, `remove_sub_agent_step`): the caller performs each action
  and hands back what happened.
- `app/` holds the file-system and serialization edges: the lock files
  (JSON, through `serde_json`; the lock format is read and written here
  because its reader is not part of this crate), directory scans and walks,
  the drivers of the prune, the repair, the planned removal and each state
  machine, and writing a `SKILL.md` (YAML frontmatter). What those flows
  need beyond the file system (fetching sources, parsing, hashing folders,
  per-agent linking, the mutation lock) is not part of this crate: the
  drivers take it from the caller.
- `tests/` runs the library on concrete values.
