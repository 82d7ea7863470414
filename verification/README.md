# project_agents

Project-local specialist AGENTs: a registry of agents kept under `AGENT/`
in a project, the tasks they are handed, the semantic task workspace that
organises those tasks, the maintenance pass that turns worker output into
accepted memory, and the research state that workers share.

`src/` is the library, written in Verus and verified: the public functions
state in contracts what they return or change, and the laws of the library
stand there as proof functions. The modules group as follows.

- Identifiers, paths and documents: `text`, `types`, `agent`, `task`,
  `registry`, `command_tool`.
- The semantic task workspace and its terminal views: `task_workspace`,
  `workbench`, `workbench_menu`, `control`.
- Workers: `worker`, `result_schema`, `worker_turn`, `worker_tools`, `tool_visibility`,
  `task_watch`.
- Maintenance: `maintenance`, `maintenance_pass`, `pending`.
- Research state: `plan`, `research`, `projection`, `research_project`.
- History and mentions in the terminal: `tui`, `checkpoint`, `history`,
  `mention`, `catalog`.

Calls into `uuid`, `textwrap`, `serde_json` (reading an input schema) and
a few string functions of `std` stand behind small trusted wrappers whose
contracts say what those crates document; everything else is proved.

`app/` holds what the library leaves to its host: reading and writing the
store's files, serde and TOML documents, and the clock.

`tests/` exercises the library on concrete values.
