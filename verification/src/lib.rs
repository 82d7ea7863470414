//! Verified core of project-local specialist AGENTs: identifiers and
//! definitions, task metadata, the semantic task workspace, maintenance
//! bookkeeping, research state and its task projection.

pub mod text;
pub mod types;
pub mod task_workspace;
pub mod agent;
pub mod task;
pub mod maintenance;
pub mod plan;
pub mod research;
pub mod projection;
pub mod tool_visibility;
pub mod command_tool;
pub mod mention;
pub mod worker;
pub mod registry;
pub mod tui;
pub mod research_project;
pub mod worker_tools;
pub mod checkpoint;
pub mod workbench;
pub mod history;
pub mod catalog;
pub mod workbench_menu;
pub mod task_watch;
pub mod pending;
pub mod control;
pub mod worker_turn;
pub mod result_schema;
pub mod maintenance_pass;
