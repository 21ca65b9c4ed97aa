//! A personal project launcher: a persisted, ordered list of named project
//! shortcuts, its line-based store format, and the decisions that turn user
//! actions into registry changes and editor or scaffolding launches.

pub mod project;
pub mod store;
pub mod registry;
pub mod launcher;
pub mod session;
