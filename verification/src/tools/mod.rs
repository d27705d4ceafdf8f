//! Workspace tools the agent can call: staged edits, file operations, path
//! safety, the shell allow-list and the task list.

pub mod config;
pub mod direct;
pub mod edit;
pub mod error;
pub mod explore;
pub mod file_ops;
pub mod lines;
pub mod metadata;
pub mod path;
pub mod registry;
pub mod replace;
pub mod shell;
pub mod skills;
pub mod tasks;
pub mod tool;
pub mod transaction;
