//! The safe-apply pipeline for plans that a generator proposes against a
//! project tree: paths are resolved under one root, plans are sanitized and
//! held to a policy, previews show what would change, file content is merged
//! line by line without losing what is there, and commands run only from an
//! allowlist. The library decides; its caller touches the disk and starts
//! the processes.

pub mod apply;
pub mod cli;
pub mod config;
pub mod context;
pub mod errors;
pub mod exec;
pub mod merge;
pub mod patch;
pub mod plan;
pub mod prompt;
pub mod provider;
pub mod safety;
pub mod session;
pub mod text;
pub mod ux;
pub mod wire;
