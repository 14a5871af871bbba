//! Agents: their documents, roles and permissions, and how they are rendered
//! for a project.
pub mod binding;
pub mod boundary;
pub mod document;
pub mod edits;
pub mod evaluation;
pub mod handles;
pub mod laws;
pub mod manage;
pub mod render;
pub mod roles;
pub mod sidecar;
pub mod subagents;
