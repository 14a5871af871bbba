//! The core of a research corpus: projects and their knowledge, the agents
//! that work on them and what they may do, the missions that they are launched
//! on, and the plugins whose environments they work in.
//!
//! The library decides and computes; whoever calls it reads, writes, starts
//! processes and waits, and hands it what came of that.
pub mod agents;
pub mod audit;
pub mod digest;
pub mod environment_session;
pub mod error;
pub mod frontmatter;
pub mod json;
pub mod launch;
pub mod models;
pub mod order;
pub mod path;
pub mod plugin;
pub mod plugin_distribution;
pub mod plugin_install;
pub mod refusals;
pub mod registry;
pub mod srcrev;
pub mod store;
pub mod table;
pub mod templates;
pub mod text;
