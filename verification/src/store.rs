//! The store: where things are kept, what they are called, and what a project
//! holds.
pub mod entries;
pub mod laws;
pub mod layout;
pub mod missions;
pub mod naming;
pub mod provision;
pub mod records;
pub mod stats;
pub mod usage;
