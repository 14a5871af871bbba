//! Launching: the plan of a run, the commands and the environment it is
//! started with, and what becomes of it.
pub mod activity;
pub mod command;
pub mod executables;
pub mod laws;
pub mod plan;
pub mod policy;
pub mod process;
pub mod session;
pub mod start;
pub mod tmux;
pub mod transcript;
