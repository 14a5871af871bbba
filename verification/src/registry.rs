//! The plugins that are there: the revisions of their sources and how they
//! are.
pub mod laws;
pub mod pins;
pub mod status;
