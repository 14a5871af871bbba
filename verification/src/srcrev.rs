//! Revisions of source repositories, and the trees that are fetched of them.
pub mod fetch;
pub mod laws;
pub mod revs;
