//! Plugins: their manifests, the protocol that is spoken with them and what
//! their operations come to.
pub mod manifest;
pub mod operation;
pub mod params;
pub mod protocol;
