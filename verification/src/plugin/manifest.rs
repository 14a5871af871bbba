//! What an environment plugin declares of itself.
use vstd::prelude::*;
use crate::error::{Error, ErrorView};
use crate::text;

verus! {

/// The version of a plugin's manifest.
#[derive(Debug, Clone, Copy, PartialEq, Eq, Structural)]
pub enum PluginManifestVersion {
    /// Before manifests carried a version.
    Legacy,
    V1,
}

/// Where a plugin's bundle comes from.
#[derive(Debug, Clone, Copy, PartialEq, Eq, Structural)]
pub enum PluginOrigin {
    /// A directory that was named explicitly.
    Override,
    /// An immutable installation.
    Installed,
}

/// A source repository that a plugin mounts.
#[derive(Debug, PartialEq, Eq)]
pub struct PluginSource {
    pub id: String,
    pub repo: String,
    pub default_rev: String,
    pub default_sha: String,
    /// The mount point inside the sandbox.
    pub mount: String,
}

/// What a plugin declares of itself.
#[derive(Debug, PartialEq, Eq)]
pub struct PluginManifest {
    pub manifest_version: PluginManifestVersion,
    pub name: String,
    pub version: Option<String>,
    pub description: Option<String>,
    /// The protocol that the executable speaks.
    pub protocol: Option<String>,
    /// The executable, below the bundle's directory.
    pub executable: String,
    pub capabilities: Vec<String>,
    pub sources: Vec<PluginSource>,
}

/// A plugin and where its bundle is.
#[derive(Debug, PartialEq, Eq)]
pub struct PluginDir {
    pub dir: String,
    pub origin: PluginOrigin,
    pub manifest: PluginManifest,
}

/// An error of the named plugin.
pub open spec fn plugin_error(plugin: Seq<char>, message: Seq<char>) -> ErrorView {
    ErrorView::Plugin { plugin, message }
}

/// An error of the plugin `plugin`.
pub fn failed(plugin: &str, message: String) -> (r: Error)
    ensures
        r@ == plugin_error(plugin@, message@),
{
    Error::Plugin { plugin: plugin.to_owned(), message }
}

/// A plugin has environment sessions: it speaks the first protocol version
/// and declares the capability.
pub open spec fn has_sessions(manifest: PluginManifest) -> bool {
    manifest.manifest_version == PluginManifestVersion::V1 && text::texts(
        manifest.capabilities@,
    ).contains("sessions"@)
}

impl PluginManifest {
    /// Is it a manifest of the first version?
    pub fn is_v1(&self) -> (r: bool)
        ensures
            r == (self.manifest_version == PluginManifestVersion::V1),
    {
        match self.manifest_version {
            PluginManifestVersion::V1 => true,
            PluginManifestVersion::Legacy => false,
        }
    }

    /// Does the plugin have environment sessions?
    pub fn sessions(&self) -> (r: bool)
        ensures
            r == has_sessions(*self),
    {
        self.is_v1() && text::listed(self.capabilities.as_slice(), "sessions")
    }
}

/// A plugin has sessions just where it speaks the first protocol version and
/// lists the capability, wherever in the list it stands.
pub proof fn law_sessions_are_declared(m: PluginManifest, i: int)
    requires
        0 <= i < m.capabilities@.len(),
    ensures
        m.manifest_version == PluginManifestVersion::V1 && m.capabilities@[i]@ == "sessions"@
            ==> has_sessions(m),
        m.manifest_version == PluginManifestVersion::Legacy ==> !has_sessions(m),
        has_sessions(m) ==> exists|j: int|
            0 <= j < m.capabilities@.len() && (#[trigger] m.capabilities@[j])@ == "sessions"@,
{
    let all = text::texts(m.capabilities@);
    assert(all[i] == m.capabilities@[i]@);
    if has_sessions(m) {
        let j = choose|j: int| 0 <= j < all.len() && all[j] == "sessions"@;
        assert(m.capabilities@[j]@ == "sessions"@);
    }
}

} // verus!
