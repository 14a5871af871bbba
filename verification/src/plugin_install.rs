//! Installing plugin bundles: immutable versions, their receipts, and which
//! one is selected.
use vstd::prelude::*;
use crate::error;
use crate::error::{Error, ErrorView};
use crate::json;
use crate::json::{Json, JsonView};
use crate::path;
use crate::path::Component;
use crate::plugin::manifest;
use crate::plugin::manifest::{PluginDir, PluginManifest, PluginManifestVersion, PluginOrigin};
use crate::plugin::operation;
use crate::plugin::operation::{Decision, DecisionView, OperationStatus};
use crate::plugin::params;
use crate::plugin::protocol;
use crate::text;

verus! {

// ---------------------------------------------------------------------
// Names
// ---------------------------------------------------------------------

/// A character may stand in the name or version of a plugin.
pub open spec fn is_component_char(c: char) -> bool {
    text::is_alnum(c) || c == '.' || c == '_' || c == '+' || c == '-'
}

/// A text is one plain component of a path: no separator, no way up, and none
/// but plain characters.
pub open spec fn is_component(s: Seq<char>) -> bool {
    &&& s.len() > 0
    &&& s != "."@
    &&& s != ".."@
    &&& forall|i: int| 0 <= i < s.len() ==> is_component_char(#[trigger] s[i])
}

/// What checking a name comes to.
pub open spec fn component_check(label: Seq<char>, value: Seq<char>) -> Result<(), ErrorView> {
    if is_component(value) {
        Ok(())
    } else {
        Err(ErrorView::Store("invalid "@ + label + " "@ + text::quoted(value)))
    }
}

/// Are all characters of `s` plain?
fn plain_chars(s: &str) -> (r: bool)
    ensures
        r == (forall|i: int| 0 <= i < s@.len() ==> is_component_char(#[trigger] s@[i])),
{
    let v = text::chars_of(s);
    let mut i: usize = 0;
    while i < v.len()
        invariant
            i <= v@.len(),
            v@ == s@,
            forall|j: int| 0 <= j < i ==> is_component_char(#[trigger] v@[j]),
        decreases v@.len() - i,
    {
        let c = v[i];
        if !(text::alnum(c) || c == '.' || c == '_' || c == '+' || c == '-') {
            assert(!is_component_char(s@[i as int]));
            return false;
        }
        i = i + 1;
    }
    true
}

/// Check that a name can stand as one component of a path.
pub fn validate_component(label: &str, value: &str) -> (r: Result<(), Error>)
    ensures
        error::verdict(r) == component_check(label@, value@),
{
    if value.is_empty() || text::same(value, ".") || text::same(value, "..") || !plain_chars(value) {
        Err(Error::Store(text::cat4("invalid ", label, " ", text::quote(value).as_str())))
    } else {
        Ok(())
    }
}

// ---------------------------------------------------------------------
// Where things are
// ---------------------------------------------------------------------

/// Where a version of a plugin is installed.
pub open spec fn version_path(root: Seq<char>, id: Seq<char>, version: Seq<char>) -> Seq<char> {
    path::joined(path::joined(path::joined(root, id), "versions"@), version)
}

/// Where the receipt of an installed version is.
pub open spec fn receipt_path(root: Seq<char>, id: Seq<char>, version: Seq<char>) -> Seq<char> {
    path::joined(path::joined(path::joined(root, id), "metadata"@), version + ".json"@)
}

/// Where the selected version of a plugin is recorded.
pub open spec fn selection_path(root: Seq<char>, id: Seq<char>) -> Seq<char> {
    path::joined(path::joined(root, id), "selected"@)
}

/// Where the version `version` of the plugin `id` is installed.
pub fn version_dir(root: &str, id: &str, version: &str) -> (r: String)
    ensures
        r@ == version_path(root@, id@, version@),
{
    path::join(path::join(path::join(root, id).as_str(), "versions").as_str(), version)
}

/// Where the receipt of the version `version` of the plugin `id` is.
pub fn receipt_file(root: &str, id: &str, version: &str) -> (r: String)
    ensures
        r@ == receipt_path(root@, id@, version@),
{
    path::join(
        path::join(path::join(root, id).as_str(), "metadata").as_str(),
        text::cat2(version, ".json").as_str(),
    )
}

/// Where the selected version of the plugin `id` is recorded.
pub fn selection_file(root: &str, id: &str) -> (r: String)
    ensures
        r@ == selection_path(root@, id@),
{
    path::join(path::join(root, id).as_str(), "selected")
}

// ---------------------------------------------------------------------
// Records
// ---------------------------------------------------------------------

/// What an installation did.
#[derive(Debug, PartialEq, Eq)]
pub struct InstallReceipt {
    pub id: String,
    pub version: String,
    pub digest: String,
    pub path: String,
    /// The version that was selected before.
    pub previous: Option<String>,
}

/// The record of an installed version.
#[derive(Debug, PartialEq, Eq)]
pub struct InstallRecord {
    pub id: String,
    pub version: String,
    pub digest: String,
    pub installed_at: u64,
}

/// What the record of an installed version holds.
#[verifier::ext_equal]
pub struct InstallView {
    pub id: Seq<char>,
    pub version: Seq<char>,
    pub digest: Seq<char>,
    pub installed_at: u64,
}

impl View for InstallRecord {
    type V = InstallView;

    open spec fn view(&self) -> InstallView {
        InstallView {
            id: self.id@,
            version: self.version@,
            digest: self.digest@,
            installed_at: self.installed_at,
        }
    }
}

/// What the receipt of an installation holds.
#[verifier::ext_equal]
pub struct ReceiptView {
    pub id: Seq<char>,
    pub version: Seq<char>,
    pub digest: Seq<char>,
    pub path: Seq<char>,
    pub previous: Option<Seq<char>>,
}

impl View for InstallReceipt {
    type V = ReceiptView;

    open spec fn view(&self) -> ReceiptView {
        ReceiptView {
            id: self.id@,
            version: self.version@,
            digest: self.digest@,
            path: self.path@,
            previous: text::opt_text(self.previous),
        }
    }
}

// ---------------------------------------------------------------------
// What may be installed
// ---------------------------------------------------------------------

/// What checking a manifest for installation comes to: the version under
/// which it is installed.
pub open spec fn installable(m: PluginManifest) -> Result<Seq<char>, ErrorView> {
    if m.manifest_version != PluginManifestVersion::V1 {
        Err(ErrorView::Store("only manifest_version = 1 bundles can be installed"@))
    } else {
        match component_check("plugin id"@, m.name@) {
            Err(e) => Err(e),
            Ok(_) => match m.version {
                None => Err(ErrorView::Store("installable plugins require a version"@)),
                Some(version) => match component_check("plugin version"@, version@) {
                    Err(e) => Err(e),
                    Ok(_) => Ok(version@),
                },
            },
        }
    }
}

/// Check that a bundle with this manifest can be installed.
pub fn check_installable(m: &PluginManifest) -> (r: Result<String, Error>)
    ensures
        error::outcome(r) == installable(*m),
{
    if !m.is_v1() {
        return Err(
            Error::Store("only manifest_version = 1 bundles can be installed".to_owned()),
        );
    }
    match validate_component("plugin id", m.name.as_str()) {
        Ok(_) => {},
        Err(e) => {
            return Err(e);
        },
    }
    match &m.version {
        None => Err(Error::Store("installable plugins require a version".to_owned())),
        Some(version) => match validate_component("plugin version", version.as_str()) {
            Ok(_) => Ok(version.clone()),
            Err(e) => Err(e),
        },
    }
}

/// What an executable's file is.
#[derive(Debug, Clone, Copy, PartialEq, Eq, Structural)]
pub enum ExecFile {
    /// No regular file.
    NoFile,
    /// A file that may not be run.
    Plain,
    /// A file that may be run.
    Runnable,
}

/// What checking the executable of a bundle comes to.
pub open spec fn exec_check(bundle: Seq<char>, exec_path: Seq<char>, file: ExecFile) -> Result<
    (),
    ErrorView,
> {
    if !path::all_normal(path::parts(exec_path)) {
        Err(
            ErrorView::Store(
                "plugin exec must stay inside its bundle: "@ + text::quoted(exec_path),
            ),
        )
    } else {
        match file {
            ExecFile::NoFile => Err(
                ErrorView::Store(
                    "plugin exec is not a file: "@ + path::joined(bundle, exec_path),
                ),
            ),
            ExecFile::Plain => Err(
                ErrorView::Store(
                    "plugin exec is not executable: "@ + path::joined(bundle, exec_path),
                ),
            ),
            ExecFile::Runnable => Ok(()),
        }
    }
}

/// Are all components of `p` plain names?
pub fn normal_path(p: &str) -> (r: bool)
    ensures
        r == path::all_normal(path::parts(p@)),
{
    let parts = path::components(p);
    let ghost views = path::part_views(parts@);
    let mut i: usize = 0;
    while i < parts.len()
        invariant
            i <= parts@.len(),
            views == path::part_views(parts@),
            views == path::parts(p@),
            forall|j: int| 0 <= j < i ==> (#[trigger] views[j]) is Normal,
        decreases parts@.len() - i,
    {
        assert(views[i as int] == parts@[i as int]@);
        match &parts[i] {
            Component::Normal(_) => {},
            _ => {
                return false;
            },
        }
        i = i + 1;
    }
    true
}

/// Check the executable of a bundle: it stays inside the bundle and may be
/// run.
pub fn validate_exec(bundle: &str, exec_path: &str, file: ExecFile) -> (r: Result<(), Error>)
    ensures
        error::verdict(r) == exec_check(bundle@, exec_path@, file),
{
    if !normal_path(exec_path) {
        return Err(
            Error::Store(
                text::cat2(
                    "plugin exec must stay inside its bundle: ",
                    text::quote(exec_path).as_str(),
                ),
            ),
        );
    }
    match file {
        ExecFile::NoFile => Err(
            Error::Store(
                text::cat2(
                    "plugin exec is not a file: ",
                    path::join(bundle, exec_path).as_str(),
                ),
            ),
        ),
        ExecFile::Plain => Err(
            Error::Store(
                text::cat2(
                    "plugin exec is not executable: ",
                    path::join(bundle, exec_path).as_str(),
                ),
            ),
        ),
        ExecFile::Runnable => Ok(()),
    }
}

/// What an entry of a bundle is.
#[derive(Debug, Clone, Copy, PartialEq, Eq, Structural)]
pub enum BundleEntry {
    Dir,
    File,
    /// A link, or anything else.
    Other,
}

/// What to do with an entry of a bundle.
#[derive(Debug, Clone, Copy, PartialEq, Eq, Structural)]
pub enum BundleStep {
    /// Pass it over.
    Skip,
    /// Go into the directory.
    Enter,
    /// Take the file.
    Take,
}

/// Why a bundle is walked through.
#[derive(Debug, Clone, Copy, PartialEq, Eq, Structural)]
pub enum BundleWalk {
    /// To copy it to where it is installed.
    Copy,
    /// To find its digest.
    Digest,
}

/// What is said of an entry that a walk refuses.
pub open spec fn walk_refusal(walk: BundleWalk) -> Seq<char> {
    match walk {
        BundleWalk::Copy => "plugin bundles may contain only directories and regular files: "@,
        BundleWalk::Digest => "unsupported bundle entry: "@,
    }
}

/// An entry is part of a checkout's own records.
pub open spec fn is_checkout_record(rel: Seq<char>) -> bool {
    path::parts(rel).len() > 0 && path::parts(rel)[0] == path::Part::Normal(".git"@)
}

/// What to do with an entry of a bundle, below its root: a checkout's own
/// records are passed over, and what is neither a directory nor a regular
/// file is refused.
pub open spec fn bundle_step(
    rel: Seq<char>,
    shown: Seq<char>,
    entry: BundleEntry,
    walk: BundleWalk,
) -> Result<BundleStep, ErrorView> {
    if is_checkout_record(rel) {
        Ok(BundleStep::Skip)
    } else {
        match entry {
            BundleEntry::Dir => Ok(BundleStep::Enter),
            BundleEntry::File => Ok(BundleStep::Take),
            BundleEntry::Other => Err(ErrorView::Store(walk_refusal(walk) + shown)),
        }
    }
}

/// What a result of a bundle step holds.
pub open spec fn step_outcome(r: Result<BundleStep, Error>) -> Result<BundleStep, ErrorView> {
    match r {
        Ok(s) => Ok(s),
        Err(e) => Err(e@),
    }
}

/// What to do with the entry at `rel` below a bundle's root. `shown` is where
/// it is.
pub fn admit_entry(rel: &str, shown: &str, entry: BundleEntry, walk: BundleWalk) -> (r: Result<
    BundleStep,
    Error,
>)
    ensures
        step_outcome(r) == bundle_step(rel@, shown@, entry, walk),
{
    let parts = path::components(rel);
    assert(path::part_views(parts@).len() == parts@.len());
    if parts.len() > 0 {
        assert(path::part_views(parts@)[0] == parts@[0]@);
        match &parts[0] {
            Component::Normal(name) => {
                if text::same(name.as_str(), ".git") {
                    return Ok(BundleStep::Skip);
                }
            },
            _ => {},
        }
    }
    match entry {
        BundleEntry::Dir => Ok(BundleStep::Enter),
        BundleEntry::File => Ok(BundleStep::Take),
        BundleEntry::Other => {
            let why = match walk {
                BundleWalk::Copy =>
                    "plugin bundles may contain only directories and regular files: ",
                BundleWalk::Digest => "unsupported bundle entry: ",
            };
            Err(Error::Store(text::cat2(why, shown)))
        },
    }
}

// ---------------------------------------------------------------------
// Installing
// ---------------------------------------------------------------------

/// What installing a bundle does with the place it belongs in.
#[derive(Debug, Clone, Copy, PartialEq, Eq, Structural)]
pub enum InstallStep {
    /// The same bundle is there.
    Keep,
    /// Stage it and move it there.
    Stage,
}

/// What a result of an install step holds.
pub open spec fn install_outcome(r: Result<InstallStep, Error>) -> Result<InstallStep, ErrorView> {
    match r {
        Ok(s) => Ok(s),
        Err(e) => Err(e@),
    }
}

/// What installing a bundle comes to; `installed` is the digest of what is in
/// its place. A version that is installed is never replaced by other bytes.
pub open spec fn install_step(
    id: Seq<char>,
    version: Seq<char>,
    digest: Seq<char>,
    installed: Option<Seq<char>>,
) -> Result<InstallStep, ErrorView> {
    match installed {
        None => Ok(InstallStep::Stage),
        Some(there) => if there == digest {
            Ok(InstallStep::Keep)
        } else {
            Err(
                ErrorView::Store(
                    "plugin "@ + id + " version "@ + version
                        + " is already installed with digest "@ + there
                        + "; immutable versions cannot be overwritten by "@ + digest,
                ),
            )
        },
    }
}

/// Decide what to do with the place that a bundle belongs in.
pub fn plan_install(id: &str, version: &str, digest: &str, installed: Option<&str>) -> (r: Result<
    InstallStep,
    Error,
>)
    ensures
        install_outcome(r) == install_step(id@, version@, digest@, text::opt_str(installed)),
{
    match installed {
        None => Ok(InstallStep::Stage),
        Some(there) => if text::same(there, digest) {
            Ok(InstallStep::Keep)
        } else {
            let start = text::cat4("plugin ", id, " version ", version);
            Err(
                Error::Store(
                    text::cat5(
                        start.as_str(),
                        " is already installed with digest ",
                        there,
                        "; immutable versions cannot be overwritten by ",
                        digest,
                    ),
                ),
            )
        },
    }
}

/// Where a bundle goes, and what is to be done there.
#[derive(Debug, PartialEq, Eq)]
pub struct InstallPlan {
    pub version: String,
    pub place: String,
    pub step: InstallStep,
}

impl View for InstallPlan {
    type V = (Seq<char>, Seq<char>, InstallStep);

    open spec fn view(&self) -> (Seq<char>, Seq<char>, InstallStep) {
        (self.version@, self.place@, self.step)
    }
}

/// What installing a bundle comes to: its manifest and its executable are
/// checked before anything is put in its place.
pub open spec fn install_plan(
    root: Seq<char>,
    bundle: Seq<char>,
    m: PluginManifest,
    file: ExecFile,
    digest: Seq<char>,
    installed: Option<Seq<char>>,
) -> Result<(Seq<char>, Seq<char>, InstallStep), ErrorView> {
    match installable(m) {
        Err(e) => Err(e),
        Ok(version) => match exec_check(bundle, m.executable@, file) {
            Err(e) => Err(e),
            Ok(_) => match install_step(m.name@, version, digest, installed) {
                Err(e) => Err(e),
                Ok(step) => Ok((version, version_path(root, m.name@, version), step)),
            },
        },
    }
}

/// Plan the installation of the bundle at `bundle`, whose digest is `digest`,
/// below `root`; `installed` is the digest of what is in its place already.
pub fn install_plugin_bundle(
    root: &str,
    bundle: &str,
    m: &PluginManifest,
    file: ExecFile,
    digest: &str,
    installed: Option<&str>,
) -> (r: Result<InstallPlan, Error>)
    ensures
        error::outcome(r) == install_plan(
            root@,
            bundle@,
            *m,
            file,
            digest@,
            text::opt_str(installed),
        ),
{
    let version = match check_installable(m) {
        Err(e) => {
            return Err(e);
        },
        Ok(version) => version,
    };
    match validate_exec(bundle, m.executable.as_str(), file) {
        Err(e) => {
            return Err(e);
        },
        Ok(_) => {},
    }
    match plan_install(m.name.as_str(), version.as_str(), digest, installed) {
        Err(e) => Err(e),
        Ok(step) => {
            let place = version_dir(root, m.name.as_str(), version.as_str());
            Ok(InstallPlan { version, place, step })
        },
    }
}

/// What a result of an optional record holds.
pub open spec fn opt_record_outcome(r: Result<Option<InstallRecord>, Error>) -> Result<
    Option<InstallView>,
    ErrorView,
> {
    match r {
        Err(e) => Err(e@),
        Ok(None) => Ok(None),
        Ok(Some(record)) => Ok(Some(record@)),
    }
}

/// What keeping the record of an installed version comes to: the record to
/// write, unless one that agrees is there.
pub open spec fn kept_record(
    existing: Option<Result<InstallRecord, String>>,
    file: Seq<char>,
    id: Seq<char>,
    version: Seq<char>,
    digest: Seq<char>,
    now: u64,
) -> Result<Option<InstallView>, ErrorView> {
    match existing {
        None => Ok(Some(InstallView { id, version, digest, installed_at: now })),
        Some(Err(e)) => Err(ErrorView::Store("invalid install record "@ + file + ": "@ + e@)),
        Some(Ok(record)) => if record.id@ == id && record.version@ == version && record.digest@
            == digest {
            Ok(None)
        } else {
            Err(
                ErrorView::Store(
                    "install record for "@ + id + "@"@ + version
                        + " disagrees with immutable bundle digest"@,
                ),
            )
        },
    }
}

/// The record to write for an installed version, if it has none; `existing`
/// is what the one in the file `file` reads as.
pub fn ensure_install_record(
    existing: Option<Result<InstallRecord, String>>,
    file: &str,
    id: &str,
    version: &str,
    digest: &str,
    now: u64,
) -> (r: Result<Option<InstallRecord>, Error>)
    ensures
        opt_record_outcome(r) == kept_record(existing, file@, id@, version@, digest@, now),
{
    match existing {
        None => Ok(
            Some(
                InstallRecord {
                    id: id.to_owned(),
                    version: version.to_owned(),
                    digest: digest.to_owned(),
                    installed_at: now,
                },
            ),
        ),
        Some(Err(e)) => Err(
            Error::Store(text::cat4("invalid install record ", file, ": ", e.as_str())),
        ),
        Some(Ok(record)) => {
            if text::same(record.id.as_str(), id) && text::same(record.version.as_str(), version)
                && text::same(record.digest.as_str(), digest) {
                Ok(None)
            } else {
                Err(
                    Error::Store(
                        text::cat5(
                            "install record for ",
                            id,
                            "@",
                            version,
                            " disagrees with immutable bundle digest",
                        ),
                    ),
                )
            }
        },
    }
}

/// The receipt of an installation.
pub fn receipt(root: &str, id: &str, version: &str, digest: &str, previous: Option<String>) -> (r:
    InstallReceipt)
    ensures
        r@ == (ReceiptView {
            id: id@,
            version: version@,
            digest: digest@,
            path: version_path(root@, id@, version@),
            previous: text::opt_text(previous),
        }),
{
    InstallReceipt {
        id: id.to_owned(),
        version: version.to_owned(),
        digest: digest.to_owned(),
        path: version_dir(root, id, version),
        previous,
    }
}

/// What reading the record of an installed version comes to.
pub open spec fn read_record(
    root: Seq<char>,
    id: Seq<char>,
    version: Seq<char>,
    read: Result<Result<InstallRecord, String>, String>,
) -> Result<InstallView, ErrorView> {
    match component_check("plugin id"@, id) {
        Err(e) => Err(e),
        Ok(_) => match component_check("plugin version"@, version) {
            Err(e) => Err(e),
            Ok(_) => match read {
                Err(e) => Err(ErrorView::Io(e@)),
                Ok(Err(e)) => Err(
                    ErrorView::Store(
                        "invalid install record "@ + receipt_path(root, id, version) + ": "@ + e@,
                    ),
                ),
                Ok(Ok(record)) => Ok(record@),
            },
        },
    }
}

/// The record of the installed version, given what its file reads as.
pub fn installed_record(
    root: &str,
    id: &str,
    version: &str,
    read: Result<Result<InstallRecord, String>, String>,
) -> (r: Result<InstallRecord, Error>)
    ensures
        error::outcome(r) == read_record(root@, id@, version@, read),
{
    match validate_component("plugin id", id) {
        Ok(_) => {},
        Err(e) => {
            return Err(e);
        },
    }
    match validate_component("plugin version", version) {
        Ok(_) => {},
        Err(e) => {
            return Err(e);
        },
    }
    match read {
        Err(e) => Err(Error::Io(e)),
        Ok(Err(e)) => Err(
            Error::Store(
                text::cat4(
                    "invalid install record ",
                    receipt_file(root, id, version).as_str(),
                    ": ",
                    e.as_str(),
                ),
            ),
        ),
        Ok(Ok(record)) => Ok(record),
    }
}

// ---------------------------------------------------------------------
// Verifying
// ---------------------------------------------------------------------

/// What verifying a bundle comes to: its digest. A development bundle has no
/// record to be held against; an installed one must match its record, unless
/// it was found to before.
pub open spec fn verification(
    plugin: PluginDir,
    recorded: Result<InstallView, ErrorView>,
    cached: Option<Seq<char>>,
    digest: Result<Seq<char>, ErrorView>,
) -> Result<Seq<char>, ErrorView> {
    match plugin.origin {
        PluginOrigin::Override => digest,
        PluginOrigin::Installed => match plugin.manifest.version {
            None => Err(
                ErrorView::Store("installed plugin "@ + plugin.manifest.name@ + " has no version"@),
            ),
            Some(version) => match recorded {
                Err(e) => Err(e),
                Ok(record) => if cached == Some(record.digest) {
                    Ok(record.digest)
                } else {
                    match digest {
                        Err(e) => Err(e),
                        Ok(found) => if found == record.digest {
                            Ok(found)
                        } else {
                            Err(
                                ErrorView::Store(
                                    "installed plugin "@ + plugin.manifest.name@ + "@"@ + version@
                                        + " is damaged: bundle digest "@ + found
                                        + " does not match installation receipt "@ + record.digest,
                                ),
                            )
                        },
                    }
                },
            },
        },
    }
}

/// Verify a bundle before its code is run. `recorded` is the record of the
/// installed version, `cached` the digest that the bundle was last found to
/// have, and `digest` what it has now.
pub fn verify_plugin_installation(
    plugin: &PluginDir,
    recorded: Result<InstallRecord, Error>,
    cached: Option<&str>,
    digest: Result<String, Error>,
) -> (r: Result<String, Error>)
    ensures
        error::outcome(r) == verification(
            *plugin,
            error::outcome(recorded),
            text::opt_str(cached),
            error::outcome(digest),
        ),
{
    match plugin.origin {
        PluginOrigin::Override => {
            return digest;
        },
        PluginOrigin::Installed => {},
    }
    let version = match &plugin.manifest.version {
        None => {
            return Err(
                Error::Store(
                    text::cat3(
                        "installed plugin ",
                        plugin.manifest.name.as_str(),
                        " has no version",
                    ),
                ),
            );
        },
        Some(version) => version,
    };
    let record = match recorded {
        Err(e) => {
            return Err(e);
        },
        Ok(record) => record,
    };
    match cached {
        Some(known) => {
            if text::same(known, record.digest.as_str()) {
                return Ok(record.digest);
            }
        },
        None => {},
    }
    match digest {
        Err(e) => Err(e),
        Ok(found) => if text::same(found.as_str(), record.digest.as_str()) {
            Ok(found)
        } else {
            let start = text::cat5(
                "installed plugin ",
                plugin.manifest.name.as_str(),
                "@",
                version.as_str(),
                " is damaged: bundle digest ",
            );
            Err(
                Error::Store(
                    text::cat4(
                        start.as_str(),
                        found.as_str(),
                        " does not match installation receipt ",
                        record.digest.as_str(),
                    ),
                ),
            )
        },
    }
}

// ---------------------------------------------------------------------
// Selecting
// ---------------------------------------------------------------------

/// What selecting a version comes to: the file to write and its text.
pub open spec fn selection(
    root: Seq<char>,
    id: Seq<char>,
    version: Seq<char>,
    loaded: Result<&PluginManifest, ErrorView>,
) -> Result<(Seq<char>, Seq<char>), ErrorView> {
    match component_check("plugin id"@, id) {
        Err(e) => Err(e),
        Ok(_) => match component_check("plugin version"@, version) {
            Err(e) => Err(e),
            Ok(_) => match loaded {
                Err(e) => Err(e),
                Ok(m) => if m.name@ == id && text::opt_text(m.version) == Some(version) {
                    Ok((selection_path(root, id), version + "\n"@))
                } else {
                    Err(
                        ErrorView::Store(
                            "installed manifest at "@ + version_path(root, id, version)
                                + " does not identify "@ + id + "@"@ + version,
                        ),
                    )
                },
            },
        },
    }
}

/// What a loaded manifest came to.
pub open spec fn manifest_outcome<'a>(r: Result<&'a PluginManifest, Error>) -> Result<
    &'a PluginManifest,
    ErrorView,
> {
    match r {
        Ok(m) => Ok(m),
        Err(e) => Err(e@),
    }
}

/// The file that selects the version `version` of the plugin `id`, whose
/// installed manifest loaded as `loaded`.
pub fn select_plugin_version(
    root: &str,
    id: &str,
    version: &str,
    loaded: Result<&PluginManifest, Error>,
) -> (r: Result<crate::store::missions::FileWrite, Error>)
    ensures
        error::outcome(r) == selection(root@, id@, version@, manifest_outcome(loaded)),
{
    match validate_component("plugin id", id) {
        Ok(_) => {},
        Err(e) => {
            return Err(e);
        },
    }
    match validate_component("plugin version", version) {
        Ok(_) => {},
        Err(e) => {
            return Err(e);
        },
    }
    let m = match loaded {
        Ok(m) => m,
        Err(e) => {
            return Err(e);
        },
    };
    let versioned = match &m.version {
        Some(v) => text::same(v.as_str(), version),
        None => false,
    };
    if text::same(m.name.as_str(), id) && versioned {
        Ok(
            crate::store::missions::FileWrite {
                path: selection_file(root, id),
                text: text::cat2(version, "\n"),
            },
        )
    } else {
        Err(
            Error::Store(
                text::cat6(
                    "installed manifest at ",
                    version_dir(root, id, version).as_str(),
                    " does not identify ",
                    id,
                    "@",
                    version,
                ),
            ),
        )
    }
}

/// What a result of an optional text holds.
pub open spec fn opt_text_outcome(r: Result<Option<String>, Error>) -> Result<
    Option<Seq<char>>,
    ErrorView,
> {
    match r {
        Err(e) => Err(e@),
        Ok(v) => Ok(text::opt_text(v)),
    }
}

/// The selected version of the plugin `id`; `read` is what its file reads as,
/// none where there is none.
pub fn selected_version(id: &str, read: Result<Option<String>, Error>) -> (r: Result<
    Option<String>,
    Error,
>)
    ensures
        opt_text_outcome(r) == (match component_check("plugin id"@, id@) {
            Err(e) => Err(e),
            Ok(_) => match opt_text_outcome(read) {
                Err(e) => Err(e),
                Ok(None) => Ok(None),
                Ok(Some(raw)) => Ok(Some(text::trimmed(raw))),
            },
        }),
{
    match validate_component("plugin id", id) {
        Ok(_) => {},
        Err(e) => {
            return Err(e);
        },
    }
    match read {
        Err(e) => Err(e),
        Ok(None) => Ok(None),
        Ok(Some(raw)) => Ok(Some(text::trim(raw.as_str()))),
    }
}

// ---------------------------------------------------------------------
// The lifecycle
// ---------------------------------------------------------------------

/// The paths that every lifecycle call is given.
pub open spec fn lifecycle_paths(dir: Seq<char>, state: Seq<char>, cache: Seq<char>) -> Map<
    Seq<char>,
    JsonView,
> {
    Map::empty().insert("plugin_dir"@, JsonView::Text(dir)).insert(
        "state_dir"@,
        JsonView::Text(state),
    ).insert("source_cache"@, JsonView::Text(cache))
}

/// The parameters of a lifecycle call: where the plugin's bundle, its state
/// below `runtime` and the source trees are.
pub fn plugin_lifecycle_params(plugin: &PluginDir, runtime: &str, cache: &str) -> (r: Json)
    ensures
        r@ == JsonView::Object(
            lifecycle_paths(
                plugin.dir@,
                path::joined(runtime@, plugin.manifest.name@),
                cache@,
            ),
        ),
{
    let mut out = json::no_fields();
    json::put_text(&mut out, "plugin_dir", plugin.dir.as_str());
    json::put_text(
        &mut out,
        "state_dir",
        path::join(runtime, plugin.manifest.name.as_str()).as_str(),
    );
    json::put_text(&mut out, "source_cache", cache);
    Json::Object(out)
}

/// The key of the operation that sets a plugin up.
pub open spec fn setup_key(m: PluginManifest) -> Seq<char> {
    "setup:"@ + m.name@ + ":"@ + (match m.version {
        Some(v) => v@,
        None => "unknown"@,
    })
}

/// The key of the operation that sets the plugin up.
pub fn setup_operation_key(m: &PluginManifest) -> (r: String)
    ensures
        r@ == setup_key(*m),
{
    match &m.version {
        Some(v) => text::cat4("setup:", m.name.as_str(), ":", v.as_str()),
        None => text::cat4("setup:", m.name.as_str(), ":", "unknown"),
    }
}

/// The parameters of setting a plugin up: the lifecycle's, its sources at
/// their default commits, and the key of the operation.
pub fn setup_params(plugin: &PluginDir, runtime: &str, cache: &str) -> (r: Json)
    ensures
        r@ == JsonView::Object(
            lifecycle_paths(
                plugin.dir@,
                path::joined(runtime@, plugin.manifest.name@),
                cache@,
            ).insert(
                "sources"@,
                JsonView::Array(
                    params::default_sources(
                        plugin.manifest.sources@,
                        cache@,
                        plugin.manifest.sources@.len(),
                    ),
                ),
            ).insert("idempotency_key"@, JsonView::Text(setup_key(plugin.manifest))),
        ),
{
    let mut out = json::no_fields();
    json::put_text(&mut out, "plugin_dir", plugin.dir.as_str());
    json::put_text(
        &mut out,
        "state_dir",
        path::join(runtime, plugin.manifest.name.as_str()).as_str(),
    );
    json::put_text(&mut out, "source_cache", cache);
    json::put(
        &mut out,
        "sources",
        Json::Array(params::default_source_params(&plugin.manifest.sources, cache)),
    );
    json::put_text(
        &mut out,
        "idempotency_key",
        setup_operation_key(&plugin.manifest).as_str(),
    );
    Json::Object(out)
}

/// Check that a plugin has a lifecycle.
pub fn check_has_lifecycle(m: &PluginManifest) -> (r: Result<(), Error>)
    ensures
        error::verdict(r) == (if m.manifest_version == PluginManifestVersion::V1 {
            Ok(())
        } else {
            Err(ErrorView::Store("plugin lifecycle requires manifest v1: "@ + m.name@))
        }),
{
    if m.is_v1() {
        Ok(())
    } else {
        Err(
            Error::Store(
                text::cat2("plugin lifecycle requires manifest v1: ", m.name.as_str()),
            ),
        )
    }
}

/// What to do to set a plugin up: use what was done, or do it.
#[derive(Debug, PartialEq)]
pub enum SetupAction {
    /// It was done: this is what it gave.
    Return(Json),
    /// Do it.
    Call,
    /// It cannot be done.
    Refuse(Error),
}

/// What to do to set a plugin up, as plain values.
pub enum SetupView {
    Return(JsonView),
    Call,
    Refuse(ErrorView),
}

impl View for SetupAction {
    type V = SetupView;

    open spec fn view(&self) -> SetupView {
        match *self {
            SetupAction::Return(v) => SetupView::Return(v@),
            SetupAction::Call => SetupView::Call,
            SetupAction::Refuse(e) => SetupView::Refuse(e@),
        }
    }
}

/// What to do to set a plugin up, given the record of that operation.
pub open spec fn setup_action(m: PluginManifest, status: OperationStatus) -> SetupView {
    let key = setup_key(m);
    match operation::decision(
        m.name@,
        "setup operation "@ + key + " previously failed"@,
        status,
    ) {
        DecisionView::Use(v) => SetupView::Return(v),
        DecisionView::Running => SetupView::Refuse(
            manifest::plugin_error(m.name@, "setup operation "@ + key + " is already running"@),
        ),
        DecisionView::Refuse(e) => SetupView::Refuse(e),
        DecisionView::Perform => SetupView::Call,
    }
}

/// Decide whether to set the plugin up, given the record of that operation: a
/// lost reply does not build the environment twice.
pub fn decide_setup(m: &PluginManifest, status: OperationStatus) -> (r: SetupAction)
    ensures
        r@ == setup_action(*m, status),
{
    let key = setup_operation_key(m);
    let before = text::cat3("setup operation ", key.as_str(), " previously failed");
    match operation::decide(m.name.as_str(), before.as_str(), status) {
        Decision::Use(v) => SetupAction::Return(v),
        Decision::Running => SetupAction::Refuse(
            manifest::failed(
                m.name.as_str(),
                text::cat3("setup operation ", key.as_str(), " is already running"),
            ),
        ),
        Decision::Refuse(e) => SetupAction::Refuse(e),
        Decision::Perform => SetupAction::Call,
    }
}

// ---------------------------------------------------------------------
// The course of a lifecycle call
// ---------------------------------------------------------------------

/// How far a lifecycle call has come.
#[derive(Debug, Clone, Copy, PartialEq, Eq, Structural)]
pub enum CallStage {
    /// The tree of the source of this number is being fetched.
    Fetching(usize),
    /// The plugin is being started and greeted.
    Greeting,
    /// The plugin is being asked what became of its setup.
    Asking,
    /// The call is being made.
    Calling,
    /// It is over.
    Over,
}

/// What came of what was done.
#[derive(Debug, PartialEq)]
pub enum CallEvent {
    Fetched(Result<(), Error>),
    Greeted(Result<(), Error>),
    Status(Result<OperationStatus, Error>),
    Called(Result<Json, Error>),
}

/// What came answers what was done.
pub open spec fn answers(stage: CallStage, event: CallEvent) -> bool {
    match event {
        CallEvent::Fetched(_) => stage is Fetching,
        CallEvent::Greeted(_) => stage == CallStage::Greeting,
        CallEvent::Status(_) => stage == CallStage::Asking,
        CallEvent::Called(_) => stage == CallStage::Calling,
    }
}

/// What is to be done next.
#[derive(Debug, PartialEq)]
pub enum CallStep {
    /// Make sure that the tree of the source of this number is there.
    Fetch(usize),
    /// Start the plugin and greet it.
    Greet,
    /// Ask the plugin what became of its setup, with the parameters.
    Ask,
    /// Make the call, with the parameters.
    Call,
    /// Nothing: this is the result.
    Finish(Result<Json, Error>),
}

/// What is to be done next, as plain values.
pub enum StepView {
    Fetch(usize),
    Greet,
    Ask,
    Call,
    Finish(Result<JsonView, ErrorView>),
}

impl View for CallStep {
    type V = StepView;

    open spec fn view(&self) -> StepView {
        match *self {
            CallStep::Fetch(i) => StepView::Fetch(i),
            CallStep::Greet => StepView::Greet,
            CallStep::Ask => StepView::Ask,
            CallStep::Call => StepView::Call,
            CallStep::Finish(r) => StepView::Finish(error::outcome(r)),
        }
    }
}

/// What is next where the trees of all sources before the `i`-th are there.
pub open spec fn after_sources(m: PluginManifest, i: int) -> (CallStage, StepView) {
    if i < m.sources@.len() {
        (CallStage::Fetching(i as usize), StepView::Fetch(i as usize))
    } else {
        (CallStage::Greeting, StepView::Greet)
    }
}

/// The course of a lifecycle call after something came. Only a setup needs the
/// source trees, and only a setup may have been done before.
pub open spec fn call_next(m: PluginManifest, setup: bool, stage: CallStage, event: CallEvent) -> (
    CallStage,
    StepView,
) {
    match event {
        CallEvent::Fetched(Err(e)) => (CallStage::Over, StepView::Finish(Err(e@))),
        CallEvent::Fetched(Ok(_)) => after_sources(m, stage->Fetching_0 + 1),
        CallEvent::Greeted(Err(e)) => (CallStage::Over, StepView::Finish(Err(e@))),
        CallEvent::Greeted(Ok(_)) => if setup {
            (CallStage::Asking, StepView::Ask)
        } else {
            (CallStage::Calling, StepView::Call)
        },
        CallEvent::Status(Err(e)) => (CallStage::Over, StepView::Finish(Err(e@))),
        CallEvent::Status(Ok(status)) => match setup_action(m, status) {
            SetupView::Return(v) => (CallStage::Over, StepView::Finish(Ok(v))),
            SetupView::Refuse(e) => (CallStage::Over, StepView::Finish(Err(e))),
            SetupView::Call => (CallStage::Calling, StepView::Call),
        },
        CallEvent::Called(r) => (CallStage::Over, StepView::Finish(error::outcome(r))),
    }
}

/// The course of a lifecycle call.
#[derive(Debug, PartialEq)]
pub struct LifecycleCourse {
    /// The call sets the plugin up.
    pub setup: bool,
    /// The parameters of the call.
    pub params: Json,
    pub stage: CallStage,
}

/// What a lifecycle call is given.
pub open spec fn call_params(
    plugin: PluginDir,
    setup: bool,
    runtime: Seq<char>,
    cache: Seq<char>,
) -> JsonView {
    let paths = lifecycle_paths(
        plugin.dir@,
        path::joined(runtime, plugin.manifest.name@),
        cache,
    );
    if setup {
        JsonView::Object(
            paths.insert(
                "sources"@,
                JsonView::Array(
                    params::default_sources(
                        plugin.manifest.sources@,
                        cache,
                        plugin.manifest.sources@.len(),
                    ),
                ),
            ).insert("idempotency_key"@, JsonView::Text(setup_key(plugin.manifest))),
        )
    } else {
        JsonView::Object(paths)
    }
}

/// What a first step of a course holds.
pub open spec fn first_step(r: Result<(LifecycleCourse, CallStep), Error>) -> Result<
    (bool, JsonView, CallStage, StepView),
    ErrorView,
> {
    match r {
        Ok((c, step)) => Ok((c.setup, c.params@, c.stage, step@)),
        Err(e) => Err(e@),
    }
}

/// Begin the lifecycle call `method` of a plugin.
pub fn call_plugin_lifecycle_cancellable(
    plugin: &PluginDir,
    method: &str,
    runtime: &str,
    cache: &str,
) -> (r: Result<(LifecycleCourse, CallStep), Error>)
    ensures
        first_step(r) == (if plugin.manifest.manifest_version != PluginManifestVersion::V1 {
            Err(
                ErrorView::Store(
                    "plugin lifecycle requires manifest v1: "@ + plugin.manifest.name@,
                ),
            )
        } else {
            let setup = method@ == "setup"@;
            let first = if setup {
                after_sources(plugin.manifest, 0)
            } else {
                (CallStage::Greeting, StepView::Greet)
            };
            Ok((setup, call_params(*plugin, setup, runtime@, cache@), first.0, first.1))
        }),
{
    match check_has_lifecycle(&plugin.manifest) {
        Err(e) => {
            return Err(e);
        },
        Ok(_) => {},
    }
    let setup = text::same(method, "setup");
    let params = if setup {
        setup_params(plugin, runtime, cache)
    } else {
        plugin_lifecycle_params(plugin, runtime, cache)
    };
    if setup && plugin.manifest.sources.len() > 0 {
        Ok((LifecycleCourse { setup, params, stage: CallStage::Fetching(0) }, CallStep::Fetch(0)))
    } else {
        Ok((LifecycleCourse { setup, params, stage: CallStage::Greeting }, CallStep::Greet))
    }
}

impl LifecycleCourse {
    /// What is next. `m` is the manifest that the course was begun with.
    pub fn step(&mut self, m: &PluginManifest, event: CallEvent) -> (r: CallStep)
        requires
            answers(old(self).stage, event),
        ensures
            (final(self).stage, r@) == call_next(*m, old(self).setup, old(self).stage, event),
            final(self).setup == old(self).setup,
            final(self).params@ == old(self).params@,
    {
        match event {
            CallEvent::Fetched(Err(e)) => {
                self.stage = CallStage::Over;
                CallStep::Finish(Err(e))
            },
            CallEvent::Fetched(Ok(_)) => {
                let done: usize = match self.stage {
                    CallStage::Fetching(i) => i,
                    _ => 0,
                };
                if done < m.sources.len() && m.sources.len() - done > 1 {
                    self.stage = CallStage::Fetching(done + 1);
                    CallStep::Fetch(done + 1)
                } else {
                    self.stage = CallStage::Greeting;
                    CallStep::Greet
                }
            },
            CallEvent::Greeted(Err(e)) => {
                self.stage = CallStage::Over;
                CallStep::Finish(Err(e))
            },
            CallEvent::Greeted(Ok(_)) => {
                if self.setup {
                    self.stage = CallStage::Asking;
                    CallStep::Ask
                } else {
                    self.stage = CallStage::Calling;
                    CallStep::Call
                }
            },
            CallEvent::Status(Err(e)) => {
                self.stage = CallStage::Over;
                CallStep::Finish(Err(e))
            },
            CallEvent::Status(Ok(status)) => match decide_setup(m, status) {
                SetupAction::Return(v) => {
                    self.stage = CallStage::Over;
                    CallStep::Finish(Ok(v))
                },
                SetupAction::Refuse(e) => {
                    self.stage = CallStage::Over;
                    CallStep::Finish(Err(e))
                },
                SetupAction::Call => {
                    self.stage = CallStage::Calling;
                    CallStep::Call
                },
            },
            CallEvent::Called(r) => {
                self.stage = CallStage::Over;
                CallStep::Finish(r)
            },
        }
    }
}

// ---------------------------------------------------------------------
// Laws
// ---------------------------------------------------------------------

/// What an installed version holds after an installation that was not
/// refused.
pub open spec fn digest_after(step: InstallStep, digest: Seq<char>, installed: Option<Seq<char>>) -> Seq<
    char,
> {
    match step {
        InstallStep::Keep => installed->Some_0,
        InstallStep::Stage => digest,
    }
}

/// Installed versions are immutable: whatever is installed at a version stays
/// that, installing the same bundle again changes nothing, and a bundle with
/// other bytes is refused.
pub proof fn law_installed_versions_are_immutable(
    id: Seq<char>,
    version: Seq<char>,
    digest: Seq<char>,
    there: Seq<char>,
)
    ensures
        install_step(id, version, digest, Some(there)) is Ok <==> digest == there,
        install_step(id, version, digest, Some(there)) matches Ok(step) ==> digest_after(
            step,
            digest,
            Some(there),
        ) == there,
        install_step(id, version, digest, None) == Ok::<InstallStep, ErrorView>(InstallStep::Stage),
{
}

/// A bundle that an installed plugin runs has the digest that was recorded
/// when it was installed, unless it was found to have it before.
pub proof fn law_damaged_bundles_are_not_run(
    plugin: PluginDir,
    recorded: Result<InstallView, ErrorView>,
    cached: Option<Seq<char>>,
    digest: Result<Seq<char>, ErrorView>,
)
    requires
        plugin.origin == PluginOrigin::Installed,
    ensures
        verification(plugin, recorded, cached, digest) matches Ok(found) ==> {
            &&& recorded is Ok
            &&& found == recorded->Ok_0.digest
            &&& digest == Ok::<Seq<char>, ErrorView>(found) || cached == Some(found)
        },
{
}

/// A name that was accepted stays one component of a path: joined to a
/// directory, it names something right inside it.
pub proof fn law_component_stays_in_place(dir: Seq<char>, name: Seq<char>)
    requires
        is_component(name),
    ensures
        path::is_plain_name(name),
        path::parts(path::joined(dir, name)) == path::parts(dir).push(path::Part::Normal(name)),
{
    assert forall|i: int| 0 <= i < name.len() implies name[i] != '/' by {
        assert(is_component_char(name[i]));
    }
    path::lemma_parts_join_name(dir, name);
}

/// An executable that was accepted stays inside its bundle.
pub proof fn law_exec_stays_in_its_bundle(bundle: Seq<char>, exec_path: Seq<char>, file: ExecFile)
    requires
        exec_check(bundle, exec_path, file) is Ok,
    ensures
        path::is_within(path::joined(bundle, exec_path), bundle),
{
    path::lemma_joined_within(bundle, exec_path);
}

/// A plugin is started for its setup only once the trees of all its sources are
/// there, and a setup is made only after asking what became of it.
pub proof fn law_setup_has_its_sources(
    m: PluginManifest,
    setup: bool,
    stage: CallStage,
    event: CallEvent,
)
    requires
        answers(stage, event),
    ensures
        call_next(m, setup, stage, event).1 is Greet ==> stage is Fetching && event is Fetched
            && event->Fetched_0 is Ok && stage->Fetching_0 + 1 >= m.sources@.len(),
        setup && call_next(m, setup, stage, event).1 is Call ==> stage == CallStage::Asking,
        call_next(m, setup, stage, event).1 is Finish <==> call_next(m, setup, stage, event).0
            == CallStage::Over,
{
}

/// A setup is done once: one that was done is not done again, and what it
/// gave is handed out; one that is being done, or that failed for good, is
/// refused. Only one that nothing is known of, or that may be tried again, is
/// done.
pub proof fn law_setup_is_done_once(m: PluginManifest, status: OperationStatus)
    ensures
        ({
            let step = call_next(
                m,
                true,
                CallStage::Asking,
                CallEvent::Status(Ok(status)),
            ).1;
            &&& status.state == operation::OperationState::Succeeded ==> step == StepView::Finish(
                Ok(protocol::result_value(status.result)),
            )
            &&& status.state == operation::OperationState::Running ==> step is Finish
                && step->Finish_0 is Err
            &&& status.state == operation::OperationState::Failed && !operation::is_retryable(
                status.error,
            ) ==> step is Finish && step->Finish_0 is Err
            &&& step is Call <==> status.state == operation::OperationState::Unknown || (
            status.state == operation::OperationState::Failed && operation::is_retryable(
                status.error,
            ))
        }),
{
}

/// A version lies below its plugin, under its own number: no two versions of a
/// plugin, and no two plugins, share a place.
pub proof fn law_versions_have_their_own_place(
    root: Seq<char>,
    id: Seq<char>,
    a: Seq<char>,
    b: Seq<char>,
)
    requires
        is_component(id),
        is_component(a),
        is_component(b),
    ensures
        path::file_name_of(version_path(root, id, a)) == Some(a),
        path::is_within(version_path(root, id, a), path::joined(root, id)),
        path::is_within(selection_path(root, id), path::joined(root, id)),
        path::file_name_of(selection_path(root, id)) == Some("selected"@),
        a != b ==> version_path(root, id, a) != version_path(root, id, b),
        (a + ".json"@).is_suffix_of(receipt_path(root, id, a)),
        path::joined(root, id).is_prefix_of(receipt_path(root, id, a)),
{
    reveal_strlit("versions");
    reveal_strlit("selected");
    reveal_strlit("metadata");
    reveal_strlit(".");
    reveal_strlit("..");
    assert(path::is_plain_name("versions"@)) by {
        assert("versions"@.len() == 8);
    }
    assert(path::is_plain_name("selected"@)) by {
        assert("selected"@.len() == 8);
    }
    let base = path::joined(root, id);
    let dir = path::joined(base, "versions"@);
    law_component_stays_in_place(dir, a);
    law_component_stays_in_place(dir, b);
    path::law_joined_names_lie_in_their_directory(dir, a);
    path::law_joined_names_lie_in_their_directory(dir, b);
    path::lemma_parts_join_name(base, "versions"@);
    path::law_joined_names_lie_in_their_directory(base, "selected"@);
    let whole = path::parts(version_path(root, id, a));
    assert(path::parts(base) =~= whole.subrange(0, path::parts(base).len() as int));
    let file = a + ".json"@;
    let receipt = receipt_path(root, id, a);
    assert(file =~= receipt.subrange(receipt.len() - file.len(), receipt.len() as int));
    assert("metadata"@[0] == 'm');
    let meta = path::joined(base, "metadata"@);
    assert(is_component_char(a[0]));
    assert(file[0] == a[0]);
    assert(meta =~= receipt.subrange(0, meta.len() as int));
    assert(base =~= meta.subrange(0, base.len() as int));
    assert(base =~= receipt.subrange(0, base.len() as int)) by {
        assert forall|i: int| 0 <= i < base.len() implies base[i] == receipt[i] by {
            assert(meta.subrange(0, base.len() as int)[i] == meta[i]);
            assert(receipt.subrange(0, meta.len() as int)[i] == receipt[i]);
        }
    }
}

/// A name is one component where it is made of letters, digits and the four
/// signs, and is no way up.
pub proof fn law_component_characters(s: Seq<char>, label: Seq<char>, i: int)
    ensures
        component_check(label, s) is Ok <==> is_component(s),
        is_component(s) && 0 <= i < s.len() ==> text::is_alnum(s[i]) || s[i] == '.' || s[i] == '_'
            || s[i] == '+' || s[i] == '-',
        is_component(s) ==> s.len() > 0 && s != "."@ && s != ".."@,
{
    if is_component(s) && 0 <= i < s.len() {
        assert(is_component_char(s[i]));
    }
}

/// A bundle is installed under the version that its manifest states: where it
/// states one that can be a name, with a plugin name that can, in the present
/// form.
pub proof fn law_bundles_are_installed_under_their_version(m: PluginManifest)
    ensures
        installable(m) is Ok <==> m.manifest_version == PluginManifestVersion::V1 && is_component(
            m.name@,
        ) && m.version is Some && is_component(m.version->Some_0@),
        installable(m) matches Ok(v) ==> m.version is Some && v == m.version->Some_0@,
{
}

/// An executable is accepted where it is a plain path to a file that may be
/// run.
pub proof fn law_executables_may_be_run(bundle: Seq<char>, exec_path: Seq<char>, file: ExecFile)
    ensures
        exec_check(bundle, exec_path, file) is Ok <==> path::all_normal(path::parts(exec_path))
            && file == ExecFile::Runnable,
{
}

/// A walk takes every file and enters every directory of a bundle but a
/// checkout's own records, and refuses what is neither.
pub proof fn law_walks_take_every_file(
    rel: Seq<char>,
    shown: Seq<char>,
    entry: BundleEntry,
    walk: BundleWalk,
)
    ensures
        !is_checkout_record(rel) && entry == BundleEntry::File ==> bundle_step(
            rel,
            shown,
            entry,
            walk,
        ) == Ok::<BundleStep, ErrorView>(BundleStep::Take),
        !is_checkout_record(rel) && entry == BundleEntry::Dir ==> bundle_step(
            rel,
            shown,
            entry,
            walk,
        ) == Ok::<BundleStep, ErrorView>(BundleStep::Enter),
        !is_checkout_record(rel) && entry == BundleEntry::Other ==> bundle_step(
            rel,
            shown,
            entry,
            walk,
        ) is Err,
        bundle_step(rel, shown, entry, walk) == Ok::<BundleStep, ErrorView>(BundleStep::Skip)
            ==> path::parts(rel).len() > 0 && path::parts(rel)[0] == path::Part::Normal(".git"@),
        bundle_step(rel, shown, entry, BundleWalk::Copy) is Ok <==> bundle_step(
            rel,
            shown,
            entry,
            BundleWalk::Digest,
        ) is Ok,
{
}

/// An installation goes to the place of its version, and is planned just where
/// the manifest, the executable and the place allow it.
pub proof fn law_installations_go_to_their_place(
    root: Seq<char>,
    bundle: Seq<char>,
    m: PluginManifest,
    file: ExecFile,
    digest: Seq<char>,
    installed: Option<Seq<char>>,
)
    ensures
        install_plan(root, bundle, m, file, digest, installed) is Ok <==> installable(m) is Ok
            && exec_check(bundle, m.executable@, file) is Ok && (installed is None || installed
            == Some(digest)),
        install_plan(root, bundle, m, file, digest, installed) matches Ok(plan) ==> {
            &&& Some(plan.0) == text::opt_text(m.version)
            &&& plan.1 == version_path(root, m.name@, plan.0)
            &&& plan.2 == InstallStep::Stage <==> installed is None
        },
{
}

/// The record of an installation states what was installed, and when; one that
/// is there already is kept where it agrees, and nothing is written where it
/// does not.
pub proof fn law_records_state_what_was_installed(
    record: InstallRecord,
    file: Seq<char>,
    id: Seq<char>,
    version: Seq<char>,
    digest: Seq<char>,
    now: u64,
    why: String,
)
    ensures
        kept_record(None, file, id, version, digest, now) matches Ok(Some(r)) && r.id == id
            && r.version == version && r.digest == digest && r.installed_at == now,
        kept_record(Some(Ok(record)), file, id, version, digest, now) is Ok <==> record.id@ == id
            && record.version@ == version && record.digest@ == digest,
        kept_record(Some(Ok(record)), file, id, version, digest, now) matches Ok(r) ==> r is None,
        kept_record(Some(Err(why)), file, id, version, digest, now) is Err,
{
}

/// A record is read back as it was written, under names that can be.
pub proof fn law_records_are_read_as_they_are(
    root: Seq<char>,
    id: Seq<char>,
    version: Seq<char>,
    record: InstallRecord,
    why: String,
)
    ensures
        is_component(id) && is_component(version) ==> read_record(
            root,
            id,
            version,
            Ok(Ok(record)),
        ) == Ok::<InstallView, ErrorView>(record@),
        !is_component(id) || !is_component(version) ==> read_record(
            root,
            id,
            version,
            Ok(Ok(record)),
        ) is Err,
        read_record(root, id, version, Ok(Err(why))) is Err,
        read_record(root, id, version, Err(why)) is Err,
{
}

/// An installed bundle that has its recorded digest is run, one that has
/// another is not; a development bundle is run as it is.
pub proof fn law_sound_bundles_are_run(
    plugin: PluginDir,
    record: InstallView,
    cached: Option<Seq<char>>,
    found: Seq<char>,
    e: ErrorView,
)
    ensures
        plugin.origin == PluginOrigin::Override ==> verification(
            plugin,
            Ok(record),
            cached,
            Ok(found),
        ) == Ok::<Seq<char>, ErrorView>(found),
        plugin.origin == PluginOrigin::Installed && plugin.manifest.version is Some && found
            == record.digest ==> verification(plugin, Ok(record), cached, Ok(found)) == Ok::<
            Seq<char>,
            ErrorView,
        >(found),
        plugin.origin == PluginOrigin::Installed && found != record.digest && cached != Some(
            record.digest,
        ) ==> verification(plugin, Ok(record), cached, Ok(found)) is Err,
        plugin.origin == PluginOrigin::Installed ==> verification(
            plugin,
            Err(e),
            cached,
            Ok(found),
        ) is Err,
{
}

/// Selecting a version records just that version, where the installed plugin
/// is the one that is meant, and what is recorded is read back.
pub proof fn law_selected_versions_are_recorded(
    root: Seq<char>,
    id: Seq<char>,
    version: Seq<char>,
    m: &PluginManifest,
    e: ErrorView,
)
    ensures
        selection(root, id, version, Ok(m)) is Ok <==> is_component(id) && is_component(version)
            && m.name@ == id && text::opt_text(m.version) == Some(version),
        selection(root, id, version, Ok(m)) matches Ok(w) ==> w.0 == selection_path(root, id)
            && text::trimmed(w.1) == version,
        selection(root, id, version, Err(e)) is Err,
{
    if is_component(version) {
        reveal_strlit("\n");
        let w = version + "\n"@;
        assert(is_component_char(version[0]));
        assert(is_component_char(version[version.len() - 1]));
        assert(w[0] == version[0]);
        assert(!text::is_white(w[0]));
        assert(text::trimmed_start(w) == w);
        assert(w.last() == '\n');
        assert(text::is_white('\n'));
        assert(w.drop_last() =~= version);
        assert(!text::is_white(version.last()));
        assert(text::trimmed_end(version) == version);
        assert(text::trimmed_end(w) == version);
    }
}

/// The parameters' names are all different.
proof fn lemma_path_names()
    ensures
        "plugin_dir"@ != "state_dir"@,
        "plugin_dir"@ != "source_cache"@,
        "state_dir"@ != "source_cache"@,
        "sources"@ != "plugin_dir"@,
        "sources"@ != "state_dir"@,
        "sources"@ != "source_cache"@,
        "idempotency_key"@ != "plugin_dir"@,
        "idempotency_key"@ != "state_dir"@,
        "idempotency_key"@ != "source_cache"@,
        "idempotency_key"@ != "sources"@,
{
    reveal_strlit("plugin_dir");
    reveal_strlit("state_dir");
    reveal_strlit("source_cache");
    reveal_strlit("sources");
    reveal_strlit("idempotency_key");
    assert("plugin_dir"@.len() == 10 && "state_dir"@.len() == 9 && "source_cache"@.len() == 12
        && "sources"@.len() == 7 && "idempotency_key"@.len() == 15);
}

/// Every lifecycle call is told where the plugin, its state and the sources
/// are; a setup is told its sources and its key too.
pub proof fn law_lifecycle_calls_are_told_their_paths(
    plugin: PluginDir,
    setup: bool,
    runtime: Seq<char>,
    cache: Seq<char>,
)
    ensures
        ({
            let p = call_params(plugin, setup, runtime, cache);
            &&& json::member_text(p, "plugin_dir"@) == Some(plugin.dir@)
            &&& json::member_text(p, "state_dir"@) == Some(
                path::joined(runtime, plugin.manifest.name@),
            )
            &&& json::member_text(p, "source_cache"@) == Some(cache)
            &&& setup ==> json::member_text(p, "idempotency_key"@) == Some(
                setup_key(plugin.manifest),
            )
            &&& setup ==> json::member(p, "sources"@) == Some(
                JsonView::Array(
                    params::default_sources(
                        plugin.manifest.sources@,
                        cache,
                        plugin.manifest.sources@.len(),
                    ),
                ),
            )
            &&& !setup ==> json::member(p, "sources"@) is None && json::member(
                p,
                "idempotency_key"@,
            ) is None
        }),
{
    lemma_path_names();
}

/// The key of a setup names the plugin and its version: another version of it
/// is set up anew.
pub proof fn law_setup_keys_name_the_version(m: PluginManifest, other: PluginManifest)
    requires
        m.version is Some,
        other.version is Some,
        m.name@ == other.name@,
    ensures
        setup_key(m) == "setup:"@ + m.name@ + ":"@ + m.version->Some_0@,
        m.version->Some_0@ != other.version->Some_0@ ==> setup_key(m) != setup_key(other),
{
    let front = "setup:"@ + m.name@ + ":"@;
    let none = Seq::<char>::empty();
    if m.version->Some_0@ != other.version->Some_0@ {
        text::lemma_middles_differ(front, m.version->Some_0@, other.version->Some_0@, none);
        assert(front + m.version->Some_0@ + none =~= front + m.version->Some_0@);
        assert(front + other.version->Some_0@ + none =~= front + other.version->Some_0@);
    }
}

/// A lifecycle call without trouble goes its way: source by source, then the
/// greeting, then for a setup the question, then the call, whose result is
/// handed out. Any trouble ends it, and is handed out.
pub proof fn law_lifecycle_calls_go_their_way(
    m: PluginManifest,
    setup: bool,
    i: usize,
    result: Json,
    e: Error,
)
    requires
        m.sources@.len() <= usize::MAX,
    ensures
        i + 1 < m.sources@.len() ==> call_next(
            m,
            setup,
            CallStage::Fetching(i),
            CallEvent::Fetched(Ok(())),
        ).1 == StepView::Fetch((i + 1) as usize),
        i + 1 >= m.sources@.len() ==> call_next(
            m,
            setup,
            CallStage::Fetching(i),
            CallEvent::Fetched(Ok(())),
        ).1 is Greet,
        setup ==> call_next(m, setup, CallStage::Greeting, CallEvent::Greeted(Ok(()))).1 is Ask,
        !setup ==> call_next(m, setup, CallStage::Greeting, CallEvent::Greeted(Ok(()))).1 is Call,
        call_next(m, setup, CallStage::Calling, CallEvent::Called(Ok(result))).1
            == StepView::Finish(Ok(result@)),
        call_next(m, setup, CallStage::Calling, CallEvent::Called(Err(e))).1 == StepView::Finish(
            Err(e@),
        ),
        call_next(m, setup, CallStage::Fetching(i), CallEvent::Fetched(Err(e))).1
            == StepView::Finish(Err(e@)),
        call_next(m, setup, CallStage::Greeting, CallEvent::Greeted(Err(e))).1 == StepView::Finish(
            Err(e@),
        ),
        call_next(m, setup, CallStage::Asking, CallEvent::Status(Err(e))).1 == StepView::Finish(
            Err(e@),
        ),
{
}

} // verus!
