//! The curated catalog of plugins, and what a release of one must be to be
//! installed: within its limits, with the digest the catalog states, made of
//! plain files, and the plugin it is said to be.
use vstd::prelude::*;
use crate::digest;
use crate::error;
use crate::error::{Error, ErrorView};
use crate::path;
use crate::plugin::manifest::PluginManifest;
use crate::plugin_install;
use crate::text;

verus! {

/// The version of the catalog that is understood.
pub const SUPPORTED_CATALOG_VERSION: u32 = 1;

/// How large a release may be, in bytes.
pub const MAX_ARCHIVE_BYTES: u64 = 67108864;

/// How large a release may expand to, in bytes.
pub const MAX_EXPANDED_BYTES: u64 = 268435456;

/// How many entries a release may hold.
pub const MAX_ARCHIVE_ENTRIES: usize = 4096;

/// What a curated plugin needs on the host.
#[derive(Debug, Clone, Copy, PartialEq, Eq, Structural)]
pub enum CuratedPluginRequirement {
    Docker,
}

/// A plugin of the catalog.
#[derive(Debug, PartialEq, Eq)]
pub struct CuratedPlugin {
    pub id: String,
    pub name: String,
    pub description: String,
    pub version: String,
    pub url: String,
    pub sha256: String,
    pub requirements: Vec<CuratedPluginRequirement>,
}

/// Where an installation stands.
#[derive(Debug, Clone, Copy, PartialEq, Eq, Structural)]
pub enum CuratedInstallPhase {
    Downloading,
    Verifying,
    Extracting,
    Installing,
}

impl CuratedInstallPhase {
    /// How the phase is told.
    pub fn label(self) -> (r: &'static str)
        ensures
            r@ == (match self {
                CuratedInstallPhase::Downloading => "downloading release"@,
                CuratedInstallPhase::Verifying => "verifying checksum"@,
                CuratedInstallPhase::Extracting => "extracting bundle"@,
                CuratedInstallPhase::Installing => "installing immutable version"@,
            }),
    {
        match self {
            CuratedInstallPhase::Downloading => "downloading release",
            CuratedInstallPhase::Verifying => "verifying checksum",
            CuratedInstallPhase::Extracting => "extracting bundle",
            CuratedInstallPhase::Installing => "installing immutable version",
        }
    }

    /// The phase that follows: nothing is extracted before its digest was
    /// verified, and nothing installed before it was extracted.
    pub open spec fn following(self) -> Option<CuratedInstallPhase> {
        match self {
            CuratedInstallPhase::Downloading => Some(CuratedInstallPhase::Verifying),
            CuratedInstallPhase::Verifying => Some(CuratedInstallPhase::Extracting),
            CuratedInstallPhase::Extracting => Some(CuratedInstallPhase::Installing),
            CuratedInstallPhase::Installing => None,
        }
    }

    /// The phase that follows.
    pub fn next(self) -> (r: Option<CuratedInstallPhase>)
        ensures
            r == self.following(),
    {
        match self {
            CuratedInstallPhase::Downloading => Some(CuratedInstallPhase::Verifying),
            CuratedInstallPhase::Verifying => Some(CuratedInstallPhase::Extracting),
            CuratedInstallPhase::Extracting => Some(CuratedInstallPhase::Installing),
            CuratedInstallPhase::Installing => None,
        }
    }
}

/// The catalog as it is written.
#[derive(Debug, PartialEq, Eq)]
pub struct PluginCatalog {
    pub catalog_version: u32,
    pub plugins: Vec<CuratedPlugin>,
}

// ---------------------------------------------------------------------
// The catalog
// ---------------------------------------------------------------------

/// A text can stand as one component of a path.
pub open spec fn is_catalog_name(s: Seq<char>) -> bool {
    &&& s.len() > 0
    &&& s != "."@
    &&& s != ".."@
    &&& !s.contains('/')
    &&& !s.contains('\\')
    &&& !s.contains('\0')
}

/// What checking a name of the catalog comes to.
pub open spec fn catalog_name_check(label: Seq<char>, value: Seq<char>) -> Result<(), ErrorView> {
    if is_catalog_name(value) {
        Ok(())
    } else {
        Err(ErrorView::Store("invalid "@ + label + ": "@ + text::quoted(value)))
    }
}

/// Check a name of the catalog.
pub fn check_catalog_name(label: &str, value: &str) -> (r: Result<(), Error>)
    ensures
        error::verdict(r) == catalog_name_check(label@, value@),
{
    if value.is_empty() || text::same(value, ".") || text::same(value, "..") || text::has_char(
        value,
        '/',
    ) || text::has_char(value, '\\') || text::has_char(value, '\0') {
        Err(Error::Store(text::cat4("invalid ", label, ": ", text::quote(value).as_str())))
    } else {
        Ok(())
    }
}

/// An id is one of the first `n` plugins'.
pub open spec fn id_taken(plugins: Seq<CuratedPlugin>, n: nat, id: Seq<char>) -> bool {
    exists|i: int| 0 <= i < n && (#[trigger] plugins[i]).id@ == id
}

/// What checking one plugin of the catalog comes to, after the first `n`.
pub open spec fn plugin_check(plugins: Seq<CuratedPlugin>, n: nat) -> Result<(), ErrorView> {
    let p = plugins[n as int];
    match catalog_name_check("plugin id"@, p.id@) {
        Err(e) => Err(e),
        Ok(_) => match catalog_name_check("plugin version"@, p.version@) {
            Err(e) => Err(e),
            Ok(_) => if text::trimmed(p.name@).len() == 0 || text::trimmed(p.description@).len()
                == 0 {
                Err(
                    ErrorView::Store(
                        "curated plugin "@ + p.id@ + " requires a name and description"@,
                    ),
                )
            } else if !"https://"@.is_prefix_of(p.url@) {
                Err(
                    ErrorView::Store(
                        "curated plugin "@ + p.id@ + " requires an HTTPS artifact URL"@,
                    ),
                )
            } else if !digest::is_sha256(p.sha256@) {
                Err(
                    ErrorView::Store(
                        "curated plugin "@ + p.id@ + " has an invalid SHA-256 digest"@,
                    ),
                )
            } else if id_taken(plugins, n, p.id@) {
                Err(ErrorView::Store("duplicate curated plugin id: "@ + p.id@))
            } else {
                Ok(())
            },
        },
    }
}

/// What checking the plugins from the `i`-th on comes to.
pub open spec fn plugins_check(plugins: Seq<CuratedPlugin>, i: nat) -> Result<(), ErrorView>
    decreases plugins.len() - i,
{
    if i >= plugins.len() {
        Ok(())
    } else {
        match plugin_check(plugins, i) {
            Err(e) => Err(e),
            Ok(_) => plugins_check(plugins, i + 1),
        }
    }
}

/// What checking a catalog comes to, given what reading it gave.
pub open spec fn catalog_check(read: Result<PluginCatalog, String>) -> Result<
    Seq<CuratedPlugin>,
    ErrorView,
> {
    match read {
        Err(e) => Err(ErrorView::Store("invalid built-in plugin catalog: "@ + e@)),
        Ok(c) => if c.catalog_version != SUPPORTED_CATALOG_VERSION {
            Err(
                ErrorView::Store(
                    "unsupported built-in plugin catalog version "@ + text::decimal(
                        c.catalog_version as nat,
                    ),
                ),
            )
        } else {
            match plugins_check(c.plugins@, 0) {
                Err(e) => Err(e),
                Ok(_) => Ok(c.plugins@),
            }
        },
    }
}

/// Is the id of the plugin at `n` taken by one before it?
fn taken_before(plugins: &Vec<CuratedPlugin>, n: usize) -> (r: bool)
    requires
        n < plugins@.len(),
    ensures
        r == id_taken(plugins@, n as nat, plugins@[n as int].id@),
{
    let mut i: usize = 0;
    while i < n
        invariant
            i <= n,
            n < plugins@.len(),
            forall|j: int| 0 <= j < i ==> (#[trigger] plugins@[j]).id@ != plugins@[n as int].id@,
        decreases n - i,
    {
        if text::same(plugins[i].id.as_str(), plugins[n].id.as_str()) {
            return true;
        }
        i = i + 1;
    }
    false
}

/// Check the plugin at `n` of the catalog.
fn check_plugin(plugins: &Vec<CuratedPlugin>, n: usize) -> (r: Result<(), Error>)
    requires
        n < plugins@.len(),
    ensures
        error::verdict(r) == plugin_check(plugins@, n as nat),
{
    let p = &plugins[n];
    match check_catalog_name("plugin id", p.id.as_str()) {
        Ok(_) => {},
        Err(e) => {
            return Err(e);
        },
    }
    match check_catalog_name("plugin version", p.version.as_str()) {
        Ok(_) => {},
        Err(e) => {
            return Err(e);
        },
    }
    let id = p.id.as_str();
    if text::trim(p.name.as_str()).as_str().is_empty() || text::trim(
        p.description.as_str(),
    ).as_str().is_empty() {
        return Err(
            Error::Store(
                text::cat3("curated plugin ", id, " requires a name and description"),
            ),
        );
    }
    if !text::starts_with(p.url.as_str(), "https://") {
        return Err(
            Error::Store(
                text::cat3("curated plugin ", id, " requires an HTTPS artifact URL"),
            ),
        );
    }
    if !digest::looks_like_sha256(p.sha256.as_str()) {
        return Err(
            Error::Store(text::cat3("curated plugin ", id, " has an invalid SHA-256 digest")),
        );
    }
    if taken_before(plugins, n) {
        return Err(Error::Store(text::cat2("duplicate curated plugin id: ", id)));
    }
    Ok(())
}

/// What a result of a catalog holds.
pub open spec fn catalog_outcome(r: Result<Vec<CuratedPlugin>, Error>) -> Result<
    Seq<CuratedPlugin>,
    ErrorView,
> {
    match r {
        Ok(v) => Ok(v@),
        Err(e) => Err(e@),
    }
}

/// The plugins of a catalog, given what reading it gave, in the order they
/// are written.
pub fn curated_plugins(read: Result<PluginCatalog, String>) -> (r: Result<
    Vec<CuratedPlugin>,
    Error,
>)
    ensures
        catalog_outcome(r) == catalog_check(read),
{
    let catalog = match read {
        Err(e) => {
            return Err(
                Error::Store(text::cat2("invalid built-in plugin catalog: ", e.as_str())),
            );
        },
        Ok(catalog) => catalog,
    };
    if catalog.catalog_version != SUPPORTED_CATALOG_VERSION {
        return Err(
            Error::Store(
                text::cat2(
                    "unsupported built-in plugin catalog version ",
                    text::decimal_of(catalog.catalog_version as u64).as_str(),
                ),
            ),
        );
    }
    let plugins = catalog.plugins;
    let mut i: usize = 0;
    while i < plugins.len()
        invariant
            i <= plugins@.len(),
            catalog_check(read) == (match plugins_check(plugins@, i as nat) {
                Err(e) => Err(e),
                Ok(_) => Ok(plugins@),
            }),
        decreases plugins@.len() - i,
    {
        match check_plugin(&plugins, i) {
            Ok(_) => {},
            Err(e) => {
                return Err(e);
            },
        }
        i = i + 1;
    }
    Ok(plugins)
}

/// The first plugin, from the `i`-th on, with an id.
pub open spec fn with_id(plugins: Seq<CuratedPlugin>, id: Seq<char>, i: nat) -> Option<CuratedPlugin>
    decreases plugins.len() - i,
{
    if i >= plugins.len() {
        None
    } else if plugins[i as int].id@ == id {
        Some(plugins[i as int])
    } else {
        with_id(plugins, id, i + 1)
    }
}

/// The plugin of the catalog with the id `id`.
pub fn curated_plugin<'a>(plugins: &'a Vec<CuratedPlugin>, id: &str) -> (r: Result<
    &'a CuratedPlugin,
    Error,
>)
    ensures
        match r {
            Ok(p) => with_id(plugins@, id@, 0) == Some(*p),
            Err(e) => with_id(plugins@, id@, 0) is None && e@ == ErrorView::Store(
                "unsupported curated plugin: "@ + id@,
            ),
        },
{
    let mut i: usize = 0;
    while i < plugins.len()
        invariant
            i <= plugins@.len(),
            with_id(plugins@, id@, 0) == with_id(plugins@, id@, i as nat),
        decreases plugins@.len() - i,
    {
        if text::same(plugins[i].id.as_str(), id) {
            return Ok(&plugins[i]);
        }
        i = i + 1;
    }
    Err(Error::Store(text::cat2("unsupported curated plugin: ", id)))
}

// ---------------------------------------------------------------------
// The course of an installation
// ---------------------------------------------------------------------

/// An installation of a plugin of the catalog, phase by phase.
#[derive(Debug, PartialEq, Eq)]
pub struct CuratedInstall {
    pub plugin: CuratedPlugin,
    pub phase: CuratedInstallPhase,
}

/// What an installation does next.
#[derive(Debug, PartialEq, Eq)]
pub enum CuratedStep {
    /// Carry out the phase.
    Run(CuratedInstallPhase),
    /// The plugin is installed.
    Done,
    /// Give the installation up.
    Fail(Error),
}

/// What a step of an installation holds.
pub enum CuratedStepView {
    Run(CuratedInstallPhase),
    Done,
    Fail(ErrorView),
}

impl View for CuratedStep {
    type V = CuratedStepView;

    open spec fn view(&self) -> CuratedStepView {
        match self {
            CuratedStep::Run(phase) => CuratedStepView::Run(*phase),
            CuratedStep::Done => CuratedStepView::Done,
            CuratedStep::Fail(e) => CuratedStepView::Fail(e@),
        }
    }
}

/// The caller is asked after this phase whether the installation goes on.
pub open spec fn can_be_cancelled_after(phase: CuratedInstallPhase) -> bool {
    phase is Downloading || phase is Extracting
}

/// What follows a phase: a failure ends the installation, and so does a
/// caller who gives it up after the download or before anything is installed.
pub open spec fn course_after(
    phase: CuratedInstallPhase,
    result: Result<(), ErrorView>,
    is_cancelled: bool,
) -> CuratedStepView {
    match result {
        Err(e) => CuratedStepView::Fail(e),
        Ok(_) => if can_be_cancelled_after(phase) && is_cancelled {
            CuratedStepView::Fail(cancelled())
        } else {
            match phase.following() {
                Some(next) => CuratedStepView::Run(next),
                None => CuratedStepView::Done,
            }
        },
    }
}

/// What an installation comes to from the `i`-th phase on, where each phase
/// comes to its result and the caller cancels or does not.
pub open spec fn course_from(
    phase: CuratedInstallPhase,
    results: Seq<Result<(), ErrorView>>,
    cancels: Seq<bool>,
    i: nat,
) -> CuratedStepView
    decreases results.len() - i,
{
    if i >= results.len() {
        CuratedStepView::Run(phase)
    } else {
        match course_after(phase, results[i as int], cancels[i as int]) {
            CuratedStepView::Run(next) => course_from(next, results, cancels, i + 1),
            end => end,
        }
    }
}

/// What an installation comes to.
pub open spec fn course_of(results: Seq<Result<(), ErrorView>>, cancels: Seq<bool>) -> CuratedStepView {
    course_from(CuratedInstallPhase::Downloading, results, cancels, 0)
}

/// The installation of the plugin of the catalog with the id `id`, which
/// begins with its download.
pub fn install_curated_plugin(plugins: Vec<CuratedPlugin>, id: &str) -> (r: Result<
    CuratedInstall,
    Error,
>)
    ensures
        match r {
            Ok(course) => with_id(plugins@, id@, 0) == Some(course.plugin)
                && course.phase is Downloading,
            Err(e) => with_id(plugins@, id@, 0) is None && e@ == ErrorView::Store(
                "unsupported curated plugin: "@ + id@,
            ),
        },
{
    let mut rest = plugins;
    let mut i: usize = 0;
    while i < rest.len()
        invariant
            i <= rest@.len(),
            rest@ == plugins@,
            with_id(plugins@, id@, 0) == with_id(plugins@, id@, i as nat),
        decreases rest@.len() - i,
    {
        if text::same(rest[i].id.as_str(), id) {
            let plugin = rest.swap_remove(i);
            return Ok(CuratedInstall { plugin, phase: CuratedInstallPhase::Downloading });
        }
        i = i + 1;
    }
    Err(Error::Store(text::cat2("unsupported curated plugin: ", id)))
}

impl CuratedInstall {
    /// What follows the phase that has been carried out.
    pub fn step(&mut self, result: Result<(), Error>, is_cancelled: bool) -> (r: CuratedStep)
        ensures
            r@ == course_after(old(self).phase, error::verdict(result), is_cancelled),
            final(self).plugin == old(self).plugin,
            final(self).phase == (match r {
                CuratedStep::Run(next) => next,
                _ => old(self).phase,
            }),
    {
        match result {
            Err(e) => CuratedStep::Fail(e),
            Ok(_) => {
                let asks = match self.phase {
                    CuratedInstallPhase::Downloading | CuratedInstallPhase::Extracting => true,
                    _ => false,
                };
                if asks {
                    match check_cancelled(is_cancelled) {
                        Ok(_) => {},
                        Err(e) => {
                            return CuratedStep::Fail(e);
                        },
                    }
                }
                match self.phase.next() {
                    Some(next) => {
                        self.phase = next;
                        CuratedStep::Run(next)
                    },
                    None => CuratedStep::Done,
                }
            },
        }
    }
}

// ---------------------------------------------------------------------
// Downloading
// ---------------------------------------------------------------------

/// An installation that its caller gave up.
pub open spec fn cancelled() -> ErrorView {
    ErrorView::Store("plugin installation cancelled"@)
}

/// Check that the caller has not given the installation up.
pub fn check_cancelled(is_cancelled: bool) -> (r: Result<(), Error>)
    ensures
        error::verdict(r) == (if is_cancelled {
            Err(cancelled())
        } else {
            Ok(())
        }),
{
    if is_cancelled {
        Err(Error::Store("plugin installation cancelled".to_owned()))
    } else {
        Ok(())
    }
}

/// A release is too large.
pub open spec fn too_large(name: Seq<char>) -> ErrorView {
    ErrorView::Store(
        "plugin release for "@ + name + " exceeds the "@ + text::decimal(64) + " MiB download limit"@,
    )
}

/// The error of a release that is too large.
fn release_too_large(name: &str) -> (r: Error)
    ensures
        r@ == too_large(name@),
{
    Error::Store(
        text::cat5(
            "plugin release for ",
            name,
            " exceeds the ",
            text::decimal_of(64).as_str(),
            " MiB download limit",
        ),
    )
}

/// Check the length that a release says it has, if it says one.
pub fn check_length(plugin: &CuratedPlugin, length: Option<u64>) -> (r: Result<(), Error>)
    ensures
        error::verdict(r) == (match length {
            Some(n) => if n > MAX_ARCHIVE_BYTES {
                Err(too_large(plugin.name@))
            } else {
                Ok(())
            },
            None => Ok(()),
        }),
{
    match length {
        Some(n) => if n > MAX_ARCHIVE_BYTES {
            Err(release_too_large(plugin.name.as_str()))
        } else {
            Ok(())
        },
        None => Ok(()),
    }
}

/// A download: how many bytes came so far.
#[derive(Debug, PartialEq, Eq)]
pub struct Download {
    pub total: u64,
}

/// What to do about a piece of a download.
#[derive(Debug, PartialEq, Eq)]
pub enum DownloadStep {
    /// Write the piece and read on.
    Write,
    /// It is complete.
    Complete,
    /// Give up.
    Fail(Error),
}

/// What to do about a piece of a download, as plain values.
pub enum DownloadView {
    Write,
    Complete,
    Fail(ErrorView),
}

impl View for DownloadStep {
    type V = DownloadView;

    open spec fn view(&self) -> DownloadView {
        match *self {
            DownloadStep::Write => DownloadView::Write,
            DownloadStep::Complete => DownloadView::Complete,
            DownloadStep::Fail(e) => DownloadView::Fail(e@),
        }
    }
}

/// The sum, or the largest number there is.
pub open spec fn capped(a: u64, b: u64) -> u64 {
    if a + b > u64::MAX {
        u64::MAX
    } else {
        (a + b) as u64
    }
}

impl Download {
    /// A download of which nothing came yet.
    pub fn new() -> (r: Download)
        ensures
            r.total == 0,
    {
        Download { total: 0 }
    }

    /// Take a piece of `read` bytes; none are the end. Whatever the release
    /// said of its length, it ends at the limit.
    pub fn take(&mut self, plugin: &CuratedPlugin, is_cancelled: bool, read: u64) -> (r: DownloadStep)
        ensures
            ({
                let total = capped(old(self).total, read);
                &&& r@ == (if is_cancelled {
                    DownloadView::Fail(cancelled())
                } else if read == 0 {
                    DownloadView::Complete
                } else if total > MAX_ARCHIVE_BYTES {
                    DownloadView::Fail(too_large(plugin.name@))
                } else {
                    DownloadView::Write
                })
                &&& final(self).total == (if is_cancelled {
                    old(self).total
                } else {
                    total
                })
            }),
    {
        if is_cancelled {
            return DownloadStep::Fail(Error::Store("plugin installation cancelled".to_owned()));
        }
        if read == 0 {
            return DownloadStep::Complete;
        }
        self.total = if self.total > u64::MAX - read {
            u64::MAX
        } else {
            self.total + read
        };
        if self.total > MAX_ARCHIVE_BYTES {
            DownloadStep::Fail(release_too_large(plugin.name.as_str()))
        } else {
            DownloadStep::Write
        }
    }
}

/// What checking the digest of a release comes to.
pub open spec fn checksum_check(actual: Seq<char>, expected: Seq<char>) -> Result<(), ErrorView> {
    if actual == expected {
        Ok(())
    } else {
        Err(
            ErrorView::Store(
                "plugin archive checksum mismatch: expected "@ + expected + ", got "@ + actual,
            ),
        )
    }
}

/// Compare the digest of a release with the one that the catalog states.
pub fn compare_checksum(actual: &str, expected: &str) -> (r: Result<(), Error>)
    ensures
        error::verdict(r) == checksum_check(actual@, expected@),
{
    if text::same(actual, expected) {
        Ok(())
    } else {
        Err(
            Error::Store(
                text::cat4(
                    "plugin archive checksum mismatch: expected ",
                    expected,
                    ", got ",
                    actual,
                ),
            ),
        )
    }
}

/// Check the digest of a release against the one that the catalog states.
pub fn verify_archive_checksum(archive: &[u8], expected: &str) -> (r: Result<(), Error>)
    ensures
        error::verdict(r) == checksum_check(
            text::hex_bytes(digest::sha256(archive@)),
            expected@,
        ),
{
    compare_checksum(digest::sha256_hex(archive).as_str(), expected)
}

// ---------------------------------------------------------------------
// Extracting
// ---------------------------------------------------------------------

/// What checking the path of an archive's entry comes to: it has components,
/// and all of them are plain names.
pub open spec fn archive_path_check(p: Seq<char>) -> Result<(), ErrorView> {
    if p.len() == 0 || !path::all_normal(path::parts(p)) {
        Err(
            ErrorView::Store("plugin archive path escapes its staging directory: "@ + p),
        )
    } else {
        Ok(())
    }
}

/// Check the path of an archive's entry.
pub fn validate_archive_path(p: &str) -> (r: Result<(), Error>)
    ensures
        error::verdict(r) == archive_path_check(p@),
{
    if p.is_empty() || !plugin_install::normal_path(p) {
        Err(
            Error::Store(
                text::cat2("plugin archive path escapes its staging directory: ", p),
            ),
        )
    } else {
        Ok(())
    }
}

/// What an entry of an archive is.
#[derive(Debug, Clone, Copy, PartialEq, Eq, Structural)]
pub enum EntryKind {
    /// Attributes for the entries that follow.
    GlobalAttributes,
    Dir,
    File,
    /// A link, a device, or anything else.
    Other,
}

/// An entry of an archive, as its header gives it.
#[derive(Debug, PartialEq, Eq)]
pub struct ArchiveEntry {
    pub path: String,
    pub kind: EntryKind,
    pub size: u64,
    pub mode: u32,
}

/// What to do with an entry.
#[derive(Debug, PartialEq, Eq)]
pub enum ExtractStep {
    /// Pass it over.
    Skip,
    /// Create the directory.
    MakeDir(String),
    /// Write the file, with these permissions.
    WriteFile { target: String, mode: u32 },
}

/// What to do with an entry, as plain values.
pub enum ExtractView {
    Skip,
    MakeDir(Seq<char>),
    WriteFile { target: Seq<char>, mode: u32 },
}

impl View for ExtractStep {
    type V = ExtractView;

    open spec fn view(&self) -> ExtractView {
        match *self {
            ExtractStep::Skip => ExtractView::Skip,
            ExtractStep::MakeDir(d) => ExtractView::MakeDir(d@),
            ExtractStep::WriteFile { target, mode } => ExtractView::WriteFile {
                target: target@,
                mode,
            },
        }
    }
}

/// How far an extraction is: how many entries were seen, and how many bytes
/// they expand to.
#[derive(Debug, PartialEq, Eq)]
pub struct Extraction {
    pub entries: usize,
    pub expanded: u64,
}

/// What counting one more entry comes to.
pub open spec fn count_check(entries: usize, is_cancelled: bool) -> Result<(), ErrorView> {
    if is_cancelled {
        Err(cancelled())
    } else if entries >= MAX_ARCHIVE_ENTRIES {
        Err(
            ErrorView::Store(
                "plugin archive exceeds the "@ + text::decimal(4096) + " entry limit"@,
            ),
        )
    } else {
        Ok(())
    }
}

/// What admitting an entry comes to, after entries that expand to `expanded`
/// bytes.
pub open spec fn admission(
    destination: Seq<char>,
    entry: ArchiveEntry,
    expanded: u64,
) -> Result<ExtractView, ErrorView> {
    match archive_path_check(entry.path@) {
        Err(e) => Err(e),
        Ok(_) => if capped(expanded, entry.size) > MAX_EXPANDED_BYTES {
            Err(
                ErrorView::Store(
                    "plugin archive exceeds the "@ + text::decimal(256)
                        + " MiB expanded-size limit"@,
                ),
            )
        } else {
            let target = path::joined(destination, entry.path@);
            match entry.kind {
                EntryKind::GlobalAttributes => Ok(ExtractView::Skip),
                EntryKind::Dir => Ok(ExtractView::MakeDir(target)),
                EntryKind::File => Ok(
                    ExtractView::WriteFile { target, mode: entry.mode & 0o777 },
                ),
                EntryKind::Other => Err(
                    ErrorView::Store("plugin archive contains unsupported entry "@ + entry.path@),
                ),
            }
        },
    }
}

impl Extraction {
    /// An extraction that saw no entry yet.
    pub fn new() -> (r: Extraction)
        ensures
            r.entries == 0,
            r.expanded == 0,
    {
        Extraction { entries: 0, expanded: 0 }
    }

    /// Count one more entry, before its header is read.
    pub fn count(&mut self, is_cancelled: bool) -> (r: Result<(), Error>)
        ensures
            error::verdict(r) == count_check(old(self).entries, is_cancelled),
            final(self).expanded == old(self).expanded,
            final(self).entries == (if r is Ok {
                (old(self).entries + 1) as usize
            } else {
                old(self).entries
            }),
    {
        if is_cancelled {
            return Err(Error::Store("plugin installation cancelled".to_owned()));
        }
        if self.entries >= MAX_ARCHIVE_ENTRIES {
            return Err(
                Error::Store(
                    text::cat3(
                        "plugin archive exceeds the ",
                        text::decimal_of(4096).as_str(),
                        " entry limit",
                    ),
                ),
            );
        }
        self.entries = self.entries + 1;
        Ok(())
    }

    /// What to do with an entry that is extracted below `destination`.
    pub fn place(&mut self, destination: &str, entry: &ArchiveEntry) -> (r: Result<
        ExtractStep,
        Error,
    >)
        ensures
            error::outcome(r) == admission(destination@, *entry, old(self).expanded),
            final(self).entries == old(self).entries,
            final(self).expanded == (if archive_path_check(entry.path@) is Ok {
                capped(old(self).expanded, entry.size)
            } else {
                old(self).expanded
            }),
    {
        match validate_archive_path(entry.path.as_str()) {
            Ok(_) => {},
            Err(e) => {
                return Err(e);
            },
        }
        self.expanded = if self.expanded > u64::MAX - entry.size {
            u64::MAX
        } else {
            self.expanded + entry.size
        };
        if self.expanded > MAX_EXPANDED_BYTES {
            return Err(
                Error::Store(
                    text::cat3(
                        "plugin archive exceeds the ",
                        text::decimal_of(256).as_str(),
                        " MiB expanded-size limit",
                    ),
                ),
            );
        }
        let target = path::join(destination, entry.path.as_str());
        match entry.kind {
            EntryKind::GlobalAttributes => Ok(ExtractStep::Skip),
            EntryKind::Dir => Ok(ExtractStep::MakeDir(target)),
            EntryKind::File => Ok(ExtractStep::WriteFile { target, mode: entry.mode & 0o777 }),
            EntryKind::Other => Err(
                Error::Store(
                    text::cat2(
                        "plugin archive contains unsupported entry ",
                        entry.path.as_str(),
                    ),
                ),
            ),
        }
    }
}

/// Check that all of an entry was written.
pub fn check_copied(entry: &ArchiveEntry, copied: u64) -> (r: Result<(), Error>)
    ensures
        error::verdict(r) == (if copied == entry.size {
            Ok(())
        } else {
            Err(
                ErrorView::Store("plugin archive entry "@ + entry.path@ + " was truncated"@),
            )
        }),
{
    if copied == entry.size {
        Ok(())
    } else {
        Err(
            Error::Store(
                text::cat3("plugin archive entry ", entry.path.as_str(), " was truncated"),
            ),
        )
    }
}

/// What stands at the top of what was extracted.
#[derive(Debug, PartialEq, Eq)]
pub struct TopEntry {
    pub path: String,
    pub is_dir: bool,
    /// It holds a manifest.
    pub has_manifest: bool,
}

/// Where the bundle is in what was extracted: at the top, or in the one
/// directory there is.
pub open spec fn bundle_root(
    extracted: Seq<char>,
    manifest_at_top: bool,
    children: Seq<TopEntry>,
) -> Result<Seq<char>, ErrorView> {
    if manifest_at_top {
        Ok(extracted)
    } else if children.len() == 1 && children[0].is_dir && children[0].has_manifest {
        Ok(children[0].path@)
    } else {
        Err(
            ErrorView::Store(
                "plugin archive must contain plugin.toml at its root or in one top-level directory"@,
            ),
        )
    }
}

/// Where the bundle is in what was extracted.
pub fn extracted_bundle_root(extracted: &str, manifest_at_top: bool, children: &Vec<TopEntry>) -> (r:
    Result<String, Error>)
    ensures
        error::outcome(r) == bundle_root(extracted@, manifest_at_top, children@),
{
    if manifest_at_top {
        return Ok(extracted.to_owned());
    }
    if children.len() == 1 && children[0].is_dir && children[0].has_manifest {
        return Ok(children[0].path.clone());
    }
    Err(
        Error::Store(
            "plugin archive must contain plugin.toml at its root or in one top-level directory".to_owned(),
        ),
    )
}

/// What checking that a bundle is the plugin of the catalog comes to.
pub open spec fn identity_check(plugin: CuratedPlugin, m: PluginManifest) -> Result<(), ErrorView> {
    if m.name@ == plugin.id@ && text::opt_text(m.version) == Some(plugin.version@) {
        Ok(())
    } else {
        Err(
            ErrorView::Store(
                "plugin archive identifies "@ + m.name@ + "@"@ + (match m.version {
                    Some(v) => v@,
                    None => "unversioned"@,
                }) + ", expected "@ + plugin.id@ + "@"@ + plugin.version@,
            ),
        )
    }
}

/// Check that a bundle is the plugin of the catalog.
pub fn verify_catalog_identity(plugin: &CuratedPlugin, m: &PluginManifest) -> (r: Result<(), Error>)
    ensures
        error::verdict(r) == identity_check(*plugin, *m),
{
    let version = match &m.version {
        Some(v) => v.clone(),
        None => "unversioned".to_owned(),
    };
    let versioned = m.version.is_some() && text::same(version.as_str(), plugin.version.as_str());
    if text::same(m.name.as_str(), plugin.id.as_str()) && versioned {
        Ok(())
    } else {
        let start = text::cat4(
            "plugin archive identifies ",
            m.name.as_str(),
            "@",
            version.as_str(),
        );
        Err(
            Error::Store(
                text::cat5(
                    start.as_str(),
                    ", expected ",
                    plugin.id.as_str(),
                    "@",
                    plugin.version.as_str(),
                ),
            ),
        )
    }
}

// ---------------------------------------------------------------------
// Laws
// ---------------------------------------------------------------------

proof fn lemma_plugins_checked(plugins: Seq<CuratedPlugin>, i: nat, k: int)
    requires
        i <= k < plugins.len(),
        plugins_check(plugins, i) is Ok,
    ensures
        plugin_check(plugins, k as nat) is Ok,
    decreases plugins.len() - i,
{
    if i < k {
        lemma_plugins_checked(plugins, i + 1, k);
    }
}

/// A catalog that is accepted holds only plugins that may be downloaded: each
/// over HTTPS and with a digest to hold it to, and each id once. Their order
/// is that of the catalog.
pub proof fn law_accepted_catalog_is_sound(read: Result<PluginCatalog, String>, k: int, l: int)
    requires
        catalog_check(read) matches Ok(plugins) && 0 <= k < plugins.len() && 0 <= l
            < plugins.len(),
    ensures
        read is Ok,
        catalog_check(read)->Ok_0 == read->Ok_0.plugins@,
        "https://"@.is_prefix_of(catalog_check(read)->Ok_0[k].url@),
        digest::is_sha256(catalog_check(read)->Ok_0[k].sha256@),
        is_catalog_name(catalog_check(read)->Ok_0[k].id@),
        k != l ==> catalog_check(read)->Ok_0[k].id@ != catalog_check(read)->Ok_0[l].id@,
{
    let plugins = catalog_check(read)->Ok_0;
    lemma_plugins_checked(plugins, 0, k);
    lemma_plugins_checked(plugins, 0, l);
    if k != l && plugins[k].id@ == plugins[l].id@ {
        if k < l {
            assert(id_taken(plugins, l as nat, plugins[l].id@));
        } else {
            assert(id_taken(plugins, k as nat, plugins[k].id@));
        }
    }
}

/// Nothing is written outside the directory that an archive is extracted to,
/// whatever its entries are called.
pub proof fn law_extraction_stays_inside(
    destination: Seq<char>,
    entry: ArchiveEntry,
    expanded: u64,
)
    ensures
        admission(destination, entry, expanded) matches Ok(ExtractView::MakeDir(target))
            ==> path::is_within(target, destination),
        admission(destination, entry, expanded) matches Ok(ExtractView::WriteFile { target, .. })
            ==> path::is_within(target, destination),
{
    if archive_path_check(entry.path@) is Ok {
        path::lemma_joined_within(destination, entry.path@);
    }
}

/// An extraction stays within its limits: an entry is admitted only where all
/// entries together expand to no more than the limit, and only so many
/// entries are counted.
pub proof fn law_extraction_is_bounded(
    destination: Seq<char>,
    entry: ArchiveEntry,
    expanded: u64,
    entries: usize,
    is_cancelled: bool,
)
    ensures
        admission(destination, entry, expanded) is Ok ==> expanded + entry.size
            <= MAX_EXPANDED_BYTES,
        count_check(entries, is_cancelled) is Ok ==> entries + 1 <= MAX_ARCHIVE_ENTRIES,
{
}

/// Only a release with the digest that the catalog states is extracted, and
/// only the plugin that the catalog names is installed.
pub proof fn law_release_is_what_the_catalog_says(
    archive: Seq<u8>,
    plugin: CuratedPlugin,
    m: PluginManifest,
)
    ensures
        checksum_check(text::hex_bytes(digest::sha256(archive)), plugin.sha256@) is Ok
            <==> text::hex_bytes(digest::sha256(archive)) == plugin.sha256@,
        identity_check(plugin, m) is Ok <==> (m.name@ == plugin.id@ && text::opt_text(m.version)
            == Some(plugin.version@)),
{
}

/// An installation is done only after its phases have been carried out, each
/// once, in order and without a failure; one that was given up before
/// installing installs nothing.
pub proof fn law_every_phase_is_passed(
    results: Seq<Result<(), ErrorView>>,
    cancels: Seq<bool>,
    at: CuratedInstallPhase,
)
    requires
        results.len() == 4,
        cancels.len() == 4,
    ensures
        course_after(at, results[0], cancels[0]) is Done ==> at is Installing && results[0] is Ok,
        course_after(at, results[0], cancels[0]) matches CuratedStepView::Run(next)
            ==> at.following() == Some(next) && results[0] is Ok && (can_be_cancelled_after(at)
            ==> !cancels[0]),
        course_of(results, cancels) is Done <==> ((forall|i: int|
            0 <= i < 4 ==> #[trigger] results[i] is Ok) && !cancels[0] && !cancels[2]),
{
    reveal_with_fuel(course_from, 5);
    if course_of(results, cancels) is Done {
        assert forall|i: int| 0 <= i < 4 implies #[trigger] results[i] is Ok by {
            assert(i == 0 || i == 1 || i == 2 || i == 3);
        }
    }
}

/// A plugin is found by its id; an id that no plugin has finds none.
pub proof fn law_plugins_are_found_by_id(
    plugins: Seq<CuratedPlugin>,
    id: Seq<char>,
    i: nat,
    at: nat,
)
    requires
        i <= at < plugins.len(),
        plugins[at as int].id@ == id,
        forall|j: int| i <= j < at ==> (#[trigger] plugins[j]).id@ != id,
    ensures
        with_id(plugins, id, i) == Some(plugins[at as int]),
    decreases at - i,
{
    if i < at {
        assert(plugins[i as int].id@ != id);
        law_plugins_are_found_by_id(plugins, id, i + 1, at);
    }
}

/// What is found by an id has that id, and is one of the plugins.
pub proof fn law_what_is_found_has_the_id(plugins: Seq<CuratedPlugin>, id: Seq<char>, i: nat)
    ensures
        with_id(plugins, id, i) matches Some(p) ==> p.id@ == id && plugins.contains(p),
        with_id(plugins, id, i) is None ==> forall|j: int|
            i <= j < plugins.len() ==> (#[trigger] plugins[j]).id@ != id,
    decreases plugins.len() - i,
{
    if i < plugins.len() {
        if plugins[i as int].id@ == id {
            assert(plugins[i as int] == with_id(plugins, id, i)->Some_0);
        } else {
            law_what_is_found_has_the_id(plugins, id, i + 1);
        }
    }
}

/// A plugin may stand in a catalog: it is named, described, downloaded over
/// HTTPS, and held to a digest.
pub open spec fn is_sound(p: CuratedPlugin) -> bool {
    &&& is_catalog_name(p.id@)
    &&& is_catalog_name(p.version@)
    &&& !text::all_white(p.name@)
    &&& !text::all_white(p.description@)
    &&& "https://"@.is_prefix_of(p.url@)
    &&& digest::is_sha256(p.sha256@)
}

proof fn lemma_sound_plugins_pass(plugins: Seq<CuratedPlugin>, i: nat)
    requires
        forall|k: int| 0 <= k < plugins.len() ==> is_sound(#[trigger] plugins[k]),
        forall|k: int, l: int|
            #![trigger plugins[k], plugins[l]]
            0 <= k < l < plugins.len() ==> plugins[k].id@ != plugins[l].id@,
    ensures
        plugins_check(plugins, i) is Ok,
    decreases plugins.len() - i,
{
    if i < plugins.len() {
        let p = plugins[i as int];
        assert(is_sound(p));
        text::law_trimming_takes_only_white_space(p.name@);
        text::law_trimming_takes_only_white_space(p.description@);
        if id_taken(plugins, i, p.id@) {
            let k = choose|k: int| 0 <= k < i && (#[trigger] plugins[k]).id@ == p.id@;
            assert(plugins[k].id@ != plugins[i as int].id@);
        }
        lemma_sound_plugins_pass(plugins, i + 1);
    }
}

/// A catalog of the supported version whose plugins are sound, and each there
/// once, is accepted as it is.
pub proof fn law_sound_catalogs_are_accepted(c: PluginCatalog)
    requires
        c.catalog_version == 1,
        forall|k: int| 0 <= k < c.plugins@.len() ==> is_sound(#[trigger] c.plugins@[k]),
        forall|k: int, l: int|
            #![trigger c.plugins@[k], c.plugins@[l]]
            0 <= k < l < c.plugins@.len() ==> c.plugins@[k].id@ != c.plugins@[l].id@,
    ensures
        catalog_check(Ok(c)) == Ok::<Seq<CuratedPlugin>, ErrorView>(c.plugins@),
{
    lemma_sound_plugins_pass(c.plugins@, 0);
}

/// Another version of the catalog is refused, as is one that does not read.
pub proof fn law_other_catalogs_are_refused(c: PluginCatalog, why: String)
    ensures
        c.catalog_version != 1 ==> catalog_check(Ok(c)) is Err,
        catalog_check(Err(why)) is Err,
{
}

/// An entry of an archive is put where its path says, below the destination: a
/// directory as a directory, a file as a file with its permission bits and no
/// others. Attributes are passed over, and anything else is refused.
pub proof fn law_entries_are_put_where_they_say(
    destination: Seq<char>,
    entry: ArchiveEntry,
    expanded: u64,
)
    requires
        archive_path_check(entry.path@) is Ok,
        expanded + entry.size <= MAX_EXPANDED_BYTES,
    ensures
        entry.kind == EntryKind::Dir ==> admission(destination, entry, expanded) == Ok::<
            ExtractView,
            ErrorView,
        >(ExtractView::MakeDir(path::joined(destination, entry.path@))),
        entry.kind == EntryKind::File ==> (admission(destination, entry, expanded) matches Ok(
            ExtractView::WriteFile { target, mode },
        ) && target == path::joined(destination, entry.path@) && mode <= 0o777 && mode == entry.mode
            & 0o777),
        entry.kind == EntryKind::GlobalAttributes ==> admission(destination, entry, expanded)
            == Ok::<ExtractView, ErrorView>(ExtractView::Skip),
        entry.kind == EntryKind::Other ==> admission(destination, entry, expanded) is Err,
{
    let mode = entry.mode;
    assert(mode & 0o777u32 <= 0o777u32) by (bit_vector);
}

/// A path of an archive is accepted where it is made of plain names, and
/// nowhere else; a count where it is within the limit and was not given up.
pub proof fn law_plain_paths_are_accepted(p: Seq<char>, entries: usize, is_cancelled: bool)
    ensures
        archive_path_check(p) is Ok <==> p.len() > 0 && path::all_normal(path::parts(p)),
        count_check(entries, is_cancelled) is Ok <==> !is_cancelled && entries < 4096,
{
}

/// A bundle is where its manifest is: at the top of what was extracted, or in
/// the one directory there.
pub proof fn law_bundles_are_where_their_manifest_is(
    extracted: Seq<char>,
    manifest_at_top: bool,
    children: Seq<TopEntry>,
)
    ensures
        manifest_at_top ==> bundle_root(extracted, manifest_at_top, children) == Ok::<
            Seq<char>,
            ErrorView,
        >(extracted),
        !manifest_at_top ==> (bundle_root(extracted, manifest_at_top, children) matches Ok(root)
            ==> children.len() == 1 && children[0].is_dir && children[0].has_manifest && root
            == children[0].path@),
        !manifest_at_top && children.len() == 1 && children[0].is_dir && children[0].has_manifest
            ==> bundle_root(extracted, manifest_at_top, children) is Ok,
{
}

/// Sums stop at the largest number there is, and are exact below it.
pub proof fn law_capped_sums(a: u64, b: u64)
    ensures
        a + b <= u64::MAX ==> capped(a, b) == a + b,
        a + b > u64::MAX ==> capped(a, b) == u64::MAX,
        capped(a, b) >= a,
        capped(a, b) >= b,
{
}

} // verus!
