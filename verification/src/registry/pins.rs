//! Source pins: which revisions of a plugin's sources a mission reads, and
//! which commits they stand for.
use vstd::prelude::*;
use crate::error;
use crate::error::{Error, ErrorView};
use crate::plugin::manifest::{PluginDir, PluginManifest, PluginManifestVersion, PluginSource};
use crate::srcrev::revs;
use crate::store::records::{Project, ProjectView};
use crate::table;
use crate::table::Table;
use crate::text;

verus! {

/// One source repository of a project's plugin, with the revisions that may
/// be picked.
#[derive(Debug, PartialEq, Eq)]
pub struct SourceRevs {
    pub name: String,
    /// The plugin's own pin.
    pub pinned: String,
    /// The revisions that may be picked, the default first.
    pub revs: Vec<String>,
    /// When they were last listed, in epoch seconds; none where they never
    /// were, and are placeholders.
    pub refs_fetched: Option<u64>,
}

/// What a source with its revisions holds.
#[verifier::ext_equal]
pub struct SourceRevsView {
    pub name: Seq<char>,
    pub pinned: Seq<char>,
    pub revs: Seq<Seq<char>>,
    pub refs_fetched: Option<u64>,
}

impl View for SourceRevs {
    type V = SourceRevsView;

    open spec fn view(&self) -> SourceRevsView {
        SourceRevsView {
            name: self.name@,
            pinned: self.pinned@,
            revs: text::texts(self.revs@),
            refs_fetched: self.refs_fetched,
        }
    }
}

/// What sources with their revisions hold.
pub open spec fn source_views(v: Seq<SourceRevs>) -> Seq<SourceRevsView> {
    Seq::new(v.len(), |i: int| v[i]@)
}

impl SourceRevs {
    /// The revision that a fresh picker selects: the first there is, else the
    /// plugin's own pin.
    pub fn default_rev(&self) -> (r: &str)
        ensures
            r@ == (if self@.revs.len() > 0 {
                self@.revs[0]
            } else {
                self@.pinned
            }),
    {
        assert(text::texts(self.revs@).len() == self.revs@.len());
        if self.revs.len() > 0 {
            assert(text::texts(self.revs@)[0] == self.revs@[0]@);
            self.revs[0].as_str()
        } else {
            self.pinned.as_str()
        }
    }
}

/// A source as the plugin declares it.
#[derive(Debug, PartialEq, Eq)]
pub struct SourceEntry {
    pub repo: String,
    /// The declared revision.
    pub tag: String,
    /// The declared commit: it resolves without the network.
    pub sha: String,
}

/// What a declared source holds.
#[verifier::ext_equal]
pub struct EntryView {
    pub repo: Seq<char>,
    pub tag: Seq<char>,
    pub sha: Seq<char>,
}

impl View for SourceEntry {
    type V = EntryView;

    open spec fn view(&self) -> EntryView {
        EntryView { repo: self.repo@, tag: self.tag@, sha: self.sha@ }
    }
}

/// What the declared sources hold, under their names.
pub open spec fn entry_views(m: Map<Seq<char>, SourceEntry>) -> Map<Seq<char>, EntryView> {
    Map::new(|k: Seq<char>| m.dom().contains(k), |k: Seq<char>| m[k]@)
}

/// What the first `n` declarations come to: the last one of a name counts.
pub open spec fn declared(sources: Seq<PluginSource>, n: nat) -> Map<Seq<char>, EntryView>
    decreases n,
{
    if n == 0 {
        Map::empty()
    } else {
        let s = sources[n - 1];
        declared(sources, (n - 1) as nat).insert(
            s.id@,
            EntryView { repo: s.repo@, tag: s.default_rev@, sha: s.default_sha@ },
        )
    }
}

/// The sources that a plugin declares. A legacy manifest declares none:
/// nothing is inferred from where its bundle happens to be.
pub open spec fn plugin_entries(m: PluginManifest) -> Map<Seq<char>, EntryView> {
    if m.manifest_version == PluginManifestVersion::V1 {
        declared(m.sources@, m.sources@.len())
    } else {
        Map::empty()
    }
}

/// The sources that a plugin declares.
pub fn source_entries_for_plugin(m: &PluginManifest) -> (r: Table<SourceEntry>)
    ensures
        entry_views(r@) == plugin_entries(*m),
{
    let mut out: Table<SourceEntry> = Table::new();
    assert(entry_views(out@) =~= Map::empty());
    if !m.is_v1() {
        return out;
    }
    let mut i: usize = 0;
    while i < m.sources.len()
        invariant
            i <= m.sources@.len(),
            entry_views(out@) == declared(m.sources@, i as nat),
        decreases m.sources@.len() - i,
    {
        let s = &m.sources[i];
        let ghost was = entry_views(out@);
        let entry = SourceEntry {
            repo: s.repo.clone(),
            tag: s.default_rev.clone(),
            sha: s.default_sha.clone(),
        };
        let ghost added = entry@;
        out.insert(s.id.clone(), entry);
        assert(entry_views(out@) =~= was.insert(s.id@, added));
        i = i + 1;
    }
    out
}

/// One source with the revisions that may be picked, given what is known of
/// its remote.
pub fn source_revs(
    name: &str,
    entry: &SourceEntry,
    refs: &Option<Table<String>>,
    fetched: Option<u64>,
) -> (r: SourceRevs)
    ensures
        r@ == (SourceRevsView {
            name: name@,
            pinned: entry.tag@,
            revs: revs::selectable(revs::opt_refs(*refs), entry.tag@),
            refs_fetched: fetched,
        }),
{
    SourceRevs {
        name: name.to_owned(),
        pinned: entry.tag.clone(),
        revs: revs::selectable_revs(refs, entry.tag.as_str()),
        refs_fetched: fetched,
    }
}

/// What is known of a source's remote.
#[derive(Debug, PartialEq)]
pub struct KnownRefs {
    pub refs: Option<Table<String>>,
    /// When the revisions were last listed, in epoch seconds.
    pub fetched: Option<u64>,
}

/// One source with its revisions, given what is known of the remotes.
pub open spec fn source_row(
    entries: Map<Seq<char>, EntryView>,
    known: Map<Seq<char>, KnownRefs>,
    name: Seq<char>,
) -> SourceRevsView {
    let refs = if known.dom().contains(name) {
        revs::opt_refs(known[name].refs)
    } else {
        None
    };
    SourceRevsView {
        name,
        pinned: entries[name].tag,
        revs: revs::selectable(refs, entries[name].tag),
        refs_fetched: if known.dom().contains(name) {
            known[name].fetched
        } else {
            None
        },
    }
}

/// The declared sources in the order of their names, each with the revisions
/// that may be picked.
pub open spec fn source_rows(
    entries: Map<Seq<char>, EntryView>,
    known: Map<Seq<char>, KnownRefs>,
) -> Seq<SourceRevsView> {
    let names = table::in_order(entries.dom());
    Seq::new(names.len(), |i: int| source_row(entries, known, names[i]))
}

/// The declared sources, each with the revisions that may be picked.
fn list_sources(entries: &Table<SourceEntry>, known: &Table<KnownRefs>) -> (r: Vec<SourceRevs>)
    ensures
        source_views(r@) == source_rows(entry_views(entries@), known@),
{
    let ghost views = entry_views(entries@);
    assert(views.dom() =~= entries@.dom());
    let ghost names = table::in_order(views.dom());
    let mut out: Vec<SourceRevs> = Vec::new();
    let mut i: usize = 0;
    while i < entries.len()
        invariant
            views == entry_views(entries@),
            views.dom() == entries@.dom(),
            names == table::in_order(views.dom()),
            i <= names.len(),
            out@.len() == i,
            forall|j: int|
                0 <= j < i ==> (#[trigger] out@[j])@ == source_row(views, known@, names[j]),
        decreases names.len() - i,
    {
        let name = entries.key_at(i);
        let entry = entries.value_at(i);
        let row = match known.get(name.as_str()) {
            Some(k) => source_revs(name.as_str(), entry, &k.refs, k.fetched),
            None => source_revs(name.as_str(), entry, &None, None),
        };
        assert(row@ == source_row(views, known@, names[i as int]));
        out.push(row);
        i = i + 1;
    }
    assert(source_views(out@) =~= source_rows(views, known@));
    out
}

/// The first plugin, from the `i`-th of a catalog on, of a name.
pub open spec fn plugin_named(catalog: Seq<PluginDir>, name: Seq<char>, i: nat) -> Option<PluginDir>
    decreases catalog.len() - i,
{
    if i >= catalog.len() {
        None
    } else if catalog[i as int].manifest.name@ == name {
        Some(catalog[i as int])
    } else {
        plugin_named(catalog, name, i + 1)
    }
}

/// The plugin of the name `name`, where the catalog holds one.
pub fn find_plugin(catalog: Vec<PluginDir>, name: &str) -> (r: Option<PluginDir>)
    ensures
        r == plugin_named(catalog@, name@, 0),
{
    let mut rest = catalog;
    let mut i: usize = 0;
    while i < rest.len()
        invariant
            rest@ == catalog@,
            i <= rest@.len(),
            plugin_named(catalog@, name@, 0) == plugin_named(catalog@, name@, i as nat),
        decreases rest@.len() - i,
    {
        if text::same(rest[i].manifest.name.as_str(), name) {
            return Some(rest.remove(i));
        }
        i = i + 1;
    }
    None
}

/// The sources of a project's plugin. A project that is not there is an
/// error, as is a catalog that cannot be read; a plugin that the catalog does
/// not hold has no sources.
pub open spec fn project_sources(
    project: Result<ProjectView, ErrorView>,
    catalog: Result<Seq<PluginDir>, ErrorView>,
    known: Map<Seq<char>, KnownRefs>,
) -> Result<Seq<SourceRevsView>, ErrorView> {
    match project {
        Err(e) => Err(e),
        Ok(project) => match catalog {
            Err(e) => Err(e),
            Ok(catalog) => match plugin_named(catalog, project.plugin, 0) {
                None => Ok(Seq::empty()),
                Some(plugin) => Ok(source_rows(plugin_entries(plugin.manifest), known)),
            },
        },
    }
}

/// What listed sources came to.
pub open spec fn sources_outcome(r: Result<Vec<SourceRevs>, Error>) -> Result<
    Seq<SourceRevsView>,
    ErrorView,
> {
    match r {
        Ok(v) => Ok(source_views(v@)),
        Err(e) => Err(e@),
    }
}

/// The sources of a project's plugin, given what reading the project and the
/// catalog came to and what is known of the remotes.
pub fn plugin_sources(
    project: Result<Project, Error>,
    catalog: Result<Vec<PluginDir>, Error>,
    known: &Table<KnownRefs>,
) -> (r: Result<Vec<SourceRevs>, Error>)
    ensures
        sources_outcome(r) == project_sources(
            error::outcome(project),
            error::outcome(catalog),
            known@,
        ),
{
    let project = match project {
        Ok(project) => project,
        Err(e) => {
            return Err(e);
        },
    };
    let catalog = match catalog {
        Ok(catalog) => catalog,
        Err(e) => {
            return Err(e);
        },
    };
    match find_plugin(catalog, project.plugin.as_str()) {
        None => {
            let none: Vec<SourceRevs> = Vec::new();
            assert(source_views(none@) =~= Seq::empty());
            Ok(none)
        },
        Some(plugin) => {
            let entries = source_entries_for_plugin(&plugin.manifest);
            Ok(list_sources(&entries, known))
        },
    }
}

// ---------------------------------------------------------------------
// Checking a pin
// ---------------------------------------------------------------------

/// The first source, from the `i`-th on, of a name.
pub open spec fn source_named(v: Seq<SourceRevsView>, name: Seq<char>, i: nat) -> Option<
    SourceRevsView,
>
    decreases v.len() - i,
{
    if i >= v.len() {
        None
    } else if v[i as int].name == name {
        Some(v[i as int])
    } else {
        source_named(v, name, i + 1)
    }
}

/// A revision may be pinned for a source: it is the plugin's pin, one that may
/// be picked, a main branch, or a commit.
pub open spec fn may_pin(source: SourceRevsView, rev: Seq<char>) -> bool {
    rev == source.pinned || source.revs.contains(rev) || revs::is_branch(rev) || revs::is_sha(rev)
}

/// What checking a pin comes to; the sources are none where they cannot be
/// told. A pin is refused only where its revisions are known and it is none
/// of them.
pub open spec fn pin_check(
    sources: Option<Seq<SourceRevsView>>,
    name: Seq<char>,
    rev: Seq<char>,
) -> Result<(), ErrorView> {
    let rev = text::trimmed(rev);
    if rev.len() == 0 {
        Err(ErrorView::Store("pin "@ + name + ": rev is empty"@))
    } else {
        match sources {
            None => Ok(()),
            Some(sources) => match source_named(sources, name, 0) {
                None => Ok(()),
                Some(source) => if may_pin(source, rev) {
                    Ok(())
                } else {
                    Err(
                        ErrorView::Store(
                            "pin "@ + name + "="@ + text::quoted(rev)
                                + " is not a known rev, tag, main/master, or a 40-hex commit sha — known: "@
                                + text::joined(source.revs, ", "@),
                        ),
                    )
                },
            },
        }
    }
}

/// What optional sources hold.
pub open spec fn opt_sources(sources: Option<&Vec<SourceRevs>>) -> Option<Seq<SourceRevsView>> {
    match sources {
        Some(v) => Some(source_views(v@)),
        None => None,
    }
}

/// The first source of the name `name`.
fn find_source<'a>(sources: &'a Vec<SourceRevs>, name: &str) -> (r: Option<&'a SourceRevs>)
    ensures
        match r {
            Some(s) => source_named(source_views(sources@), name@, 0) == Some(s@),
            None => source_named(source_views(sources@), name@, 0) is None,
        },
{
    let ghost views = source_views(sources@);
    let mut i: usize = 0;
    while i < sources.len()
        invariant
            i <= sources@.len(),
            views == source_views(sources@),
            source_named(views, name@, 0) == source_named(views, name@, i as nat),
        decreases sources@.len() - i,
    {
        assert(views[i as int] == sources@[i as int]@);
        if text::same(sources[i].name.as_str(), name) {
            return Some(&sources[i]);
        }
        i = i + 1;
    }
    None
}

/// Check a pin when it is written, without the network: one that could never
/// resolve is refused then, not when a run is launched.
pub fn validate_pin(sources: Option<&Vec<SourceRevs>>, name: &str, rev: &str) -> (r: Result<
    (),
    Error,
>)
    ensures
        error::verdict(r) == pin_check(opt_sources(sources), name@, rev@),
{
    let rev = text::trim(rev);
    if rev.as_str().is_empty() {
        return Err(Error::Store(text::cat3("pin ", name, ": rev is empty")));
    }
    let sources = match sources {
        None => {
            return Ok(());
        },
        Some(sources) => sources,
    };
    let source = match find_source(sources, name) {
        None => {
            return Ok(());
        },
        Some(source) => source,
    };
    let rev = rev.as_str();
    if text::same(rev, source.pinned.as_str()) || text::listed(source.revs.as_slice(), rev)
        || revs::branch(rev) || revs::is_commit_sha(rev) {
        Ok(())
    } else {
        Err(
            Error::Store(
                text::cat6(
                    "pin ",
                    name,
                    "=",
                    text::quote(rev).as_str(),
                    " is not a known rev, tag, main/master, or a 40-hex commit sha — known: ",
                    text::join(source.revs.as_slice(), ", ").as_str(),
                ),
            ),
        )
    }
}

// ---------------------------------------------------------------------
// Resolving pins
// ---------------------------------------------------------------------

/// What a pin needs.
#[derive(Debug, PartialEq, Eq)]
pub enum PinNeed {
    /// Nothing: it is passed over.
    Skip,
    /// No resolution: this is its commit.
    Known(String),
    /// Its label must be resolved.
    Resolve,
}

/// What a pin needs, as plain values.
pub enum NeedView {
    Skip,
    Known(Seq<char>),
    Resolve,
}

impl View for PinNeed {
    type V = NeedView;

    open spec fn view(&self) -> NeedView {
        match *self {
            PinNeed::Skip => NeedView::Skip,
            PinNeed::Known(sha) => NeedView::Known(sha@),
            PinNeed::Resolve => NeedView::Resolve,
        }
    }
}

/// What an optional declaration holds.
pub open spec fn opt_entry(entry: Option<&SourceEntry>) -> Option<EntryView> {
    match entry {
        Some(e) => Some(e@),
        None => None,
    }
}

/// What a pin needs, given the declaration of its source. A blank pin and one
/// for a source that is no longer declared are passed over. A commit is
/// itself. The declared revision is the declared commit, unless it is a
/// branch, which moves.
pub open spec fn pin_need(name: Seq<char>, rev: Seq<char>, entry: Option<EntryView>) -> Result<
    NeedView,
    ErrorView,
> {
    match entry {
        None => Ok(NeedView::Skip),
        Some(entry) => if text::trimmed(rev).len() == 0 {
            Ok(NeedView::Skip)
        } else if entry.repo.len() == 0 {
            Err(
                ErrorView::Store("source pin "@ + name + ": no repo URL in the plugin manifest"@),
            )
        } else if revs::is_sha(rev) {
            Ok(NeedView::Known(rev))
        } else if rev == entry.tag && entry.sha.len() > 0 && !revs::is_branch(entry.tag) {
            Ok(NeedView::Known(entry.sha))
        } else {
            Ok(NeedView::Resolve)
        },
    }
}

/// Decide what the pin of the source `name` at `rev` needs.
pub fn decide_pin(name: &str, rev: &str, entry: Option<&SourceEntry>) -> (r: Result<PinNeed, Error>)
    ensures
        error::outcome(r) == pin_need(name@, rev@, opt_entry(entry)),
{
    let entry = match entry {
        None => {
            return Ok(PinNeed::Skip);
        },
        Some(entry) => entry,
    };
    if text::trim(rev).as_str().is_empty() {
        return Ok(PinNeed::Skip);
    }
    if entry.repo.as_str().is_empty() {
        return Err(
            Error::Store(
                text::cat3("source pin ", name, ": no repo URL in the plugin manifest"),
            ),
        );
    }
    if revs::is_commit_sha(rev) {
        return Ok(PinNeed::Known(rev.to_owned()));
    }
    if text::same(rev, entry.tag.as_str()) && !entry.sha.as_str().is_empty() && !revs::branch(
        entry.tag.as_str(),
    ) {
        return Ok(PinNeed::Known(entry.sha.clone()));
    }
    Ok(PinNeed::Resolve)
}

/// What a pin whose label was to be resolved comes to: where that failed, the
/// declared commit stands in, for the declared revision alone.
pub open spec fn pin_settled(
    rev: Seq<char>,
    entry: EntryView,
    resolved: Result<Seq<char>, ErrorView>,
) -> Result<Seq<char>, ErrorView> {
    match resolved {
        Ok(sha) => Ok(sha),
        Err(e) => if rev == entry.tag && entry.sha.len() > 0 {
            Ok(entry.sha)
        } else {
            Err(e)
        },
    }
}

/// The commit of a pin whose label was to be resolved.
pub fn settle_pin(rev: &str, entry: &SourceEntry, resolved: Result<String, Error>) -> (r: Result<
    String,
    Error,
>)
    ensures
        error::outcome(r) == pin_settled(rev@, entry@, error::outcome(resolved)),
{
    match resolved {
        Ok(sha) => Ok(sha),
        Err(e) => if text::same(rev, entry.tag.as_str()) && !entry.sha.as_str().is_empty() {
            Ok(entry.sha.clone())
        } else {
            Err(e)
        },
    }
}

/// What one pin comes to, given what resolving its label would: its commit,
/// or none where it is passed over.
pub open spec fn pin_commit(
    name: Seq<char>,
    rev: Seq<char>,
    entry: Option<EntryView>,
    resolved: Result<Seq<char>, ErrorView>,
) -> Result<Option<Seq<char>>, ErrorView> {
    match pin_need(name, rev, entry) {
        Err(e) => Err(e),
        Ok(NeedView::Skip) => Ok(None),
        Ok(NeedView::Known(sha)) => Ok(Some(sha)),
        Ok(NeedView::Resolve) => match pin_settled(rev, entry->Some_0, resolved) {
            Ok(sha) => Ok(Some(sha)),
            Err(e) => Err(e),
        },
    }
}

/// What a tree that was fetched for a commit comes to: it must be at that
/// commit.
pub open spec fn tree_check(
    name: Seq<char>,
    sha: Seq<char>,
    fetched: Result<Seq<char>, ErrorView>,
) -> Result<(), ErrorView> {
    match fetched {
        Err(e) => Err(e),
        Ok(at) => if at == sha {
            Ok(())
        } else {
            Err(
                ErrorView::Store(
                    "source pin "@ + name + ": the tree is at "@ + at + ", not at "@ + sha,
                ),
            )
        },
    }
}

/// Check that the tree which was fetched for the commit `sha` is at it.
pub fn check_tree(name: &str, sha: &str, fetched: &Result<String, Error>) -> (r: Result<(), Error>)
    ensures
        error::verdict(r) == tree_check(name@, sha@, error::outcome(*fetched)),
{
    match fetched {
        Err(e) => Err(copy_error(e)),
        Ok(at) => if text::same(at.as_str(), sha) {
            Ok(())
        } else {
            Err(
                Error::Store(
                    text::cat6(
                        "source pin ",
                        name,
                        ": the tree is at ",
                        at.as_str(),
                        ", not at ",
                        sha,
                    ),
                ),
            )
        },
    }
}

/// What preparing the first `n` pins comes to, in the order of their names:
/// each one's commit, once its tree was fetched. `answers` gives, for each
/// name, the commit that its label stands for and the commit that its tree is
/// at.
pub open spec fn prepared(
    pins: Map<Seq<char>, Seq<char>>,
    entries: Map<Seq<char>, EntryView>,
    answers: spec_fn(Seq<char>) -> (Result<Seq<char>, ErrorView>, Result<Seq<char>, ErrorView>),
    n: nat,
) -> Result<Map<Seq<char>, Seq<char>>, ErrorView>
    decreases n,
{
    if n == 0 {
        Ok(Map::empty())
    } else {
        let name = table::in_order(pins.dom())[n - 1];
        let entry = if entries.dom().contains(name) {
            Some(entries[name])
        } else {
            None
        };
        match prepared(pins, entries, answers, (n - 1) as nat) {
            Err(e) => Err(e),
            Ok(before) => match pin_commit(name, pins[name], entry, answers(name).0) {
                Err(e) => Err(e),
                Ok(None) => Ok(before),
                Ok(Some(sha)) => match tree_check(name, sha, answers(name).1) {
                    Err(e) => Err(e),
                    Ok(_) => Ok(before.insert(name, sha)),
                },
            },
        }
    }
}

/// What resolving the label of a pin, and fetching its tree, came to.
#[derive(Debug, PartialEq)]
pub struct PinAnswer {
    /// The commit that the label stands for.
    pub resolved: Result<String, Error>,
    /// The commit that the tree is at.
    pub fetched: Result<String, Error>,
}

/// The answers, as a function of the name.
pub open spec fn answer_fn(answers: Map<Seq<char>, PinAnswer>) -> spec_fn(Seq<char>) -> (
    Result<Seq<char>, ErrorView>,
    Result<Seq<char>, ErrorView>,
) {
    |name: Seq<char>|
        (error::outcome(answers[name].resolved), error::outcome(answers[name].fetched))
}

/// What a result of commits holds.
pub open spec fn commits_outcome(r: Result<Table<String>, Error>) -> Result<
    Map<Seq<char>, Seq<char>>,
    ErrorView,
> {
    match r {
        Ok(t) => Ok(table::text_values(t@)),
        Err(e) => Err(e@),
    }
}

/// What an error came to, again.
fn copy_error(e: &Error) -> (r: Error)
    ensures
        r@ == e@,
{
    match e {
        Error::Io(m) => Error::Io(m.clone()),
        Error::Json(m) => Error::Json(m.clone()),
        Error::Yaml(m) => Error::Yaml(m.clone()),
        Error::Toml(m) => Error::Toml(m.clone()),
        Error::Store(m) => Error::Store(m.clone()),
        Error::Manifest(p, m) => Error::Manifest(p.clone(), m.clone()),
        Error::Plugin { plugin, message } => Error::Plugin {
            plugin: plugin.clone(),
            message: message.clone(),
        },
        Error::PluginClosed(p) => Error::PluginClosed(p.clone()),
    }
}

/// The declaration of the source `name`, if there is one.
fn entry_of<'a>(entries: &'a Table<SourceEntry>, name: &str) -> (r: Option<&'a SourceEntry>)
    ensures
        opt_entry(r) == (if entry_views(entries@).dom().contains(name@) {
            Some(entry_views(entries@)[name@])
        } else {
            None
        }),
{
    entries.get(name)
}

/// Once pins could not be prepared, more of them do not help.
proof fn lemma_prepared_error_stays(
    pins: Map<Seq<char>, Seq<char>>,
    entries: Map<Seq<char>, EntryView>,
    answers: spec_fn(Seq<char>) -> (Result<Seq<char>, ErrorView>, Result<Seq<char>, ErrorView>),
    n: nat,
    m: nat,
)
    requires
        n <= m,
        prepared(pins, entries, answers, n) is Err,
    ensures
        prepared(pins, entries, answers, m) == prepared(pins, entries, answers, n),
    decreases m,
{
    if n < m {
        lemma_prepared_error_stays(pins, entries, answers, n, (m - 1) as nat);
    }
}

/// The commits of a mission's pins, given the answers for each of them: what
/// a run reads is fixed when it is launched. The first pin that cannot be had
/// fails them all; no run silently reads another revision.
pub fn prepare_source_pins(
    pins: &Table<String>,
    entries: &Table<SourceEntry>,
    answers: &Table<PinAnswer>,
) -> (r: Result<Table<String>, Error>)
    requires
        forall|name: Seq<char>|
            pins@.dom().contains(name) ==> #[trigger] answers@.dom().contains(name),
    ensures
        commits_outcome(r) == prepared(
            table::text_values(pins@),
            entry_views(entries@),
            answer_fn(answers@),
            table::in_order(pins@.dom()).len(),
        ),
{
    let n: usize = pins.len();
    let ghost names = table::in_order(pins@.dom());
    let ghost vp = table::text_values(pins@);
    let ghost ve = entry_views(entries@);
    let ghost va = answer_fn(answers@);
    assert(vp.dom() =~= pins@.dom());
    let mut out: Table<String> = Table::new();
    let mut i: usize = 0;
    assert(table::text_values(out@) =~= Map::empty());
    while i < n
        invariant
            i <= n,
            n == names.len(),
            names == table::in_order(pins@.dom()),
            table::lists(names, pins@.dom()),
            vp == table::text_values(pins@),
            vp.dom() == pins@.dom(),
            ve == entry_views(entries@),
            va == answer_fn(answers@),
            forall|name: Seq<char>|
                pins@.dom().contains(name) ==> #[trigger] answers@.dom().contains(name),
            prepared(vp, ve, va, i as nat) == Ok::<Map<Seq<char>, Seq<char>>, ErrorView>(
                table::text_values(out@),
            ),
        decreases n - i,
    {
        let name = pins.key_at(i);
        let rev = pins.value_at(i);
        assert(names.contains(names[i as int]));
        assert(pins@.dom().contains(name@));
        assert(answers@.dom().contains(name@));
        let entry = entry_of(entries, name.as_str());
        let need = match decide_pin(name.as_str(), rev.as_str(), entry) {
            Ok(need) => need,
            Err(e) => {
                proof {
                    lemma_prepared_error_stays(vp, ve, va, (i + 1) as nat, n as nat);
                }
                return Err(e);
            },
        };
        let answer = match answers.get(name.as_str()) {
            Some(answer) => answer,
            None => {
                return Ok(out);
            },
        };
        let sha = match need {
            PinNeed::Skip => None,
            PinNeed::Known(sha) => Some(sha),
            PinNeed::Resolve => match entry {
                Some(entry) => {
                    let resolved = match &answer.resolved {
                        Ok(sha) => Ok(sha.clone()),
                        Err(e) => Err(copy_error(e)),
                    };
                    match settle_pin(rev.as_str(), entry, resolved) {
                        Ok(sha) => Some(sha),
                        Err(e) => {
                            proof {
                                lemma_prepared_error_stays(vp, ve, va, (i + 1) as nat, n as nat);
                            }
                            return Err(e);
                        },
                    }
                },
                None => None,
            },
        };
        match sha {
            None => {},
            Some(sha) => {
                match check_tree(name.as_str(), sha.as_str(), &answer.fetched) {
                    Err(e) => {
                        proof {
                            lemma_prepared_error_stays(vp, ve, va, (i + 1) as nat, n as nat);
                        }
                        return Err(e);
                    },
                    Ok(_) => {},
                }
                let ghost was = table::text_values(out@);
                let ghost key = name@;
                let ghost value = sha@;
                out.insert(name.clone(), sha);
                assert(table::text_values(out@) =~= was.insert(key, value));
            },
        }
        i = i + 1;
    }
    Ok(out)
}

/// Check that the plugin of a mission with pins is there.
pub fn check_pinned_plugin(pins: &Table<String>, plugin: &str, found: bool) -> (r: Result<(), Error>)
    ensures
        error::verdict(r) == (if table::in_order(pins@.dom()).len() > 0 && !found {
            Err(
                ErrorView::Store(
                    "mission carries source pins but plugin "@ + plugin@ + " is not discovered"@,
                ),
            )
        } else {
            Ok(())
        }),
{
    if pins.len() > 0 && !found {
        Err(
            Error::Store(
                text::cat3(
                    "mission carries source pins but plugin ",
                    plugin,
                    " is not discovered",
                ),
            ),
        )
    } else {
        Ok(())
    }
}

// ---------------------------------------------------------------------
// Laws
// ---------------------------------------------------------------------

/// A revision that a picker offers is one that may be pinned.
pub proof fn law_offered_revs_may_be_pinned(
    sources: Seq<SourceRevsView>,
    name: Seq<char>,
    rev: Seq<char>,
)
    requires
        source_named(sources, name, 0) is Some,
        source_named(sources, name, 0)->Some_0.revs.contains(text::trimmed(rev)),
        text::trimmed(rev).len() > 0,
    ensures
        pin_check(Some(sources), name, rev) is Ok,
{
}

/// A project that is not there is an error; a plugin that is not there, or
/// that declares nothing, has no sources, which is none.
pub proof fn law_missing_plugin_has_no_sources(
    project: Result<ProjectView, ErrorView>,
    catalog: Seq<PluginDir>,
    known: Map<Seq<char>, KnownRefs>,
)
    ensures
        project matches Err(e) ==> project_sources(project, Ok(catalog), known) == Err::<
            Seq<SourceRevsView>,
            ErrorView,
        >(e),
        project matches Ok(p) ==> {
            let named = plugin_named(catalog, p.plugin, 0);
            named is None || named->Some_0.manifest.manifest_version
                == PluginManifestVersion::Legacy ==> project_sources(project, Ok(catalog), known)
                == Ok::<Seq<SourceRevsView>, ErrorView>(Seq::empty())
        },
{
    if project is Ok {
        match plugin_named(catalog, project->Ok_0.plugin, 0) {
            None => {},
            Some(plugin) => {
                if plugin.manifest.manifest_version == PluginManifestVersion::Legacy {
                    let entries = plugin_entries(plugin.manifest);
                    assert(entries.dom() =~= Set::empty());
                    table::lemma_in_order_empty();
                    assert(source_rows(entries, known) =~= Seq::empty());
                }
            },
        }
    }
}

proof fn lemma_declared_finite(sources: Seq<PluginSource>, n: nat)
    ensures
        declared(sources, n).dom().finite(),
    decreases n,
{
    if n > 0 {
        lemma_declared_finite(sources, (n - 1) as nat);
    }
}

/// A plugin declares finitely many sources.
proof fn lemma_entries_finite(m: PluginManifest)
    ensures
        plugin_entries(m).dom().finite(),
{
    lemma_declared_finite(m.sources@, m.sources@.len());
}

/// Every source that is listed is declared, is at its declared revision by
/// default, and offers it.
pub proof fn law_listed_sources_offer_their_pins(
    project: ProjectView,
    catalog: Seq<PluginDir>,
    known: Map<Seq<char>, KnownRefs>,
    i: int,
)
    requires
        plugin_named(catalog, project.plugin, 0) is Some,
        0 <= i < project_sources(Ok(project), Ok(catalog), known)->Ok_0.len(),
    ensures
        ({
            let entries = plugin_entries(
                plugin_named(catalog, project.plugin, 0)->Some_0.manifest,
            );
            let row = project_sources(Ok(project), Ok(catalog), known)->Ok_0[i];
            &&& entries.dom().contains(row.name)
            &&& row.pinned == entries[row.name].tag
            &&& row.revs.contains(row.pinned)
            &&& may_pin(row, row.pinned)
        }),
{
    let entries = plugin_entries(plugin_named(catalog, project.plugin, 0)->Some_0.manifest);
    let names = table::in_order(entries.dom());
    lemma_entries_finite(plugin_named(catalog, project.plugin, 0)->Some_0.manifest);
    table::lemma_finite_in_order(entries.dom());
    assert(names.contains(names[i]));
    let row = source_row(entries, known, names[i]);
    let refs = if known.dom().contains(names[i]) {
        revs::opt_refs(known[names[i]].refs)
    } else {
        None
    };
    match refs {
        None => {
            assert(row.revs[0] == row.pinned);
        },
        Some(refs) => {
            let lead = revs::leading(refs);
            if lead.contains(row.pinned) {
                let k = choose|k: int| 0 <= k < lead.len() && lead[k] == row.pinned;
                assert(row.revs[k] == row.pinned);
            } else {
                assert(row.revs[lead.len() as int] == row.pinned);
            }
        },
    }
}

/// A run reads what its mission recorded: the tree of every prepared pin is
/// at the commit that is recorded for it.
pub proof fn law_prepared_trees_are_at_their_commits(
    pins: Map<Seq<char>, Seq<char>>,
    entries: Map<Seq<char>, EntryView>,
    answers: spec_fn(Seq<char>) -> (Result<Seq<char>, ErrorView>, Result<Seq<char>, ErrorView>),
    n: nat,
    name: Seq<char>,
)
    requires
        prepared(pins, entries, answers, n) is Ok,
        prepared(pins, entries, answers, n)->Ok_0.dom().contains(name),
    ensures
        answers(name).1 == Ok::<Seq<char>, ErrorView>(
            prepared(pins, entries, answers, n)->Ok_0[name],
        ),
        pin_commit(name, pins[name], Some(entries[name]), answers(name).0) == Ok::<
            Option<Seq<char>>,
            ErrorView,
        >(Some(prepared(pins, entries, answers, n)->Ok_0[name])),
        entries.dom().contains(name),
    decreases n,
{
    if n > 0 {
        let last = table::in_order(pins.dom())[n - 1];
        let before = prepared(pins, entries, answers, (n - 1) as nat);
        if before->Ok_0.dom().contains(name) {
            law_prepared_trees_are_at_their_commits(
                pins,
                entries,
                answers,
                (n - 1) as nat,
                name,
            );
        }
    }
}

proof fn lemma_prepared_names(
    pins: Map<Seq<char>, Seq<char>>,
    entries: Map<Seq<char>, EntryView>,
    answers: spec_fn(Seq<char>) -> (Result<Seq<char>, ErrorView>, Result<Seq<char>, ErrorView>),
    n: nat,
    name: Seq<char>,
)
    requires
        n <= table::in_order(pins.dom()).len(),
        prepared(pins, entries, answers, n) is Ok,
    ensures
        prepared(pins, entries, answers, n)->Ok_0.dom().contains(name) <==> table::in_order(
            pins.dom(),
        ).take(n as int).contains(name) && entries.dom().contains(name) && text::trimmed(
            pins[name],
        ).len() > 0,
    decreases n,
{
    let names = table::in_order(pins.dom());
    if n > 0 {
        lemma_prepared_names(pins, entries, answers, (n - 1) as nat, name);
        let fewer = names.take(n - 1);
        let more = names.take(n as int);
        assert(more =~= fewer.push(names[n - 1]));
        assert(more[n - 1] == names[n - 1]);
        if fewer.contains(name) {
            let k = choose|k: int| 0 <= k < fewer.len() && fewer[k] == name;
            assert(more[k] == name);
        }
    }
}

/// The pins that are prepared are those of declared sources that say
/// something, and no others.
pub proof fn law_declared_pins_are_prepared(
    pins: Map<Seq<char>, Seq<char>>,
    entries: Map<Seq<char>, EntryView>,
    answers: spec_fn(Seq<char>) -> (Result<Seq<char>, ErrorView>, Result<Seq<char>, ErrorView>),
    name: Seq<char>,
)
    requires
        pins.dom().finite(),
        prepared(pins, entries, answers, table::in_order(pins.dom()).len()) is Ok,
    ensures
        prepared(
            pins,
            entries,
            answers,
            table::in_order(pins.dom()).len(),
        )->Ok_0.dom().contains(name) <==> pins.dom().contains(name) && entries.dom().contains(name)
            && text::trimmed(pins[name]).len() > 0,
{
    let names = table::in_order(pins.dom());
    table::lemma_finite_in_order(pins.dom());
    lemma_prepared_names(pins, entries, answers, names.len(), name);
    assert(names.take(names.len() as int) =~= names);
}

/// The audited default works offline: the declared revision comes to the
/// declared commit whatever resolving would say, and where the declared
/// revision is a branch, also where resolving fails.
pub proof fn law_default_pin_works_offline(
    name: Seq<char>,
    entry: EntryView,
    resolved: Result<Seq<char>, ErrorView>,
)
    requires
        entry.repo.len() > 0,
        entry.sha.len() > 0,
        text::trimmed(entry.tag).len() > 0,
        !revs::is_sha(entry.tag),
    ensures
        !revs::is_branch(entry.tag) ==> pin_commit(name, entry.tag, Some(entry), resolved) == Ok::<
            Option<Seq<char>>,
            ErrorView,
        >(Some(entry.sha)),
        revs::is_branch(entry.tag) ==> pin_commit(name, entry.tag, Some(entry), resolved) == Ok::<
            Option<Seq<char>>,
            ErrorView,
        >(
            Some(
                match resolved {
                    Ok(head) => head,
                    Err(_) => entry.sha,
                },
            ),
        ),
{
}

/// No run reads a revision that its mission did not record: a pin that is not
/// the declared one and does not resolve is an error, never another commit.
pub proof fn law_unresolved_pin_is_an_error(
    name: Seq<char>,
    rev: Seq<char>,
    entry: EntryView,
    e: ErrorView,
)
    requires
        entry.repo.len() > 0,
        text::trimmed(rev).len() > 0,
        rev != entry.tag,
        !revs::is_sha(rev),
    ensures
        pin_commit(name, rev, Some(entry), Err(e)) == Err::<Option<Seq<char>>, ErrorView>(e),
{
}

/// A pin for a source that is no longer declared does not keep a run from
/// being launched.
pub proof fn law_stale_pins_are_passed_over(
    name: Seq<char>,
    rev: Seq<char>,
    resolved: Result<Seq<char>, ErrorView>,
)
    ensures
        pin_commit(name, rev, None, resolved) == Ok::<Option<Seq<char>>, ErrorView>(None),
{
}

/// Where nothing is declared, no pin of a mission is resolved.
proof fn lemma_nothing_prepared(
    pins: Map<Seq<char>, Seq<char>>,
    answers: spec_fn(Seq<char>) -> (Result<Seq<char>, ErrorView>, Result<Seq<char>, ErrorView>),
    n: nat,
)
    ensures
        prepared(pins, Map::empty(), answers, n) == Ok::<Map<Seq<char>, Seq<char>>, ErrorView>(
            Map::empty(),
        ),
    decreases n,
{
    if n > 0 {
        lemma_nothing_prepared(pins, answers, (n - 1) as nat);
    }
}

/// A legacy plugin declares no sources, so no pin of a mission is resolved
/// for it and any that says something may be written.
pub proof fn law_legacy_plugin_has_no_sources(
    m: PluginManifest,
    pins: Map<Seq<char>, Seq<char>>,
    answers: spec_fn(Seq<char>) -> (Result<Seq<char>, ErrorView>, Result<Seq<char>, ErrorView>),
    n: nat,
    name: Seq<char>,
    rev: Seq<char>,
)
    requires
        m.manifest_version == PluginManifestVersion::Legacy,
    ensures
        plugin_entries(m) == Map::<Seq<char>, EntryView>::empty(),
        prepared(pins, plugin_entries(m), answers, n) == Ok::<
            Map<Seq<char>, Seq<char>>,
            ErrorView,
        >(Map::empty()),
        text::trimmed(rev).len() > 0 ==> pin_check(Some(Seq::empty()), name, rev) is Ok,
{
    lemma_nothing_prepared(pins, answers, n);
}

} // verus!
