//! What the registry is for: that a pin reads what it names, and that a
//! plugin's row says what the plugin said.
use vstd::prelude::*;
use crate::error;
use crate::error::ErrorView;
use crate::json;
use crate::json::JsonView;
use crate::plugin::manifest::{PluginDir, PluginSource};
use crate::registry::pins;
use crate::registry::pins::{EntryView, KnownRefs, SourceRevsView};
use crate::registry::status;
use crate::registry::status::{PluginObservation, ProbeOutcome};
use crate::srcrev::revs;
use crate::table;
use crate::text;

verus! {

/// A declared source is known under its id, with the repository, the revision
/// and the commit that it is declared with, whatever else is declared.
pub proof fn law_sources_are_known_as_declared(sources: Seq<PluginSource>, n: nat, i: int)
    requires
        0 <= i < n <= sources.len(),
        forall|j: int| i < j < n ==> (#[trigger] sources[j]).id@ != sources[i].id@,
    ensures
        pins::declared(sources, n).dom().contains(sources[i].id@),
        pins::declared(sources, n)[sources[i].id@].repo == sources[i].repo@,
        pins::declared(sources, n)[sources[i].id@].tag == sources[i].default_rev@,
        pins::declared(sources, n)[sources[i].id@].sha == sources[i].default_sha@,
    decreases n,
{
    if i < n - 1 {
        law_sources_are_known_as_declared(sources, (n - 1) as nat, i);
        assert(sources[n - 1].id@ != sources[i].id@);
    }
}

/// Nothing is known that is not declared.
pub proof fn law_only_declared_sources_are_known(sources: Seq<PluginSource>, n: nat, id: Seq<char>)
    requires
        n <= sources.len(),
        pins::declared(sources, n).dom().contains(id),
    ensures
        exists|i: int| 0 <= i < n && (#[trigger] sources[i]).id@ == id,
    decreases n,
{
    if sources[n - 1].id@ != id {
        law_only_declared_sources_are_known(sources, (n - 1) as nat, id);
    }
}

/// A project's plugin is the first of the catalog that goes by its name.
pub proof fn law_plugins_are_found_by_name(catalog: Seq<PluginDir>, name: Seq<char>, i: nat, at: nat)
    requires
        i <= at < catalog.len(),
        catalog[at as int].manifest.name@ == name,
        forall|j: int| i <= j < at ==> (#[trigger] catalog[j]).manifest.name@ != name,
    ensures
        pins::plugin_named(catalog, name, i) == Some(catalog[at as int]),
    decreases at - i,
{
    if i < at {
        assert(catalog[i as int].manifest.name@ != name);
        law_plugins_are_found_by_name(catalog, name, i + 1, at);
    }
}

/// A source is found by its name.
pub proof fn law_sources_are_found_by_name(
    v: Seq<SourceRevsView>,
    name: Seq<char>,
    i: nat,
    at: nat,
)
    requires
        i <= at < v.len(),
        v[at as int].name == name,
        forall|j: int| i <= j < at ==> (#[trigger] v[j]).name != name,
    ensures
        pins::source_named(v, name, i) == Some(v[at as int]),
    decreases at - i,
{
    if i < at {
        assert(v[i as int].name != name);
        law_sources_are_found_by_name(v, name, i + 1, at);
    }
}

/// Every declared source is listed, under its name, pinned where it is
/// declared, and with what is known of its remote.
pub proof fn law_every_source_is_listed(
    entries: Map<Seq<char>, EntryView>,
    known: Map<Seq<char>, KnownRefs>,
    name: Seq<char>,
)
    requires
        entries.dom().finite(),
        entries.dom().contains(name),
    ensures
        pins::source_rows(entries, known).contains(pins::source_row(entries, known, name)),
        pins::source_row(entries, known, name).name == name,
        pins::source_row(entries, known, name).pinned == entries[name].tag,
        known.dom().contains(name) ==> pins::source_row(entries, known, name).refs_fetched
            == known[name].fetched,
        !known.dom().contains(name) ==> pins::source_row(entries, known, name).refs_fetched is None,
        known.dom().contains(name) ==> pins::source_row(entries, known, name).revs
            == revs::selectable(revs::opt_refs(known[name].refs), entries[name].tag),
{
    table::lemma_finite_in_order(entries.dom());
    let names = table::in_order(entries.dom());
    assert(names.contains(name));
    let i = choose|i: int| 0 <= i < names.len() && names[i] == name;
    assert(pins::source_rows(entries, known)[i] == pins::source_row(entries, known, name));
}

/// A pin is refused where it is blank, and where its source's revisions are
/// known and it is none of them: neither the declared one, nor one that is
/// offered, nor a main branch, nor a full commit.
pub proof fn law_pins_are_refused_only_where_they_cannot_be(
    sources: Seq<SourceRevsView>,
    source: SourceRevsView,
    name: Seq<char>,
    rev: Seq<char>,
)
    requires
        pins::source_named(sources, name, 0) == Some(source),
    ensures
        text::all_white(rev) ==> pins::pin_check(Some(sources), name, rev) is Err
            && pins::pin_check(None, name, rev) is Err,
        !text::all_white(rev) ==> pins::pin_check(None, name, rev) is Ok,
        !text::all_white(rev) ==> (pins::pin_check(Some(sources), name, rev) is Ok
            <==> text::trimmed(rev) == source.pinned || source.revs.contains(text::trimmed(rev))
            || text::trimmed(rev) == "main"@ || text::trimmed(rev) == "master"@ || revs::is_sha(
            text::trimmed(rev),
        )),
{
    text::law_trimming_takes_only_white_space(rev);
}

/// A pin that is a commit reads that commit, whatever resolving would say; one
/// that is a label other than the declared one reads the commit that the label
/// resolves to.
pub proof fn law_pins_read_what_they_name(
    name: Seq<char>,
    rev: Seq<char>,
    entry: EntryView,
    resolved: Result<Seq<char>, ErrorView>,
    head: Seq<char>,
)
    requires
        entry.repo.len() > 0,
        text::trimmed(rev).len() > 0,
    ensures
        revs::is_sha(rev) ==> pins::pin_commit(name, rev, Some(entry), resolved) == Ok::<
            Option<Seq<char>>,
            ErrorView,
        >(Some(rev)),
        !revs::is_sha(rev) && rev != entry.tag ==> pins::pin_commit(
            name,
            rev,
            Some(entry),
            Ok(head),
        ) == Ok::<Option<Seq<char>>, ErrorView>(Some(head)),
{
}

/// A source without a repository can not be pinned.
pub proof fn law_pins_need_a_repository(
    name: Seq<char>,
    rev: Seq<char>,
    entry: EntryView,
    resolved: Result<Seq<char>, ErrorView>,
)
    requires
        entry.repo.len() == 0,
        text::trimmed(rev).len() > 0,
    ensures
        pins::pin_commit(name, rev, Some(entry), resolved) is Err,
{
}

/// A tree is good where it is at the commit that it was fetched for.
pub proof fn law_trees_are_held_to_their_commit(
    name: Seq<char>,
    sha: Seq<char>,
    at: Seq<char>,
    e: ErrorView,
)
    ensures
        pins::tree_check(name, sha, Ok(at)) is Ok <==> at == sha,
        pins::tree_check(name, sha, Err(e)) == Err::<(), ErrorView>(e),
{
}

// ---------------------------------------------------------------------
// Status
// ---------------------------------------------------------------------

/// A reply is read as it is: ready only where it says so, with its notes, its
/// versions and what it says of its preparation.
pub proof fn law_replies_are_read_as_they_are(v: JsonView)
    ensures
        status::probe_of(v).ready <==> json::member(v, "ready"@) == Some(JsonView::Bool(true)),
        json::member_text(v, "notes"@) matches Some(t) ==> status::probe_of(v).notes == t,
        json::member_text(v, "notes"@) is None ==> status::probe_of(v).notes == json::compact(v),
        status::probe_of(v).running_version == json::member_text(v, "running_version"@),
        status::probe_of(v).expected_tag == json::member_text(v, "expected_tag"@),
        json::member_text(v, "image_digest"@) matches Some(t) ==> t.len() > 0
            ==> status::prepared_of(v).image_digest == Some(t),
        json::member_text(v, "environment_lock"@) matches Some(t) ==> t.len() > 0
            ==> status::prepared_of(v).environment_lock == Some(t),
        json::member(v, "backbone"@) matches Some(b) ==> {
            &&& json::member_text(b, "topology"@) matches Some(t) ==> t.len() > 0
                ==> status::prepared_of(v).topology == Some(t)
            &&& json::member_text(b, "ownership"@) matches Some(t) ==> t.len() > 0
                ==> status::prepared_of(v).backbone_ownership == Some(t)
        },
        json::member(v, "docker"@) matches Some(d) ==> {
            json::member(d, "required"@) matches Some(JsonView::Bool(b)) ==> status::prepared_of(
                v,
            ).docker_required == Some(b)
        },
        json::member(v, "image_digest"@) is None ==> status::prepared_of(v).image_digest is None,
        json::member(v, "docker"@) is None ==> status::prepared_of(v).docker_required is None,
{
}

/// A row says what its plugin declares, and what probing it came to: the probe
/// as it was, or why there is none.
pub proof fn law_rows_say_what_came_of_their_plugin(o: PluginObservation, probed: bool)
    ensures
        ({
            let row = status::status_row(o, probed);
            &&& row.name == o.plugin.manifest.name@
            &&& row.version == text::opt_text(o.plugin.manifest.version)
            &&& row.description == text::opt_text(o.plugin.manifest.description)
            &&& row.protocol == text::opt_text(o.plugin.manifest.protocol)
            &&& row.capabilities == text::texts(o.plugin.manifest.capabilities@)
            &&& row.origin == o.plugin.origin
            &&& row.probed == probed
            &&& !probed ==> !row.probe.ready && row.bundle_digest is None
            &&& probed && o.verified is Ok ==> row.bundle_digest == Some(o.verified->Ok_0@)
            &&& probed && o.verified is Ok ==> (o.probe matches ProbeOutcome::Probed(p, q)
                ==> row.probe == p@ && row.prepared == q@)
            &&& probed && o.verified is Ok ==> (o.probe matches ProbeOutcome::NotSpawned(e)
                ==> !row.probe.ready && error::shown(e@).is_suffix_of(row.probe.notes))
            &&& probed && o.verified is Ok ==> (o.probe matches ProbeOutcome::NotProbed(e)
                ==> !row.probe.ready && error::shown(e@).is_suffix_of(row.probe.notes))
            &&& probed ==> (o.verified matches Err(e) ==> !row.probe.ready && error::shown(
                e@,
            ).is_suffix_of(row.probe.notes))
        }),
{
    let row = status::status_row(o, probed);
    if probed {
        match o.verified {
            Err(e) => {
                lemma_ends("bundle verification failed: "@, error::shown(e@));
            },
            Ok(_) => match o.probe {
                ProbeOutcome::NotSpawned(e) => {
                    lemma_ends("spawn failed: "@, error::shown(e@));
                },
                ProbeOutcome::NotProbed(e) => {
                    lemma_ends("probe failed: "@, error::shown(e@));
                },
                _ => {},
            },
        }
    }
}

proof fn lemma_ends(a: Seq<char>, b: Seq<char>)
    ensures
        b.is_suffix_of(a + b),
{
    let s = a + b;
    assert(b =~= s.subrange(s.len() - b.len(), s.len() as int));
}

/// The selected plugin is probed, and all are where all are asked for; no
/// other is.
pub proof fn law_only_what_was_asked_for_is_probed(
    selected: Option<Seq<char>>,
    name: Seq<char>,
)
    ensures
        status::is_probed(selected, true, name),
        status::is_probed(selected, false, name) <==> selected == Some(name),
{
}

} // verus!
