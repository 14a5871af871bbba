//! The status of the plugins: what each declares, and what probing the
//! selected one says of its environment. A broken plugin is a row that says
//! so; it never hides the others.
use vstd::prelude::*;
use crate::error;
use crate::error::Error;
use crate::json;
use crate::json::{Json, JsonView};
use crate::plugin::manifest::{PluginDir, PluginOrigin};
use crate::plugin::protocol::{ProbeResult, ProbeView};
use crate::text;

verus! {

/// What an environment says of its preparation, whatever plugin it is.
#[derive(Debug, PartialEq, Eq)]
pub struct PluginPreparedStatus {
    pub docker_required: Option<bool>,
    pub environment_lock: Option<String>,
    pub image_digest: Option<String>,
    pub topology: Option<String>,
    pub backbone_ownership: Option<String>,
}

/// What an environment says of its preparation, as plain values.
#[verifier::ext_equal]
pub struct PreparedView {
    pub docker_required: Option<bool>,
    pub environment_lock: Option<Seq<char>>,
    pub image_digest: Option<Seq<char>>,
    pub topology: Option<Seq<char>>,
    pub backbone_ownership: Option<Seq<char>>,
}

impl View for PluginPreparedStatus {
    type V = PreparedView;

    open spec fn view(&self) -> PreparedView {
        PreparedView {
            docker_required: self.docker_required,
            environment_lock: text::opt_text(self.environment_lock),
            image_digest: text::opt_text(self.image_digest),
            topology: text::opt_text(self.topology),
            backbone_ownership: text::opt_text(self.backbone_ownership),
        }
    }
}

/// Nothing is said of the preparation.
pub open spec fn unprepared() -> PreparedView {
    PreparedView {
        docker_required: None,
        environment_lock: None,
        image_digest: None,
        topology: None,
        backbone_ownership: None,
    }
}

impl Default for PluginPreparedStatus {
    fn default() -> (r: PluginPreparedStatus)
        ensures
            r@ == unprepared(),
    {
        PluginPreparedStatus {
            docker_required: None,
            environment_lock: None,
            image_digest: None,
            topology: None,
            backbone_ownership: None,
        }
    }
}

/// A plugin and what is known of it right now.
#[derive(Debug, PartialEq, Eq)]
pub struct PluginStatus {
    pub name: String,
    /// The plugin's own version, not its target's.
    pub version: Option<String>,
    pub description: Option<String>,
    /// It was probed.
    pub probed: bool,
    /// Its environment is ready.
    pub ready: bool,
    pub notes: String,
    /// The version that the target runs right now.
    pub running_version: Option<String>,
    pub expected_tag: Option<String>,
    pub protocol: Option<String>,
    pub capabilities: Vec<String>,
    pub origin: PluginOrigin,
    /// The digest of the bundle, once it was verified.
    pub bundle_digest: Option<String>,
    pub prepared: PluginPreparedStatus,
}

/// What the status of a plugin holds.
#[verifier::ext_equal]
pub struct StatusView {
    pub name: Seq<char>,
    pub version: Option<Seq<char>>,
    pub description: Option<Seq<char>>,
    pub probed: bool,
    pub probe: ProbeView,
    pub protocol: Option<Seq<char>>,
    pub capabilities: Seq<Seq<char>>,
    pub origin: PluginOrigin,
    pub bundle_digest: Option<Seq<char>>,
    pub prepared: PreparedView,
}

impl View for PluginStatus {
    type V = StatusView;

    open spec fn view(&self) -> StatusView {
        StatusView {
            name: self.name@,
            version: text::opt_text(self.version),
            description: text::opt_text(self.description),
            probed: self.probed,
            probe: ProbeView {
                ready: self.ready,
                notes: self.notes@,
                running_version: text::opt_text(self.running_version),
                expected_tag: text::opt_text(self.expected_tag),
            },
            protocol: text::opt_text(self.protocol),
            capabilities: text::texts(self.capabilities@),
            origin: self.origin,
            bundle_digest: text::opt_text(self.bundle_digest),
            prepared: self.prepared@,
        }
    }
}

// ---------------------------------------------------------------------
// The status reply
// ---------------------------------------------------------------------

/// What two field names, one inside the other, lead to.
pub open spec fn nested(v: JsonView, outer: Seq<char>, inner: Seq<char>) -> Option<JsonView> {
    match json::member(v, outer) {
        Some(o) => json::member(o, inner),
        None => None,
    }
}

/// A text that is not empty.
pub open spec fn some_text(v: Option<JsonView>) -> Option<Seq<char>> {
    match v {
        Some(JsonView::Text(t)) => if t.len() > 0 {
            Some(t)
        } else {
            None
        },
        _ => None,
    }
}

/// What a reply to `status` says of the preparation.
pub open spec fn prepared_of(v: JsonView) -> PreparedView {
    PreparedView {
        docker_required: match nested(v, "docker"@, "required"@) {
            Some(JsonView::Bool(b)) => Some(b),
            _ => None,
        },
        environment_lock: some_text(json::member(v, "environment_lock"@)),
        image_digest: some_text(json::member(v, "image_digest"@)),
        topology: some_text(nested(v, "backbone"@, "topology"@)),
        backbone_ownership: some_text(nested(v, "backbone"@, "ownership"@)),
    }
}

/// What a reply to `status` says of the environment: one that says nothing is
/// not ready, and its notes are the whole reply where it has none.
pub open spec fn probe_of(v: JsonView) -> ProbeView {
    ProbeView {
        ready: json::member(v, "ready"@) == Some(JsonView::Bool(true)),
        notes: match json::member_text(v, "notes"@) {
            Some(t) => t,
            None => json::compact(v),
        },
        running_version: json::member_text(v, "running_version"@),
        expected_tag: json::member_text(v, "expected_tag"@),
    }
}

/// The text of a value, if it has one that is not empty.
fn text_in(v: Option<&Json>) -> (r: Option<String>)
    ensures
        text::opt_text(r) == some_text(json::opt_json(v)),
{
    match v {
        Some(Json::Text(t)) => if t.as_str().is_empty() {
            None
        } else {
            Some(t.clone())
        },
        _ => None,
    }
}

/// What two field names, one inside the other, lead to.
fn inner_field<'a>(v: &'a Json, outer: &str, inner: &str) -> (r: Option<&'a Json>)
    ensures
        json::opt_json(r) == nested(v@, outer@, inner@),
{
    match v.get(outer) {
        Some(o) => o.get(inner),
        None => None,
    }
}

/// A text of a field.
fn owned_text(v: &Json, key: &str) -> (r: Option<String>)
    ensures
        text::opt_text(r) == json::member_text(v@, key@),
{
    match v.get_text(key) {
        Some(s) => Some(s.to_owned()),
        None => None,
    }
}

/// Read a reply to `status`.
pub fn read_status(v: &Json) -> (r: (ProbeResult, PluginPreparedStatus))
    ensures
        r.0@ == probe_of(v@),
        r.1@ == prepared_of(v@),
{
    let docker_required = match inner_field(v, "docker", "required") {
        Some(Json::Bool(b)) => Some(*b),
        _ => None,
    };
    let ready = match v.get("ready") {
        Some(Json::Bool(b)) => *b,
        _ => false,
    };
    let notes = match v.get_text("notes") {
        Some(s) => s.to_owned(),
        None => json::to_compact(v),
    };
    (
        ProbeResult {
            ready,
            notes,
            running_version: owned_text(v, "running_version"),
            expected_tag: owned_text(v, "expected_tag"),
        },
        PluginPreparedStatus {
            docker_required,
            environment_lock: text_in(v.get("environment_lock")),
            image_digest: text_in(v.get("image_digest")),
            topology: text_in(inner_field(v, "backbone", "topology")),
            backbone_ownership: text_in(inner_field(v, "backbone", "ownership")),
        },
    )
}

// ---------------------------------------------------------------------
// Rows
// ---------------------------------------------------------------------

/// What came of probing a plugin whose bundle was verified.
#[derive(Debug, PartialEq)]
pub enum ProbeOutcome {
    /// It could not be started.
    NotSpawned(Error),
    /// It was started, and could not be probed.
    NotProbed(Error),
    /// It was probed.
    Probed(ProbeResult, PluginPreparedStatus),
}

/// What is known of one plugin: its declaration, the digest of its bundle or
/// why that could not be verified, and what came of probing it.
#[derive(Debug, PartialEq)]
pub struct PluginObservation {
    pub plugin: PluginDir,
    pub verified: Result<String, Error>,
    pub probe: ProbeOutcome,
}

/// Whether a plugin is probed: all are, or it is the selected one.
pub open spec fn is_probed(selected: Option<Seq<char>>, probe_all: bool, name: Seq<char>) -> bool {
    probe_all || selected == Some(name)
}

/// Is the plugin `name` probed?
pub fn should_probe(selected: Option<&str>, probe_all: bool, name: &str) -> (r: bool)
    ensures
        r == is_probed(text::opt_str(selected), probe_all, name@),
{
    if probe_all {
        return true;
    }
    match selected {
        Some(s) => text::same(s, name),
        None => false,
    }
}

/// An environment that is not ready, and why.
pub open spec fn not_ready(notes: Seq<char>) -> ProbeView {
    ProbeView { ready: false, notes, running_version: None, expected_tag: None }
}

/// What a row says of the environment.
pub open spec fn row_probe(o: PluginObservation, probed: bool) -> (ProbeView, PreparedView) {
    if !probed {
        (not_ready("not probed"@), unprepared())
    } else {
        match o.verified {
            Err(e) => (
                not_ready("bundle verification failed: "@ + error::shown(e@)),
                unprepared(),
            ),
            Ok(_) => match o.probe {
                ProbeOutcome::NotSpawned(e) => (
                    not_ready("spawn failed: "@ + error::shown(e@)),
                    unprepared(),
                ),
                ProbeOutcome::NotProbed(e) => (
                    not_ready("probe failed: "@ + error::shown(e@)),
                    unprepared(),
                ),
                ProbeOutcome::Probed(probe, prepared) => (probe@, prepared@),
            },
        }
    }
}

/// One plugin's row.
pub open spec fn status_row(o: PluginObservation, probed: bool) -> StatusView {
    StatusView {
        name: o.plugin.manifest.name@,
        version: text::opt_text(o.plugin.manifest.version),
        description: text::opt_text(o.plugin.manifest.description),
        probed,
        probe: row_probe(o, probed).0,
        protocol: text::opt_text(o.plugin.manifest.protocol),
        capabilities: text::texts(o.plugin.manifest.capabilities@),
        origin: o.plugin.origin,
        bundle_digest: if probed {
            match o.verified {
                Ok(d) => Some(d@),
                Err(_) => None,
            }
        } else {
            None
        },
        prepared: row_probe(o, probed).1,
    }
}

/// An environment that is not ready, and why.
fn unready(notes: String) -> (r: (ProbeResult, PluginPreparedStatus))
    ensures
        r.0@ == not_ready(notes@),
        r.1@ == unprepared(),
{
    (
        ProbeResult { ready: false, notes, running_version: None, expected_tag: None },
        PluginPreparedStatus::default(),
    )
}

/// The row of one plugin.
fn build_row(o: PluginObservation, probed: bool) -> (r: PluginStatus)
    ensures
        r@ == status_row(o, probed),
{
    let mut digest: Option<String> = None;
    let (probe, prepared) = if !probed {
        unready("not probed".to_owned())
    } else {
        match o.verified {
            Err(e) => unready(text::cat2("bundle verification failed: ", e.message().as_str())),
            Ok(d) => {
                digest = Some(d);
                match o.probe {
                    ProbeOutcome::NotSpawned(e) => unready(
                        text::cat2("spawn failed: ", e.message().as_str()),
                    ),
                    ProbeOutcome::NotProbed(e) => unready(
                        text::cat2("probe failed: ", e.message().as_str()),
                    ),
                    ProbeOutcome::Probed(probe, prepared) => (probe, prepared),
                }
            },
        }
    };
    PluginStatus {
        name: o.plugin.manifest.name,
        version: o.plugin.manifest.version,
        description: o.plugin.manifest.description,
        probed,
        ready: probe.ready,
        notes: probe.notes,
        running_version: probe.running_version,
        expected_tag: probe.expected_tag,
        protocol: o.plugin.manifest.protocol,
        capabilities: o.plugin.manifest.capabilities,
        origin: o.plugin.origin,
        bundle_digest: digest,
        prepared,
    }
}

/// What rows hold.
pub open spec fn status_views(v: Seq<PluginStatus>) -> Seq<StatusView> {
    Seq::new(v.len(), |i: int| v[i]@)
}

/// The rows of a catalog.
pub open spec fn status_rows(
    observed: Seq<PluginObservation>,
    selected: Option<Seq<char>>,
    probe_all: bool,
) -> Seq<StatusView> {
    Seq::new(
        observed.len(),
        |i: int|
            status_row(
                observed[i],
                is_probed(selected, probe_all, observed[i].plugin.manifest.name@),
            ),
    )
}

/// The status of every plugin, in the order of the catalog; only the selected
/// one, or all of them, is probed.
pub fn plugin_status_for(
    observed: Vec<PluginObservation>,
    selected: Option<&str>,
    probe_all: bool,
) -> (r: Vec<PluginStatus>)
    ensures
        status_views(r@) == status_rows(observed@, text::opt_str(selected), probe_all),
{
    let ghost whole = observed@;
    let ghost rows = status_rows(whole, text::opt_str(selected), probe_all);
    let mut rest = observed;
    let mut back: Vec<PluginStatus> = Vec::new();
    assert(rest@ =~= whole.take(rest@.len() as int));
    while rest.len() > 0
        invariant
            rest@.len() + back@.len() == whole.len(),
            rest@ == whole.take(rest@.len() as int),
            rows == status_rows(whole, text::opt_str(selected), probe_all),
            forall|i: int|
                0 <= i < back@.len() ==> (#[trigger] back@[i])@ == rows[whole.len() - 1 - i],
        decreases rest@.len(),
    {
        let ghost n = rest@.len();
        match rest.pop() {
            None => {},
            Some(o) => {
                assert(o == whole[n - 1]);
                let probed = should_probe(selected, probe_all, o.plugin.manifest.name.as_str());
                back.push(build_row(o, probed));
            },
        }
        assert(rest@ =~= whole.take(rest@.len() as int));
    }
    let mut out: Vec<PluginStatus> = Vec::new();
    while back.len() > 0
        invariant
            back@.len() + out@.len() == whole.len(),
            rows.len() == whole.len(),
            forall|i: int|
                0 <= i < back@.len() ==> (#[trigger] back@[i])@ == rows[whole.len() - 1 - i],
            forall|i: int| 0 <= i < out@.len() ==> (#[trigger] out@[i])@ == rows[i],
        decreases back@.len(),
    {
        match back.pop() {
            None => {},
            Some(row) => {
                out.push(row);
            },
        }
    }
    assert(status_views(out@) =~= rows);
    out
}

/// The status of every plugin, all of them probed.
pub fn plugin_status(observed: Vec<PluginObservation>) -> (r: Vec<PluginStatus>)
    ensures
        status_views(r@) == status_rows(observed@, None, true),
{
    plugin_status_for(observed, None, true)
}

/// The status of every plugin, of which only the selected one is probed.
pub fn selected_plugin_status(
    observed: Vec<PluginObservation>,
    selected: Option<&str>,
) -> (r: Vec<PluginStatus>)
    ensures
        status_views(r@) == status_rows(observed@, text::opt_str(selected), false),
{
    plugin_status_for(observed, selected, false)
}

// ---------------------------------------------------------------------
// Laws
// ---------------------------------------------------------------------

/// Every plugin of the catalog has its row, in order, whatever became of the
/// others.
pub proof fn law_every_plugin_has_a_row(
    observed: Seq<PluginObservation>,
    selected: Option<Seq<char>>,
    probe_all: bool,
    i: int,
)
    requires
        0 <= i < observed.len(),
    ensures
        status_rows(observed, selected, probe_all).len() == observed.len(),
        status_rows(observed, selected, probe_all)[i].name == observed[i].plugin.manifest.name@,
        status_rows(observed, selected, probe_all)[i].probed == is_probed(
            selected,
            probe_all,
            observed[i].plugin.manifest.name@,
        ),
{
}

/// A plugin is shown as ready only where it was probed, its bundle was
/// verified and the probe said so.
pub proof fn law_ready_only_when_verified(o: PluginObservation, probed: bool)
    ensures
        status_row(o, probed).probe.ready ==> {
            &&& probed
            &&& o.verified is Ok
            &&& o.probe matches ProbeOutcome::Probed(probe, _)
            &&& probe.ready
        },
        status_row(o, probed).bundle_digest is Some ==> probed && o.verified is Ok,
{
}

} // verus!
