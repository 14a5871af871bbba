//! Which model a run is launched with, which name its agent goes by, and the
//! secret that its control endpoint asks for.
use vstd::prelude::*;
use crate::agents::document;
use crate::agents::handles;
use crate::agents::sidecar;
use crate::agents::sidecar::{AgentConfig, AgentView};
use crate::error;
use crate::error::{Error, ErrorView};
use crate::json;
use crate::json::{Json, JsonView};
use crate::models;
use crate::models::ModelRegistry;
use crate::path;
use crate::store::layout;
use crate::store::layout::Store;
use crate::store::naming;
use crate::table;
use crate::text;

verus! {

// ---------------------------------------------------------------------
// The model
// ---------------------------------------------------------------------

/// A model, where it says anything: less the white space around it.
pub open spec fn stated(model: Option<Seq<char>>) -> Option<Seq<char>> {
    match model {
        Some(m) => if text::trimmed(m).len() > 0 {
            Some(text::trimmed(m))
        } else {
            None
        },
        None => None,
    }
}

/// The first of two models that says anything.
pub open spec fn picked(primary: Option<Seq<char>>, arg: Option<Seq<char>>) -> Option<Seq<char>> {
    match stated(primary) {
        Some(m) => Some(m),
        None => stated(arg),
    }
}

/// A model, where it says anything.
fn state(model: Option<&str>) -> (r: Option<String>)
    ensures
        text::opt_text(r) == stated(text::opt_str(model)),
{
    match model {
        Some(m) => {
            let m = text::trim(m);
            if m.as_str().is_empty() {
                None
            } else {
                Some(m)
            }
        },
        None => None,
    }
}

/// The first of two models that says anything: the primary's own, then the one
/// that was asked for.
pub fn pick_model(primary: Option<&str>, arg: Option<&str>) -> (r: Option<String>)
    ensures
        text::opt_text(r) == picked(text::opt_str(primary), text::opt_str(arg)),
{
    match state(primary) {
        Some(m) => Some(m),
        None => state(arg),
    }
}

/// The first primary among the entries of an agent map from the `i`-th on.
pub open spec fn first_primary(m: Map<Seq<char>, JsonView>, i: nat) -> Option<JsonView>
    decreases document::names(m).len() - i,
{
    if i >= document::names(m).len() {
        None
    } else {
        let cfg = m[document::names(m)[i as int]];
        if document::is_primary(cfg) {
            Some(cfg)
        } else {
            first_primary(m, i + 1)
        }
    }
}

/// The model that a document's primary declares.
pub open spec fn primary_model(doc: JsonView) -> Option<Seq<char>> {
    match json::member_fields(doc, "agent"@) {
        None => None,
        Some(m) => match first_primary(m, 0) {
            None => None,
            Some(cfg) => json::member_text(cfg, "model"@),
        },
    }
}

/// The model that the primary of `doc` declares.
pub fn primary_agent_model(doc: &Json) -> (r: Option<String>)
    ensures
        text::opt_text(r) == primary_model(doc@),
{
    let agents = match doc.get_object("agent") {
        None => {
            return None;
        },
        Some(agents) => agents,
    };
    let ghost m = json::fields(*agents);
    proof {
        json::lemma_fields_dom(*agents);
    }
    let mut i: usize = 0;
    while i < agents.len()
        invariant
            m == json::fields(*agents),
            m.dom() == agents@.dom(),
            i <= document::names(m).len(),
            json::member_fields(doc@, "agent"@) == Some(m),
            first_primary(m, 0) == first_primary(m, i as nat),
        decreases document::names(m).len() - i,
    {
        let cfg = agents.value_at(i);
        assert(cfg@ == m[document::names(m)[i as int]]);
        if document::primary_entry(cfg) {
            return match cfg.get_text("model") {
                Some(model) => Some(model.to_owned()),
                None => None,
            };
        }
        i = i + 1;
    }
    None
}

/// The model that a registry would pre-fill, where there is a registry.
pub open spec fn registry_model(registry: Option<ModelRegistry>) -> Option<Seq<char>> {
    match registry {
        None => None,
        Some(registry) => match models::default_entry(registry.models@) {
            Some(m) => Some(m.provider@ + "/"@ + m.tag@),
            None => None,
        },
    }
}

/// The model that a registry would pre-fill.
fn registry_default(registry: &Option<ModelRegistry>) -> (r: Option<String>)
    ensures
        text::opt_text(r) == registry_model(*registry),
{
    match registry {
        None => None,
        Some(registry) => registry.launch_default(),
    }
}

/// The document of a loaded agent, or why it could not be loaded.
pub open spec fn loaded(config: Result<AgentConfig, Error>) -> Result<JsonView, ErrorView> {
    match config {
        Ok(config) => Ok(config.doc@),
        Err(e) => Err(e@),
    }
}

/// The model that a launch comes to: the primary's own, the one that was asked
/// for, the registry's. There is no fourth.
pub open spec fn launch_model(
    project: Seq<char>,
    agent: Seq<char>,
    doc: Result<JsonView, ErrorView>,
    asked: Option<Seq<char>>,
    registry: Option<Seq<char>>,
) -> Result<Seq<char>, ErrorView> {
    match doc {
        Err(e) => Err(
            ErrorView::Store("agent "@ + project + "/"@ + agent + ": "@ + error::shown(e)),
        ),
        Ok(doc) => match picked(primary_model(doc), asked) {
            Some(m) => Ok(m),
            None => match registry {
                Some(m) => Ok(m),
                None => Err(
                    ErrorView::Store(
                        "no model configured for agent "@ + agent + " on "@ + project
                            + " — set one on the primary agent entry, pass an explicit model, or register a tool-use model in benchmarks/models.yaml; opencode's ambient default is never inherited"@,
                    ),
                ),
            },
        },
    }
}

/// The model that a launch of `agent` comes to; `config` is what loading it
/// came to.
pub fn resolve_launch_model(
    project: &str,
    agent: &str,
    config: &Result<AgentConfig, Error>,
    asked: Option<&str>,
    registry: &Option<ModelRegistry>,
) -> (r: Result<String, Error>)
    ensures
        error::outcome(r) == launch_model(
            project@,
            agent@,
            loaded(*config),
            text::opt_str(asked),
            registry_model(*registry),
        ),
{
    match config {
        Err(e) => Err(
            Error::Store(text::cat6("agent ", project, "/", agent, ": ", e.message().as_str())),
        ),
        Ok(config) => {
            let primary = primary_agent_model(&config.doc);
            match pick_model(text::borrowed(&primary), asked) {
                Some(m) => Ok(m),
                None => match registry_default(registry) {
                    Some(m) => Ok(m),
                    None => Err(
                        Error::Store(
                            text::cat5(
                                "no model configured for agent ",
                                agent,
                                " on ",
                                project,
                                " — set one on the primary agent entry, pass an explicit model, or register a tool-use model in benchmarks/models.yaml; opencode's ambient default is never inherited",
                            ),
                        ),
                    ),
                },
            }
        },
    }
}

/// The model that a launch would pre-fill: the primary's own, as it is
/// written, else the registry's.
pub open spec fn prefilled(
    doc: Result<JsonView, ErrorView>,
    registry: Option<Seq<char>>,
) -> Option<Seq<char>> {
    match doc {
        Err(_) => None,
        Ok(doc) => match primary_model(doc) {
            Some(m) => Some(m),
            None => registry,
        },
    }
}

/// The model that a launch would pre-fill; `config` is what loading the agent
/// came to.
pub fn agent_default_model(
    config: &Result<AgentConfig, Error>,
    registry: &Option<ModelRegistry>,
) -> (r: Option<String>)
    ensures
        text::opt_text(r) == prefilled(loaded(*config), registry_model(*registry)),
{
    match config {
        Err(_) => None,
        Ok(config) => match primary_agent_model(&config.doc) {
            Some(m) => Some(m),
            None => registry_default(registry),
        },
    }
}

// ---------------------------------------------------------------------
// The agent's names
// ---------------------------------------------------------------------

/// The stem of the files of an agent: its slug, bare.
pub fn agent_file_stem(agent: &str) -> (r: String)
    ensures
        r@ == naming::slug_of(agent@),
{
    naming::slugify(agent)
}

/// The handle that an agent of a project is launched by.
pub open spec fn launch_handle(agents: Option<Seq<AgentView>>, slug: Seq<char>) -> Seq<char> {
    match agents {
        Some(agents) => if handles::handles(agents).dom().contains(slug) {
            handles::handles(agents)[slug]
        } else {
            slug
        },
        None => slug,
    }
}

/// What a listing of agents holds, where there is one.
pub open spec fn listed_agents(agents: Option<Vec<(String, AgentConfig)>>) -> Option<
    Seq<AgentView>,
> {
    match agents {
        Some(agents) => Some(sidecar::agent_views(agents@)),
        None => None,
    }
}

/// The handle that the agent under `slug` is launched by: the one its file was
/// rendered under. Where the project's agents cannot be listed, or it is none
/// of them, the slug itself.
pub fn opencode_agent_handle(agents: &Option<Vec<(String, AgentConfig)>>, slug: &str) -> (r: String)
    ensures
        r@ == launch_handle(listed_agents(*agents), slug@),
{
    match agents {
        Some(agents) => {
            let all = handles::primary_handles(agents.as_slice());
            match table::text_at(&all, slug) {
                Some(handle) => handle.to_owned(),
                None => slug.to_owned(),
            }
        },
        None => slug.to_owned(),
    }
}

// ---------------------------------------------------------------------
// The control secret
// ---------------------------------------------------------------------

/// Where the secret of a run is kept: in the store's side tree, under the hash
/// of the run's name.
pub open spec fn control_path(root: Seq<char>, run_id: Seq<char>) -> Seq<char> {
    path::joined(
        path::joined(layout::var_path(root), "opencode-control"@),
        text::hex_digits(naming::fnv1a(vstd::utf8::encode_utf8(run_id)) as nat, 16),
    )
}

/// A hexadecimal digit, in either case.
pub open spec fn is_hex_digit(c: char) -> bool {
    text::is_hex(c) || ('A' <= c && c <= 'F')
}

/// A text is a secret: sixty-four hexadecimal digits, in either case.
pub open spec fn is_secret(s: Seq<char>) -> bool {
    s.len() == 64 && forall|i: int| 0 <= i < s.len() ==> is_hex_digit(#[trigger] s[i])
}

/// What a stored secret is taken as.
pub open spec fn stored_secret(path: Seq<char>, stored: Seq<char>) -> Result<
    Seq<char>,
    ErrorView,
> {
    if is_secret(text::trimmed(stored)) {
        Ok(text::trimmed(stored))
    } else {
        Err(ErrorView::Store("OpenCode control token is malformed: "@ + path))
    }
}

/// Is `s` a secret?
fn secret(s: &str) -> (r: bool)
    ensures
        r == is_secret(s@),
{
    let v = text::chars_of(s);
    if v.len() != 64 {
        return false;
    }
    let mut i: usize = 0;
    while i < v.len()
        invariant
            i <= v@.len(),
            v@ == s@,
            forall|j: int| 0 <= j < i ==> is_hex_digit(#[trigger] v@[j]),
        decreases v@.len() - i,
    {
        if !text::hex_char(v[i]) && !('A' <= v[i] && v[i] <= 'F') {
            assert(!is_hex_digit(s@[i as int]));
            return false;
        }
        i = i + 1;
    }
    true
}

/// Where the secret of the run `run_id` is kept.
pub fn control_file(store: &Store, run_id: &str) -> (r: String)
    ensures
        r@ == control_path(store@.root, run_id@),
{
    path::join(
        path::join(store.var_dir().as_str(), "opencode-control").as_str(),
        naming::fnv1a_hex(run_id.as_bytes()).as_str(),
    )
}

/// The secret that the file at `path` holds.
pub fn accept_secret(path: &str, stored: &str) -> (r: Result<String, Error>)
    ensures
        error::outcome(r) == stored_secret(path@, stored@),
{
    let found = text::trim(stored);
    if secret(found.as_str()) {
        Ok(found)
    } else {
        Err(Error::Store(text::cat2("OpenCode control token is malformed: ", path)))
    }
}

/// `getrandom::fill`: every byte of `dest` is drawn from the system's source
/// of randomness, and their number stays; where it fails, nothing is claimed
/// of the bytes.
#[verifier::external_body]
fn draw(dest: &mut Vec<u8>) -> (r: Result<(), String>)
    ensures
        final(dest)@.len() == old(dest)@.len(),
{
    getrandom::fill(dest).map_err(|error| error.to_string())
}

/// No secret could be drawn.
pub open spec fn not_drawn(why: Seq<char>) -> ErrorView {
    ErrorView::Store("cannot generate OpenCode control token: "@ + why)
}

/// What drawn bytes, or the failure to draw any, make of a new secret.
pub open spec fn drawn_secret(drawn: Result<Seq<u8>, Seq<char>>) -> Result<Seq<char>, ErrorView> {
    match drawn {
        Ok(bytes) => Ok(text::hex_bytes(bytes)),
        Err(e) => Err(not_drawn(e)),
    }
}

/// What a result of drawing bytes holds.
pub open spec fn drawn_view(drawn: Result<Vec<u8>, String>) -> Result<Seq<u8>, Seq<char>> {
    match drawn {
        Ok(bytes) => Ok(bytes@),
        Err(e) => Err(e@),
    }
}

/// A new secret out of drawn bytes, two digits of each.
pub fn secret_of(drawn: &Result<Vec<u8>, String>) -> (r: Result<String, Error>)
    ensures
        error::outcome(r) == drawn_secret(drawn_view(*drawn)),
{
    match drawn {
        Ok(bytes) => Ok(text::hex_of_bytes(bytes.as_slice())),
        Err(e) => Err(
            Error::Store(text::cat2("cannot generate OpenCode control token: ", e.as_str())),
        ),
    }
}

/// The secret of a run, and whether it is yet to be written.
#[derive(Debug, PartialEq, Eq)]
pub struct ControlSecret {
    pub secret: String,
    pub fresh: bool,
}

/// The secret of the run `run_id`: the one that `stored`, the content of its
/// file, holds, else a new one. A file that holds anything else is refused,
/// never replaced. Which new secret comes is left open: it is random.
pub fn opencode_control_password(store: &Store, run_id: &str, stored: Option<&str>) -> (r: Result<
    ControlSecret,
    Error,
>)
    ensures
        stored matches Some(stored) ==> match stored_secret(
            control_path(store@.root, run_id@),
            stored@,
        ) {
            Ok(s) => r is Ok && r->Ok_0.secret@ == s && !r->Ok_0.fresh,
            Err(e) => r is Err && r->Err_0@ == e,
        },
        stored is None ==> match r {
            Ok(s) => is_secret(s.secret@) && s.fresh,
            Err(e) => exists|why: Seq<char>| e@ == #[trigger] not_drawn(why),
        },
{
    match stored {
        Some(stored) => match accept_secret(control_file(store, run_id).as_str(), stored) {
            Ok(secret) => Ok(ControlSecret { secret, fresh: false }),
            Err(e) => Err(e),
        },
        None => {
            let mut bytes: Vec<u8> = Vec::new();
            bytes.resize(32, 0);
            let drawn = match draw(&mut bytes) {
                Ok(()) => Ok(bytes),
                Err(e) => Err(e),
            };
            match secret_of(&drawn) {
                Ok(secret) => {
                    proof {
                        lemma_drawn_is_secret(drawn->Ok_0@);
                    }
                    Ok(ControlSecret { secret, fresh: true })
                },
                Err(e) => {
                    assert(e@ == not_drawn(drawn->Err_0@));
                    Err(e)
                },
            }
        },
    }
}

// ---------------------------------------------------------------------
// Laws
// ---------------------------------------------------------------------

/// Thirty-two bytes make a secret.
proof fn lemma_drawn_is_secret(bytes: Seq<u8>)
    requires
        bytes.len() == 32,
    ensures
        is_secret(text::hex_bytes(bytes)),
{
    text::lemma_hex_bytes(bytes);
}

/// A model that the primary declares is never overruled, and a launch without
/// any model is refused: nothing else is fallen back on.
pub proof fn law_model_precedence(
    project: Seq<char>,
    agent: Seq<char>,
    doc: JsonView,
    asked: Option<Seq<char>>,
    registry: Option<Seq<char>>,
)
    ensures
        stated(primary_model(doc)) is Some ==> launch_model(
            project,
            agent,
            Ok(doc),
            asked,
            registry,
        ) == Ok::<Seq<char>, ErrorView>(stated(primary_model(doc))->Some_0),
        stated(primary_model(doc)) is None && stated(asked) is Some ==> launch_model(
            project,
            agent,
            Ok(doc),
            asked,
            registry,
        ) == Ok::<Seq<char>, ErrorView>(stated(asked)->Some_0),
        stated(primary_model(doc)) is None && stated(asked) is None && registry is None
            ==> launch_model(project, agent, Ok(doc), asked, registry) is Err,
{
}

/// The secret of a run lies in the store's side tree, outside every project.
pub proof fn law_control_secret_is_outside_every_project(
    root: Seq<char>,
    run_id: Seq<char>,
    project: Seq<char>,
)
    requires
        naming::is_slug(project),
    ensures
        !path::is_within(control_path(root, run_id), layout::project_path(root, project)),
        path::is_within(control_path(root, run_id), layout::var_path(root)),
{
    let name = text::hex_digits(naming::fnv1a(vstd::utf8::encode_utf8(run_id)) as nat, 16);
    reveal_strlit("opencode-control");
    reveal_strlit("projects");
    reveal_strlit(".");
    reveal_strlit("..");
    text::lemma_hex_digits(naming::fnv1a(vstd::utf8::encode_utf8(run_id)) as nat, 16);
    assert forall|i: int| 0 <= i < name.len() implies #[trigger] name[i] != '/' by {
        assert(text::is_hex(name[i]));
    }
    assert("opencode-control"@.len() != "projects"@.len());
    layout::lemma_slug_is_plain(project);
    layout::lemma_side_tree_is_apart(root, "opencode-control"@, name, project);
}

/// A new secret that is written with a line's end is read back as it is: a run
/// keeps its secret.
pub proof fn law_new_secret_is_read_back(path: Seq<char>, bytes: Seq<u8>)
    requires
        bytes.len() == 32,
    ensures
        stored_secret(path, text::hex_bytes(bytes) + "\n"@) == Ok::<Seq<char>, ErrorView>(
            text::hex_bytes(bytes),
        ),
{
    let s = text::hex_bytes(bytes);
    reveal_strlit("\n");
    lemma_drawn_is_secret(bytes);
    let line = s + "\n"@;
    assert(is_hex_digit(s[0]) && is_hex_digit(s[63]));
    assert(line[0] == s[0]);
    assert(text::trimmed_start(line) == line);
    assert(line.drop_last() =~= s);
    assert(text::trimmed_end(line) == text::trimmed_end(s));
    assert(s.last() == s[63]);
    assert(text::trimmed_end(s) == s);
}

} // verus!
