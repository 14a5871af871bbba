//! Rendering agents: one markdown file for each entry, bound to its project.
use vstd::prelude::*;
use crate::agents::binding;
use crate::agents::binding::{CtxView, DataRoots, RenderCtx};
use crate::agents::document;
use crate::agents::document::{Fields, FileText};
use crate::agents::handles;
use crate::agents::sidecar;
use crate::agents::sidecar::{AgentConfig, AgentView};
use crate::error;
use crate::error::{Error, ErrorView};
use crate::json;
use crate::json::{Json, JsonView};
use crate::table;
use crate::table::Table;
use crate::text;

verus! {

/// A mission's source pin as the renderer shows it.
#[derive(Debug, PartialEq, Eq)]
pub struct SourcePin {
    /// Repository name as the plugin declares it.
    pub name: String,
    /// The rev label the mission pins.
    pub rev: String,
    /// The commit the rev resolved to at launch.
    pub sha: String,
}

/// What a source pin holds.
#[verifier::ext_equal]
pub struct PinView {
    pub name: Seq<char>,
    pub rev: Seq<char>,
    pub sha: Seq<char>,
}

impl View for SourcePin {
    type V = PinView;

    open spec fn view(&self) -> PinView {
        PinView { name: self.name@, rev: self.rev@, sha: self.sha@ }
    }
}

/// What a row of pins holds.
pub open spec fn pin_views(pins: Seq<SourcePin>) -> Seq<PinView> {
    Seq::new(pins.len(), |i: int| pins[i]@)
}

/// The footer that names the one corpus an agent is bound to.
pub open spec fn scope_section(project: Seq<char>) -> Seq<char> {
    "\n---\n\n## Corpus scope (bound at launch)\n\nYou are bound to project `"@ + project
        + "`. Your corpus is\n`store/projects/"@ + project
        + "/corpus/` — categories: `hypotheses/`,\n`techniques/`, `findings/`, `attacks/`, `runs/`. Read and write\nONLY inside it. Other projects' corpora are denied by\npermissions and strictly off-limits: reading them pollutes the\nproject boundary. Any path in this prompt that names a corpus\ncategory without the `store/projects/"@
        + project + "/` prefix means\nthe one inside YOUR project corpus.\n"@
}

/// The footer that names the one corpus an agent is bound to.
pub fn corpus_scope_section(project: &str) -> (r: String)
    ensures
        r@ == scope_section(project@),
{
    text::cat7(
        "\n---\n\n## Corpus scope (bound at launch)\n\nYou are bound to project `",
        project,
        "`. Your corpus is\n`store/projects/",
        project,
        "/corpus/` — categories: `hypotheses/`,\n`techniques/`, `findings/`, `attacks/`, `runs/`. Read and write\nONLY inside it. Other projects' corpora are denied by\npermissions and strictly off-limits: reading them pollutes the\nproject boundary. Any path in this prompt that names a corpus\ncategory without the `store/projects/",
        project,
        "/` prefix means\nthe one inside YOUR project corpus.\n",
    )
}

/// The line of one pin.
pub open spec fn pin_line(pin: PinView) -> Seq<char> {
    "- `"@ + pin.name + "` → `"@ + pin.rev + "` at `sources/"@ + (pin.name + "/"@ + pin.sha
        + "/`\n"@)
}

/// The lines of the first `n` pins.
pub open spec fn pin_lines(pins: Seq<PinView>, n: nat) -> Seq<char>
    decreases n,
{
    if n == 0 {
        Seq::empty()
    } else {
        pin_lines(pins, (n - 1) as nat) + pin_line(pins[n - 1])
    }
}

/// The footer that names the source trees a run reads; none without pins.
pub open spec fn pins_section(pins: Seq<PinView>) -> Seq<char> {
    if pins.len() == 0 {
        Seq::empty()
    } else {
        "\n---\n\n## Pinned sources (bound at launch)\n\nThis run reads these target revisions. Read the LITERAL tree\npaths below, not `sources.toml` — it records only the DEFAULT\npin and may name a different (usually older) tree:\n"@
            + pin_lines(pins, pins.len())
            + "Verify every claim against the named trees; treat anything not\ntraced in them as unverified.\n"@
    }
}

/// The footer that names the source trees a run reads.
pub fn pinned_sources_section(pinned: &[SourcePin]) -> (r: String)
    ensures
        r@ == pins_section(pin_views(pinned@)),
{
    if pinned.len() == 0 {
        return String::new();
    }
    let ghost pins = pin_views(pinned@);
    let mut lines = String::new();
    let mut i: usize = 0;
    while i < pinned.len()
        invariant
            i <= pinned@.len(),
            pins == pin_views(pinned@),
            lines@ == pin_lines(pins, i as nat),
        decreases pinned@.len() - i,
    {
        let pin = &pinned[i];
        assert(pins[i as int] == pin@);
        let tree = text::cat4(pin.name.as_str(), "/", pin.sha.as_str(), "/`\n");
        let line = text::cat6(
            "- `",
            pin.name.as_str(),
            "` → `",
            pin.rev.as_str(),
            "` at `sources/",
            tree.as_str(),
        );
        lines.append(line.as_str());
        i = i + 1;
    }
    text::cat3(
        "\n---\n\n## Pinned sources (bound at launch)\n\nThis run reads these target revisions. Read the LITERAL tree\npaths below, not `sources.toml` — it records only the DEFAULT\npin and may name a different (usually older) tree:\n",
        lines.as_str(),
        "Verify every claim against the named trees; treat anything not\ntraced in them as unverified.\n",
    )
}

// ---------------------------------------------------------------------
// One file
// ---------------------------------------------------------------------

/// The first `n` lines, indented by two spaces.
pub open spec fn indented(lines: Seq<Seq<char>>, n: nat) -> Seq<char>
    decreases n,
{
    if n == 0 {
        Seq::empty()
    } else {
        indented(lines, (n - 1) as nat) + "  "@ + lines[n - 1] + "\n"@
    }
}

/// Every line of `lines` indented by two spaces.
pub(crate) fn indent(lines: &Vec<String>) -> (r: String)
    ensures
        r@ == indented(text::texts(lines@), lines@.len()),
{
    let mut out = String::new();
    let mut i: usize = 0;
    while i < lines.len()
        invariant
            i <= lines@.len(),
            out@ == indented(text::texts(lines@), i as nat),
        decreases lines@.len() - i,
    {
        assert(text::texts(lines@)[i as int] == lines@[i as int]@);
        out.append("  ");
        out.append(lines[i].as_str());
        out.append("\n");
        i = i + 1;
    }
    out
}

/// The frontmatter lines of an entry before its permission block, the
/// description as the YAML scalar `description`.
pub open spec fn head_lines(cfg: Fields, description: Seq<char>) -> Seq<char> {
    let mode = match json::entry_text(cfg, "mode"@) {
        Some(mode) => mode,
        None => "primary"@,
    };
    let base = "---\ndescription: "@ + description + "mode: "@ + mode + "\n"@;
    let modelled = match json::entry_text(cfg, "model"@) {
        Some(model) => if model.len() > 0 {
            base + "model: "@ + model + "\n"@
        } else {
            base
        },
        None => base,
    };
    match json::entry(cfg, "temperature"@) {
        Some(JsonView::Number(number)) => match json::float_notation(number) {
            Some(t) => modelled + "temperature: "@ + t + "\n"@,
            None => modelled,
        },
        _ => modelled,
    }
}

/// The description of an entry.
pub open spec fn description_of(cfg: Fields) -> Seq<char> {
    match json::entry_text(cfg, "description"@) {
        Some(d) => d,
        None => Seq::empty(),
    }
}

/// The permission block stored in an entry.
pub open spec fn permission_of(cfg: Fields) -> JsonView {
    match json::entry(cfg, "permission"@) {
        Some(p) => p,
        None => JsonView::Null,
    }
}

/// The file of an entry, given the YAML text of its description and of its
/// bound permission block, and its prompt with the references replaced.
pub open spec fn file_text(
    cfg: Fields,
    description: Seq<char>,
    permission: Seq<char>,
    prompt: Seq<char>,
    project: Seq<char>,
    pins: Seq<PinView>,
) -> Seq<char> {
    head_lines(cfg, description) + "permission:\n"@ + indented(
        text::lines(permission),
        text::lines(permission).len(),
    ) + "---\n"@ + prompt + scope_section(project) + pins_section(pins)
}

/// An entry's prompt with its references replaced.
pub open spec fn prompt_text(cfg: Fields, files: Map<Seq<char>, FileText>) -> Result<
    Seq<char>,
    ErrorView,
> {
    match json::entry_text(cfg, "prompt"@) {
        Some(prompt) => document::inlined_from(prompt, 0, files),
        None => Ok(Seq::empty()),
    }
}

/// What rendering an entry comes to.
pub open spec fn rendered_file(
    cfg: Fields,
    ctx: CtxView,
    files: Map<Seq<char>, FileText>,
    pins: Seq<PinView>,
) -> Result<Seq<char>, ErrorView> {
    match json::yaml(JsonView::Text(description_of(cfg))) {
        Err(e) => Err(ErrorView::Store("cannot serialize description: "@ + e)),
        Ok(description) => match json::yaml(
            JsonView::Object(binding::bound_permission(permission_of(cfg), ctx)),
        ) {
            Err(e) => Err(ErrorView::Store("cannot serialize permission: "@ + e)),
            Ok(permission) => match prompt_text(cfg, files) {
                Err(e) => Err(e),
                Ok(prompt) => Ok(
                    file_text(cfg, description, permission, prompt, ctx.project, pins),
                ),
            },
        },
    }
}

/// The frontmatter lines of an entry before its permission block.
fn put_head(cfg: &Table<Json>, description: &str) -> (r: String)
    ensures
        r@ == head_lines(json::fields(*cfg), description@),
{
    let mode = match json::field_text(cfg, "mode") {
        Some(mode) => mode,
        None => "primary",
    };
    let mut out = text::cat5("---\ndescription: ", description, "mode: ", mode, "\n");
    match json::field_text(cfg, "model") {
        Some(model) => {
            if !model.is_empty() {
                out.append("model: ");
                out.append(model);
                out.append("\n");
            }
        },
        None => {},
    }
    match json::field(cfg, "temperature") {
        Some(Json::Number(number)) => match json::to_float_notation(number.as_str()) {
            Some(t) => {
                out.append("temperature: ");
                out.append(t.as_str());
                out.append("\n");
            },
            None => {},
        },
        _ => {},
    }
    out
}

/// The file of an entry out of its parts. The frontmatter carries the
/// description as a YAML scalar, so that it can hold any text.
pub fn assemble_file(
    cfg: &Table<Json>,
    description: &str,
    permission: &str,
    prompt: &str,
    project: &str,
    pinned: &[SourcePin],
) -> (r: String)
    ensures
        r@ == file_text(
            json::fields(*cfg),
            description@,
            permission@,
            prompt@,
            project@,
            pin_views(pinned@),
        ),
{
    let lines = text::split_lines(permission);
    assert(text::texts(lines@).len() == lines@.len());
    let head = put_head(cfg, description);
    text::cat7(
        head.as_str(),
        "permission:\n",
        indent(&lines).as_str(),
        "---\n",
        prompt,
        corpus_scope_section(project).as_str(),
        pinned_sources_section(pinned).as_str(),
    )
}

/// Render one entry into the body of its file: description, mode, model,
/// temperature and the bound permission block as frontmatter, then the prompt
/// and the footers. The permission block is always written, whatever the entry
/// states.
pub fn render_agent_file(
    cfg: &Table<Json>,
    ctx: &RenderCtx<'_>,
    files: &Table<FileText>,
    pinned: &[SourcePin],
) -> (r: Result<String, Error>)
    ensures
        error::outcome(r) == rendered_file(
            json::fields(*cfg),
            ctx@,
            files@,
            pin_views(pinned@),
        ),
{
    let description = match json::field_text(cfg, "description") {
        Some(d) => Json::text(d),
        None => Json::Text(String::new()),
    };
    let description = match json::to_yaml(&description) {
        Ok(d) => d,
        Err(e) => {
            return Err(Error::Store(text::cat2("cannot serialize description: ", e.as_str())));
        },
    };
    let stored = match json::field(cfg, "permission") {
        Some(p) => p.copy(),
        None => Json::Null,
    };
    let bound = Json::Object(binding::bind_permission(&stored, ctx));
    let permission = match json::to_yaml(&bound) {
        Ok(p) => p,
        Err(e) => {
            return Err(Error::Store(text::cat2("cannot serialize permission: ", e.as_str())));
        },
    };
    let prompt = match json::field_text(cfg, "prompt") {
        Some(prompt) => match document::inline_file_refs(prompt, files) {
            Ok(p) => p,
            Err(e) => {
                return Err(e);
            },
        },
        None => String::new(),
    };
    Ok(
        assemble_file(
            cfg,
            description.as_str(),
            permission.as_str(),
            prompt.as_str(),
            ctx.project,
            pinned,
        ),
    )
}

// ---------------------------------------------------------------------
// A project's set
// ---------------------------------------------------------------------

/// A rendered file: its name and its body.
#[derive(Debug, PartialEq, Eq)]
pub struct RenderedAgent {
    pub file: String,
    pub body: String,
}

/// What a row of rendered files holds: names and bodies.
pub open spec fn file_views(v: Seq<RenderedAgent>) -> Seq<(Seq<char>, Seq<char>)> {
    Seq::new(v.len(), |i: int| (v[i].file@, v[i].body@))
}

/// What a result of rendered files or error holds.
pub open spec fn files_outcome(r: Result<Vec<RenderedAgent>, Error>) -> Result<
    Seq<(Seq<char>, Seq<char>)>,
    ErrorView,
> {
    match r {
        Ok(v) => Ok(file_views(v@)),
        Err(e) => Err(e@),
    }
}

/// What a set is rendered in: the names, the roots and the pins.
#[verifier::ext_equal]
pub struct SetView {
    pub project: Seq<char>,
    pub handles: Map<Seq<char>, Seq<char>>,
    pub known: Set<Seq<char>>,
    pub data: Seq<char>,
    pub store: Seq<char>,
    pub pins: Seq<PinView>,
}

/// What rendering the first `n` entries of one agent comes to.
pub open spec fn rendered_entries(a: AgentView, m: Fields, n: nat, set: SetView) -> Result<
    Seq<(Seq<char>, Seq<char>)>,
    ErrorView,
>
    decreases n,
{
    if n == 0 {
        Ok(Seq::empty())
    } else {
        match rendered_entries(a, m, (n - 1) as nat, set) {
            Err(e) => Err(e),
            Ok(before) => {
                let name = document::names(m)[n - 1];
                match json::as_fields(m[name]) {
                    None => Err(
                        ErrorView::Store("agent "@ + a.slug + "/"@ + name + ": not an object"@),
                    ),
                    Some(cfg) => {
                        let ctx = CtxView {
                            project: set.project,
                            role: sidecar::role_of_entry(a.meta, name, a.slug),
                            known: set.known,
                            data: set.data,
                            store: set.store,
                        };
                        match rendered_file(cfg, ctx, a.files, set.pins) {
                            Err(e) => Err(e),
                            Ok(body) => Ok(
                                before.push(
                                    (
                                        handles::entry_name(set.handles, a.slug, name) + ".md"@,
                                        body,
                                    ),
                                ),
                            ),
                        }
                    },
                }
            },
        }
    }
}

/// What rendering the first `n` agents comes to; an agent without an agent map
/// renders nothing.
pub open spec fn rendered_agents(agents: Seq<AgentView>, n: nat, set: SetView) -> Result<
    Seq<(Seq<char>, Seq<char>)>,
    ErrorView,
>
    decreases n,
{
    if n == 0 {
        Ok(Seq::empty())
    } else {
        match rendered_agents(agents, (n - 1) as nat, set) {
            Err(e) => Err(e),
            Ok(before) => {
                let a = agents[n - 1];
                match json::member_fields(a.doc, "agent"@) {
                    None => Ok(before),
                    Some(m) => match rendered_entries(a, m, document::names(m).len(), set) {
                        Err(e) => Err(e),
                        Ok(more) => Ok(before + more),
                    },
                }
            },
        }
    }
}

/// The set that a project's agents are rendered in.
pub open spec fn set_of(
    agents: Seq<AgentView>,
    known: Set<Seq<char>>,
    project: Seq<char>,
    data: Seq<char>,
    store: Seq<char>,
    pins: Seq<PinView>,
) -> SetView {
    SetView { project, handles: handles::handles(agents), known, data, store, pins }
}

/// What rendering a project's agents comes to: refused where a name is claimed
/// twice or the set is not closed under delegation.
pub open spec fn rendered_project(
    agents: Seq<AgentView>,
    project: Seq<char>,
    data: Seq<char>,
    store: Seq<char>,
    pins: Seq<PinView>,
) -> Result<Seq<(Seq<char>, Seq<char>)>, ErrorView> {
    match handles::claimed(agents, project) {
        Err(e) => Err(e),
        Ok(known) => match handles::closure(agents, 0, known.dom(), project) {
            Err(e) => Err(e),
            Ok(_) => rendered_agents(
                agents,
                agents.len(),
                set_of(agents, known.dom(), project, data, store, pins),
            ),
        },
    }
}

/// What rendering one agent of a project comes to: as for the whole set, but
/// an agent without an agent map is refused.
pub open spec fn rendered_one(
    agents: Seq<AgentView>,
    agent: AgentView,
    project: Seq<char>,
    data: Seq<char>,
    store: Seq<char>,
    pins: Seq<PinView>,
) -> Result<Seq<(Seq<char>, Seq<char>)>, ErrorView> {
    match handles::claimed(agents, project) {
        Err(e) => Err(e),
        Ok(known) => match handles::closure(agents, 0, known.dom(), project) {
            Err(e) => Err(e),
            Ok(_) => match json::member_fields(agent.doc, "agent"@) {
                None => Err(ErrorView::Store("agent "@ + agent.slug + ": missing agent map"@)),
                Some(m) => rendered_entries(
                    agent,
                    m,
                    document::names(m).len(),
                    set_of(agents, known.dom(), project, data, store, pins),
                ),
            },
        },
    }
}

/// Render every entry of the agent map `m` of the agent under `slug`.
fn render_entries(
    slug: &str,
    config: &AgentConfig,
    m: &Table<Json>,
    names: &Table<String>,
    known: &Table<()>,
    project: &str,
    roots: &DataRoots,
    pinned: &[SourcePin],
) -> (r: Result<Vec<RenderedAgent>, Error>)
    ensures
        files_outcome(r) == rendered_entries(
            AgentView {
                slug: slug@,
                meta: config.meta@,
                doc: config.doc@,
                files: config.files@,
            },
            json::fields(*m),
            document::names(json::fields(*m)).len(),
            (SetView {
                project: project@,
                handles: table::text_values(names@),
                known: known@.dom(),
                data: roots.data@,
                store: roots.store@,
                pins: pin_views(pinned@),
            }),
        ),
{
    let ghost a = AgentView {
        slug: slug@,
        meta: config.meta@,
        doc: config.doc@,
        files: config.files@,
    };
    let ghost set = SetView {
        project: project@,
        handles: table::text_values(names@),
        known: known@.dom(),
        data: roots.data@,
        store: roots.store@,
        pins: pin_views(pinned@),
    };
    let ghost fields = json::fields(*m);
    proof {
        json::lemma_fields_dom(*m);
    }
    let n: usize = m.len();
    let mut out: Vec<RenderedAgent> = Vec::new();
    let mut i: usize = 0;
    assert(file_views(out@) =~= Seq::<(Seq<char>, Seq<char>)>::empty());
    while i < n
        invariant
            i <= n,
            a == (AgentView {
                slug: slug@,
                meta: config.meta@,
                doc: config.doc@,
                files: config.files@,
            }),
            set == (SetView {
                project: project@,
                handles: table::text_values(names@),
                known: known@.dom(),
                data: roots.data@,
                store: roots.store@,
                pins: pin_views(pinned@),
            }),
            fields == json::fields(*m),
            n == document::names(fields).len(),
            fields.dom() == m@.dom(),
            rendered_entries(a, fields, i as nat, set) == Ok::<
                Seq<(Seq<char>, Seq<char>)>,
                ErrorView,
            >(file_views(out@)),
        decreases n - i,
    {
        let name = m.key_at(i).as_str();
        let cfg = match m.value_at(i).as_object() {
            Some(cfg) => cfg,
            None => {
                proof {
                    lemma_entries_error_stays(a, fields, (i + 1) as nat, n as nat, set);
                }
                return Err(Error::Store(text::cat5("agent ", slug, "/", name, ": not an object")));
            },
        };
        let ctx = RenderCtx {
            project,
            role: sidecar::entry_role(&config.meta, name, slug),
            known_entries: known,
            roots,
        };
        let body = match render_agent_file(cfg, &ctx, &config.files, pinned) {
            Ok(body) => body,
            Err(e) => {
                proof {
                    lemma_entries_error_stays(a, fields, (i + 1) as nat, n as nat, set);
                }
                return Err(e);
            },
        };
        let file = text::cat2(handles::rendered_name(names, slug, name).as_str(), ".md");
        let ghost was = out@;
        out.push(RenderedAgent { file, body });
        assert(file_views(out@) =~= file_views(was).push((file@, body@)));
        i = i + 1;
    }
    Ok(out)
}

/// An entry that cannot be rendered stops the agent.
proof fn lemma_entries_error_stays(a: AgentView, m: Fields, i: nat, n: nat, set: SetView)
    requires
        i <= n,
        rendered_entries(a, m, i, set) is Err,
    ensures
        rendered_entries(a, m, n, set) == rendered_entries(a, m, i, set),
    decreases n,
{
    if i < n {
        lemma_entries_error_stays(a, m, i, (n - 1) as nat, set);
    }
}

/// An agent that cannot be rendered stops the project.
proof fn lemma_agents_error_stays(agents: Seq<AgentView>, i: nat, n: nat, set: SetView)
    requires
        i <= n,
        rendered_agents(agents, i, set) is Err,
    ensures
        rendered_agents(agents, n, set) == rendered_agents(agents, i, set),
    decreases n,
{
    if i < n {
        lemma_agents_error_stays(agents, i, (n - 1) as nat, set);
    }
}

/// What a result of names holds.
spec fn names_outcome(r: Result<Table<()>, Error>) -> Result<Set<Seq<char>>, ErrorView> {
    match r {
        Ok(names) => Ok(names@.dom()),
        Err(e) => Err(e@),
    }
}

/// Check a project's set: its names, and its closure under delegation. Gives
/// the names.
fn check_set(agents: &[(String, AgentConfig)], project: &str) -> (r: Result<Table<()>, Error>)
    ensures
        names_outcome(r) == (match handles::claimed(sidecar::agent_views(agents@), project@) {
            Err(e) => Err(e),
            Ok(known) => match handles::closure(
                sidecar::agent_views(agents@),
                0,
                known.dom(),
                project@,
            ) {
                Err(e) => Err(e),
                Ok(_) => Ok(known.dom()),
            },
        }),
{
    let known = match handles::claim_entries(agents, project) {
        Ok(known) => known,
        Err(e) => {
            return Err(e);
        },
    };
    assert(table::text_values(known@).dom() =~= known@.dom());
    match handles::check_delegation_closure(agents, &known, project) {
        Ok(_) => Ok(table::key_set(&known)),
        Err(e) => Err(e),
    }
}

/// Render every agent of a project, in the order of `agents`. A project whose
/// set is refused renders nothing.
pub fn render_project_agents(
    agents: &[(String, AgentConfig)],
    project: &str,
    roots: &DataRoots,
    pinned: &[SourcePin],
) -> (r: Result<Vec<RenderedAgent>, Error>)
    ensures
        files_outcome(r) == rendered_project(
            sidecar::agent_views(agents@),
            project@,
            roots.data@,
            roots.store@,
            pin_views(pinned@),
        ),
{
    let known = match check_set(agents, project) {
        Ok(known) => known,
        Err(e) => {
            return Err(e);
        },
    };
    let names = handles::primary_handles(agents);
    let ghost views = sidecar::agent_views(agents@);
    let ghost set = set_of(
        views,
        known@.dom(),
        project@,
        roots.data@,
        roots.store@,
        pin_views(pinned@),
    );
    let mut out: Vec<RenderedAgent> = Vec::new();
    let mut i: usize = 0;
    assert(file_views(out@) =~= Seq::<(Seq<char>, Seq<char>)>::empty());
    while i < agents.len()
        invariant
            i <= agents@.len(),
            views == sidecar::agent_views(agents@),
            set == set_of(
                views,
                known@.dom(),
                project@,
                roots.data@,
                roots.store@,
                pin_views(pinned@),
            ),
            table::text_values(names@) == handles::handles(views),
            rendered_project(views, project@, roots.data@, roots.store@, pin_views(pinned@))
                == rendered_agents(views, agents@.len(), set),
            rendered_agents(views, i as nat, set) == Ok::<Seq<(Seq<char>, Seq<char>)>, ErrorView>(
                file_views(out@),
            ),
        decreases agents@.len() - i,
    {
        let slug = agents[i].0.as_str();
        let config = &agents[i].1;
        assert(views[i as int] == (AgentView {
            slug: slug@,
            meta: config.meta@,
            doc: config.doc@,
            files: config.files@,
        }));
        match config.doc.get_object("agent") {
            None => {},
            Some(m) => {
                match render_entries(slug, config, m, &names, &known, project, roots, pinned) {
                    Ok(mut more) => {
                        let ghost was = file_views(out@);
                        let ghost added = file_views(more@);
                        out.append(&mut more);
                        assert(file_views(out@) =~= was + added);
                    },
                    Err(e) => {
                        proof {
                            lemma_agents_error_stays(views, (i + 1) as nat, agents@.len(), set);
                        }
                        return Err(e);
                    },
                }
            },
        }
        i = i + 1;
    }
    Ok(out)
}

/// Render one agent of a project onto a set that is already there. The set it
/// joins is what its delegation may name.
pub fn render_agent(
    agents: &[(String, AgentConfig)],
    slug: &str,
    config: &AgentConfig,
    project: &str,
    roots: &DataRoots,
    pinned: &[SourcePin],
) -> (r: Result<Vec<RenderedAgent>, Error>)
    ensures
        files_outcome(r) == rendered_one(
            sidecar::agent_views(agents@),
            (AgentView {
                slug: slug@,
                meta: config.meta@,
                doc: config.doc@,
                files: config.files@,
            }),
            project@,
            roots.data@,
            roots.store@,
            pin_views(pinned@),
        ),
{
    let known = match check_set(agents, project) {
        Ok(known) => known,
        Err(e) => {
            return Err(e);
        },
    };
    let names = handles::primary_handles(agents);
    match config.doc.get_object("agent") {
        None => Err(Error::Store(text::cat3("agent ", slug, ": missing agent map"))),
        Some(m) => render_entries(slug, config, m, &names, &known, project, roots, pinned),
    }
}

// ---------------------------------------------------------------------
// Laws
// ---------------------------------------------------------------------

/// The frontmatter of a file: what stands before its prompt.
pub open spec fn front_of(cfg: Fields, description: Seq<char>, permission: Seq<char>) -> Seq<char> {
    head_lines(cfg, description) + "permission:\n"@ + indented(
        text::lines(permission),
        text::lines(permission).len(),
    ) + "---\n"@
}

/// An entry's mode as a line: the stored one, and that of a primary where none
/// is stored.
pub open spec fn mode_line(mode: Option<Seq<char>>) -> Seq<char> {
    match mode {
        Some(m) => "mode: "@ + m + "\n"@,
        None => "mode: "@ + "primary"@ + "\n"@,
    }
}

/// The optional lines behind the mode.
spec fn later_lines(cfg: Fields) -> Seq<char> {
    head_lines(cfg, Seq::empty()).skip(
        ("---\ndescription: "@ + mode_line(json::entry_text(cfg, "mode"@))).len() as int,
    )
}

proof fn lemma_modelled(cfg: Fields, description: Seq<char>) -> (tail: Seq<char>)
    ensures
        head_lines(cfg, description) == "---\ndescription: "@ + description + mode_line(
            json::entry_text(cfg, "mode"@),
        ) + tail,
        tail == later_lines(cfg),
        json::entry_text(cfg, "model"@) matches Some(m) ==> m.len() > 0 ==> text::contains(
            tail,
            "model: "@ + m + "\n"@,
        ),
        json::entry(cfg, "temperature"@) matches Some(JsonView::Number(n)) ==> (
        json::float_notation(n) matches Some(t) ==> text::contains(
            tail,
            "temperature: "@ + t + "\n"@,
        )),
        (json::entry_text(cfg, "model"@) is None || json::entry_text(cfg, "model"@)->Some_0.len()
            == 0) && json::entry(cfg, "temperature"@) is None ==> tail.len() == 0,
{
    let none = Seq::<char>::empty();
    let mode = match json::entry_text(cfg, "mode"@) {
        Some(mode) => mode,
        None => "primary"@,
    };
    let model_part = match json::entry_text(cfg, "model"@) {
        Some(m) => if m.len() > 0 {
            "model: "@ + m + "\n"@
        } else {
            none
        },
        None => none,
    };
    let heat_part = match json::entry(cfg, "temperature"@) {
        Some(JsonView::Number(n)) => match json::float_notation(n) {
            Some(t) => "temperature: "@ + t + "\n"@,
            None => none,
        },
        _ => none,
    };
    let tail = model_part + heat_part;
    lemma_head_parts(cfg, description, mode, model_part, heat_part);
    lemma_head_parts(cfg, none, mode, model_part, heat_part);
    let line = mode_line(json::entry_text(cfg, "mode"@));
    assert("---\ndescription: "@ + none + line + tail =~= ("---\ndescription: "@ + line) + tail);
    assert((("---\ndescription: "@ + line) + tail).skip(
        ("---\ndescription: "@ + line).len() as int,
    ) =~= tail);
    text::lemma_contains_middle(none, model_part, heat_part);
    assert(none + model_part + heat_part =~= tail);
    text::lemma_contains_middle(model_part, heat_part, none);
    assert(model_part + heat_part + none =~= tail);
    tail
}

proof fn lemma_head_parts(
    cfg: Fields,
    description: Seq<char>,
    mode: Seq<char>,
    model_part: Seq<char>,
    heat_part: Seq<char>,
)
    requires
        mode == (match json::entry_text(cfg, "mode"@) {
            Some(mode) => mode,
            None => "primary"@,
        }),
        model_part == (match json::entry_text(cfg, "model"@) {
            Some(m) => if m.len() > 0 {
                "model: "@ + m + "\n"@
            } else {
                Seq::empty()
            },
            None => Seq::empty(),
        }),
        heat_part == (match json::entry(cfg, "temperature"@) {
            Some(JsonView::Number(n)) => match json::float_notation(n) {
                Some(t) => "temperature: "@ + t + "\n"@,
                None => Seq::empty(),
            },
            _ => Seq::empty(),
        }),
    ensures
        head_lines(cfg, description) == "---\ndescription: "@ + description + ("mode: "@ + mode
            + "\n"@) + (model_part + heat_part),
{
    let base = "---\ndescription: "@ + description + "mode: "@ + mode + "\n"@;
    lemma_appended("---\ndescription: "@ + description, "mode: "@, mode, "\n"@);
    let modelled = base + model_part;
    match json::entry_text(cfg, "model"@) {
        Some(m) => {
            lemma_appended(base, "model: "@, m, "\n"@);
        },
        None => {},
    }
    assert(base + Seq::<char>::empty() =~= base);
    match json::entry(cfg, "temperature"@) {
        Some(JsonView::Number(n)) => match json::float_notation(n) {
            Some(t) => {
                lemma_appended(modelled, "temperature: "@, t, "\n"@);
            },
            None => {},
        },
        _ => {},
    }
    assert(modelled + Seq::<char>::empty() =~= modelled);
    assert(base + model_part + heat_part =~= base + (model_part + heat_part));
}

proof fn lemma_appended(before: Seq<char>, a: Seq<char>, b: Seq<char>, c: Seq<char>)
    ensures
        before + a + b + c == before + (a + b + c),
{
    assert(before + a + b + c =~= before + (a + b + c));
}

proof fn lemma_indented_contains(lines: Seq<Seq<char>>, n: nat, i: int)
    requires
        0 <= i < n <= lines.len(),
    ensures
        text::contains(indented(lines, n), "  "@ + lines[i] + "\n"@),
    decreases n,
{
    let none = Seq::<char>::empty();
    let before = indented(lines, (n - 1) as nat);
    let more = "  "@ + lines[n - 1] + "\n"@;
    lemma_appended(before, "  "@, lines[n - 1], "\n"@);
    if i == n - 1 {
        text::lemma_contains_middle(before, more, none);
        assert(before + more + none =~= before + more);
    } else {
        lemma_indented_contains(lines, (n - 1) as nat, i);
        text::lemma_contains_wider(none, before, more, "  "@ + lines[i] + "\n"@);
        assert(none + before + more =~= before + more);
    }
}

/// The frontmatter of a rendered entry states what the entry stores: the line
/// `mode: m` for the mode m, the line `model: m` for a model m that is not
/// empty, its description, its temperature, and every line of its permission
/// block.
pub proof fn law_frontmatter_states_the_entry(
    cfg: Fields,
    description: Seq<char>,
    permission: Seq<char>,
)
    ensures
        ({
            let front = front_of(cfg, description, permission);
            &&& ("---\ndescription: "@ + description).is_prefix_of(front)
            &&& "---\n"@.is_suffix_of(front)
            &&& json::entry_text(cfg, "mode"@) matches Some(m) ==> text::contains(
                front,
                "mode: "@ + m + "\n"@,
            )
            &&& json::entry_text(cfg, "mode"@) is None ==> text::contains(
                front,
                "mode: "@ + "primary"@ + "\n"@,
            )
            &&& json::entry_text(cfg, "model"@) matches Some(m) ==> m.len() > 0 ==> text::contains(
                front,
                "model: "@ + m + "\n"@,
            )
            &&& json::entry(cfg, "temperature"@) matches Some(JsonView::Number(n)) ==> (
            json::float_notation(n) matches Some(t) ==> text::contains(
                front,
                "temperature: "@ + t + "\n"@,
            ))
            &&& forall|i: int|
                0 <= i < text::lines(permission).len() ==> text::contains(
                    front,
                    "  "@ + #[trigger] text::lines(permission)[i] + "\n"@,
                )
        }),
{
    let front = front_of(cfg, description, permission);
    let tail = lemma_modelled(cfg, description);
    let begin = "---\ndescription: "@ + description;
    let mode = mode_line(json::entry_text(cfg, "mode"@));
    let lines = text::lines(permission);
    let body = indented(lines, lines.len());
    let none = Seq::<char>::empty();
    let rest = "permission:\n"@ + body + "---\n"@;
    assert(front =~= begin + mode + tail + rest);
    assert(begin =~= front.subrange(0, begin.len() as int));
    assert("---\n"@ =~= front.subrange(front.len() - "---\n"@.len(), front.len() as int));
    text::lemma_contains_middle(begin, mode, tail + rest);
    assert(begin + mode + (tail + rest) =~= front);
    match json::entry_text(cfg, "model"@) {
        Some(m) => {
            if m.len() > 0 {
                text::lemma_contains_wider(begin + mode, tail, rest, "model: "@ + m + "\n"@);
            }
        },
        None => {},
    }
    match json::entry(cfg, "temperature"@) {
        Some(JsonView::Number(n)) => match json::float_notation(n) {
            Some(t) => {
                text::lemma_contains_wider(begin + mode, tail, rest, "temperature: "@ + t + "\n"@);
            },
            None => {},
        },
        _ => {},
    }
    assert forall|i: int| 0 <= i < lines.len() implies text::contains(
        front,
        "  "@ + #[trigger] lines[i] + "\n"@,
    ) by {
        lemma_indented_contains(lines, lines.len(), i);
        let before = begin + mode + tail + "permission:\n"@;
        text::lemma_contains_wider(before, body, "---\n"@, "  "@ + lines[i] + "\n"@);
        assert(before + body + "---\n"@ =~= front);
    }
}

/// A rendered file is its frontmatter, its prompt, the footer that names its
/// project and that which names its pins, in this order: what the entry, the
/// project and the pins say is all in it.
pub proof fn law_files_hold_their_parts(
    cfg: Fields,
    ctx: CtxView,
    files: Map<Seq<char>, FileText>,
    pins: Seq<PinView>,
)
    ensures
        rendered_file(cfg, ctx, files, pins) is Ok <==> json::yaml(
            JsonView::Text(description_of(cfg)),
        ) is Ok && json::yaml(
            JsonView::Object(binding::bound_permission(permission_of(cfg), ctx)),
        ) is Ok && prompt_text(cfg, files) is Ok,
        rendered_file(cfg, ctx, files, pins) matches Ok(body) ==> {
            let front = front_of(
                cfg,
                json::yaml(JsonView::Text(description_of(cfg)))->Ok_0,
                json::yaml(
                    JsonView::Object(binding::bound_permission(permission_of(cfg), ctx)),
                )->Ok_0,
            );
            let prompt = prompt_text(cfg, files)->Ok_0;
            &&& (front + prompt).is_prefix_of(body)
            &&& (scope_section(ctx.project) + pins_section(pins)).is_suffix_of(body)
            &&& body.len() == front.len() + prompt.len() + scope_section(ctx.project).len()
                + pins_section(pins).len()
        },
{
    match rendered_file(cfg, ctx, files, pins) {
        Ok(body) => {
            let front = front_of(
                cfg,
                json::yaml(JsonView::Text(description_of(cfg)))->Ok_0,
                json::yaml(
                    JsonView::Object(binding::bound_permission(permission_of(cfg), ctx)),
                )->Ok_0,
            );
            let prompt = prompt_text(cfg, files)->Ok_0;
            let foot = scope_section(ctx.project) + pins_section(pins);
            assert(body =~= front + prompt + foot);
            assert(front + prompt =~= body.subrange(0, (front + prompt).len() as int));
            assert(foot =~= body.subrange(body.len() - foot.len(), body.len() as int));
        },
        Err(_) => {},
    }
}

/// The mode of an entry decides its file: an entry stored with the mode m has
/// the line `mode: m` in the frontmatter of its file, so that a subagent is
/// rendered as a subagent.
pub proof fn law_modes_are_rendered(
    cfg: Fields,
    ctx: CtxView,
    files: Map<Seq<char>, FileText>,
    pins: Seq<PinView>,
    m: Seq<char>,
)
    requires
        rendered_file(cfg, ctx, files, pins) is Ok,
    ensures
        json::entry_text(cfg, "mode"@) == Some(m) ==> text::contains(
            rendered_file(cfg, ctx, files, pins)->Ok_0,
            "mode: "@ + m + "\n"@,
        ),
        json::entry_text(cfg, "mode"@) == Some("subagent"@) ==> text::contains(
            rendered_file(cfg, ctx, files, pins)->Ok_0,
            "mode: "@ + "subagent"@ + "\n"@,
        ),
        json::entry_text(cfg, "model"@) == Some(m) && m.len() > 0 ==> text::contains(
            rendered_file(cfg, ctx, files, pins)->Ok_0,
            "model: "@ + m + "\n"@,
        ),
        text::contains(rendered_file(cfg, ctx, files, pins)->Ok_0, prompt_text(cfg, files)->Ok_0),
        text::contains(rendered_file(cfg, ctx, files, pins)->Ok_0, scope_section(ctx.project)),
        text::contains(rendered_file(cfg, ctx, files, pins)->Ok_0, pins_section(pins)),
{
    let description = json::yaml(JsonView::Text(description_of(cfg)))->Ok_0;
    let permission = json::yaml(
        JsonView::Object(binding::bound_permission(permission_of(cfg), ctx)),
    )->Ok_0;
    law_frontmatter_states_the_entry(cfg, description, permission);
    let body = rendered_file(cfg, ctx, files, pins)->Ok_0;
    let front = front_of(cfg, description, permission);
    let prompt = prompt_text(cfg, files)->Ok_0;
    let scope = scope_section(ctx.project);
    let foot = pins_section(pins);
    let none = Seq::<char>::empty();
    let rest = prompt + scope + foot;
    assert(body =~= none + front + rest);
    if json::entry_text(cfg, "mode"@) == Some(m) {
        text::lemma_contains_wider(none, front, rest, "mode: "@ + m + "\n"@);
    }
    if json::entry_text(cfg, "mode"@) == Some("subagent"@) {
        text::lemma_contains_wider(none, front, rest, "mode: "@ + "subagent"@ + "\n"@);
    }
    if json::entry_text(cfg, "model"@) == Some(m) && m.len() > 0 {
        text::lemma_contains_wider(none, front, rest, "model: "@ + m + "\n"@);
    }
    text::lemma_contains_middle(front, prompt, scope + foot);
    assert(front + prompt + (scope + foot) =~= body);
    text::lemma_contains_middle(front + prompt, scope, foot);
    assert(front + prompt + scope + foot =~= body);
    text::lemma_contains_middle(front + prompt + scope, foot, none);
    assert(front + prompt + scope + foot + none =~= body);
}

/// Two entries that differ only in their stored mode are rendered into
/// different files.
pub proof fn law_modes_tell_files_apart(
    cfg: Fields,
    a: Seq<char>,
    b: Seq<char>,
    ctx: CtxView,
    files: Map<Seq<char>, FileText>,
    pins: Seq<PinView>,
)
    requires
        a != b,
        rendered_file(cfg.insert("mode"@, JsonView::Text(a)), ctx, files, pins) is Ok,
    ensures
        rendered_file(cfg.insert("mode"@, JsonView::Text(a)), ctx, files, pins) != rendered_file(
            cfg.insert("mode"@, JsonView::Text(b)),
            ctx,
            files,
            pins,
        ),
{
    lemma_keys_differ();
    let ca = cfg.insert("mode"@, JsonView::Text(a));
    let cb = cfg.insert("mode"@, JsonView::Text(b));
    assert(description_of(ca) == description_of(cb));
    assert(permission_of(ca) == permission_of(cb));
    assert(prompt_text(ca, files) == prompt_text(cb, files));
    let description = json::yaml(JsonView::Text(description_of(ca)))->Ok_0;
    let permission = json::yaml(
        JsonView::Object(binding::bound_permission(permission_of(ca), ctx)),
    )->Ok_0;
    let prompt = prompt_text(ca, files)->Ok_0;
    let begin = "---\ndescription: "@ + description;
    let none = Seq::<char>::empty();
    let heat = match json::entry(cfg, "temperature"@) {
        Some(JsonView::Number(n)) => match json::float_notation(n) {
            Some(t) => "temperature: "@ + t + "\n"@,
            None => none,
        },
        _ => none,
    };
    let model = match json::entry_text(cfg, "model"@) {
        Some(m) => if m.len() > 0 {
            "model: "@ + m + "\n"@
        } else {
            none
        },
        None => none,
    };
    lemma_head_parts(ca, description, a, model, heat);
    lemma_head_parts(cb, description, b, model, heat);
    let lines = text::lines(permission);
    let rest = model + heat + ("permission:\n"@ + indented(lines, lines.len()) + "---\n"@ + prompt
        + scope_section(ctx.project) + pins_section(pins));
    text::lemma_middles_differ(begin + "mode: "@, a, b, "\n"@ + rest);
    lemma_moded(begin, a, model + heat, "permission:\n"@, indented(lines, lines.len()), prompt,
        scope_section(ctx.project), pins_section(pins));
    lemma_moded(begin, b, model + heat, "permission:\n"@, indented(lines, lines.len()), prompt,
        scope_section(ctx.project), pins_section(pins));
}

proof fn lemma_moded(
    begin: Seq<char>,
    mode: Seq<char>,
    tail: Seq<char>,
    word: Seq<char>,
    body: Seq<char>,
    prompt: Seq<char>,
    scope: Seq<char>,
    foot: Seq<char>,
)
    ensures
        (begin + ("mode: "@ + mode + "\n"@) + tail) + word + body + "---\n"@ + prompt + scope + foot
            == begin + "mode: "@ + mode + ("\n"@ + (tail + (word + body + "---\n"@ + prompt + scope
            + foot))),
{
    assert((begin + ("mode: "@ + mode + "\n"@) + tail) + word + body + "---\n"@ + prompt + scope
        + foot =~= begin + "mode: "@ + mode + ("\n"@ + (tail + (word + body + "---\n"@ + prompt
        + scope + foot))));
}

/// The keys of an entry that are rendered are all different.
proof fn lemma_keys_differ()
    ensures
        "mode"@ != "model"@,
        "mode"@ != "temperature"@,
        "mode"@ != "description"@,
        "mode"@ != "permission"@,
        "mode"@ != "prompt"@,
        "prompt"@ != "model"@,
        "prompt"@ != "temperature"@,
        "prompt"@ != "description"@,
        "prompt"@ != "permission"@,
{
    reveal_strlit("mode");
    reveal_strlit("model");
    reveal_strlit("temperature");
    reveal_strlit("description");
    reveal_strlit("permission");
    reveal_strlit("prompt");
    assert("mode"@.len() == 4 && "model"@.len() == 5 && "temperature"@.len() == 11
        && "description"@.len() == 11 && "permission"@.len() == 10 && "prompt"@.len() == 6);
}

/// The footer of a project names it, with the directory of its corpus; the
/// footers of two projects differ.
pub proof fn law_scope_names_the_project(a: Seq<char>, b: Seq<char>)
    ensures
        text::contains(scope_section(a), "You are bound to project `"@ + a + "`."@),
        text::contains(scope_section(a), "store/projects/"@ + a + "/corpus/"@),
        a != b ==> scope_section(a) != scope_section(b),
{
    let s = scope_section(a);
    let p1 =
        "\n---\n\n## Corpus scope (bound at launch)\n\nYou are bound to project `"@;
    let p2 = "`. Your corpus is\n`store/projects/"@;
    let p3 =
        "/corpus/` — categories: `hypotheses/`,\n`techniques/`, `findings/`, `attacks/`, `runs/`. Read and write\nONLY inside it. Other projects' corpora are denied by\npermissions and strictly off-limits: reading them pollutes the\nproject boundary. Any path in this prompt that names a corpus\ncategory without the `store/projects/"@;
    let p4 = "/` prefix means\nthe one inside YOUR project corpus.\n"@;
    reveal_strlit("\n---\n\n## Corpus scope (bound at launch)\n\nYou are bound to project `");
    reveal_strlit("`. Your corpus is\n`store/projects/");
    reveal_strlit("/corpus/` — categories: `hypotheses/`,\n`techniques/`, `findings/`, `attacks/`, `runs/`. Read and write\nONLY inside it. Other projects' corpora are denied by\npermissions and strictly off-limits: reading them pollutes the\nproject boundary. Any path in this prompt that names a corpus\ncategory without the `store/projects/");
    reveal_strlit("You are bound to project `");
    reveal_strlit("`.");
    reveal_strlit("store/projects/");
    reveal_strlit("/corpus/");
    let q1 = "You are bound to project `"@;
    let q2 = "`."@;
    let q3 = "store/projects/"@;
    let q4 = "/corpus/"@;
    assert(p1.skip(p1.len() - q1.len()) =~= q1);
    assert(p2.take(q2.len() as int) =~= q2);
    assert(p2.skip(p2.len() - q3.len()) =~= q3);
    assert(p3.take(q4.len() as int) =~= q4);
    assert((p2 + a + p3 + a + p4).take(q2.len() as int) =~= p2.take(q2.len() as int));
    lemma_between(p1, q1, a, q2, p2 + a + p3 + a + p4);
    assert(s =~= p1 + a + (p2 + a + p3 + a + p4));
    let before = p1 + a + p2;
    assert(before.skip(before.len() - q3.len()) =~= p2.skip(p2.len() - q3.len()));
    assert((p3 + a + p4).take(q4.len() as int) =~= p3.take(q4.len() as int));
    lemma_between(before, q3, a, q4, p3 + a + p4);
    assert(s =~= (p1 + a + p2) + a + (p3 + a + p4));
    let t = scope_section(b);
    if s == t {
        assert(a.len() == b.len());
        assert(a =~= s.subrange(p1.len() as int, (p1.len() + a.len()) as int));
        assert(b =~= t.subrange(p1.len() as int, (p1.len() + b.len()) as int));
    }
}

proof fn lemma_between(
    before: Seq<char>,
    p: Seq<char>,
    a: Seq<char>,
    q: Seq<char>,
    after: Seq<char>,
)
    requires
        p.len() <= before.len(),
        q.len() <= after.len(),
        before.skip(before.len() - p.len()) == p,
        after.take(q.len() as int) == q,
    ensures
        text::contains(before + a + after, p + a + q),
{
    let front = before.take(before.len() - p.len());
    let back = after.skip(q.len() as int);
    assert(before =~= front + p);
    assert(after =~= q + back);
    text::lemma_contains_middle(front, p + a + q, back);
    assert(front + (p + a + q) + back =~= before + a + after);
}

proof fn lemma_pin_lines(pins: Seq<PinView>, n: nat, i: int)
    requires
        0 <= i < n <= pins.len(),
    ensures
        text::contains(pin_lines(pins, n), pin_line(pins[i])),
    decreases n,
{
    let none = Seq::<char>::empty();
    let before = pin_lines(pins, (n - 1) as nat);
    let more = pin_line(pins[n - 1]);
    if i == n - 1 {
        text::lemma_contains_middle(before, more, none);
        assert(before + more + none =~= before + more);
    } else {
        lemma_pin_lines(pins, (n - 1) as nat, i);
        text::lemma_contains_wider(none, before, more, pin_line(pins[i]));
        assert(none + before + more =~= before + more);
    }
}

/// The footer of a run's pins names every pin, by the tree of the commit that
/// it resolved to; without pins there is no footer.
pub proof fn law_pins_are_named(pins: Seq<PinView>, i: int)
    requires
        0 <= i < pins.len(),
    ensures
        text::contains(
            pins_section(pins),
            "- `"@ + pins[i].name + "` → `"@ + pins[i].rev + "` at `sources/"@ + pins[i].name + "/"@
                + pins[i].sha + "/`\n"@,
        ),
        pins_section(Seq::empty()).len() == 0,
{
    lemma_pin_lines(pins, pins.len(), i);
    let line = "- `"@ + pins[i].name + "` → `"@ + pins[i].rev + "` at `sources/"@ + pins[i].name
        + "/"@ + pins[i].sha + "/`\n"@;
    lemma_pin_text(
        "- `"@ + pins[i].name + "` → `"@ + pins[i].rev + "` at `sources/"@,
        pins[i].name,
        "/"@,
        pins[i].sha,
        "/`\n"@,
    );
    assert(pin_line(pins[i]) == line);
    text::lemma_contains_wider(
        "\n---\n\n## Pinned sources (bound at launch)\n\nThis run reads these target revisions. Read the LITERAL tree\npaths below, not `sources.toml` — it records only the DEFAULT\npin and may name a different (usually older) tree:\n"@,
        pin_lines(pins, pins.len()),
        "Verify every claim against the named trees; treat anything not\ntraced in them as unverified.\n"@,
        line,
    );
}

proof fn lemma_pin_text(
    front: Seq<char>,
    name: Seq<char>,
    slash: Seq<char>,
    sha: Seq<char>,
    end: Seq<char>,
)
    ensures
        front + (name + slash + sha + end) == front + name + slash + sha + end,
{
    assert(front + (name + slash + sha + end) =~= front + name + slash + sha + end);
}

/// The context that an entry is rendered in: its project and the role that its
/// agent's sidecar gives it.
pub open spec fn entry_ctx(a: AgentView, name: Seq<char>, set: SetView) -> CtxView {
    CtxView {
        project: set.project,
        role: sidecar::role_of_entry(a.meta, name, a.slug),
        known: set.known,
        data: set.data,
        store: set.store,
    }
}

/// Files hold the file of an entry.
pub open spec fn holds_entry(
    files: Seq<(Seq<char>, Seq<char>)>,
    a: AgentView,
    m: Fields,
    name: Seq<char>,
    set: SetView,
) -> bool {
    json::as_fields(m[name]) is Some && exists|i: int|
        0 <= i < files.len() && (#[trigger] files[i]).0 == handles::entry_name(
            set.handles,
            a.slug,
            name,
        ) + ".md"@ && rendered_file(
            json::as_fields(m[name])->Some_0,
            entry_ctx(a, name, set),
            a.files,
            set.pins,
        ) == Ok::<Seq<char>, ErrorView>(files[i].1)
}

proof fn lemma_holds_more(
    files: Seq<(Seq<char>, Seq<char>)>,
    before: Seq<(Seq<char>, Seq<char>)>,
    after: Seq<(Seq<char>, Seq<char>)>,
    a: AgentView,
    m: Fields,
    name: Seq<char>,
    set: SetView,
)
    requires
        holds_entry(files, a, m, name, set),
    ensures
        holds_entry(before + files + after, a, m, name, set),
{
    let i = choose|i: int|
        0 <= i < files.len() && (#[trigger] files[i]).0 == handles::entry_name(
            set.handles,
            a.slug,
            name,
        ) + ".md"@ && rendered_file(
            json::as_fields(m[name])->Some_0,
            entry_ctx(a, name, set),
            a.files,
            set.pins,
        ) == Ok::<Seq<char>, ErrorView>(files[i].1);
    assert((before + files + after)[before.len() + i] == files[i]);
}

/// Every entry of an agent that is rendered has its file, under its own name,
/// and there is one file for each entry.
pub proof fn law_entries_have_their_files(a: AgentView, m: Fields, n: nat, set: SetView)
    requires
        n <= document::names(m).len(),
        rendered_entries(a, m, n, set) is Ok,
    ensures
        rendered_entries(a, m, n, set)->Ok_0.len() == n,
        forall|k: int|
            0 <= k < n ==> holds_entry(
                rendered_entries(a, m, n, set)->Ok_0,
                a,
                m,
                #[trigger] document::names(m)[k],
                set,
            ),
    decreases n,
{
    if n > 0 {
        law_entries_have_their_files(a, m, (n - 1) as nat, set);
        let before = rendered_entries(a, m, (n - 1) as nat, set)->Ok_0;
        let all = rendered_entries(a, m, n, set)->Ok_0;
        let last = seq![all.last()];
        let none = Seq::<(Seq<char>, Seq<char>)>::empty();
        assert(all =~= none + before + last);
        assert forall|k: int| 0 <= k < n implies holds_entry(
            all,
            a,
            m,
            #[trigger] document::names(m)[k],
            set,
        ) by {
            let name = document::names(m)[k];
            if k < n - 1 {
                lemma_holds_more(before, none, last, a, m, name, set);
            } else {
                assert(all[n - 1] == all.last());
            }
        }
    }
}

/// How many entries the first `n` agents have.
pub open spec fn entry_count(agents: Seq<AgentView>, n: nat) -> nat
    decreases n,
{
    if n == 0 {
        0
    } else {
        entry_count(agents, (n - 1) as nat) + match json::member_fields(
            agents[n - 1].doc,
            "agent"@,
        ) {
            Some(m) => document::names(m).len(),
            None => 0,
        }
    }
}

/// Files hold the files of all the entries of an agent.
pub open spec fn holds_agent(
    files: Seq<(Seq<char>, Seq<char>)>,
    a: AgentView,
    set: SetView,
) -> bool {
    json::member_fields(a.doc, "agent"@) matches Some(m) ==> forall|k: int|
        0 <= k < document::names(m).len() ==> holds_entry(
            files,
            a,
            m,
            #[trigger] document::names(m)[k],
            set,
        )
}

/// A project that is rendered has the file of every entry of every agent of
/// it, and no others.
pub proof fn law_projects_are_rendered_whole(agents: Seq<AgentView>, n: nat, set: SetView)
    requires
        n <= agents.len(),
        rendered_agents(agents, n, set) is Ok,
    ensures
        rendered_agents(agents, n, set)->Ok_0.len() == entry_count(agents, n),
        forall|i: int|
            0 <= i < n ==> holds_agent(
                rendered_agents(agents, n, set)->Ok_0,
                #[trigger] agents[i],
                set,
            ),
    decreases n,
{
    if n > 0 {
        law_projects_are_rendered_whole(agents, (n - 1) as nat, set);
        let before = rendered_agents(agents, (n - 1) as nat, set)->Ok_0;
        let all = rendered_agents(agents, n, set)->Ok_0;
        let none = Seq::<(Seq<char>, Seq<char>)>::empty();
        let last = agents[n - 1];
        match json::member_fields(last.doc, "agent"@) {
            Some(m) => {
                let names = document::names(m);
                law_entries_have_their_files(last, m, names.len(), set);
                let more = rendered_entries(last, m, names.len(), set)->Ok_0;
                assert(all == before + more);
                assert forall|k: int| 0 <= k < names.len() implies holds_entry(
                    all,
                    last,
                    m,
                    #[trigger] names[k],
                    set,
                ) by {
                    lemma_holds_more(more, before, none, last, m, names[k], set);
                    assert(before + more + none =~= all);
                }
                assert forall|i: int| 0 <= i < n implies holds_agent(
                    all,
                    #[trigger] agents[i],
                    set,
                ) by {
                    if i < n - 1 {
                        assert(holds_agent(before, agents[i], set));
                        match json::member_fields(agents[i].doc, "agent"@) {
                            Some(p) => {
                                assert forall|k: int|
                                    0 <= k < document::names(p).len() implies holds_entry(
                                    all,
                                    agents[i],
                                    p,
                                    #[trigger] document::names(p)[k],
                                    set,
                                ) by {
                                    let name = document::names(p)[k];
                                    lemma_holds_more(before, none, more, agents[i], p, name, set);
                                    assert(none + before + more =~= all);
                                }
                            },
                            None => {},
                        }
                    }
                }
            },
            None => {},
        }
    }
}

/// A project that is rendered is rendered for itself: under its own name, with
/// its own roots and with its run's pins, and every agent's entries are there.
pub proof fn law_rendered_projects_are_their_own(
    agents: Seq<AgentView>,
    project: Seq<char>,
    data: Seq<char>,
    store: Seq<char>,
    pins: Seq<PinView>,
    i: int,
    k: int,
)
    requires
        rendered_project(agents, project, data, store, pins) is Ok,
        0 <= i < agents.len(),
        json::member_fields(agents[i].doc, "agent"@) is Some,
        0 <= k < document::names(json::member_fields(agents[i].doc, "agent"@)->Some_0).len(),
    ensures
        handles::claimed(agents, project) is Ok,
        ({
            let files = rendered_project(agents, project, data, store, pins)->Ok_0;
            let known = handles::claimed(agents, project)->Ok_0.dom();
            let m = json::member_fields(agents[i].doc, "agent"@)->Some_0;
            let name = document::names(m)[k];
            &&& files.len() == entry_count(agents, agents.len())
            &&& holds_entry(
                files,
                agents[i],
                m,
                name,
                (SetView {
                    project,
                    handles: handles::handles(agents),
                    known,
                    data,
                    store,
                    pins,
                }),
            )
        }),
{
    let known = handles::claimed(agents, project)->Ok_0.dom();
    let set = set_of(agents, known, project, data, store, pins);
    law_projects_are_rendered_whole(agents, agents.len(), set);
    let files = rendered_project(agents, project, data, store, pins)->Ok_0;
    assert(holds_agent(files, agents[i], set));
}

/// One agent that is rendered onto a set has the file of each of its entries,
/// as the set gives them.
pub proof fn law_agents_are_rendered_onto_their_set(
    agents: Seq<AgentView>,
    agent: AgentView,
    project: Seq<char>,
    data: Seq<char>,
    store: Seq<char>,
    pins: Seq<PinView>,
    k: int,
)
    requires
        rendered_one(agents, agent, project, data, store, pins) is Ok,
    ensures
        handles::claimed(agents, project) is Ok,
        json::member_fields(agent.doc, "agent"@) is Some,
        ({
            let files = rendered_one(agents, agent, project, data, store, pins)->Ok_0;
            let known = handles::claimed(agents, project)->Ok_0.dom();
            let m = json::member_fields(agent.doc, "agent"@)->Some_0;
            &&& files.len() == document::names(m).len()
            &&& 0 <= k < files.len() ==> holds_entry(
                files,
                agent,
                m,
                document::names(m)[k],
                (SetView {
                    project,
                    handles: handles::handles(agents),
                    known,
                    data,
                    store,
                    pins,
                }),
            )
        }),
{
    let known = handles::claimed(agents, project)->Ok_0.dom();
    let set = set_of(agents, known, project, data, store, pins);
    let m = json::member_fields(agent.doc, "agent"@)->Some_0;
    law_entries_have_their_files(agent, m, document::names(m).len(), set);
}

/// An entry's prompt is its stored one with the references replaced; without a
/// prompt it is empty, and one without references is rendered as it is.
pub proof fn law_prompts_are_the_stored_ones(cfg: Fields, files: Map<Seq<char>, FileText>)
    ensures
        json::entry(cfg, "prompt"@) is None ==> prompt_text(cfg, files) == Ok::<
            Seq<char>,
            ErrorView,
        >(Seq::empty()),
        json::entry_text(cfg, "prompt"@) matches Some(p) ==> prompt_text(cfg, files)
            == document::inlined_from(p, 0, files),
        json::entry_text(cfg, "description"@) matches Some(d) ==> description_of(cfg) == d,
        json::entry(cfg, "permission"@) matches Some(p) ==> permission_of(cfg) == p,
        json::entry(cfg, "permission"@) is None ==> permission_of(cfg) is Null,
        json::entry(cfg, "description"@) is None ==> description_of(cfg).len() == 0,
{
}

} // verus!
