//! Provisioning a run directory: the project boundary expressed as a
//! directory, with one project linked into it and a configuration of its own.
use vstd::prelude::*;
use crate::error;
use crate::error::{Error, ErrorView};
use crate::json;
use crate::json::{Json, JsonView};
use crate::path;
use crate::store::layout;
use crate::store::layout::Store;
use crate::store::missions::FileWrite;
use crate::text;

verus! {

/// The environment variable of the plugins directory.
pub const PLUGINS_DIR_ENV: &'static str = "CORPUS_PLUGINS_DIR";

/// One step of provisioning a run directory.
#[derive(Debug, PartialEq, Eq)]
pub enum ProvisionStep {
    /// Create a directory and what is above it.
    MakeDir(String),
    /// Point `link` at `target`.
    Link { target: String, link: String },
}

/// What a step of provisioning holds.
pub enum StepView {
    MakeDir(Seq<char>),
    Link { target: Seq<char>, link: Seq<char> },
}

impl View for ProvisionStep {
    type V = StepView;

    open spec fn view(&self) -> StepView {
        match self {
            ProvisionStep::MakeDir(p) => StepView::MakeDir(p@),
            ProvisionStep::Link { target, link } => StepView::Link { target: target@, link: link@ },
        }
    }
}

/// What the steps hold.
pub open spec fn step_views(v: Seq<ProvisionStep>) -> Seq<StepView> {
    Seq::new(v.len(), |i: int| v[i]@)
}

/// The steps that provision a run directory: the project's own subtree and no
/// other, the sources, and the skills where there are any.
pub open spec fn provision_steps(
    root: Seq<char>,
    slug: Seq<char>,
    sources: Seq<char>,
    resources: Seq<char>,
    skills: bool,
) -> Seq<StepView> {
    let run = layout::run_path(root, slug);
    let opencode = path::joined(run, ".opencode"@);
    let projects = path::joined(path::joined(run, "store"@), "projects"@);
    let base = seq![
        StepView::MakeDir(path::joined(opencode, "agent"@)),
        StepView::MakeDir(projects),
        StepView::Link {
            target: layout::project_path(root, slug),
            link: path::joined(projects, slug),
        },
        StepView::MakeDir(sources),
        StepView::Link { target: sources, link: path::joined(run, "sources"@) },
    ];
    if skills {
        base.push(
            StepView::Link {
                target: path::joined(path::joined(resources, ".opencode"@), "skills"@),
                link: path::joined(opencode, "skills"@),
            },
        )
    } else {
        base
    }
}

/// The environment of the tool server of a run.
pub open spec fn run_environment(
    root: Seq<char>,
    slug: Seq<char>,
    plugin: Seq<char>,
    plugins: Seq<char>,
) -> Map<Seq<char>, JsonView> {
    Map::empty().insert("CORPUS_STORE"@, JsonView::Text(root)).insert(
        "CORPUS_PROJECT"@,
        JsonView::Text(slug),
    ).insert("CORPUS_PLUGINS_DIR"@, JsonView::Text(plugins)).insert(
        "CORPUS_PLUGIN_DIR"@,
        JsonView::Text(path::joined(plugins, plugin)),
    )
}

/// The configuration that a run directory carries.
pub open spec fn run_config(
    root: Seq<char>,
    slug: Seq<char>,
    plugin: Seq<char>,
    plugins: Seq<char>,
    server: Seq<char>,
) -> JsonView {
    let corpus = Map::empty().insert("type"@, JsonView::Text("local"@)).insert(
        "enabled"@,
        JsonView::Bool(true),
    ).insert("timeout"@, JsonView::Number("180000"@)).insert(
        "command"@,
        JsonView::Array(seq![JsonView::Text(server)]),
    ).insert("environment"@, JsonView::Object(run_environment(root, slug, plugin, plugins)));
    JsonView::Object(
        Map::empty().insert("$schema"@, JsonView::Text("https://opencode.ai/config.json"@)).insert(
            "mcp"@,
            JsonView::Object(Map::empty().insert("corpus"@, JsonView::Object(corpus))),
        ),
    )
}

impl Store {
    /// The steps that provision the run directory of the project `slug`;
    /// `sources` is the cache of source trees, and `skills` says whether the
    /// resources hold any skills.
    pub fn provision_run_dir(&self, slug: &str, sources: &str, resources: &str, skills: bool) -> (r:
        Vec<ProvisionStep>)
        ensures
            step_views(r@) == provision_steps(self@.root, slug@, sources@, resources@, skills),
    {
        let run = self.project_run_dir(slug);
        let opencode = path::join(run.as_str(), ".opencode");
        let projects = path::join(path::join(run.as_str(), "store").as_str(), "projects");
        let mut out: Vec<ProvisionStep> = Vec::new();
        out.push(ProvisionStep::MakeDir(path::join(opencode.as_str(), "agent")));
        out.push(ProvisionStep::MakeDir(projects.clone()));
        out.push(
            ProvisionStep::Link {
                target: self.project_dir(slug),
                link: path::join(projects.as_str(), slug),
            },
        );
        out.push(ProvisionStep::MakeDir(sources.to_owned()));
        out.push(
            ProvisionStep::Link {
                target: sources.to_owned(),
                link: path::join(run.as_str(), "sources"),
            },
        );
        if skills {
            out.push(
                ProvisionStep::Link {
                    target: path::join(path::join(resources, ".opencode").as_str(), "skills"),
                    link: path::join(opencode.as_str(), "skills"),
                },
            );
        }
        assert(step_views(out@) =~= provision_steps(
            self@.root,
            slug@,
            sources@,
            resources@,
            skills,
        ));
        out
    }

    /// The configuration of the run directory of the project `slug`. It names
    /// the project, so that the scope survives every way into the server.
    pub fn run_opencode_config(&self, slug: &str, plugin: &str, plugins: &str, server: &str) -> (r:
        Json)
        ensures
            r@ == run_config(self@.root, slug@, plugin@, plugins@, server@),
    {
        let mut environment = json::no_fields();
        json::put_text(&mut environment, layout::STORE_ENV, self.root());
        json::put_text(&mut environment, layout::PROJECT_ENV, slug);
        json::put_text(&mut environment, PLUGINS_DIR_ENV, plugins);
        json::put_text(&mut environment, "CORPUS_PLUGIN_DIR", path::join(plugins, plugin).as_str());
        let mut command: Vec<Json> = Vec::new();
        command.push(Json::text(server));
        assert(json::items(command@) =~= seq![JsonView::Text(server@)]);
        let mut corpus = json::no_fields();
        json::put_text(&mut corpus, "type", "local");
        json::put(&mut corpus, "enabled", Json::Bool(true));
        json::put(&mut corpus, "timeout", Json::Number("180000".to_owned()));
        json::put(&mut corpus, "command", Json::Array(command));
        json::put(&mut corpus, "environment", Json::Object(environment));
        let mut mcp = json::no_fields();
        json::put(&mut mcp, "corpus", Json::Object(corpus));
        let mut out = json::no_fields();
        json::put_text(&mut out, "$schema", "https://opencode.ai/config.json");
        json::put(&mut out, "mcp", Json::Object(mcp));
        Json::Object(out)
    }

    /// The configuration file of the run directory of the project `slug`.
    pub fn write_run_opencode_config(
        &self,
        slug: &str,
        plugin: &str,
        plugins: &str,
        server: &str,
    ) -> (r: Result<FileWrite, Error>)
        ensures
            error::outcome(r) == (match json::pretty(
                run_config(self@.root, slug@, plugin@, plugins@, server@),
            ) {
                Err(e) => Err(ErrorView::Store("run config: "@ + e)),
                Ok(body) => Ok(
                    (
                        path::joined(
                            path::joined(layout::run_path(self@.root, slug@), ".opencode"@),
                            "opencode.json"@,
                        ),
                        body + "\n"@,
                    ),
                ),
            }),
    {
        let config = self.run_opencode_config(slug, plugin, plugins, server);
        match json::to_pretty(&config) {
            Err(e) => Err(Error::Store(text::cat2("run config: ", e.as_str()))),
            Ok(body) => Ok(
                FileWrite {
                    path: path::join(
                        path::join(self.project_run_dir(slug).as_str(), ".opencode").as_str(),
                        "opencode.json",
                    ),
                    text: text::cat2(body.as_str(), "\n"),
                },
            ),
        }
    }

    /// Where the remembered choices are kept.
    pub fn prefs_path(&self) -> (r: String)
        ensures
            r@ == path::joined(self@.root, "app.yaml"@),
    {
        path::join(self.root(), "app.yaml")
    }
}

/// The operator's remembered choices.
#[derive(Debug, PartialEq, Eq)]
pub struct AppPrefs {
    /// The chat model last chosen; empty where none ever was.
    pub chat_model: String,
}

/// The remembered choices, or none where they could not be read: losing a
/// preference never keeps anything from opening.
pub fn load_prefs(read: Option<AppPrefs>) -> (r: AppPrefs)
    ensures
        r.chat_model@ == (match read {
            Some(prefs) => prefs.chat_model@,
            None => Seq::empty(),
        }),
{
    match read {
        Some(prefs) => prefs,
        None => AppPrefs { chat_model: String::new() },
    }
}

// ---------------------------------------------------------------------
// Links
// ---------------------------------------------------------------------

/// What stands where a link is to go.
#[derive(Debug, PartialEq, Eq)]
pub enum LinkState {
    /// Nothing.
    Missing,
    /// A link, and what it points at if that can be read.
    Points(Option<String>),
    /// A file or directory of its own.
    Real,
}

/// What is done to make a link point at its target.
#[derive(Debug, Clone, Copy, PartialEq, Eq, Structural)]
pub enum LinkAction {
    /// It does already.
    Keep,
    /// Remove the stale link, then make it anew.
    Replace,
    /// Make it.
    Create,
}

/// What a result of a link action holds.
pub open spec fn action_outcome(r: Result<LinkAction, Error>) -> Result<LinkAction, ErrorView> {
    match r {
        Ok(a) => Ok(a),
        Err(e) => Err(e@),
    }
}

/// What pointing `link` at `target` comes to. Every way it can fail is an
/// error: the project boundary is made of it.
pub open spec fn link_action(
    target: Seq<char>,
    target_exists: bool,
    link: Seq<char>,
    state: LinkState,
) -> Result<LinkAction, ErrorView> {
    if !target_exists {
        Err(ErrorView::Store("cannot link "@ + target + ": it does not exist"@))
    } else {
        match state {
            LinkState::Missing => Ok(LinkAction::Create),
            LinkState::Real => Err(
                ErrorView::Store(
                    link + " is a real path, not a link to "@ + target
                        + " — refusing to provision over it"@,
                ),
            ),
            LinkState::Points(to) => if text::opt_text(to) == Some(target) {
                Ok(LinkAction::Keep)
            } else {
                Ok(LinkAction::Replace)
            },
        }
    }
}

/// What to do to make `link` point at `target`.
pub fn relink(target: &str, target_exists: bool, link: &str, state: &LinkState) -> (r: Result<
    LinkAction,
    Error,
>)
    ensures
        action_outcome(r) == link_action(target@, target_exists, link@, *state),
{
    if !target_exists {
        return Err(Error::Store(text::cat3("cannot link ", target, ": it does not exist")));
    }
    match state {
        LinkState::Missing => Ok(LinkAction::Create),
        LinkState::Real => Err(
            Error::Store(
                text::cat4(
                    link,
                    " is a real path, not a link to ",
                    target,
                    " — refusing to provision over it",
                ),
            ),
        ),
        LinkState::Points(to) => match to {
            Some(to) => if text::same(to.as_str(), target) {
                Ok(LinkAction::Keep)
            } else {
                Ok(LinkAction::Replace)
            },
            None => Ok(LinkAction::Replace),
        },
    }
}

// ---------------------------------------------------------------------
// Laws
// ---------------------------------------------------------------------

/// What a link points at once the action was carried out.
pub open spec fn points_at(action: LinkAction, target: Seq<char>, state: LinkState) -> Option<
    Seq<char>,
> {
    match action {
        LinkAction::Keep => match state {
            LinkState::Points(to) => text::opt_text(to),
            _ => None,
        },
        LinkAction::Replace => Some(target),
        LinkAction::Create => Some(target),
    }
}

/// Relinking either fails or leaves the link pointing at its target, whatever
/// it pointed at before; it never replaces what is no link.
pub proof fn law_relink_repoints_or_refuses(
    target: Seq<char>,
    target_exists: bool,
    link: Seq<char>,
    state: LinkState,
)
    ensures
        link_action(target, target_exists, link, state) matches Ok(action) ==> points_at(
            action,
            target,
            state,
        ) == Some(target),
        link_action(target, target_exists, link, state) is Ok ==> target_exists && !(state is Real),
{
}

/// Provisioning again changes no link that it made.
pub proof fn law_relink_is_idempotent(target: Seq<char>, link: Seq<char>, state: LinkState)
    requires
        state matches LinkState::Points(to) && text::opt_text(to) == Some(target),
    ensures
        link_action(target, true, link, state) == Ok::<LinkAction, ErrorView>(LinkAction::Keep),
{
}

/// The only project that a run directory reaches is its own: every link that
/// provisioning makes points at that project or at a shared resource.
pub proof fn law_run_dir_exposes_one_project(
    root: Seq<char>,
    slug: Seq<char>,
    sources: Seq<char>,
    resources: Seq<char>,
    skills: bool,
    i: int,
)
    requires
        0 <= i < provision_steps(root, slug, sources, resources, skills).len(),
    ensures
        provision_steps(root, slug, sources, resources, skills)[i] matches StepView::Link { target, .. } ==> {
            ||| target == layout::project_path(root, slug)
            ||| target == sources
            ||| target == path::joined(path::joined(resources, ".opencode"@), "skills"@)
        },
{
}

/// The environment variables of a run are told apart by their names.
proof fn lemma_variables_differ()
    ensures
        "CORPUS_STORE"@ != "CORPUS_PROJECT"@,
        "CORPUS_STORE"@ != "CORPUS_PLUGINS_DIR"@,
        "CORPUS_STORE"@ != "CORPUS_PLUGIN_DIR"@,
        "CORPUS_PROJECT"@ != "CORPUS_PLUGINS_DIR"@,
        "CORPUS_PROJECT"@ != "CORPUS_PLUGIN_DIR"@,
        "CORPUS_PLUGINS_DIR"@ != "CORPUS_PLUGIN_DIR"@,
        "CORPUS_OPENCODE_AGENT"@ != "CORPUS_STORE"@,
        "CORPUS_OPENCODE_AGENT"@ != "CORPUS_PROJECT"@,
        "CORPUS_OPENCODE_AGENT"@ != "CORPUS_PLUGINS_DIR"@,
        "CORPUS_OPENCODE_AGENT"@ != "CORPUS_PLUGIN_DIR"@,
        "CORPUS_RUN_LOG"@ != "CORPUS_STORE"@,
        "CORPUS_RUN_LOG"@ != "CORPUS_PROJECT"@,
        "CORPUS_RUN_LOG"@ != "CORPUS_PLUGINS_DIR"@,
        "CORPUS_RUN_LOG"@ != "CORPUS_PLUGIN_DIR"@,
        "CORPUS_SOURCE_PINS"@ != "CORPUS_STORE"@,
        "CORPUS_SOURCE_PINS"@ != "CORPUS_PROJECT"@,
        "CORPUS_SOURCE_PINS"@ != "CORPUS_PLUGINS_DIR"@,
        "CORPUS_SOURCE_PINS"@ != "CORPUS_PLUGIN_DIR"@,
{
    reveal_strlit("CORPUS_STORE");
    reveal_strlit("CORPUS_PROJECT");
    reveal_strlit("CORPUS_PLUGINS_DIR");
    reveal_strlit("CORPUS_PLUGIN_DIR");
    reveal_strlit("CORPUS_OPENCODE_AGENT");
    reveal_strlit("CORPUS_RUN_LOG");
    reveal_strlit("CORPUS_SOURCE_PINS");
    assert("CORPUS_STORE"@.len() == 12);
    assert("CORPUS_PROJECT"@.len() == 14);
    assert("CORPUS_PLUGINS_DIR"@.len() == 18);
    assert("CORPUS_PLUGIN_DIR"@.len() == 17);
    assert("CORPUS_OPENCODE_AGENT"@.len() == 21);
    assert("CORPUS_RUN_LOG"@.len() == 14);
    assert("CORPUS_SOURCE_PINS"@.len() == 18);
    assert("CORPUS_RUN_LOG"@[7] == 'R' && "CORPUS_PROJECT"@[7] == 'P');
    assert("CORPUS_SOURCE_PINS"@[7] == 'S' && "CORPUS_PLUGINS_DIR"@[7] == 'P');
}

/// The configuration of a run directory names its own project and store, and
/// no run's identity: a server that was started outside a launch has a scope
/// and no role.
pub proof fn law_run_config_names_its_project(
    root: Seq<char>,
    slug: Seq<char>,
    plugin: Seq<char>,
    plugins: Seq<char>,
    server: Seq<char>,
)
    ensures
        ({
            let config = run_config(root, slug, plugin, plugins, server);
            let corpus = json::member(json::member(config, "mcp"@)->Some_0, "corpus"@)->Some_0;
            let environment = json::member(corpus, "environment"@)->Some_0;
            &&& json::member_text(environment, "CORPUS_PROJECT"@) == Some(slug)
            &&& json::member_text(environment, "CORPUS_STORE"@) == Some(root)
            &&& json::member_text(environment, "CORPUS_PLUGIN_DIR"@) == Some(
                path::joined(plugins, plugin),
            )
            &&& json::member(environment, "CORPUS_OPENCODE_AGENT"@) is None
            &&& json::member(environment, "CORPUS_RUN_LOG"@) is None
            &&& json::member(environment, "CORPUS_SOURCE_PINS"@) is None
        }),
{
    lemma_variables_differ();
    reveal_strlit("mcp");
    reveal_strlit("$schema");
    reveal_strlit("command");
    reveal_strlit("environment");
}

} // verus!
