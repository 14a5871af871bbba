//! Where the store keeps things: paths of projects, agents and missions.
use vstd::prelude::*;
use crate::path;
use crate::store::naming;
use crate::text;

verus! {

/// The environment variable of the store root.
pub const STORE_ENV: &'static str = "CORPUS_STORE";

/// The environment variable of the project scope.
pub const PROJECT_ENV: &'static str = "CORPUS_PROJECT";

/// The environment variable of the launched mission's resolved source pins.
pub const SOURCE_PINS_ENV: &'static str = "CORPUS_SOURCE_PINS";

/// The environment variable of the current run's transcript file.
pub const RUN_LOG_ENV: &'static str = "CORPUS_RUN_LOG";

/// The environment variable of the slug a run was launched as: its identity.
pub const AGENT_ENV: &'static str = "CORPUS_OPENCODE_AGENT";

/// The environment variable of the handle a run shows to the operator.
pub const HANDLE_ENV: &'static str = "CORPUS_OPENCODE_HANDLE";

/// The environment variable of the mission that a run was launched for.
pub const MISSION_ENV: &'static str = "CORPUS_MISSION";

/// The environment variable of a run's own identity.
pub const RUN_ID_ENV: &'static str = "CORPUS_RUN_ID";

/// The environment variable of the environment session of a run.
pub const ENVIRONMENT_SESSION_ENV: &'static str = "CORPUS_ENVIRONMENT_SESSION";

/// The corpus categories.
pub const CATEGORIES: [&'static str; 6] = [
    "hypotheses",
    "techniques",
    "findings",
    "attacks",
    "retro",
    "runs",
];

/// The category of mission logs, which is summarized on its own.
pub const RUNS: &'static str = "runs";

/// The store: paths over the scoped layout, and who acts on it.
#[derive(Debug, PartialEq, Eq)]
pub struct Store {
    root: String,
    actor: Option<String>,
}

/// What a store holds: its root, and who acts if anyone in particular.
#[verifier::ext_equal]
pub struct StoreView {
    pub root: Seq<char>,
    pub actor: Option<Seq<char>>,
}

impl View for Store {
    type V = StoreView;

    closed spec fn view(&self) -> StoreView {
        StoreView { root: self.root@, actor: text::opt_text(self.actor) }
    }
}

/// The directory of all projects.
pub open spec fn projects_path(root: Seq<char>) -> Seq<char> {
    path::joined(root, "projects"@)
}

/// The directory of one project.
pub open spec fn project_path(root: Seq<char>, slug: Seq<char>) -> Seq<char> {
    path::joined(projects_path(root), slug)
}

/// The mutable tree beside a store: the sibling `var` of its root.
pub open spec fn var_path(root: Seq<char>) -> Seq<char> {
    path::joined(
        match path::parent_of(root) {
            Some(parent) => parent,
            None => root,
        },
        "var"@,
    )
}

/// The run directory of a project.
pub open spec fn run_path(root: Seq<char>, slug: Seq<char>) -> Seq<char> {
    path::joined(path::joined(var_path(root), "run"@), slug)
}

/// The corpus of a project.
pub open spec fn corpus_path(root: Seq<char>, slug: Seq<char>) -> Seq<char> {
    path::joined(project_path(root, slug), "corpus"@)
}

/// The agents of a project.
pub open spec fn agents_path(root: Seq<char>, slug: Seq<char>) -> Seq<char> {
    path::joined(project_path(root, slug), "agents"@)
}

/// The missions of a project.
pub open spec fn missions_path(root: Seq<char>, slug: Seq<char>) -> Seq<char> {
    path::joined(project_path(root, slug), "missions"@)
}

/// Where the store is: where the setting says, else below the home directory.
pub open spec fn root_of(setting: Option<Seq<char>>, home: Seq<char>) -> Seq<char> {
    match setting {
        Some(root) => root,
        None => path::joined(home, ".corpus/store"@),
    }
}

/// Where the store is, as [`STORE_ENV`] says or below the home directory.
pub fn store_root_env(setting: Option<&str>, home: &str) -> (r: String)
    ensures
        r@ == root_of(text::opt_str(setting), home@),
{
    match setting {
        Some(root) => root.to_owned(),
        None => path::join(home, ".corpus/store"),
    }
}

impl Store {
    /// The store of the process's settings, acted on by nobody in particular.
    pub fn from_env(setting: Option<&str>, home: &str) -> (r: Store)
        ensures
            r@ == (StoreView { root: root_of(text::opt_str(setting), home@), actor: None }),
    {
        Store::new(store_root_env(setting, home))
    }

    /// A store at `root`, acted on by nobody in particular.
    pub fn new(root: String) -> (r: Store)
        ensures
            r@ == (StoreView { root: root@, actor: None }),
    {
        Store { root, actor: None }
    }

    /// The store with everything done to it stamped with `actor`.
    pub fn with_actor(self, actor: String) -> (r: Store)
        ensures
            r@ == (StoreView { root: self@.root, actor: Some(actor@) }),
    {
        Store { root: self.root, actor: Some(actor) }
    }

    /// Who is acting: the operator where nobody said otherwise.
    pub fn actor(&self) -> (r: &str)
        ensures
            r@ == (match self@.actor {
                Some(actor) => actor,
                None => "operator"@,
            }),
    {
        match &self.actor {
            Some(actor) => actor.as_str(),
            None => "operator",
        }
    }

    /// The store's root.
    pub fn root(&self) -> (r: &str)
        ensures
            r@ == self@.root,
    {
        self.root.as_str()
    }

    /// The directory of all projects.
    pub fn projects_dir(&self) -> (r: String)
        ensures
            r@ == projects_path(self@.root),
    {
        path::join(self.root.as_str(), "projects")
    }

    /// The directory of one project.
    pub fn project_dir(&self, slug: &str) -> (r: String)
        ensures
            r@ == project_path(self@.root, slug@),
    {
        path::join(self.projects_dir().as_str(), slug)
    }

    /// The project's run directory, where its missions are launched: beside
    /// the store, never inside the project it serves.
    pub fn project_run_dir(&self, slug: &str) -> (r: String)
        ensures
            r@ == run_path(self@.root, slug@),
    {
        path::join(path::join(self.var_dir().as_str(), "run").as_str(), slug)
    }

    /// The store's mutable side tree, derived from this store rather than the
    /// environment.
    pub fn var_dir(&self) -> (r: String)
        ensures
            r@ == var_path(self@.root),
    {
        match path::parent(self.root.as_str()) {
            Some(parent) => path::join(parent.as_str(), "var"),
            None => path::join(self.root.as_str(), "var"),
        }
    }

    /// The management-chat scope of a project, outside the project subtree.
    pub fn project_chat_dir(&self, slug: &str) -> (r: String)
        ensures
            r@ == path::joined(path::joined(var_path(self@.root), "chat"@), slug@),
    {
        path::join(path::join(self.var_dir().as_str(), "chat").as_str(), slug)
    }

    /// The project's corpus.
    pub fn project_corpus_dir(&self, slug: &str) -> (r: String)
        ensures
            r@ == corpus_path(self@.root, slug@),
    {
        path::join(self.project_dir(slug).as_str(), "corpus")
    }

    /// The project's agents.
    pub fn project_agents_dir(&self, slug: &str) -> (r: String)
        ensures
            r@ == agents_path(self@.root, slug@),
    {
        path::join(self.project_dir(slug).as_str(), "agents")
    }

    /// One agent of the project.
    pub fn project_agent_dir(&self, slug: &str, agent: &str) -> (r: String)
        ensures
            r@ == path::joined(agents_path(self@.root, slug@), agent@),
    {
        path::join(self.project_agents_dir(slug).as_str(), agent)
    }

    /// The project's missions.
    pub fn project_missions_dir(&self, slug: &str) -> (r: String)
        ensures
            r@ == missions_path(self@.root, slug@),
    {
        path::join(self.project_dir(slug).as_str(), "missions")
    }

    /// The directory that a project's rendered agents land in.
    pub fn opencode_agent_dir(&self, project: &str) -> (r: String)
        ensures
            r@ == path::joined(
                path::joined(run_path(self@.root, project@), ".opencode"@),
                "agent"@,
            ),
    {
        path::join(
            path::join(self.project_run_dir(project).as_str(), ".opencode").as_str(),
            "agent",
        )
    }
}

/// The scope of writes: the project whose corpus they land in.
#[derive(Debug, PartialEq, Eq)]
pub struct Scope {
    pub project: String,
}

impl Scope {
    /// The scope of `project`.
    pub fn new(project: String) -> (r: Scope)
        ensures
            r.project == project,
    {
        Scope { project }
    }

    /// The corpus directory that the scope writes to.
    pub fn corpus_dir(&self, store: &Store) -> (r: String)
        ensures
            r@ == corpus_path(store@.root, self.project@),
    {
        store.project_corpus_dir(self.project.as_str())
    }

    /// The directories of run logs: the one of the project's corpus.
    pub fn runs_dirs(&self, store: &Store) -> (r: Vec<String>)
        ensures
            text::texts(r@) == seq![
                path::joined(corpus_path(store@.root, self.project@), "runs"@),
            ],
    {
        let mut out: Vec<String> = Vec::new();
        out.push(path::join(self.corpus_dir(store).as_str(), "runs"));
        assert(text::texts(out@) =~= seq![
            path::joined(corpus_path(store@.root, self.project@), "runs"@),
        ]);
        out
    }
}

// ---------------------------------------------------------------------
// Laws
// ---------------------------------------------------------------------

/// A slug is a plain file name.
pub proof fn lemma_slug_is_plain(slug: Seq<char>)
    requires
        naming::is_slug(slug),
    ensures
        path::is_plain_name(slug),
{
    naming::law_slug_stays_in_place(slug);
}

/// Nothing below a directory of the side tree lies in a project.
pub proof fn lemma_side_tree_is_apart(
    root: Seq<char>,
    dir: Seq<char>,
    name: Seq<char>,
    project: Seq<char>,
)
    requires
        path::is_plain_name(dir),
        path::is_plain_name(name),
        path::is_plain_name(project),
        dir != "projects"@,
    ensures
        !path::is_within(
            path::joined(path::joined(var_path(root), dir), name),
            project_path(root, project),
        ),
        path::is_within(path::joined(path::joined(var_path(root), dir), name), var_path(root)),
{
    reveal_strlit("projects");
    reveal_strlit("var");
    reveal_strlit(".");
    reveal_strlit("..");
    let var = var_path(root);
    let side = path::joined(path::joined(var, dir), name);
    let proj = project_path(root, project);
    assert(path::is_plain_name("projects"@));
    assert(path::is_plain_name("var"@));
    path::lemma_parts_join_name(root, "projects"@);
    path::lemma_parts_join_name(projects_path(root), project);
    path::lemma_parts_join_name(var, dir);
    path::lemma_parts_join_name(path::joined(var, dir), name);
    let base = match path::parent_of(root) {
        Some(parent) => parent,
        None => root,
    };
    path::lemma_parts_join_name(base, "var"@);
    assert(path::parts(var) =~= path::parts(side).subrange(0, path::parts(var).len() as int));
    let n = path::parts(base).len() as int;
    match path::parent_of(root) {
        Some(parent) => {
            path::lemma_parts_parent(root);
            assert(path::parts(proj)[n + 1] == path::Part::Normal("projects"@));
            assert(path::parts(side)[n + 1] == path::Part::Normal(dir));
            if path::is_within(side, proj) {
                assert(path::parts(side).subrange(0, path::parts(proj).len() as int)[n + 1]
                    == path::parts(proj)[n + 1]);
            }
        },
        None => {
            assert(path::parts(proj)[n] == path::Part::Normal("projects"@));
            assert(path::parts(side)[n] == path::Part::Normal("var"@));
            assert("projects"@.len() != "var"@.len());
            if path::is_within(side, proj) {
                assert(path::parts(side).subrange(0, path::parts(proj).len() as int)[n]
                    == path::parts(proj)[n]);
            }
        },
    }
}

/// A run directory is beside the store, never inside a project: it links the
/// project it serves, and inside that the link would be a cycle.
pub proof fn law_run_dir_is_outside_every_project(
    root: Seq<char>,
    slug: Seq<char>,
    project: Seq<char>,
)
    requires
        naming::is_slug(slug),
        naming::is_slug(project),
    ensures
        !path::is_within(run_path(root, slug), project_path(root, project)),
{
    reveal_strlit("run");
    reveal_strlit("projects");
    reveal_strlit(".");
    reveal_strlit("..");
    lemma_slug_is_plain(slug);
    lemma_slug_is_plain(project);
    assert("run"@.len() != "projects"@.len());
    lemma_side_tree_is_apart(root, "run"@, slug, project);
}

} // verus!
