//! Managing a project's agents: what each operation reads, refuses and
//! writes. A refused operation writes nothing.
use vstd::prelude::*;
use crate::agents::binding::DataRoots;
use crate::agents::document;
use crate::agents::document::{Fields, FileText};
use crate::agents::edits;
use crate::agents::handles;
use crate::agents::render;
use crate::agents::render::{RenderedAgent, SourcePin};
use crate::agents::roles;
use crate::agents::roles::{AgentRole, RolePrompts};
use crate::agents::sidecar;
use crate::agents::sidecar::{AgentConfig, AgentSidecar, AgentView, RoleMigration, SidecarView};
use crate::error;
use crate::error::{Error, ErrorView};
use crate::json;
use crate::json::{Json, JsonView};
use crate::path;
use crate::store::layout;
use crate::store::layout::Store;
use crate::store::missions::FileWrite;
use crate::store::naming;
use crate::store::records;
use crate::table::Table;
use crate::text;

verus! {

// ---------------------------------------------------------------------
// Loading
// ---------------------------------------------------------------------

/// What reading an agent's document file gave: nothing where there is no
/// file.
pub open spec fn stored_text(stored: Option<&FileText>) -> Option<Result<Seq<char>, Seq<char>>> {
    match stored {
        None => None,
        Some(t) => Some(json::text_result(*t)),
    }
}

/// No agent is under the slug.
pub open spec fn no_agent(project: Seq<char>, slug: Seq<char>) -> ErrorView {
    ErrorView::Store("agent not found: "@ + project + "/"@ + slug)
}

/// The error of an agent that is not there.
fn missing_agent(project: &str, slug: &str) -> (r: Error)
    ensures
        r@ == no_agent(project@, slug@),
{
    Error::Store(text::cat4("agent not found: ", project, "/", slug))
}

/// The slug is taken by an agent.
pub open spec fn agent_taken(project: Seq<char>, slug: Seq<char>) -> ErrorView {
    ErrorView::Store("agent already exists: "@ + project + "/"@ + slug)
}

/// The error of a slug that is taken.
fn taken_agent(project: &str, slug: &str) -> (r: Error)
    ensures
        r@ == agent_taken(project@, slug@),
{
    Error::Store(text::cat4("agent already exists: ", project, "/", slug))
}

/// The document of an agent is no JSON.
pub open spec fn bad_document(project: Seq<char>, slug: Seq<char>, e: Seq<char>) -> ErrorView {
    ErrorView::Store("agent "@ + project + "/"@ + slug + ": invalid opencode.json: "@ + e)
}

/// The error of a document that is no JSON.
fn invalid_document(project: &str, slug: &str, e: &str) -> (r: Error)
    ensures
        r@ == bad_document(project@, slug@, e@),
{
    Error::Store(text::cat6("agent ", project, "/", slug, ": invalid opencode.json: ", e))
}

/// What reading an agent's document comes to.
pub open spec fn loaded_doc(
    project: Seq<char>,
    slug: Seq<char>,
    stored: Option<Result<Seq<char>, Seq<char>>>,
) -> Result<JsonView, ErrorView> {
    match stored {
        None => Err(no_agent(project, slug)),
        Some(Err(e)) => Err(ErrorView::Store("agent "@ + project + "/"@ + slug + ": "@ + e)),
        Some(Ok(raw)) => match json::parsed(raw) {
            Err(e) => Err(bad_document(project, slug, e)),
            Ok(doc) => Ok(doc),
        },
    }
}

/// The document of the agent under `slug`.
fn load_doc(project: &str, slug: &str, stored: Option<&FileText>) -> (r: Result<Json, Error>)
    ensures
        error::outcome(r) == loaded_doc(project@, slug@, stored_text(stored)),
{
    match stored {
        None => Err(missing_agent(project, slug)),
        Some(Err(e)) => Err(Error::Store(text::cat6("agent ", project, "/", slug, ": ", e.as_str()))),
        Some(Ok(raw)) => match json::parse(raw.as_str()) {
            Err(e) => Err(invalid_document(project, slug, e.as_str())),
            Ok(doc) => Ok(doc),
        },
    }
}

/// The file references of the document that a file reads as: none where it
/// reads as no document.
pub fn stored_refs(stored: Option<&FileText>) -> (r: Vec<String>)
    ensures
        text::texts(r@) == (match stored_text(stored) {
            Some(Ok(raw)) => match json::parsed(raw) {
                Ok(doc) => document::all_refs(doc),
                Err(_) => Seq::empty(),
            },
            _ => Seq::empty(),
        }),
{
    let none: Vec<String> = Vec::new();
    assert(text::texts(none@) =~= Seq::<Seq<char>>::empty());
    match stored {
        Some(Ok(raw)) => match json::parse(raw.as_str()) {
            Ok(doc) => document::doc_refs(&doc),
            Err(_) => none,
        },
        _ => none,
    }
}

/// What a loaded agent holds, under its slug.
pub open spec fn config_outcome(slug: Seq<char>, r: Result<AgentConfig, Error>) -> Result<
    AgentView,
    ErrorView,
> {
    match r {
        Ok(c) => Ok(
            AgentView { slug, meta: c.meta@, doc: c.doc@, files: c.files@ },
        ),
        Err(e) => Err(e@),
    }
}

/// The sidecar that was read, or that of an agent without one.
pub open spec fn sidecar_of(read: Option<AgentSidecar>, slug: Seq<char>) -> SidecarView {
    match read {
        Some(meta) => meta@,
        None => sidecar::missing_sidecar(slug),
    }
}

// ---------------------------------------------------------------------
// Writing
// ---------------------------------------------------------------------

/// The document file of an agent.
pub open spec fn doc_file(root: Seq<char>, project: Seq<char>, slug: Seq<char>) -> Seq<char> {
    path::joined(path::joined(layout::agents_path(root, project), slug), "opencode.json"@)
}

/// What writing a document, or refusing to, comes to.
pub open spec fn written(file: Seq<char>, doc: Result<JsonView, ErrorView>) -> Result<
    (Seq<char>, Seq<char>),
    ErrorView,
> {
    match doc {
        Err(e) => Err(e),
        Ok(doc) => match json::pretty(doc) {
            Err(e) => Err(ErrorView::Json(e)),
            Ok(body) => Ok((file, body)),
        },
    }
}

/// The file to write for a document, unless it was refused.
fn write_doc(file: String, doc: Result<Json, Error>) -> (r: Result<FileWrite, Error>)
    ensures
        error::outcome(r) == written(file@, error::outcome(doc)),
{
    match doc {
        Err(e) => Err(e),
        Ok(doc) => match json::to_pretty(&doc) {
            Err(e) => Err(Error::Json(e)),
            Ok(body) => Ok(FileWrite { path: file, text: body }),
        },
    }
}

/// What an operation on an agent writes: its document where that changes, and
/// its sidecar where that does.
#[derive(Debug, PartialEq)]
pub struct AgentWrite {
    pub doc: Option<FileWrite>,
    pub meta: Option<AgentSidecar>,
}

/// What an operation on an agent writes, as plain values.
#[verifier::ext_equal]
pub struct AgentWriteView {
    pub doc: Option<(Seq<char>, Seq<char>)>,
    pub meta: Option<SidecarView>,
}

impl View for AgentWrite {
    type V = AgentWriteView;

    open spec fn view(&self) -> AgentWriteView {
        AgentWriteView {
            doc: match self.doc {
                Some(w) => Some(w@),
                None => None,
            },
            meta: match self.meta {
                Some(m) => Some(m@),
                None => None,
            },
        }
    }
}

/// What a document that is written beside a sidecar comes to.
pub open spec fn both_written(
    doc: Result<(Seq<char>, Seq<char>), ErrorView>,
    meta: Option<SidecarView>,
) -> Result<AgentWriteView, ErrorView> {
    match doc {
        Err(e) => Err(e),
        Ok(w) => Ok(AgentWriteView { doc: Some(w), meta }),
    }
}

/// What adding a subagent writes: the document, and the sidecar where the
/// subagent gets a role of its own.
pub open spec fn subagent_added(
    root: Seq<char>,
    project: Seq<char>,
    slug: Seq<char>,
    name: Seq<char>,
    cfg: Fields,
    role: Option<AgentRole>,
    stored: Option<Result<Seq<char>, Seq<char>>>,
    meta: SidecarView,
    files: Seq<Seq<char>>,
) -> Result<AgentWriteView, ErrorView> {
    match edits::subagent_name_check(slug, name) {
        Err(e) => Err(e),
        Ok(_) => match loaded_doc(project, slug, stored) {
            Err(e) => Err(e),
            Ok(doc) => both_written(
                written(
                    doc_file(root, project, slug),
                    edits::subagent_addition(doc, project, slug, name, cfg, files),
                ),
                match role {
                    None => None,
                    Some(role) => Some(
                        (SidecarView {
                            subagent_roles: meta.subagent_roles.insert(name, role),
                            ..meta
                        }),
                    ),
                },
            ),
        },
    }
}

/// What removing a subagent writes: the document, and the sidecar where the
/// subagent had a role of its own.
pub open spec fn subagent_removed(
    root: Seq<char>,
    project: Seq<char>,
    slug: Seq<char>,
    name: Seq<char>,
    stored: Option<Result<Seq<char>, Seq<char>>>,
    meta: SidecarView,
    files: Seq<Seq<char>>,
) -> Result<AgentWriteView, ErrorView> {
    match loaded_doc(project, slug, stored) {
        Err(e) => Err(e),
        Ok(doc) => both_written(
            written(
                doc_file(root, project, slug),
                edits::subagent_removal(doc, project, slug, name, files),
            ),
            if meta.subagent_roles.dom().contains(name) {
                Some(
                    (SidecarView { subagent_roles: meta.subagent_roles.remove(name), ..meta }),
                )
            } else {
                None
            },
        ),
    }
}

/// The entry that an edit is about: the one named, else the primary.
pub open spec fn edit_target(entry: Option<Seq<char>>, slug: Seq<char>) -> Seq<char> {
    match entry {
        Some(entry) => entry,
        None => slug,
    }
}

/// What copying an agent to another slug writes, given its document.
pub open spec fn copied(
    file: Seq<char>,
    from_project: Seq<char>,
    from: Seq<char>,
    to: Seq<char>,
    provenance: Seq<char>,
    read: Result<Seq<char>, Seq<char>>,
    meta: SidecarView,
    now: u64,
) -> Result<AgentWriteView, ErrorView> {
    let copy = SidecarView {
        name: to,
        created: now,
        cloned_from: Some(provenance),
        role: Some(sidecar::effective_role(meta)),
        subagent_roles: meta.subagent_roles,
    };
    match read {
        Err(e) => Err(ErrorView::Io(e)),
        Ok(raw) => match json::parsed(raw) {
            Err(e) => Err(bad_document(from_project, from, e)),
            Ok(doc) => if edits::primary_lookup(doc, from_project, from) is Ok {
                both_written(
                    written(file, Ok(edits::renamed(doc, to))),
                    Some(copy),
                )
            } else {
                Ok(AgentWriteView { doc: None, meta: Some(copy) })
            },
        },
    }
}

/// What copying the agent `from` to the slug `to` writes.
fn copy_to(
    file: String,
    from_project: &str,
    from: &str,
    to: &str,
    provenance: &str,
    read: &FileText,
    meta: &AgentSidecar,
    now: u64,
) -> (r: Result<AgentWrite, Error>)
    ensures
        error::outcome(r) == copied(
            file@,
            from_project@,
            from@,
            to@,
            provenance@,
            json::text_result(*read),
            meta@,
            now,
        ),
{
    let raw = match read {
        Err(e) => {
            return Err(Error::Io(e.clone()));
        },
        Ok(raw) => raw,
    };
    let doc = match json::parse(raw.as_str()) {
        Err(e) => {
            return Err(invalid_document(from_project, from, e.as_str()));
        },
        Ok(doc) => doc,
    };
    let copy = sidecar::cloned_sidecar(meta, to, provenance, now);
    match edits::primary_agent_cfg(&doc, from_project, from) {
        Ok(_) => match write_doc(file, Ok(edits::rename_primary(&doc, from_project, from, to))) {
            Err(e) => Err(e),
            Ok(w) => Ok(AgentWrite { doc: Some(w), meta: Some(copy) }),
        },
        Err(_) => Ok(AgentWrite { doc: None, meta: Some(copy) }),
    }
}

/// What cloning an agent within its project comes to.
pub open spec fn agent_clone(
    root: Seq<char>,
    project: Seq<char>,
    from: Seq<char>,
    to: Seq<char>,
    stored: Option<Result<Seq<char>, Seq<char>>>,
    taken: bool,
    meta: SidecarView,
    now: u64,
) -> Result<AgentWriteView, ErrorView> {
    match naming::slug_check(to) {
        Err(e) => Err(e),
        Ok(_) => match stored {
            None => Err(
                ErrorView::Store(
                    "agent not found: "@ + project + "/"@ + from
                        + " — 'from' must name an existing agent in this project (see agent_list)"@,
                ),
            ),
            Some(read) => if taken {
                Err(agent_taken(project, to))
            } else {
                copied(doc_file(root, project, to), project, from, to, from, read, meta, now)
            },
        },
    }
}

/// What copying an agent to another project comes to.
pub open spec fn agent_copy(
    root: Seq<char>,
    from_project: Seq<char>,
    from: Seq<char>,
    to_project: Seq<char>,
    to: Seq<char>,
    stored: Option<Result<Seq<char>, Seq<char>>>,
    project_found: bool,
    taken: bool,
    meta: SidecarView,
    now: u64,
) -> Result<AgentWriteView, ErrorView> {
    match naming::slug_check(to) {
        Err(e) => Err(e),
        Ok(_) => match stored {
            None => Err(
                ErrorView::Store(
                    "agent not found: "@ + from_project + "/"@ + from + " (see agent_list)"@,
                ),
            ),
            Some(read) => if !project_found {
                Err(ErrorView::Store("project not found: "@ + to_project))
            } else if taken {
                Err(agent_taken(to_project, to))
            } else {
                copied(
                    doc_file(root, to_project, to),
                    from_project,
                    from,
                    to,
                    from_project + "/"@ + from,
                    read,
                    meta,
                    now,
                )
            },
        },
    }
}

/// The document that a new agent starts from: none without a source.
pub open spec fn base_doc(
    project: Seq<char>,
    from: Option<Seq<char>>,
    stored: Option<Result<Seq<char>, Seq<char>>>,
) -> Result<Option<JsonView>, ErrorView> {
    match from {
        None => Ok(None),
        Some(from) => match stored {
            None => Err(
                ErrorView::Store(
                    "agent not found: "@ + project + "/"@ + from
                        + " — 'from' must name an existing agent in this project"@,
                ),
            ),
            Some(Err(e)) => Err(ErrorView::Io(e)),
            Some(Ok(raw)) => match json::parsed(raw) {
                Err(e) => Err(bad_document(project, from, e)),
                Ok(doc) => Ok(Some(doc)),
            },
        },
    }
}

/// What creating an agent from structured content writes.
pub open spec fn agent_new(
    file: Seq<char>,
    slug: Seq<char>,
    from: Option<Seq<char>>,
    built: Result<(JsonView, AgentRole), ErrorView>,
    now: u64,
) -> Result<AgentWriteView, ErrorView> {
    match built {
        Err(e) => Err(e),
        Ok((doc, role)) => both_written(
            written(file, Ok(doc)),
            Some(
                SidecarView {
                    name: slug,
                    created: now,
                    cloned_from: from,
                    role: Some(role),
                    subagent_roles: Map::empty(),
                },
            ),
        ),
    }
}

/// What a base document of a new agent holds.
pub open spec fn base_outcome(r: Result<Option<Json>, Error>) -> Result<
    Option<JsonView>,
    ErrorView,
> {
    match r {
        Err(e) => Err(e@),
        Ok(None) => Ok(None),
        Ok(Some(doc)) => Ok(Some(doc@)),
    }
}

/// The document that a new agent starts from.
fn load_base(project: &str, from: Option<&str>, stored: Option<&FileText>) -> (r: Result<
    Option<Json>,
    Error,
>)
    ensures
        base_outcome(r) == base_doc(project@, text::opt_str(from), stored_text(stored)),
{
    let from = match from {
        None => {
            return Ok(None);
        },
        Some(from) => from,
    };
    match stored {
        None => Err(
            Error::Store(
                text::cat5(
                    "agent not found: ",
                    project,
                    "/",
                    from,
                    " — 'from' must name an existing agent in this project",
                ),
            ),
        ),
        Some(Err(e)) => Err(Error::Io(e.clone())),
        Some(Ok(raw)) => match json::parse(raw.as_str()) {
            Err(e) => Err(invalid_document(project, from, e.as_str())),
            Ok(doc) => Ok(Some(doc)),
        },
    }
}

impl DataRoots {
    /// The roots that a render of this store denies by path. Derived from the
    /// store, never from the environment: the same store renders the same.
    pub fn for_store(store: &Store) -> (r: DataRoots)
        ensures
            r.store@ == store@.root,
            r.data@ == data_root(store@.root),
    {
        DataRoots {
            data: match path::parent(store.root()) {
                Some(p) => p,
                None => String::new(),
            },
            store: store.root().to_owned(),
        }
    }
}

/// What lies around a store: the directory it is in.
pub open spec fn data_root(root: Seq<char>) -> Seq<char> {
    match path::parent_of(root) {
        Some(p) => p,
        None => Seq::empty(),
    }
}

impl Store {
    /// The document file of an agent.
    pub fn agent_doc_path(&self, project: &str, slug: &str) -> (r: String)
        ensures
            r@ == doc_file(self@.root, project@, slug@),
    {
        path::join(self.project_agent_dir(project, slug).as_str(), "opencode.json")
    }

    /// A new agent of a role: the only way an agent comes into being. The
    /// project must load and the slug must be free.
    pub fn create_agent_with_role(
        &self,
        project: &str,
        slug: &str,
        role: AgentRole,
        prompts: &RolePrompts,
        project_loaded: Result<(), Error>,
        taken: bool,
        now: u64,
    ) -> (r: Result<AgentWrite, Error>)
        ensures
            error::outcome(r) == (match naming::slug_check(slug@) {
                Err(e) => Err(e),
                Ok(_) => match error::verdict(project_loaded) {
                    Err(e) => Err(e),
                    Ok(_) => if taken {
                        Err(agent_taken(project@, slug@))
                    } else {
                        agent_new(
                            doc_file(self@.root, project@, slug@),
                            slug@,
                            None,
                            Ok(
                                (
                                    edits::role_doc(
                                        slug@,
                                        role,
                                        roles::role_prompt(*prompts, role),
                                    ),
                                    role,
                                ),
                            ),
                            now,
                        )
                    },
                },
            }),
    {
        match naming::validate_slug(slug) {
            Ok(_) => {},
            Err(e) => {
                return Err(e);
            },
        }
        match project_loaded {
            Ok(_) => {},
            Err(e) => {
                return Err(e);
            },
        }
        if taken {
            return Err(taken_agent(project, slug));
        }
        let doc = edits::new_role_doc(slug, role, prompts);
        match write_doc(self.agent_doc_path(project, slug), Ok(doc)) {
            Err(e) => Err(e),
            Ok(w) => Ok(
                AgentWrite {
                    doc: Some(w),
                    meta: Some(sidecar::new_sidecar(slug, now, None, role, Table::new())),
                },
            ),
        }
    }

    /// The agents that could be loaded, in slug order.
    pub fn list_agents(&self, found: Vec<(String, Result<AgentConfig, Error>)>) -> (r: Vec<
        (String, AgentConfig),
    >)
        ensures
            r@ == records::in_slug_order(records::readable(found@, found@.len()), 0),
    {
        records::list_readable(found)
    }

    /// Load an agent out of what its document file, its sidecar and the files
    /// its prompts refer to read as.
    pub fn load_agent(
        &self,
        project: &str,
        slug: &str,
        stored: Option<&FileText>,
        meta: Option<AgentSidecar>,
        files: Table<FileText>,
    ) -> (r: Result<AgentConfig, Error>)
        ensures
            config_outcome(slug@, r) == (match loaded_doc(project@, slug@, stored_text(stored)) {
                Err(e) => Err(e),
                Ok(doc) => Ok(
                    (AgentView {
                        slug: slug@,
                        meta: sidecar_of(meta, slug@),
                        doc,
                        files: files@,
                    }),
                ),
            }),
    {
        match load_doc(project, slug, stored) {
            Err(e) => Err(e),
            Ok(doc) => Ok(AgentConfig { meta: sidecar::read_sidecar(meta, slug), doc, files }),
        }
    }

    /// The file to write for an agent's document, which is checked first;
    /// `files` are those under the agent that exist.
    pub fn save_agent(
        &self,
        project: &str,
        slug: &str,
        exists: bool,
        doc: &Json,
        files: &[String],
    ) -> (r: Result<FileWrite, Error>)
        ensures
            error::outcome(r) == (match naming::slug_check(slug@) {
                Err(e) => Err(e),
                Ok(_) => if !exists {
                    Err(
                        ErrorView::Store(
                            "agent not found: "@ + project@ + "/"@ + slug@
                                + " — create it first with agent_new or agent_clone"@,
                        ),
                    )
                } else {
                    written(
                        doc_file(self@.root, project@, slug@),
                        document::checked(slug@, doc@, text::texts(files@)),
                    )
                },
            }),
    {
        match naming::validate_slug(slug) {
            Ok(_) => {},
            Err(e) => {
                return Err(e);
            },
        }
        if !exists {
            return Err(
                Error::Store(
                    text::cat5(
                        "agent not found: ",
                        project,
                        "/",
                        slug,
                        " — create it first with agent_new or agent_clone",
                    ),
                ),
            );
        }
        write_doc(
            self.agent_doc_path(project, slug),
            document::check_doc(slug, doc.copy(), files),
        )
    }

    /// A new agent from structured content; with `from`, over what the agent
    /// under that slug has, whose document file reads as `stored`.
    pub fn create_agent(
        &self,
        project: &str,
        slug: &str,
        description: &str,
        prompt: &str,
        model: Option<&str>,
        from: Option<&str>,
        role: Option<AgentRole>,
        taken: bool,
        stored: Option<&FileText>,
        files: &[String],
        now: u64,
    ) -> (r: Result<AgentWrite, Error>)
        ensures
            error::outcome(r) == (match naming::slug_check(slug@) {
                Err(e) => Err(e),
                Ok(_) => if taken {
                    Err(agent_taken(project@, slug@))
                } else {
                    match base_doc(project@, text::opt_str(from), stored_text(stored)) {
                        Err(e) => Err(e),
                        Ok(base) => agent_new(
                            doc_file(self@.root, project@, slug@),
                            slug@,
                            text::opt_str(from),
                            edits::agent_creation(
                                slug@,
                                description@,
                                prompt@,
                                text::opt_str(model),
                                base,
                                role,
                                text::texts(files@),
                            ),
                            now,
                        ),
                    }
                },
            }),
    {
        match naming::validate_slug(slug) {
            Ok(_) => {},
            Err(e) => {
                return Err(e);
            },
        }
        if taken {
            return Err(taken_agent(project, slug));
        }
        let base = match load_base(project, from, stored) {
            Ok(base) => base,
            Err(e) => {
                return Err(e);
            },
        };
        let built = match &base {
            Some(doc) => edits::build_agent(
                project,
                slug,
                description,
                prompt,
                model,
                Some(doc),
                role,
                files,
            ),
            None => edits::build_agent(
                project,
                slug,
                description,
                prompt,
                model,
                None,
                role,
                files,
            ),
        };
        match built {
            Err(e) => Err(e),
            Ok((doc, role)) => match write_doc(self.agent_doc_path(project, slug), Ok(doc)) {
                Err(e) => Err(e),
                Ok(w) => Ok(
                    AgentWrite {
                        doc: Some(w),
                        meta: Some(sidecar::new_sidecar(slug, now, from, role, Table::new())),
                    },
                ),
            },
        }
    }

    /// What cloning the agent `from` to the slug `to` writes over the copied
    /// tree: the primary is renamed, every subagent kept, the role inherited.
    pub fn clone_agent(
        &self,
        project: &str,
        from: &str,
        to: &str,
        stored: Option<&FileText>,
        taken: bool,
        meta: &AgentSidecar,
        now: u64,
    ) -> (r: Result<AgentWrite, Error>)
        ensures
            error::outcome(r) == agent_clone(
                self@.root,
                project@,
                from@,
                to@,
                stored_text(stored),
                taken,
                meta@,
                now,
            ),
    {
        match naming::validate_slug(to) {
            Ok(_) => {},
            Err(e) => {
                return Err(e);
            },
        }
        match stored {
            None => Err(
                Error::Store(
                    text::cat5(
                        "agent not found: ",
                        project,
                        "/",
                        from,
                        " — 'from' must name an existing agent in this project (see agent_list)",
                    ),
                ),
            ),
            Some(read) => if taken {
                Err(taken_agent(project, to))
            } else {
                copy_to(
                    self.agent_doc_path(project, to),
                    project,
                    from,
                    to,
                    from,
                    read,
                    meta,
                    now,
                )
            },
        }
    }

    /// What copying an agent to a project, its own or another, writes over the
    /// copied tree.
    pub fn copy_agent(
        &self,
        from_project: &str,
        from: &str,
        to_project: &str,
        to: &str,
        stored: Option<&FileText>,
        project_found: bool,
        taken: bool,
        meta: &AgentSidecar,
        now: u64,
    ) -> (r: Result<AgentWrite, Error>)
        ensures
            error::outcome(r) == agent_copy(
                self@.root,
                from_project@,
                from@,
                to_project@,
                to@,
                stored_text(stored),
                project_found,
                taken,
                meta@,
                now,
            ),
    {
        match naming::validate_slug(to) {
            Ok(_) => {},
            Err(e) => {
                return Err(e);
            },
        }
        let read = match stored {
            None => {
                return Err(
                    Error::Store(
                        text::cat5(
                            "agent not found: ",
                            from_project,
                            "/",
                            from,
                            " (see agent_list)",
                        ),
                    ),
                );
            },
            Some(read) => read,
        };
        if !project_found {
            return Err(Error::Store(text::cat2("project not found: ", to_project)));
        }
        if taken {
            return Err(taken_agent(to_project, to));
        }
        copy_to(
            self.agent_doc_path(to_project, to),
            from_project,
            from,
            to,
            text::cat3(from_project, "/", from).as_str(),
            read,
            meta,
            now,
        )
    }

    /// The file to write after setting one field of one entry; none is the
    /// primary, and a null value removes the field.
    pub fn set_agent_field(
        &self,
        project: &str,
        slug: &str,
        entry: Option<&str>,
        field: &str,
        value: Json,
        stored: Option<&FileText>,
        files: &[String],
    ) -> (r: Result<FileWrite, Error>)
        ensures
            error::outcome(r) == (if document::is_structural(field@) {
                Err(document::not_settable(field@))
            } else {
                match loaded_doc(project@, slug@, stored_text(stored)) {
                    Err(e) => Err(e),
                    Ok(doc) => written(
                        doc_file(self@.root, project@, slug@),
                        document::field_edit(
                            doc,
                            project@,
                            slug@,
                            edit_target(text::opt_str(entry), slug@),
                            field@,
                            value@,
                            text::texts(files@),
                        ),
                    ),
                }
            }),
    {
        match document::structural_field(field) {
            Some(e) => {
                return Err(e);
            },
            None => {},
        }
        let doc = match load_doc(project, slug, stored) {
            Ok(doc) => doc,
            Err(e) => {
                return Err(e);
            },
        };
        let target = match entry {
            Some(entry) => entry,
            None => slug,
        };
        write_doc(
            self.agent_doc_path(project, slug),
            document::edit_field(&doc, project, slug, target, field, value, files),
        )
    }

    /// The file to write after merging a permission patch into one entry.
    pub fn patch_agent_permission(
        &self,
        project: &str,
        slug: &str,
        entry: Option<&str>,
        patch: &Json,
        stored: Option<&FileText>,
        files: &[String],
    ) -> (r: Result<FileWrite, Error>)
        ensures
            error::outcome(r) == (if json::as_fields(patch@) is None {
                Err(ErrorView::Store("permission patch must be an object"@))
            } else {
                match loaded_doc(project@, slug@, stored_text(stored)) {
                    Err(e) => Err(e),
                    Ok(doc) => written(
                        doc_file(self@.root, project@, slug@),
                        edits::permission_edit(
                            doc,
                            project@,
                            slug@,
                            edit_target(text::opt_str(entry), slug@),
                            patch@,
                            text::texts(files@),
                        ),
                    ),
                }
            }),
    {
        if patch.as_object().is_none() {
            return Err(Error::Store("permission patch must be an object".to_owned()));
        }
        let doc = match load_doc(project, slug, stored) {
            Ok(doc) => doc,
            Err(e) => {
                return Err(e);
            },
        };
        let target = match entry {
            Some(entry) => entry,
            None => slug,
        };
        write_doc(
            self.agent_doc_path(project, slug),
            edits::edit_permission(&doc, project, slug, target, patch, files),
        )
    }

    /// What adding a subagent writes: the document, and the sidecar where the
    /// subagent gets a role of its own.
    pub fn add_subagent(
        &self,
        project: &str,
        slug: &str,
        name: &str,
        description: &str,
        prompt: &str,
        model: Option<&str>,
        role: Option<AgentRole>,
        stored: Option<&FileText>,
        meta: Option<AgentSidecar>,
        files: &[String],
    ) -> (r: Result<AgentWrite, Error>)
        ensures
            error::outcome(r) == subagent_added(
                self@.root,
                project@,
                slug@,
                name@,
                edits::entry_cfg(
                    Map::empty(),
                    "subagent"@,
                    description@,
                    prompt@,
                    text::opt_str(model),
                ),
                role,
                stored_text(stored),
                sidecar_of(meta, slug@),
                text::texts(files@),
            ),
    {
        match edits::check_subagent_name(slug, name) {
            Ok(_) => {},
            Err(e) => {
                return Err(e);
            },
        }
        let doc = match load_doc(project, slug, stored) {
            Ok(doc) => doc,
            Err(e) => {
                return Err(e);
            },
        };
        let cfg = edits::build_cfg(json::no_fields(), "subagent", description, prompt, model);
        let edited = edits::insert_subagent(&doc, project, slug, name, cfg, files);
        match write_doc(self.agent_doc_path(project, slug), edited) {
            Err(e) => Err(e),
            Ok(w) => {
                let meta = match role {
                    None => None,
                    Some(role) => {
                        let mut meta = sidecar::read_sidecar(meta, slug);
                        meta.set_subagent_role(name, role);
                        Some(meta)
                    },
                };
                Ok(AgentWrite { doc: Some(w), meta })
            },
        }
    }

    /// What removing a subagent writes: the document, and the sidecar where
    /// the subagent had a role of its own.
    pub fn remove_subagent(
        &self,
        project: &str,
        slug: &str,
        name: &str,
        stored: Option<&FileText>,
        meta: Option<AgentSidecar>,
        files: &[String],
    ) -> (r: Result<AgentWrite, Error>)
        ensures
            error::outcome(r) == subagent_removed(
                self@.root,
                project@,
                slug@,
                name@,
                stored_text(stored),
                sidecar_of(meta, slug@),
                text::texts(files@),
            ),
    {
        let doc = match load_doc(project, slug, stored) {
            Ok(doc) => doc,
            Err(e) => {
                return Err(e);
            },
        };
        let edited = edits::delete_subagent(&doc, project, slug, name, files);
        match write_doc(self.agent_doc_path(project, slug), edited) {
            Err(e) => Err(e),
            Ok(w) => {
                let mut meta = sidecar::read_sidecar(meta, slug);
                if meta.drop_subagent_role(name) {
                    Ok(AgentWrite { doc: Some(w), meta: Some(meta) })
                } else {
                    Ok(AgentWrite { doc: Some(w), meta: None })
                }
            },
        }
    }

    /// The sidecar to write after naming an agent; an empty name is the slug.
    pub fn set_agent_name(
        &self,
        project: &str,
        slug: &str,
        name: &str,
        exists: bool,
        meta: Option<AgentSidecar>,
    ) -> (r: Result<AgentSidecar, Error>)
        ensures
            error::outcome(r) == (if !exists {
                Err(no_agent(project@, slug@))
            } else {
                Ok(
                    (SidecarView {
                        name: sidecar::display_name(name@, slug@),
                        ..sidecar_of(meta, slug@)
                    }),
                )
            }),
    {
        if !exists {
            return Err(missing_agent(project, slug));
        }
        let mut meta = sidecar::read_sidecar(meta, slug);
        meta.set_name(name, slug);
        Ok(meta)
    }

    /// The sidecar to write after giving an agent a role.
    pub fn set_agent_role(
        &self,
        project: &str,
        slug: &str,
        role: AgentRole,
        exists: bool,
        meta: Option<AgentSidecar>,
    ) -> (r: Result<AgentSidecar, Error>)
        ensures
            error::outcome(r) == (if !exists {
                Err(no_agent(project@, slug@))
            } else {
                Ok((SidecarView { role: Some(role), ..sidecar_of(meta, slug@) }))
            }),
    {
        if !exists {
            return Err(missing_agent(project, slug));
        }
        let mut meta = sidecar::read_sidecar(meta, slug);
        meta.set_role(role);
        Ok(meta)
    }

    /// The sidecar to write after giving a subagent a role.
    pub fn set_subagent_role(
        &self,
        project: &str,
        slug: &str,
        subagent: &str,
        role: AgentRole,
        stored: Option<&FileText>,
        meta: Option<AgentSidecar>,
    ) -> (r: Result<AgentSidecar, Error>)
        ensures
            error::outcome(r) == (match loaded_doc(project@, slug@, stored_text(stored)) {
                Err(e) => Err(e),
                Ok(doc) => match sidecar::subagent_known(doc, project@, slug@, subagent@) {
                    Err(e) => Err(e),
                    Ok(_) => Ok(
                        (SidecarView {
                            subagent_roles: sidecar_of(meta, slug@).subagent_roles.insert(
                                subagent@,
                                role,
                            ),
                            ..sidecar_of(meta, slug@)
                        }),
                    ),
                },
            }),
    {
        let doc = match load_doc(project, slug, stored) {
            Ok(doc) => doc,
            Err(e) => {
                return Err(e);
            },
        };
        match sidecar::check_subagent_known(&doc, project, slug, subagent) {
            Ok(_) => {},
            Err(e) => {
                return Err(e);
            },
        }
        let mut meta = sidecar::read_sidecar(meta, slug);
        meta.set_subagent_role(subagent, role);
        Ok(meta)
    }

    /// The rows of a role migration of the project's agents; the rows that
    /// were applied are those whose role is to be set.
    pub fn migrate_agent_roles(&self, agents: &[(String, AgentConfig)], apply: bool) -> (r: Vec<
        RoleMigration,
    >)
        ensures
            sidecar::migration_views(r@) == Seq::new(
                agents@.len(),
                |i: int| sidecar::migration_row(sidecar::agent_view(agents@[i]), apply),
            ),
    {
        sidecar::migrate_agents(agents, apply)
    }

    /// The directory to remove to delete an agent.
    pub fn delete_agent(&self, project: &str, slug: &str, exists: bool) -> (r: Result<String, Error>)
        ensures
            error::outcome(r) == (match naming::slug_check(slug@) {
                Err(e) => Err(e),
                Ok(_) => if !exists {
                    Err(no_agent(project@, slug@))
                } else {
                    Ok(path::joined(layout::agents_path(self@.root, project@), slug@))
                },
            }),
    {
        match naming::validate_slug(slug) {
            Ok(_) => {},
            Err(e) => {
                return Err(e);
            },
        }
        if !exists {
            return Err(missing_agent(project, slug));
        }
        Ok(self.project_agent_dir(project, slug))
    }

    /// The hash of an agent's document file, which every run transcript
    /// records as the agent's provenance.
    pub fn agent_config_hash(&self, project: &str, slug: &str, bytes: Option<&[u8]>) -> (r: Result<
        String,
        Error,
    >)
        ensures
            error::outcome(r) == (match bytes {
                None => Err(no_agent(project@, slug@)),
                Some(bytes) => Ok(text::hex_digits(naming::fnv1a(bytes@) as nat, 16)),
            }),
    {
        match bytes {
            None => Err(missing_agent(project, slug)),
            Some(bytes) => Ok(naming::fnv1a_hex(bytes)),
        }
    }

    /// Check that the project's agents are closed under delegation.
    pub fn check_project_delegation(&self, agents: &[(String, AgentConfig)], project: &str) -> (r:
        Result<(), Error>)
        ensures
            error::verdict(r) == handles::delegation_check(sidecar::agent_views(agents@), project@),
    {
        handles::check_project_delegation(agents, project)
    }

    /// Render every agent of the project for this store.
    pub fn render_project_agents(
        &self,
        agents: &[(String, AgentConfig)],
        project: &str,
        pinned: &[SourcePin],
    ) -> (r: Result<Vec<RenderedAgent>, Error>)
        ensures
            render::files_outcome(r) == render::rendered_project(
                sidecar::agent_views(agents@),
                project@,
                data_root(self@.root),
                self@.root,
                render::pin_views(pinned@),
            ),
    {
        render::render_project_agents(agents, project, &DataRoots::for_store(self), pinned)
    }

    /// Render one agent of the project for this store.
    pub fn render_agent(
        &self,
        agents: &[(String, AgentConfig)],
        slug: &str,
        config: &AgentConfig,
        project: &str,
        pinned: &[SourcePin],
    ) -> (r: Result<Vec<RenderedAgent>, Error>)
        ensures
            render::files_outcome(r) == render::rendered_one(
                sidecar::agent_views(agents@),
                (AgentView {
                    slug: slug@,
                    meta: config.meta@,
                    doc: config.doc@,
                    files: config.files@,
                }),
                project@,
                data_root(self@.root),
                self@.root,
                render::pin_views(pinned@),
            ),
    {
        render::render_agent(agents, slug, config, project, &DataRoots::for_store(self), pinned)
    }
}

// ---------------------------------------------------------------------
// Laws
// ---------------------------------------------------------------------

/// A copy grants nothing new and loses nothing: the copied agent's role is the
/// source's effective one, and its subagents keep theirs.
pub proof fn law_copy_keeps_roles(
    file: Seq<char>,
    from_project: Seq<char>,
    from: Seq<char>,
    to: Seq<char>,
    provenance: Seq<char>,
    read: Result<Seq<char>, Seq<char>>,
    meta: SidecarView,
    now: u64,
    entry: Seq<char>,
)
    requires
        entry != from,
        entry != to,
    ensures
        copied(file, from_project, from, to, provenance, read, meta, now) matches Ok(w) ==> {
            &&& w.meta is Some
            &&& sidecar::effective_role(w.meta->Some_0) == sidecar::effective_role(meta)
            &&& sidecar::role_of_entry(w.meta->Some_0, entry, to) == sidecar::role_of_entry(
                meta,
                entry,
                from,
            )
        },
{
}

/// What is written passed every check of a document: whatever an edit of an
/// agent writes is the printed form of a document that is valid.
pub proof fn law_only_valid_documents_are_written(
    file: Seq<char>,
    slug: Seq<char>,
    doc: JsonView,
    files: Seq<Seq<char>>,
)
    ensures
        written(file, document::checked(slug, doc, files)) matches Ok(w) ==> {
            &&& document::doc_check(doc, files) is Ok
            &&& w.0 == file
            &&& json::pretty(doc) == Ok::<Seq<char>, Seq<char>>(w.1)
        },
{
}

} // verus!
