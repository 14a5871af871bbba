//! The corpus metadata of an agent: its name, provenance and roles, kept
//! beside its document and out of its reach.
use vstd::prelude::*;
use crate::agents::document;
use crate::agents::document::{Fields, FileText};
use crate::agents::roles;
use crate::agents::roles::AgentRole;
use crate::error;
use crate::error::{Error, ErrorView};
use crate::json;
use crate::json::{Json, JsonView};
use crate::table::Table;
use crate::text;

verus! {

/// The metadata sidecar of an agent.
#[derive(Debug, PartialEq)]
pub struct AgentSidecar {
    pub name: String,
    pub created: u64,
    pub cloned_from: Option<String>,
    /// The primary's role. None means never assigned, which reads as the
    /// narrowest role but can be told from an assigned one.
    pub role: Option<AgentRole>,
    /// The subagents' roles, under their entry names.
    pub subagent_roles: Table<AgentRole>,
}

/// What a sidecar holds.
#[verifier::ext_equal]
pub struct SidecarView {
    pub name: Seq<char>,
    pub created: u64,
    pub cloned_from: Option<Seq<char>>,
    pub role: Option<AgentRole>,
    pub subagent_roles: Map<Seq<char>, AgentRole>,
}

impl View for AgentSidecar {
    type V = SidecarView;

    open spec fn view(&self) -> SidecarView {
        SidecarView {
            name: self.name@,
            created: self.created,
            cloned_from: text::opt_text(self.cloned_from),
            role: self.role,
            subagent_roles: self.subagent_roles@,
        }
    }
}

/// A loaded agent: its sidecar, its document, and what the files its prompts
/// refer to read as.
#[derive(Debug, PartialEq)]
pub struct AgentConfig {
    pub meta: AgentSidecar,
    pub doc: Json,
    pub files: Table<FileText>,
}

/// What a loaded agent holds.
#[verifier::ext_equal]
pub struct AgentView {
    pub slug: Seq<char>,
    pub meta: SidecarView,
    pub doc: JsonView,
    pub files: Map<Seq<char>, FileText>,
}

/// What a loaded agent under its slug holds.
pub open spec fn agent_view(agent: (String, AgentConfig)) -> AgentView {
    AgentView {
        slug: agent.0@,
        meta: agent.1.meta@,
        doc: agent.1.doc@,
        files: agent.1.files@,
    }
}

/// What a project's agents hold.
pub open spec fn agent_views(agents: Seq<(String, AgentConfig)>) -> Seq<AgentView> {
    Seq::new(agents.len(), |i: int| agent_view(agents[i]))
}

/// The role a sidecar gives its primary: one that was never assigned is the
/// narrowest.
pub open spec fn effective_role(meta: SidecarView) -> AgentRole {
    match meta.role {
        Some(role) => role,
        None => AgentRole::Researcher,
    }
}

/// The role an entry is rendered under: the primary carries the sidecar's, a
/// subagent its own, never wider than the primary's.
pub open spec fn role_of_entry(meta: SidecarView, entry: Seq<char>, slug: Seq<char>) -> AgentRole {
    if entry != slug && meta.subagent_roles.dom().contains(entry) {
        roles::narrower(meta.subagent_roles[entry], effective_role(meta))
    } else {
        effective_role(meta)
    }
}

impl AgentSidecar {
    /// The effective role: a sidecar without one reads as the narrowest.
    pub fn role(&self) -> (r: AgentRole)
        ensures
            r == effective_role(self@),
    {
        match self.role {
            Some(role) => role,
            None => AgentRole::Researcher,
        }
    }

    /// Has a role ever been assigned?
    pub fn has_role(&self) -> (r: bool)
        ensures
            r == self@.role is Some,
    {
        self.role.is_some()
    }

    /// A copy of the sidecar.
    pub fn copy(&self) -> (r: AgentSidecar)
        ensures
            r@ == self@,
    {
        AgentSidecar {
            name: self.name.clone(),
            created: self.created,
            cloned_from: match &self.cloned_from {
                Some(s) => Some(s.clone()),
                None => None,
            },
            role: self.role,
            subagent_roles: self.subagent_roles.duplicate(),
        }
    }
}

/// The role that the entry `entry` of the agent under `slug` is rendered
/// under.
pub fn entry_role(meta: &AgentSidecar, entry: &str, slug: &str) -> (r: AgentRole)
    ensures
        r == role_of_entry(meta@, entry@, slug@),
{
    if text::same(entry, slug) {
        return meta.role();
    }
    match meta.subagent_roles.get(entry) {
        Some(sub) => (*sub).narrow(meta.role()),
        None => meta.role(),
    }
}

/// The sidecar of an agent that has none, or one that cannot be read: never
/// assigned, so that a damaged file widens no ceiling.
pub open spec fn missing_sidecar(slug: Seq<char>) -> SidecarView {
    SidecarView {
        name: slug,
        created: 0,
        cloned_from: None,
        role: None,
        subagent_roles: Map::empty(),
    }
}

/// The sidecar as it was read, or that of an agent without one.
pub fn read_sidecar(parsed: Option<AgentSidecar>, slug: &str) -> (r: AgentSidecar)
    ensures
        r@ == (match parsed {
            Some(meta) => meta@,
            None => missing_sidecar(slug@),
        }),
{
    match parsed {
        Some(meta) => meta,
        None => AgentSidecar {
            name: slug.to_owned(),
            created: 0,
            cloned_from: None,
            role: None,
            subagent_roles: Table::new(),
        },
    }
}

/// The sidecar of an agent made at `created`: its role is always explicit.
pub fn new_sidecar(
    name: &str,
    created: u64,
    cloned_from: Option<&str>,
    role: AgentRole,
    subagent_roles: Table<AgentRole>,
) -> (r: AgentSidecar)
    ensures
        r@ == (SidecarView {
            name: name@,
            created,
            cloned_from: text::opt_str(cloned_from),
            role: Some(role),
            subagent_roles: subagent_roles@,
        }),
{
    AgentSidecar {
        name: name.to_owned(),
        created,
        cloned_from: match cloned_from {
            Some(s) => Some(s.to_owned()),
            None => None,
        },
        role: Some(role),
        subagent_roles,
    }
}

/// The sidecar of a clone of an agent: the source's effective role, its
/// subagents' roles, and where it came from.
pub fn cloned_sidecar(source: &AgentSidecar, to: &str, from: &str, created: u64) -> (r: AgentSidecar)
    ensures
        r@ == (SidecarView {
            name: to@,
            created,
            cloned_from: Some(from@),
            role: Some(effective_role(source@)),
            subagent_roles: source@.subagent_roles,
        }),
{
    new_sidecar(to, created, Some(from), source.role(), source.subagent_roles.duplicate())
}

/// The display name to store: trimmed, and the slug where nothing is left.
pub open spec fn display_name(name: Seq<char>, slug: Seq<char>) -> Seq<char> {
    if text::trimmed(name).len() == 0 {
        slug
    } else {
        text::trimmed(name)
    }
}

impl AgentSidecar {
    /// Set the display name; an empty one falls back to the slug.
    pub fn set_name(&mut self, name: &str, slug: &str)
        ensures
            final(self)@ == (SidecarView { name: display_name(name@, slug@), ..old(self)@ }),
    {
        let name = text::trim(name);
        self.name = if name.as_str().is_empty() {
            slug.to_owned()
        } else {
            name
        };
    }

    /// Assign the primary's role.
    pub fn set_role(&mut self, role: AgentRole)
        ensures
            final(self)@ == (SidecarView { role: Some(role), ..old(self)@ }),
    {
        self.role = Some(role);
    }

    /// Assign a subagent's role.
    pub fn set_subagent_role(&mut self, name: &str, role: AgentRole)
        ensures
            final(self)@ == (SidecarView {
                subagent_roles: old(self)@.subagent_roles.insert(name@, role),
                ..old(self)@
            }),
    {
        self.subagent_roles.insert(name.to_owned(), role);
    }

    /// Forget a subagent's role; was there one?
    pub fn drop_subagent_role(&mut self, name: &str) -> (r: bool)
        ensures
            final(self)@ == (SidecarView {
                subagent_roles: old(self)@.subagent_roles.remove(name@),
                ..old(self)@
            }),
            r == old(self)@.subagent_roles.dom().contains(name@),
    {
        self.subagent_roles.remove(name).is_some()
    }
}

/// What checking the name of a subagent that gets a role comes to: a name that
/// no entry has is refused, for it would sit in the sidecar doing nothing.
pub open spec fn subagent_known(
    doc: JsonView,
    project: Seq<char>,
    slug: Seq<char>,
    name: Seq<char>,
) -> Result<(), ErrorView> {
    match json::member_fields(doc, "agent"@) {
        Some(m) => if m.dom().contains(name) {
            Ok(())
        } else {
            Err(document::no_entry(project, slug, name))
        },
        None => Err(document::no_entry(project, slug, name)),
    }
}

/// Check that `name` is an entry of the document.
pub fn check_subagent_known(doc: &Json, project: &str, slug: &str, name: &str) -> (r: Result<
    (),
    Error,
>)
    ensures
        error::verdict(r) == subagent_known(doc@, project@, slug@, name@),
{
    let known = match doc.get_object("agent") {
        Some(m) => {
            proof {
                json::lemma_fields_dom(*m);
            }
            m.contains_key(name)
        },
        None => false,
    };
    if known {
        Ok(())
    } else {
        Err(document::missing_entry(project, slug, name))
    }
}

// ---------------------------------------------------------------------
// Migration
// ---------------------------------------------------------------------

/// One agent's row in a role migration.
#[derive(Debug, PartialEq, Eq)]
pub struct RoleMigration {
    pub agent: String,
    /// None: never assigned, the rows a migration is for.
    pub current: Option<AgentRole>,
    pub inferred: AgentRole,
    pub applied: bool,
    /// The inference came from an absent permission block, so the widest role
    /// is a guess worth a look.
    pub needs_review: bool,
}

/// What a migration row holds.
#[verifier::ext_equal]
pub struct MigrationView {
    pub agent: Seq<char>,
    pub current: Option<AgentRole>,
    pub inferred: AgentRole,
    pub applied: bool,
    pub needs_review: bool,
}

impl View for RoleMigration {
    type V = MigrationView;

    open spec fn view(&self) -> MigrationView {
        MigrationView {
            agent: self.agent@,
            current: self.current,
            inferred: self.inferred,
            applied: self.applied,
            needs_review: self.needs_review,
        }
    }
}

/// The entry that a migration reads a role off: the first, in name order from
/// the `i`-th on, that has the agent's slug or is a primary.
pub open spec fn migrated_entry(m: Fields, slug: Seq<char>, i: nat) -> Option<Seq<char>>
    decreases document::names(m).len() - i,
{
    if i >= document::names(m).len() {
        None
    } else {
        let name = document::names(m)[i as int];
        if name == slug || document::is_primary(m[name]) {
            Some(name)
        } else {
            migrated_entry(m, slug, i + 1)
        }
    }
}

/// The configuration that a migration reads a role off.
pub open spec fn migrated_cfg(doc: JsonView, slug: Seq<char>) -> Option<JsonView> {
    match json::member_fields(doc, "agent"@) {
        None => None,
        Some(m) => match migrated_entry(m, slug, 0) {
            None => None,
            Some(name) => Some(m[name]),
        },
    }
}

/// The role that an agent's document implies.
pub open spec fn implied_role(doc: JsonView, slug: Seq<char>) -> AgentRole {
    match migrated_cfg(doc, slug) {
        None => AgentRole::Researcher,
        Some(cfg) => match json::as_fields(cfg) {
            Some(cfg) => roles::inferred_role(cfg),
            None => AgentRole::Researcher,
        },
    }
}

/// The entry that the role is read off states no permission at all.
pub open spec fn is_silent(doc: JsonView, slug: Seq<char>) -> bool {
    match migrated_cfg(doc, slug) {
        None => false,
        Some(cfg) => json::member(cfg, "permission"@) is None,
    }
}

/// One agent's row in a migration.
pub open spec fn migration_row(agent: AgentView, apply: bool) -> MigrationView {
    MigrationView {
        agent: agent.slug,
        current: agent.meta.role,
        inferred: implied_role(agent.doc, agent.slug),
        applied: apply && agent.meta.role is None,
        needs_review: is_silent(agent.doc, agent.slug) && implied_role(agent.doc, agent.slug)
            == AgentRole::Super,
    }
}

/// The configuration that a migration of the agent under `slug` reads a role
/// off.
fn find_migrated<'a>(doc: &'a Json, slug: &str) -> (r: Option<&'a Json>)
    ensures
        json::opt_json(r) == migrated_cfg(doc@, slug@),
{
    let m = match doc.get_object("agent") {
        Some(m) => m,
        None => {
            return None;
        },
    };
    proof {
        json::lemma_fields_dom(*m);
    }
    let n: usize = m.len();
    let mut i: usize = 0;
    while i < n
        invariant
            i <= n,
            n == document::names(json::fields(*m)).len(),
            json::fields(*m).dom() == m@.dom(),
            json::member_fields(doc@, "agent"@) == Some(json::fields(*m)),
            migrated_entry(json::fields(*m), slug@, 0) == migrated_entry(
                json::fields(*m),
                slug@,
                i as nat,
            ),
        decreases n - i,
    {
        let cfg = m.value_at(i);
        if text::same(m.key_at(i).as_str(), slug) || document::primary_entry(cfg) {
            return Some(cfg);
        }
        i = i + 1;
    }
    None
}

/// The role that the document of the agent under `slug` implies.
fn imply_role(doc: &Json, slug: &str) -> (r: AgentRole)
    ensures
        r == implied_role(doc@, slug@),
{
    match find_migrated(doc, slug) {
        None => AgentRole::Researcher,
        Some(cfg) => match cfg.as_object() {
            Some(cfg) => roles::infer_role(cfg),
            None => AgentRole::Researcher,
        },
    }
}

/// Does the entry that the role is read off state no permission at all?
fn silent_entry(doc: &Json, slug: &str) -> (r: bool)
    ensures
        r == is_silent(doc@, slug@),
{
    match find_migrated(doc, slug) {
        None => false,
        Some(cfg) => cfg.get("permission").is_none(),
    }
}

/// One agent's row in a migration; `apply` false is a dry run. An agent that
/// already has a role is reported and left alone.
pub fn migrate_agent(slug: &str, config: &AgentConfig, apply: bool) -> (r: RoleMigration)
    ensures
        forall|files: Map<Seq<char>, FileText>|
            r@ == #[trigger] migration_row(
                AgentView { slug: slug@, meta: config.meta@, doc: config.doc@, files },
                apply,
            ),
{
    let inferred = imply_role(&config.doc, slug);
    let widest = match inferred {
        AgentRole::Super => true,
        _ => false,
    };
    RoleMigration {
        agent: slug.to_owned(),
        current: config.meta.role,
        inferred,
        applied: apply && !config.meta.has_role(),
        needs_review: silent_entry(&config.doc, slug) && widest,
    }
}

/// What a row of migrations holds.
pub open spec fn migration_views(rows: Seq<RoleMigration>) -> Seq<MigrationView> {
    Seq::new(rows.len(), |i: int| rows[i]@)
}

/// The rows of a migration, one for each agent, in order.
pub fn migrate_agents(agents: &[(String, AgentConfig)], apply: bool) -> (r: Vec<RoleMigration>)
    ensures
        migration_views(r@) == Seq::new(
            agents@.len(),
            |i: int| migration_row(agent_view(agents@[i]), apply),
        ),
{
    let mut out: Vec<RoleMigration> = Vec::new();
    let mut i: usize = 0;
    while i < agents.len()
        invariant
            i <= agents@.len(),
            out@.len() == i,
            forall|j: int| 0 <= j < i ==> (#[trigger] out@[j])@ == migration_row(
                agent_view(agents@[j]),
                apply,
            ),
        decreases agents@.len() - i,
    {
        let row = migrate_agent(agents[i].0.as_str(), &agents[i].1, apply);
        assert(row@ == migration_row(
            AgentView {
                slug: agents@[i as int].0@,
                meta: agents@[i as int].1.meta@,
                doc: agents@[i as int].1.doc@,
                files: agents@[i as int].1.files@,
            },
            apply,
        ));
        out.push(row);
        i = i + 1;
    }
    assert(migration_views(out@) =~= Seq::new(
        agents@.len(),
        |i: int| migration_row(agent_view(agents@[i]), apply),
    ));
    out
}

// ---------------------------------------------------------------------
// Laws
// ---------------------------------------------------------------------

/// No entry is rendered under a wider role than its primary's.
pub proof fn law_subagent_never_exceeds_primary(
    meta: SidecarView,
    entry: Seq<char>,
    slug: Seq<char>,
)
    ensures
        roles::rank(role_of_entry(meta, entry, slug)) <= roles::rank(effective_role(meta)),
        role_of_entry(meta, slug, slug) == effective_role(meta),
{
}

/// An agent that has a role is never migrated, whatever its permissions say;
/// so migrating again after a migration changes nothing.
pub proof fn law_migration_is_idempotent(agent: AgentView)
    ensures
        agent.meta.role is Some ==> !migration_row(agent, true).applied,
        !migration_row(agent, false).applied,
        ({
            let first = migration_row(agent, true);
            let after = AgentView {
                meta: SidecarView {
                    role: if first.applied {
                        Some(first.inferred)
                    } else {
                        agent.meta.role
                    },
                    ..agent.meta
                },
                ..agent
            };
            !migration_row(after, true).applied
        }),
{
}

/// An agent whose widest role comes of an entry that says nothing of
/// permissions is one to look at, whatever that entry is called.
pub proof fn law_silent_guesses_are_flagged(agent: AgentView, apply: bool)
    requires
        migrated_cfg(agent.doc, agent.slug) is Some,
        json::as_fields(migrated_cfg(agent.doc, agent.slug)->Some_0) is Some,
        json::member(migrated_cfg(agent.doc, agent.slug)->Some_0, "permission"@) is None,
    ensures
        migration_row(agent, apply).inferred == AgentRole::Super,
        migration_row(agent, apply).needs_review,
{
    let cfg = json::as_fields(migrated_cfg(agent.doc, agent.slug)->Some_0)->Some_0;
    roles::law_silence_infers_the_widest(cfg);
}

/// A missing or damaged sidecar never widens a ceiling.
pub proof fn law_missing_sidecar_is_narrowest(slug: Seq<char>, entry: Seq<char>)
    ensures
        role_of_entry(missing_sidecar(slug), entry, slug) == AgentRole::Researcher,
{
}

} // verus!
