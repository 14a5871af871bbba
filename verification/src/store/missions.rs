//! Missions: the records that runs are launched from, and the scope that a
//! process works in.
use vstd::prelude::*;
use crate::error;
use crate::error::{Error, ErrorView};
use crate::frontmatter;
use crate::path;
use crate::store::layout;
use crate::store::layout::{Scope, Store};
use crate::store::naming;
use crate::store::records;
use crate::table::Table;
use crate::text;

verus! {

/// A mission: the agent to launch, its pins and budget, and the sessions it
/// is bound to. Whether it is up is derived from those, never stored.
#[derive(Debug, PartialEq)]
pub struct Mission {
    /// The slug of the agent to launch.
    pub agent: String,
    /// The pinned revisions of the sources.
    pub pins: Table<String>,
    /// The execution budget.
    pub budget: Option<String>,
    /// Epoch seconds of creation.
    pub created: u64,
    /// The display name.
    pub name: Option<String>,
    /// The terminal session that the run is attached to.
    pub session: Option<String>,
    /// The session id of the transcript of record.
    pub opencode_session: Option<String>,
    /// When a launch was asked for that was not yet made, in epoch seconds.
    pub launch_requested: Option<u64>,
}

/// The frontmatter of a mission file, which must be a YAML mapping, and what
/// follows it.
pub open spec fn mission_parts(raw: Seq<char>) -> Result<(Seq<char>, Seq<char>), ErrorView> {
    match frontmatter::split_parts(raw) {
        Err(e) => Err(e),
        Ok(parts) => match parts.head {
            None => Err(ErrorView::Store("mission has no frontmatter"@)),
            Some(head) => match frontmatter::yaml_mapping(head) {
                Err(e) => Err(ErrorView::Yaml(e)),
                Ok(_) => Ok((head, parts.body)),
            },
        },
    }
}

/// What reading the parts of a mission file came to.
pub open spec fn parts_outcome(r: Result<(String, String), Error>) -> Result<
    (Seq<char>, Seq<char>),
    ErrorView,
> {
    match r {
        Ok((head, body)) => Ok((head@, body@)),
        Err(e) => Err(e@),
    }
}

/// The frontmatter of the mission file `raw`, and what follows it.
fn read_parts(raw: &str) -> (r: Result<(String, String), Error>)
    ensures
        parts_outcome(r) == mission_parts(raw@),
{
    match frontmatter::split(raw) {
        Err(e) => Err(e),
        Ok(parts) => match parts.head {
            None => Err(Error::Store("mission has no frontmatter".to_owned())),
            Some(head) => match frontmatter::parse_mapping(head.as_str()) {
                Err(e) => Err(Error::Yaml(e)),
                Ok(_) => Ok((head, parts.body)),
            },
        },
    }
}

/// What reading the frontmatter of a mission file comes to.
pub open spec fn mission_head(raw: Seq<char>) -> Result<Seq<char>, ErrorView> {
    match mission_parts(raw) {
        Err(e) => Err(e),
        Ok((head, _)) => Ok(head),
    }
}

/// No mission is under the slug.
pub open spec fn no_mission(project: Seq<char>, slug: Seq<char>) -> ErrorView {
    ErrorView::Store("mission not found: "@ + project + "/"@ + slug)
}

/// The error of a mission that is not there.
fn missing_mission(project: &str, slug: &str) -> (r: Error)
    ensures
        r@ == no_mission(project@, slug@),
{
    Error::Store(text::cat4("mission not found: ", project, "/", slug))
}

/// What a result of a mission holds.
pub open spec fn mission_outcome(r: Result<Mission, Error>) -> Result<Mission, ErrorView> {
    match r {
        Ok(m) => Ok(m),
        Err(e) => Err(e@),
    }
}

/// What checking a mission that was read out of its frontmatter comes to.
pub open spec fn mission_check(parsed: Result<Mission, String>) -> Result<Mission, ErrorView> {
    match parsed {
        Err(e) => Err(ErrorView::Store("mission: "@ + e@)),
        Ok(m) => if m.agent@.len() == 0 {
            Err(ErrorView::Store("mission missing agent ref"@))
        } else {
            Ok(m)
        },
    }
}

impl Mission {
    /// The frontmatter of the mission file `raw`, or why there is none; `raw`
    /// is none where the file cannot be read.
    pub fn head(project: &str, slug: &str, raw: Option<&str>) -> (r: Result<String, Error>)
        ensures
            error::outcome(r) == (match text::opt_str(raw) {
                None => Err(no_mission(project@, slug@)),
                Some(raw) => mission_head(raw),
            }),
    {
        let raw = match raw {
            None => {
                return Err(missing_mission(project, slug));
            },
            Some(raw) => raw,
        };
        match read_parts(raw) {
            Err(e) => Err(e),
            Ok((head, _)) => Ok(head),
        }
    }

    /// The mission, given what reading its frontmatter gave: it must name an
    /// agent.
    pub fn parse(parsed: Result<Mission, String>) -> (r: Result<Mission, Error>)
        ensures
            mission_outcome(r) == mission_check(parsed),
    {
        match parsed {
            Err(e) => Err(Error::Store(text::cat2("mission: ", e.as_str()))),
            Ok(m) => if m.agent.as_str().is_empty() {
                Err(Error::Store("mission missing agent ref".to_owned()))
            } else {
                Ok(m)
            },
        }
    }
}

/// What loading a mission file comes to, given what reading its frontmatter
/// gave.
pub open spec fn mission_loaded(raw: Seq<char>, parsed: Result<Mission, String>) -> Result<
    Mission,
    ErrorView,
> {
    match mission_head(raw) {
        Err(e) => Err(e),
        Ok(_) => mission_check(parsed),
    }
}

/// The text of a mission file: the brief follows a blank line.
pub open spec fn mission_text(head: Seq<char>, brief: Seq<char>) -> Seq<char> {
    frontmatter::fenced(head, "\n"@ + brief)
}

/// The brief of a mission file: what follows the blank line.
pub open spec fn brief_of(raw: Seq<char>) -> Result<Seq<char>, ErrorView> {
    match mission_parts(raw) {
        Err(e) => Err(e),
        Ok((_, body)) => Ok(
            match text::without_prefix(body, "\n"@) {
                Some(rest) => rest,
                None => body,
            },
        ),
    }
}

/// A mission file of this record and this brief is read back as both.
pub open spec fn reads_back(head: Seq<char>, brief: Seq<char>) -> bool {
    &&& mission_head(mission_text(head, brief)) == Ok::<Seq<char>, ErrorView>(head)
    &&& brief_of(mission_text(head, brief)) == Ok::<Seq<char>, ErrorView>(brief)
}

/// The file of a mission.
pub open spec fn mission_file(root: Seq<char>, project: Seq<char>, slug: Seq<char>) -> Seq<char> {
    path::joined(layout::missions_path(root, project), slug + ".md"@)
}

/// What writing a mission comes to: the file and its text.
pub open spec fn mission_write(
    root: Seq<char>,
    project: Seq<char>,
    slug: Seq<char>,
    project_found: bool,
    agent: Seq<char>,
    agent_loaded: Result<(), ErrorView>,
    head: Seq<char>,
    brief: Seq<char>,
) -> Result<(Seq<char>, Seq<char>), ErrorView> {
    match naming::slug_check(slug) {
        Err(e) => Err(e),
        Ok(_) => if !project_found {
            Err(ErrorView::Store("project not found: "@ + project))
        } else {
            match agent_loaded {
                Err(e) => Err(
                    ErrorView::Store(
                        "mission "@ + slug + ": agent "@ + text::quoted(agent) + ": "@
                            + error::shown(e),
                    ),
                ),
                Ok(_) => Ok((mission_file(root, project, slug), mission_text(head, brief))),
            }
        },
    }
}

/// What changing the record of a mission comes to: the file and its text. The
/// brief stays as it is, and nothing is written that would not be read back.
pub open spec fn mission_update(
    root: Seq<char>,
    project: Seq<char>,
    slug: Seq<char>,
    raw: Option<Seq<char>>,
    project_found: bool,
    agent: Seq<char>,
    agent_loaded: Result<(), ErrorView>,
    head: Seq<char>,
) -> Result<(Seq<char>, Seq<char>), ErrorView> {
    match raw {
        None => Err(no_mission(project, slug)),
        Some(raw) => match brief_of(raw) {
            Err(e) => Err(e),
            Ok(brief) => match mission_write(
                root,
                project,
                slug,
                project_found,
                agent,
                agent_loaded,
                head,
                brief,
            ) {
                Err(e) => Err(e),
                Ok(file) => if reads_back(head, brief) {
                    Ok(file)
                } else {
                    Err(ErrorView::Store("mission "@ + slug + ": the record would not be read back"@))
                },
            },
        },
    }
}

/// A file to write.
#[derive(Debug, PartialEq, Eq)]
pub struct FileWrite {
    pub path: String,
    pub text: String,
}

impl View for FileWrite {
    type V = (Seq<char>, Seq<char>);

    open spec fn view(&self) -> (Seq<char>, Seq<char>) {
        (self.path@, self.text@)
    }
}

/// The slug of the mission that a file name stands for.
pub open spec fn mission_slug_of(name: Seq<char>) -> Option<Seq<char>> {
    if path::extension_of(name) == Some("md"@) {
        text::without_suffix(name, ".md"@)
    } else {
        None
    }
}

/// The slug of the mission that the file `name` holds, if it holds one.
pub fn mission_slug(name: &str) -> (r: Option<String>)
    ensures
        text::opt_text(r) == mission_slug_of(name@),
{
    match path::extension(name) {
        Some(e) => if text::same(e.as_str(), "md") {
            text::strip_suffix(name, ".md")
        } else {
            None
        },
        None => None,
    }
}

impl Store {
    /// The file to write for a mission; `head` is its printed record. The
    /// project must be there and the agent must load.
    pub fn write_mission(
        &self,
        project: &str,
        slug: &str,
        project_found: bool,
        mission: &Mission,
        agent_loaded: Result<(), Error>,
        head: &str,
        brief: &str,
    ) -> (r: Result<FileWrite, Error>)
        ensures
            error::outcome(r) == mission_write(
                self@.root,
                project@,
                slug@,
                project_found,
                mission.agent@,
                error::verdict(agent_loaded),
                head@,
                brief@,
            ),
    {
        match naming::validate_slug(slug) {
            Ok(_) => {},
            Err(e) => {
                return Err(e);
            },
        }
        if !project_found {
            return Err(Error::Store(text::cat2("project not found: ", project)));
        }
        match agent_loaded {
            Err(e) => Err(
                Error::Store(
                    text::cat6(
                        "mission ",
                        slug,
                        ": agent ",
                        text::quote(mission.agent.as_str()).as_str(),
                        ": ",
                        e.message().as_str(),
                    ),
                ),
            ),
            Ok(_) => Ok(
                FileWrite {
                    path: self.mission_path(project, slug),
                    text: frontmatter::fence(head, text::cat2("\n", brief).as_str()),
                },
            ),
        }
    }

    /// The file of a mission.
    pub fn mission_path(&self, project: &str, slug: &str) -> (r: String)
        ensures
            r@ == mission_file(self@.root, project@, slug@),
    {
        path::join(
            self.project_missions_dir(project).as_str(),
            text::cat2(slug, ".md").as_str(),
        )
    }

    /// Load a mission out of what its file reads as, and of what reading the
    /// file's frontmatter gave.
    pub fn load_mission(
        &self,
        project: &str,
        slug: &str,
        raw: Option<&str>,
        parsed: Result<Mission, String>,
    ) -> (r: Result<Mission, Error>)
        ensures
            mission_outcome(r) == (match text::opt_str(raw) {
                None => Err(no_mission(project@, slug@)),
                Some(raw) => mission_loaded(raw, parsed),
            }),
    {
        match Mission::head(project, slug, raw) {
            Err(e) => Err(e),
            Ok(_) => Mission::parse(parsed),
        }
    }

    /// The missions that could be read, in slug order.
    pub fn list_missions(&self, found: Vec<(String, Result<Mission, Error>)>) -> (r: Vec<
        (String, Mission),
    >)
        ensures
            r@ == records::in_slug_order(records::readable(found@, found@.len()), 0),
    {
        records::list_readable(found)
    }

    /// The brief of a mission.
    pub fn mission_brief(&self, project: &str, slug: &str, raw: Option<&str>) -> (r: Result<
        String,
        Error,
    >)
        ensures
            error::outcome(r) == (match text::opt_str(raw) {
                None => Err(no_mission(project@, slug@)),
                Some(raw) => brief_of(raw),
            }),
    {
        let raw = match raw {
            None => {
                return Err(missing_mission(project, slug));
            },
            Some(raw) => raw,
        };
        let body = match read_parts(raw) {
            Err(e) => {
                return Err(e);
            },
            Ok((_, body)) => body,
        };
        match text::strip_prefix(body.as_str(), "\n") {
            Some(rest) => Ok(rest),
            None => Ok(body),
        }
    }

    /// The file to remove to delete a mission.
    pub fn delete_mission(&self, project: &str, slug: &str, exists: bool) -> (r: Result<
        String,
        Error,
    >)
        ensures
            error::outcome(r) == (match naming::slug_check(slug@) {
                Err(e) => Err(e),
                Ok(_) => if !exists {
                    Err(no_mission(project@, slug@))
                } else {
                    Ok(mission_file(self@.root, project@, slug@))
                },
            }),
    {
        match naming::validate_slug(slug) {
            Ok(_) => {},
            Err(e) => {
                return Err(e);
            },
        }
        if !exists {
            return Err(missing_mission(project, slug));
        }
        Ok(self.mission_path(project, slug))
    }

    /// Is a mission file of this record and this brief read back as both?
    fn keeps(&self, file: &FileWrite, head: &str, brief: &str) -> (r: bool)
        requires
            file.text@ == mission_text(head@, brief@),
        ensures
            r == reads_back(head@, brief@),
    {
        let head_kept = match Mission::head("", "", Some(file.text.as_str())) {
            Ok(h) => text::same(h.as_str(), head),
            Err(_) => false,
        };
        let brief_kept = match self.mission_brief("", "", Some(file.text.as_str())) {
            Ok(b) => text::same(b.as_str(), brief),
            Err(_) => false,
        };
        head_kept && brief_kept
    }

    /// The file to write for a mission whose record changed: the brief stays
    /// as it is in `raw`.
    pub fn update_mission(
        &self,
        project: &str,
        slug: &str,
        raw: Option<&str>,
        project_found: bool,
        mission: &Mission,
        agent_loaded: Result<(), Error>,
        head: &str,
    ) -> (r: Result<FileWrite, Error>)
        ensures
            error::outcome(r) == mission_update(
                self@.root,
                project@,
                slug@,
                text::opt_str(raw),
                project_found,
                mission.agent@,
                error::verdict(agent_loaded),
                head@,
            ),
    {
        let brief = match self.mission_brief(project, slug, raw) {
            Err(e) => {
                return Err(e);
            },
            Ok(brief) => brief,
        };
        let written = self.write_mission(
            project,
            slug,
            project_found,
            mission,
            agent_loaded,
            head,
            brief.as_str(),
        );
        match written {
            Err(e) => Err(e),
            Ok(file) => if self.keeps(&file, head, brief.as_str()) {
                Ok(file)
            } else {
                Err(
                    Error::Store(
                        text::cat3("mission ", slug, ": the record would not be read back"),
                    ),
                )
            },
        }
    }
}

// ---------------------------------------------------------------------
// Scope
// ---------------------------------------------------------------------

/// What the value of the project variable comes to: there is no default, for
/// a scope that was never chosen reads and writes in the wrong place.
pub open spec fn scope_slug(value: Option<Seq<char>>) -> Result<Seq<char>, Seq<char>> {
    match value {
        None => Err("CORPUS_PROJECT"@ + " is unset — every launch path sets it"@),
        Some(v) => {
            let slug = text::trimmed(v);
            if slug.len() == 0 {
                Err("CORPUS_PROJECT"@ + " is unset — every launch path sets it"@)
            } else {
                match naming::slug_check(slug) {
                    Err(e) => Err(
                        "CORPUS_PROJECT"@ + "="@ + text::quoted(slug) + ": "@ + error::shown(e),
                    ),
                    Ok(_) => Ok(slug),
                }
            }
        },
    }
}

/// The project scope that the value of the project variable names, or why it
/// names none.
pub fn project_slug_env(value: Option<&str>) -> (r: Result<String, String>)
    ensures
        crate::json::text_result(r) == scope_slug(text::opt_str(value)),
{
    let slug = match value {
        None => {
            return Err(text::cat2(layout::PROJECT_ENV, " is unset — every launch path sets it"));
        },
        Some(v) => text::trim(v),
    };
    if slug.as_str().is_empty() {
        return Err(text::cat2(layout::PROJECT_ENV, " is unset — every launch path sets it"));
    }
    match naming::validate_slug(slug.as_str()) {
        Err(e) => Err(
            text::cat5(
                layout::PROJECT_ENV,
                "=",
                text::quote(slug.as_str()).as_str(),
                ": ",
                e.message().as_str(),
            ),
        ),
        Ok(_) => Ok(slug),
    }
}

impl Scope {
    /// The scope that the value of the project variable names; `exists` says
    /// whether that project has a record. A project comes into being
    /// deliberately, never by a write that lands in it.
    pub fn from_env_strict(store: &Store, value: Option<&str>, exists: bool) -> (r: Result<
        Scope,
        String,
    >)
        ensures
            match r {
                Ok(scope) => exists && scope_slug(text::opt_str(value)) == Ok::<
                    Seq<char>,
                    Seq<char>,
                >(scope.project@),
                Err(e) => match scope_slug(text::opt_str(value)) {
                    Err(why) => e@ == why,
                    Ok(slug) => !exists && e@ == "CORPUS_PROJECT"@ + "="@ + text::quoted(slug)
                        + " names no project in "@ + store@.root
                        + " — projects are created deliberately, never by a write landing in them"@,
                },
            },
    {
        let slug = match project_slug_env(value) {
            Ok(slug) => slug,
            Err(e) => {
                return Err(e);
            },
        };
        if !exists {
            return Err(
                text::cat6(
                    layout::PROJECT_ENV,
                    "=",
                    text::quote(slug.as_str()).as_str(),
                    " names no project in ",
                    store.root(),
                    " — projects are created deliberately, never by a write landing in them",
                ),
            );
        }
        Ok(Scope::new(slug))
    }
}

// ---------------------------------------------------------------------
// Laws
// ---------------------------------------------------------------------

/// A printed record that is a mapping, ends its last line and holds no fence.
pub open spec fn is_record(head: Seq<char>) -> bool {
    &&& frontmatter::yaml_mapping(head) is Ok
    &&& head.len() == 0 || head.last() == '\n'
    &&& forall|i: int| 0 <= i <= head.len() - 3 ==> !frontmatter::fence_at(head, i)
}

/// A mission's record and brief are read back as they were written, where the
/// printed record is one.
pub proof fn law_brief_is_read_back(head: Seq<char>, brief: Seq<char>)
    requires
        is_record(head),
    ensures
        reads_back(head, brief),
{
    reveal_strlit("\n");
    let body = "\n"@ + brief;
    frontmatter::law_split_undoes_fence(head, body);
    assert("\n"@ =~= body.subrange(0, 1));
    assert(body.skip(1) =~= brief);
    assert(text::without_prefix(body, "\n"@) == Some(brief));
}

/// Changing a mission's record keeps its brief, however often it is done and
/// whatever the record is printed as; and the record is what is read back.
pub proof fn law_update_keeps_the_brief(
    root: Seq<char>,
    project: Seq<char>,
    slug: Seq<char>,
    raw: Option<Seq<char>>,
    project_found: bool,
    agent: Seq<char>,
    agent_loaded: Result<(), ErrorView>,
    head: Seq<char>,
)
    ensures
        mission_update(root, project, slug, raw, project_found, agent, agent_loaded, head) matches Ok(
            file,
        ) ==> {
            &&& raw is Some
            &&& brief_of(raw->Some_0) is Ok
            &&& brief_of(file.1) == brief_of(raw->Some_0)
            &&& mission_head(file.1) == Ok::<Seq<char>, ErrorView>(head)
        },
{
}

/// An update succeeds wherever writing the mission anew would, given that the
/// mission is there and that its record is one.
pub proof fn law_updates_write_as_missions_do(
    root: Seq<char>,
    project: Seq<char>,
    slug: Seq<char>,
    raw: Seq<char>,
    project_found: bool,
    agent: Seq<char>,
    agent_loaded: Result<(), ErrorView>,
    head: Seq<char>,
)
    requires
        brief_of(raw) is Ok,
        is_record(head),
    ensures
        mission_update(root, project, slug, Some(raw), project_found, agent, agent_loaded, head)
            == mission_write(
            root,
            project,
            slug,
            project_found,
            agent,
            agent_loaded,
            head,
            brief_of(raw)->Ok_0,
        ),
{
    law_brief_is_read_back(head, brief_of(raw)->Ok_0);
}

/// A mission that was written is the mission that is loaded: where `read`
/// gives it back out of its printed record, it is loaded out of the file.
pub proof fn law_mission_is_read_back(
    head: Seq<char>,
    brief: Seq<char>,
    mission: Mission,
    read: spec_fn(Seq<char>) -> Result<Mission, String>,
)
    requires
        reads_back(head, brief),
        read(head) == Ok::<Mission, String>(mission),
        mission.agent@.len() > 0,
    ensures
        mission_loaded(mission_text(head, brief), read(mission_head(mission_text(head, brief))->Ok_0))
            == Ok::<Mission, ErrorView>(mission),
{
}

} // verus!
