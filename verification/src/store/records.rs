//! Projects: their records, and what creating, cloning and changing one comes
//! to.
use vstd::prelude::*;
use crate::error;
use crate::error::{Error, ErrorView};
use crate::path;
use crate::store::layout;
use crate::store::layout::{Store, CATEGORIES};
use crate::store::naming;
use crate::table;
use crate::table::Table;
use crate::text;

verus! {

// ---------------------------------------------------------------------
// Listings
// ---------------------------------------------------------------------

/// Where a record goes in a list that is in slug order: before the first
/// record, from the `i`-th on, whose slug is not before its own.
pub open spec fn slug_place<V>(v: Seq<(String, V)>, slug: Seq<char>, i: nat) -> nat
    decreases v.len() - i,
{
    if i >= v.len() || !table::precedes(v[i as int].0@, slug) {
        i
    } else {
        slug_place(v, slug, i + 1)
    }
}

/// The records from the `i`-th on in slug order; records under one slug stay
/// as they were.
pub open spec fn in_slug_order<V>(v: Seq<(String, V)>, i: nat) -> Seq<(String, V)>
    decreases v.len() - i,
{
    if i >= v.len() {
        Seq::empty()
    } else {
        let rest = in_slug_order(v, i + 1);
        rest.insert(slug_place(rest, v[i as int].0@, 0) as int, v[i as int])
    }
}

proof fn lemma_slug_place<V>(v: Seq<(String, V)>, slug: Seq<char>, i: nat)
    requires
        i <= v.len(),
    ensures
        i <= slug_place(v, slug, i) <= v.len(),
        forall|j: int| i <= j < slug_place(v, slug, i) ==> table::precedes((#[trigger] v[j]).0@, slug),
        slug_place(v, slug, i) < v.len() ==> !table::precedes(
            v[slug_place(v, slug, i) as int].0@,
            slug,
        ),
    decreases v.len() - i,
{
    if i < v.len() && table::precedes(v[i as int].0@, slug) {
        lemma_slug_place(v, slug, i + 1);
    }
}

/// The records in slug order.
pub fn sort_by_slug<V>(found: Vec<(String, V)>) -> (r: Vec<(String, V)>)
    ensures
        r@ == in_slug_order(found@, 0),
{
    let ghost whole = found@;
    let mut rest = found;
    let mut out: Vec<(String, V)> = Vec::new();
    assert(out@ =~= in_slug_order(whole, rest@.len()));
    while rest.len() > 0
        invariant
            rest@.len() <= whole.len(),
            rest@ == whole.take(rest@.len() as int),
            out@ == in_slug_order(whole, rest@.len()),
        decreases rest@.len(),
    {
        let ghost n = rest@.len();
        let last = rest.pop();
        match last {
            None => {},
            Some(record) => {
                assert(record == whole[n - 1]);
                let mut at: usize = 0;
                while at < out.len() && table::before(out[at].0.as_str(), record.0.as_str())
                    invariant
                        at <= out@.len(),
                        slug_place(out@, record.0@, 0) == slug_place(out@, record.0@, at as nat),
                    decreases out@.len() - at,
                {
                    at = at + 1;
                }
                out.insert(at, record);
            },
        }
    }
    out
}

/// A list of records is in slug order.
pub open spec fn is_in_slug_order<V>(v: Seq<(String, V)>) -> bool {
    forall|i: int, j: int|
        #![trigger v[i], v[j]]
        0 <= i < j < v.len() ==> !table::precedes(v[j].0@, v[i].0@)
}

/// Listing puts the records in slug order, and neither loses nor adds one.
pub proof fn law_listing_is_in_slug_order<V>(v: Seq<(String, V)>, i: nat)
    requires
        i <= v.len(),
    ensures
        is_in_slug_order(in_slug_order(v, i)),
        in_slug_order(v, i).to_multiset() == v.skip(i as int).to_multiset(),
    decreases v.len() - i,
{
    broadcast use vstd::seq_lib::group_to_multiset_ensures;

    if i < v.len() {
        law_listing_is_in_slug_order(v, i + 1);
        let rest = in_slug_order(v, i + 1);
        let x = v[i as int];
        let at = slug_place(rest, x.0@, 0) as int;
        lemma_slug_place(rest, x.0@, 0);
        let now = rest.insert(at, x);
        assert forall|a: int, b: int|
            #![trigger now[a], now[b]]
            0 <= a < b < now.len() implies !table::precedes(now[b].0@, now[a].0@) by {
            let pa = if a < at {
                a
            } else {
                a - 1
            };
            let pb = if b < at {
                b
            } else {
                b - 1
            };
            if a != at && b != at {
                assert(now[a] == rest[pa] && now[b] == rest[pb]);
            } else if b == at {
                assert(now[a] == rest[a]);
                if table::precedes(x.0@, rest[a].0@) {
                    table::lemma_precedes_transitive(x.0@, rest[a].0@, x.0@);
                    table::lemma_precedes_irreflexive(x.0@);
                }
            } else {
                assert(now[b] == rest[b - 1]);
                if table::precedes(rest[b - 1].0@, x.0@) {
                    if b - 1 > at {
                        assert(!table::precedes(rest[b - 1].0@, rest[at].0@));
                        table::lemma_precedes_total(rest[at].0@, rest[b - 1].0@);
                        if table::precedes(rest[at].0@, rest[b - 1].0@) {
                            table::lemma_precedes_transitive(
                                rest[at].0@,
                                rest[b - 1].0@,
                                x.0@,
                            );
                        }
                    }
                }
            }
        }
        let tail = v.skip(i as int);
        let fewer = v.skip(i as int + 1);
        assert(tail =~= seq![x] + fewer);
        assert(tail.remove(0) =~= fewer);
        assert(now.remove(at) =~= rest);
        assert(tail.to_multiset() =~= fewer.to_multiset().insert(x)) by {
            assert(fewer.insert(0, x) =~= tail);
        }
        assert(now.to_multiset() =~= rest.to_multiset().insert(x));
    } else {
        assert(v.skip(i as int) =~= Seq::empty());
    }
}

/// The records that could be read, of the first `n`.
pub open spec fn readable<V>(found: Seq<(String, Result<V, Error>)>, n: nat) -> Seq<(String, V)>
    decreases n,
{
    if n == 0 {
        Seq::empty()
    } else {
        let before = readable(found, (n - 1) as nat);
        match found[n - 1].1 {
            Ok(v) => before.push((found[n - 1].0, v)),
            Err(_) => before,
        }
    }
}

/// The records that could be read, in slug order: one that cannot is passed
/// over, for it must not hide the others.
pub fn list_readable<V>(found: Vec<(String, Result<V, Error>)>) -> (r: Vec<(String, V)>)
    ensures
        r@ == in_slug_order(readable(found@, found@.len()), 0),
{
    let ghost whole = found@;
    let mut rest = found;
    let mut back: Vec<(String, V)> = Vec::new();
    let ghost all = readable(whole, whole.len());
    assert(rest@ =~= whole.take(rest@.len() as int));
    assert(all =~= readable(whole, rest@.len()) + back@.reverse());
    while rest.len() > 0
        invariant
            rest@.len() <= whole.len(),
            rest@ == whole.take(rest@.len() as int),
            all == readable(whole, rest@.len()) + back@.reverse(),
        decreases rest@.len(),
    {
        let ghost n = rest@.len();
        match rest.pop() {
            None => {},
            Some((slug, read)) => {
                assert((slug, read) == whole[n - 1]);
                match read {
                    Ok(v) => {
                        let ghost was = back@;
                        back.push((slug, v));
                        assert(back@.reverse() =~= seq![(slug, v)] + was.reverse());
                        assert(all =~= readable(whole, (n - 1) as nat) + back@.reverse());
                    },
                    Err(_) => {},
                }
            },
        }
        assert(rest@ =~= whole.take(rest@.len() as int));
    }
    assert(all =~= back@.reverse());
    let mut out: Vec<(String, V)> = Vec::new();
    let ghost listed = back@;
    assert(listed.reverse().take(0) =~= Seq::empty());
    while back.len() > 0
        invariant
            back@.len() + out@.len() == listed.len(),
            back@ == listed.take(back@.len() as int),
            out@ == listed.reverse().take(out@.len() as int),
        decreases back@.len(),
    {
        match back.pop() {
            None => {},
            Some(record) => {
                out.push(record);
                assert(out@ =~= listed.reverse().take(out@.len() as int));
            },
        }
        assert(back@ =~= listed.take(back@.len() as int));
    }
    assert(out@ =~= listed.reverse());
    sort_by_slug(out)
}

// ---------------------------------------------------------------------
// Projects
// ---------------------------------------------------------------------

/// A project's record.
#[derive(Debug, PartialEq)]
pub struct Project {
    pub name: String,
    /// The environment plugin that the project is bound to.
    pub plugin: String,
    /// Epoch seconds of creation.
    pub created: u64,
    pub cloned_from: Option<String>,
    /// Raised by every corpus wipe, so that old run logs stay attributable.
    pub corpus_generation: u64,
    /// The chosen source revisions; a source that is not there is at its
    /// default.
    pub pins: Table<String>,
}

/// What a project's record holds.
#[verifier::ext_equal]
pub struct ProjectView {
    pub name: Seq<char>,
    pub plugin: Seq<char>,
    pub created: u64,
    pub cloned_from: Option<Seq<char>>,
    pub corpus_generation: u64,
    pub pins: Map<Seq<char>, Seq<char>>,
}

impl View for Project {
    type V = ProjectView;

    open spec fn view(&self) -> ProjectView {
        ProjectView {
            name: self.name@,
            plugin: self.plugin@,
            created: self.created,
            cloned_from: text::opt_text(self.cloned_from),
            corpus_generation: self.corpus_generation,
            pins: table::text_values(self.pins@),
        }
    }
}

/// What reading a project's record gave: nothing where there is no file, and
/// the message of the reader where the file is no record.
pub open spec fn loaded_project(slug: Seq<char>, read: Option<Result<Project, String>>) -> Result<
    ProjectView,
    ErrorView,
> {
    match read {
        None => Err(ErrorView::Store("project not found: "@ + slug)),
        Some(Err(e)) => Err(ErrorView::Store("project "@ + slug + ": "@ + e@)),
        Some(Ok(project)) => Ok(project@),
    }
}

impl Project {
    /// The record of the project `slug`, given what reading it gave.
    pub fn load(slug: &str, read: Option<Result<Project, String>>) -> (r: Result<Project, Error>)
        ensures
            error::outcome(r) == loaded_project(slug@, read),
    {
        match read {
            None => Err(Error::Store(text::cat2("project not found: ", slug))),
            Some(Err(e)) => Err(Error::Store(text::cat4("project ", slug, ": ", e.as_str()))),
            Some(Ok(project)) => Ok(project),
        }
    }
}

/// What creating a project comes to.
pub open spec fn created_project(
    slug: Seq<char>,
    name: Seq<char>,
    plugin: Seq<char>,
    taken: bool,
    now: u64,
) -> Result<ProjectView, ErrorView> {
    match naming::slug_check(slug) {
        Err(e) => Err(e),
        Ok(_) => if taken {
            Err(ErrorView::Store("project already exists: "@ + slug))
        } else {
            Ok(
                ProjectView {
                    name,
                    plugin,
                    created: now,
                    cloned_from: None,
                    corpus_generation: 0,
                    pins: Map::empty(),
                },
            )
        },
    }
}

/// The name that a clone gets: the one asked for, else its source's.
pub open spec fn clone_name(name: Option<Seq<char>>, source: ProjectView) -> Seq<char> {
    match name {
        Some(name) => name,
        None => source.name,
    }
}

/// The corpus directories of a project, one for each category.
pub open spec fn category_dirs(root: Seq<char>, slug: Seq<char>, n: nat) -> Seq<Seq<char>>
    decreases n,
{
    if n == 0 {
        Seq::empty()
    } else {
        category_dirs(root, slug, (n - 1) as nat).push(
            path::joined(layout::corpus_path(root, slug), CATEGORIES@[n - 1]@),
        )
    }
}

impl Store {
    /// A new project's record. Its slug must be one, and free. It has no
    /// agents: those are created deliberately, from a role.
    pub fn create_project(&self, slug: &str, name: &str, plugin: &str, taken: bool, now: u64) -> (r:
        Result<Project, Error>)
        ensures
            error::outcome(r) == created_project(slug@, name@, plugin@, taken, now),
    {
        match naming::validate_slug(slug) {
            Ok(_) => {},
            Err(e) => {
                return Err(e);
            },
        }
        if taken {
            return Err(Error::Store(text::cat2("project already exists: ", slug)));
        }
        let pins: Table<String> = Table::new();
        assert(table::text_values(pins@) =~= Map::empty());
        Ok(
            Project {
                name: name.to_owned(),
                plugin: plugin.to_owned(),
                created: now,
                cloned_from: None,
                corpus_generation: 0,
                pins,
            },
        )
    }

    /// The corpus directories that a project has, one for each category.
    pub fn corpus_dirs(&self, slug: &str) -> (r: Vec<String>)
        ensures
            text::texts(r@) == category_dirs(self@.root, slug@, 6),
    {
        let corpus = self.project_corpus_dir(slug);
        let mut out: Vec<String> = Vec::new();
        let mut i: usize = 0;
        assert(text::texts(out@) =~= category_dirs(self@.root, slug@, 0));
        while i < 6
            invariant
                i <= 6,
                corpus@ == layout::corpus_path(self@.root, slug@),
                text::texts(out@) == category_dirs(self@.root, slug@, i as nat),
            decreases 6 - i,
        {
            let ghost was = text::texts(out@);
            let dir = path::join(corpus.as_str(), CATEGORIES[i]);
            out.push(dir);
            assert(text::texts(out@) =~= was.push(dir@));
            i = i + 1;
        }
        out
    }

    /// The trees that deleting a project removes: the project, and its run
    /// directory, which would be left with a link to nothing.
    pub fn delete_project(&self, slug: &str, exists: bool) -> (r: Result<(String, String), Error>)
        ensures
            match r {
                Ok((project, run)) => {
                    &&& naming::slug_check(slug@) is Ok
                    &&& exists
                    &&& project@ == layout::project_path(self@.root, slug@)
                    &&& run@ == layout::run_path(self@.root, slug@)
                },
                Err(e) => e@ == (match naming::slug_check(slug@) {
                    Err(bad) => bad,
                    Ok(_) => ErrorView::Store("project not found: "@ + slug@),
                }) && (naming::slug_check(slug@) is Ok ==> !exists),
            },
    {
        match naming::validate_slug(slug) {
            Ok(_) => {},
            Err(e) => {
                return Err(e);
            },
        }
        if !exists {
            return Err(Error::Store(text::cat2("project not found: ", slug)));
        }
        Ok((self.project_dir(slug), self.project_run_dir(slug)))
    }

    /// The projects that could be read, in slug order.
    pub fn list_projects(&self, found: Vec<(String, Result<Project, Error>)>) -> (r: Vec<
        (String, Project),
    >)
        ensures
            r@ == in_slug_order(readable(found@, found@.len()), 0),
    {
        list_readable(found)
    }

    /// The record of a clone of the project `from` under the slug `to`: the
    /// source's in all but its name and where it came from.
    pub fn clone_project(
        &self,
        source: Result<Project, Error>,
        from: &str,
        to: &str,
        name: Option<&str>,
        taken: bool,
        now: u64,
    ) -> (r: Result<Project, Error>)
        ensures
            error::outcome(r) == (match error::outcome(source) {
                Err(e) => Err(e),
                Ok(source) => match created_project(
                    to@,
                    clone_name(text::opt_str(name), source),
                    source.plugin,
                    taken,
                    now,
                ) {
                    Err(e) => Err(e),
                    Ok(_) => Ok(
                        (ProjectView {
                            name: clone_name(text::opt_str(name), source),
                            cloned_from: Some(from@),
                            ..source
                        }),
                    ),
                },
            }),
    {
        let source = match source {
            Ok(source) => source,
            Err(e) => {
                return Err(e);
            },
        };
        let name = match name {
            Some(name) => name.to_owned(),
            None => source.name.clone(),
        };
        match self.create_project(to, name.as_str(), source.plugin.as_str(), taken, now) {
            Ok(_) => {},
            Err(e) => {
                return Err(e);
            },
        }
        Ok(
            Project {
                name,
                plugin: source.plugin,
                created: source.created,
                cloned_from: Some(from.to_owned()),
                corpus_generation: source.corpus_generation,
                pins: source.pins,
            },
        )
    }

    /// The record with another display name; the slug stays, for it is the
    /// project's identity.
    pub fn rename_project(&self, name: &str, loaded: Result<Project, Error>) -> (r: Result<
        Project,
        Error,
    >)
        ensures
            error::outcome(r) == (if text::trimmed(name@).len() == 0 {
                Err(ErrorView::Store("project name must not be empty"@))
            } else {
                match error::outcome(loaded) {
                    Err(e) => Err(e),
                    Ok(p) => Ok((ProjectView { name: text::trimmed(name@), ..p })),
                }
            }),
    {
        let name = text::trim(name);
        if name.as_str().is_empty() {
            return Err(Error::Store("project name must not be empty".to_owned()));
        }
        match loaded {
            Err(e) => Err(e),
            Ok(project) => {
                let mut project = project;
                project.name = name;
                Ok(project)
            },
        }
    }

    /// The record bound to another environment plugin.
    pub fn rebind_project(&self, plugin: &str, loaded: Result<Project, Error>) -> (r: Result<
        Project,
        Error,
    >)
        ensures
            error::outcome(r) == (match error::outcome(loaded) {
                Err(e) => Err(e),
                Ok(p) => Ok((ProjectView { plugin: plugin@, ..p })),
            }),
    {
        match loaded {
            Err(e) => Err(e),
            Ok(project) => {
                let mut project = project;
                project.plugin = plugin.to_owned();
                Ok(project)
            },
        }
    }

    /// The record with another choice of source revisions.
    pub fn set_project_pins(&self, pins: Table<String>, loaded: Result<Project, Error>) -> (r: Result<
        Project,
        Error,
    >)
        ensures
            error::outcome(r) == (match error::outcome(loaded) {
                Err(e) => Err(e),
                Ok(p) => Ok((ProjectView { pins: table::text_values(pins@), ..p })),
            }),
    {
        match loaded {
            Err(e) => Err(e),
            Ok(project) => {
                let mut project = project;
                project.pins = pins;
                Ok(project)
            },
        }
    }

    /// The record after a wipe of the corpus: the generation is raised by one,
    /// and nothing else changes.
    pub fn wipe_project_corpus(&self, loaded: Result<Project, Error>) -> (r: Result<Project, Error>)
        requires
            loaded matches Ok(p) ==> p.corpus_generation < u64::MAX,
        ensures
            error::outcome(r) == (match error::outcome(loaded) {
                Err(e) => Err(e),
                Ok(p) => Ok(
                    (ProjectView { corpus_generation: (p.corpus_generation + 1) as u64, ..p }),
                ),
            }),
    {
        match loaded {
            Err(e) => Err(e),
            Ok(project) => {
                let mut project = project;
                project.corpus_generation = project.corpus_generation + 1;
                Ok(project)
            },
        }
    }
}

} // verus!
