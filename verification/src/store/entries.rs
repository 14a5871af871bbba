//! Corpus entries: resolving a caller's relative path inside a project's
//! corpus, or refusing it.
use vstd::prelude::*;
use crate::error;
use crate::error::{Error, ErrorView};
use crate::json;
use crate::path;
use crate::path::{Component, Part};
use crate::store::layout;
use crate::store::layout::{Store, CATEGORIES};
use crate::store::missions::FileWrite;
use crate::table::Table;
use crate::text;

verus! {

/// What a caller intends to do with a corpus entry.
#[derive(Debug, Clone, Copy, PartialEq, Eq, Structural)]
pub enum EntryAccess {
    /// Read an existing entry.
    Read,
    /// Change or remove an existing entry.
    Mutate,
    /// A destination, which need not exist yet.
    Destination,
}

/// The access changes something.
pub open spec fn mutates(access: EntryAccess) -> bool {
    access != EntryAccess::Read
}

impl EntryAccess {
    /// Does the access change something?
    pub fn is_mutation(self) -> (r: bool)
        ensures
            r == mutates(self),
    {
        match self {
            EntryAccess::Read => false,
            _ => true,
        }
    }
}

/// The corpus categories.
pub open spec fn categories() -> Seq<Seq<char>> {
    seq!["hypotheses"@, "techniques"@, "findings"@, "attacks"@, "retro"@, "runs"@]
}

/// Is `name` a corpus category?
pub fn is_category(name: &str) -> (r: bool)
    ensures
        r == categories().contains(name@),
{
    let mut i: usize = 0;
    while i < 6
        invariant
            i <= 6,
            forall|j: int| 0 <= j < i ==> categories()[j] != name@,
        decreases 6 - i,
    {
        assert(CATEGORIES@[i as int]@ == categories()[i as int]);
        if text::same(CATEGORIES[i], name) {
            return true;
        }
        i = i + 1;
    }
    false
}

/// The name that an error gives a component that is no plain name.
pub open spec fn part_label(p: Part) -> Seq<char> {
    match p {
        Part::Root => "RootDir"@,
        Part::Cur => "CurDir"@,
        Part::Parent => "ParentDir"@,
        Part::Normal(name) => "Normal("@ + text::quoted(name) + ")"@,
    }
}

/// The first component that is no plain name.
pub open spec fn first_odd(p: Seq<Part>, i: nat) -> Option<Part>
    decreases p.len() - i,
{
    if i >= p.len() {
        None
    } else if p[i as int] is Normal {
        first_odd(p, i + 1)
    } else {
        Some(p[i as int])
    }
}

/// What checking a corpus path, already trimmed, comes to: a relative path of
/// plain names that begins with a category; and for a change neither a
/// transcript nor a whole category.
pub open spec fn path_check(rel: Seq<char>, access: EntryAccess) -> Result<(), ErrorView> {
    let p = path::parts(rel);
    if rel.len() == 0 {
        Err(ErrorView::Store("path is empty"@))
    } else if rel[0] == '/' {
        Err(ErrorView::Store("path must be relative to the project corpus: "@ + rel))
    } else {
        match first_odd(p, 0) {
            Some(odd) => Err(
                ErrorView::Store(
                    "path component "@ + part_label(odd) + " is not allowed inside a corpus: "@ + rel,
                ),
            ),
            None => if p.len() == 0 {
                Err(ErrorView::Store("path names no category: "@ + rel))
            } else {
                let category = p[0]->Normal_0;
                if !categories().contains(category) {
                    Err(
                        ErrorView::Store(
                            text::quoted(category)
                                + " is not a corpus category (one of hypotheses, techniques, findings, attacks, retro, runs)"@,
                        ),
                    )
                } else if category == "runs"@ && mutates(access) {
                    Err(
                        ErrorView::Store(
                            "runs/ holds the mission transcripts: technique cards cite them by name, the cost report counts them, and they are what an operator reads to audit a run. They can be read, never changed: "@
                                + rel,
                        ),
                    )
                } else if p.len() == 1 && mutates(access) {
                    Err(
                        ErrorView::Store(
                            rel
                                + " is a whole category, not an entry — removing one wholesale is a corpus wipe under another name"@,
                        ),
                    )
                } else {
                    Ok(())
                }
            },
        }
    }
}

/// The name that an error gives a component.
fn label(c: &Component) -> (r: String)
    ensures
        r@ == part_label(c@),
{
    match c {
        Component::Root => "RootDir".to_owned(),
        Component::Cur => "CurDir".to_owned(),
        Component::Parent => "ParentDir".to_owned(),
        Component::Normal(name) => text::cat3("Normal(", text::quote(name.as_str()).as_str(), ")"),
    }
}

/// Check a corpus path, already trimmed, for what it will be used for.
pub fn check_path(rel: &str, access: EntryAccess) -> (r: Result<(), Error>)
    ensures
        error::verdict(r) == path_check(rel@, access),
{
    let s = text::chars_of(rel);
    if s.len() == 0 {
        return Err(Error::Store("path is empty".to_owned()));
    }
    if s[0] == '/' {
        return Err(
            Error::Store(text::cat2("path must be relative to the project corpus: ", rel)),
        );
    }
    let all = path::components(rel);
    let ghost p = path::parts(rel@);
    assert(p.len() == all@.len());
    let mut i: usize = 0;
    while i < all.len()
        invariant
            i <= all@.len(),
            p == path::parts(rel@),
            p == path::part_views(all@),
            rel@.len() > 0,
            rel@[0] != '/',
            first_odd(p, 0) == first_odd(p, i as nat),
            forall|j: int| 0 <= j < i ==> (#[trigger] p[j]) is Normal,
        decreases all@.len() - i,
    {
        assert(p[i as int] == all@[i as int]@);
        match &all[i] {
            Component::Normal(_) => {},
            odd => {
                return Err(
                    Error::Store(
                        text::cat4(
                            "path component ",
                            label(odd).as_str(),
                            " is not allowed inside a corpus: ",
                            rel,
                        ),
                    ),
                );
            },
        }
        i = i + 1;
    }
    if all.len() == 0 {
        return Err(Error::Store(text::cat2("path names no category: ", rel)));
    }
    assert(p[0] is Normal);
    assert(p[0] == all@[0]@);
    let category = match &all[0] {
        Component::Normal(name) => name.as_str(),
        _ => {
            return Err(Error::Store(text::cat2("path names no category: ", rel)));
        },
    };
    if !is_category(category) {
        return Err(
            Error::Store(
                text::cat2(
                    text::quote(category).as_str(),
                    " is not a corpus category (one of hypotheses, techniques, findings, attacks, retro, runs)",
                ),
            ),
        );
    }
    if text::same(category, "runs") && access.is_mutation() {
        return Err(
            Error::Store(
                text::cat2(
                    "runs/ holds the mission transcripts: technique cards cite them by name, the cost report counts them, and they are what an operator reads to audit a run. They can be read, never changed: ",
                    rel,
                ),
            ),
        );
    }
    if all.len() == 1 && access.is_mutation() {
        return Err(
            Error::Store(
                text::cat2(
                    rel,
                    " is a whole category, not an entry — removing one wholesale is a corpus wipe under another name",
                ),
            ),
        );
    }
    Ok(())
}

/// The trimmed path that a caller gave, if it is one that the access allows.
pub fn check_corpus_path(rel: &str, access: EntryAccess) -> (r: Result<String, Error>)
    ensures
        error::outcome(r) == (match path_check(text::trimmed(rel@), access) {
            Ok(_) => Ok(text::trimmed(rel@)),
            Err(e) => Err(e),
        }),
{
    let rel = text::trim(rel);
    match check_path(rel.as_str(), access) {
        Ok(_) => Ok(rel),
        Err(e) => Err(e),
    }
}

/// What the resolved path comes to: refused where it lies outside the corpus
/// root, as through a link planted inside the corpus.
pub open spec fn confinement(root: Seq<char>, resolved: Seq<char>, rel: Seq<char>) -> Result<
    Seq<char>,
    ErrorView,
> {
    if path::is_within(resolved, root) {
        Ok(resolved)
    } else {
        Err(
            ErrorView::Store(
                rel
                    + " resolves outside the project corpus — a link inside a corpus does not widen it"@,
            ),
        )
    }
}

/// The resolved path, if it lies inside the corpus root; both with every link
/// followed.
pub fn confine(root: &str, resolved: String, rel: &str) -> (r: Result<String, Error>)
    ensures
        error::outcome(r) == confinement(root@, resolved@, rel@),
{
    if path::within(resolved.as_str(), root) {
        Ok(resolved)
    } else {
        Err(
            Error::Store(
                text::cat2(
                    rel,
                    " resolves outside the project corpus — a link inside a corpus does not widen it",
                ),
            ),
        )
    }
}

// ---------------------------------------------------------------------
// Destinations
// ---------------------------------------------------------------------

/// The search for the deepest part of a destination that exists: what may
/// exist, and the names below it, the last first.
#[derive(Debug, PartialEq, Eq)]
pub struct Destination {
    pub existing: String,
    pub tail: Vec<String>,
}

/// A path with names joined onto it, the last of the row first.
pub open spec fn rejoined(base: Seq<char>, tail: Seq<Seq<char>>) -> Seq<char>
    decreases tail.len(),
{
    if tail.len() == 0 {
        base
    } else {
        rejoined(path::joined(base, tail.last()), tail.drop_last())
    }
}

/// What going one step up comes to.
pub open spec fn climbed(existing: Seq<char>, tail: Seq<Seq<char>>, rel: Seq<char>) -> Result<
    (Seq<char>, Seq<Seq<char>>),
    ErrorView,
> {
    match path::file_name_of(existing) {
        None => Err(ErrorView::Store(rel + " names no file"@)),
        Some(name) => match path::parent_of(existing) {
            None => Err(ErrorView::Store(rel + " has no parent"@)),
            Some(parent) => Ok((parent, tail.push(name))),
        },
    }
}

/// What a result of a destination search holds.
pub open spec fn destination_outcome(r: Result<Destination, Error>) -> Result<
    (Seq<char>, Seq<Seq<char>>),
    ErrorView,
> {
    match r {
        Ok(d) => Ok((d.existing@, text::texts(d.tail@))),
        Err(e) => Err(e@),
    }
}

impl Destination {
    /// The search from the joined path.
    pub fn new(joined: String) -> (r: Destination)
        ensures
            r.existing == joined,
            text::texts(r.tail@) == Seq::<Seq<char>>::empty(),
    {
        let tail: Vec<String> = Vec::new();
        assert(text::texts(tail@) =~= Seq::<Seq<char>>::empty());
        Destination { existing: joined, tail }
    }

    /// One step up, where `existing` does not exist.
    pub fn climb(self, rel: &str) -> (r: Result<Destination, Error>)
        ensures
            destination_outcome(r) == climbed(self.existing@, text::texts(self.tail@), rel@),
    {
        let name = match path::file_name(self.existing.as_str()) {
            Some(name) => name,
            None => {
                return Err(Error::Store(text::cat2(rel, " names no file")));
            },
        };
        let parent = match path::parent(self.existing.as_str()) {
            Some(parent) => parent,
            None => {
                return Err(Error::Store(text::cat2(rel, " has no parent")));
            },
        };
        let mut tail = self.tail;
        let ghost was = text::texts(tail@);
        tail.push(name);
        assert(text::texts(tail@) =~= was.push(name@));
        Ok(Destination { existing: parent, tail })
    }

    /// The destination below `canonical`, which is `existing` with every link
    /// followed.
    pub fn settle(self, canonical: String) -> (r: String)
        ensures
            r@ == rejoined(canonical@, text::texts(self.tail@)),
    {
        let tail = self.tail;
        let mut out = canonical;
        let mut i: usize = tail.len();
        assert(text::texts(tail@).take(i as int) =~= text::texts(tail@));
        while i > 0
            invariant
                i <= tail@.len(),
                rejoined(out@, text::texts(tail@).take(i as int)) == rejoined(
                    canonical@,
                    text::texts(tail@),
                ),
            decreases i,
        {
            assert(text::texts(tail@).take(i as int).drop_last() =~= text::texts(tail@).take(i - 1));
            assert(text::texts(tail@).take(i as int).last() == tail@[i - 1]@);
            out = path::join(out.as_str(), tail[i - 1].as_str());
            i = i - 1;
        }
        out
    }
}

// ---------------------------------------------------------------------
// Resolving
// ---------------------------------------------------------------------

/// What is at a path.
#[derive(Debug, PartialEq, Eq)]
pub enum OnDisk {
    /// Something is there; following every link leads to this path.
    At(String),
    /// Nothing is there, as the reason says.
    Absent(String),
    /// A link is there that leads nowhere, as the reason says.
    Broken(String),
}

/// What is at a path, as plain values.
pub enum DiskView {
    At(Seq<char>),
    Absent(Seq<char>),
    Broken(Seq<char>),
}

impl View for OnDisk {
    type V = DiskView;

    open spec fn view(&self) -> DiskView {
        match *self {
            OnDisk::At(to) => DiskView::At(to@),
            OnDisk::Absent(why) => DiskView::Absent(why@),
            OnDisk::Broken(why) => DiskView::Broken(why@),
        }
    }
}

/// What is at a path. Nothing is known of one that was not asked for, which is
/// as good as a link that leads nowhere.
pub open spec fn found_at(disk: Map<Seq<char>, OnDisk>, p: Seq<char>) -> DiskView {
    if disk.dom().contains(p) {
        disk[p]@
    } else {
        DiskView::Broken("not asked for"@)
    }
}

/// What following every link of a path gives: the path it leads to, or why it
/// leads nowhere.
pub open spec fn followed(disk: Map<Seq<char>, OnDisk>, p: Seq<char>) -> Result<
    Seq<char>,
    Seq<char>,
> {
    match found_at(disk, p) {
        DiskView::At(to) => Ok(to),
        DiskView::Absent(why) => Err(why),
        DiskView::Broken(why) => Err(why),
    }
}

/// What is at a path.
fn look_at(disk: &Table<OnDisk>, p: &str) -> (r: OnDisk)
    ensures
        r@ == found_at(disk@, p@),
{
    match disk.get(p) {
        Some(OnDisk::At(to)) => OnDisk::At(to.clone()),
        Some(OnDisk::Absent(why)) => OnDisk::Absent(why.clone()),
        Some(OnDisk::Broken(why)) => OnDisk::Broken(why.clone()),
        None => OnDisk::Broken("not asked for".to_owned()),
    }
}

/// What following every link of a path gives.
fn follow(disk: &Table<OnDisk>, p: &str) -> (r: Result<String, String>)
    ensures
        json::text_result(r) == followed(disk@, p@),
{
    match look_at(disk, p) {
        OnDisk::At(to) => Ok(to),
        OnDisk::Absent(why) => Err(why),
        OnDisk::Broken(why) => Err(why),
    }
}

/// Where a destination leads: the deepest part of it that exists, with its
/// links followed, and the names below that, where nothing is yet, the last
/// first. A link that leads nowhere is not climbed past: what is written
/// through it would end up where it leads.
pub open spec fn deepest(
    disk: Map<Seq<char>, OnDisk>,
    existing: Seq<char>,
    tail: Seq<Seq<char>>,
    rel: Seq<char>,
) -> Result<(Seq<char>, Seq<Seq<char>>), ErrorView>
    decreases existing.len(),
{
    match found_at(disk, existing) {
        DiskView::At(to) => Ok((to, tail)),
        DiskView::Broken(why) => Err(ErrorView::Store(rel + ": "@ + why)),
        DiskView::Absent(_) => match climbed(existing, tail, rel) {
            Err(e) => Err(e),
            Ok((parent, more)) => if parent.len() < existing.len() {
                deepest(disk, parent, more, rel)
            } else {
                Err(ErrorView::Store(rel + " has no parent"@))
            },
        },
    }
}

/// Where a caller's path leads inside a project's corpus, or why it is refused.
/// Of a destination the part that exists must lie inside; the names below it
/// lead only down.
pub open spec fn corpus_entry(
    root: Seq<char>,
    project: Seq<char>,
    given: Seq<char>,
    access: EntryAccess,
    disk: Map<Seq<char>, OnDisk>,
) -> Result<Seq<char>, ErrorView> {
    let rel = text::trimmed(given);
    match path_check(rel, access) {
        Err(e) => Err(e),
        Ok(_) => match followed(disk, layout::corpus_path(root, project)) {
            Err(e) => Err(
                ErrorView::Store(
                    "project "@ + project + " has no corpus directory ("@ + e
                        + ") — create the project first"@,
                ),
            ),
            Ok(corpus) => {
                let joined = path::joined(corpus, rel);
                if access == EntryAccess::Destination {
                    match deepest(disk, joined, Seq::empty(), rel) {
                        Err(e) => Err(e),
                        Ok((to, tail)) => match confinement(corpus, to, rel) {
                            Err(e) => Err(e),
                            Ok(to) => Ok(rejoined(to, tail)),
                        },
                    }
                } else {
                    match followed(disk, joined) {
                        Err(e) => Err(ErrorView::Store(rel + ": "@ + e)),
                        Ok(to) => confinement(corpus, to, rel),
                    }
                }
            },
        },
    }
}

/// Where a destination leads, if that lies inside the corpus.
fn find_deepest(disk: &Table<OnDisk>, corpus: &str, joined: String, rel: &str) -> (r: Result<
    String,
    Error,
>)
    ensures
        error::outcome(r) == (match deepest(disk@, joined@, Seq::empty(), rel@) {
            Err(e) => Err(e),
            Ok((to, tail)) => match confinement(corpus@, to, rel@) {
                Err(e) => Err(e),
                Ok(to) => Ok(rejoined(to, tail)),
            },
        }),
{
    let mut at = Destination::new(joined);
    loop
        invariant
            deepest(disk@, at.existing@, text::texts(at.tail@), rel@) == deepest(
                disk@,
                joined@,
                Seq::empty(),
                rel@,
            ),
        decreases at.existing@.len(),
    {
        match look_at(disk, at.existing.as_str()) {
            OnDisk::At(to) => {
                return match confine(corpus, to, rel) {
                    Err(e) => Err(e),
                    Ok(to) => Ok(at.settle(to)),
                };
            },
            OnDisk::Broken(why) => {
                return Err(Error::Store(text::cat3(rel, ": ", why.as_str())));
            },
            OnDisk::Absent(_) => {},
        }
        let ghost was = at.existing@;
        match at.climb(rel) {
            Err(e) => {
                return Err(e);
            },
            Ok(up) => {
                proof {
                    path::lemma_parent_is_shorter(was);
                }
                at = up;
            },
        }
    }
}

impl Store {
    /// Where a caller's path leads inside a project's corpus, or why it is
    /// refused. The text is checked first; then links are followed, since a
    /// link inside a corpus must not widen it. `disk` says what is at the
    /// corpus, at the path and at everything above it.
    pub fn resolve_corpus_entry(
        &self,
        project: &str,
        rel: &str,
        access: EntryAccess,
        disk: &Table<OnDisk>,
    ) -> (r: Result<String, Error>)
        ensures
            error::outcome(r) == corpus_entry(self@.root, project@, rel@, access, disk@),
    {
        let rel = match check_corpus_path(rel, access) {
            Err(e) => {
                return Err(e);
            },
            Ok(rel) => rel,
        };
        let rel = rel.as_str();
        let corpus = match follow(disk, self.project_corpus_dir(project).as_str()) {
            Err(e) => {
                return Err(
                    Error::Store(
                        text::cat5(
                            "project ",
                            project,
                            " has no corpus directory (",
                            e.as_str(),
                            ") — create the project first",
                        ),
                    ),
                );
            },
            Ok(corpus) => corpus,
        };
        let joined = path::join(corpus.as_str(), rel);
        match access {
            EntryAccess::Destination => find_deepest(disk, corpus.as_str(), joined, rel),
            _ => match follow(disk, joined.as_str()) {
                Err(e) => Err(Error::Store(text::cat3(rel, ": ", e.as_str()))),
                Ok(to) => confine(corpus.as_str(), to, rel),
            },
        }
    }

    /// What is to be removed to delete one entry: a directory needs
    /// `recursive`. `is_dir` says whether a directory is there.
    pub fn delete_corpus_entry(
        &self,
        project: &str,
        rel: &str,
        recursive: bool,
        disk: &Table<OnDisk>,
        is_dir: bool,
    ) -> (r: Result<String, Error>)
        ensures
            error::outcome(r) == (match corpus_entry(
                self@.root,
                project@,
                rel@,
                EntryAccess::Mutate,
                disk@,
            ) {
                Err(e) => Err(e),
                Ok(path) => match delete_check(rel@, is_dir, recursive) {
                    Err(e) => Err(e),
                    Ok(_) => Ok(path),
                },
            }),
    {
        match self.resolve_corpus_entry(project, rel, EntryAccess::Mutate, disk) {
            Err(e) => Err(e),
            Ok(path) => match check_delete(rel, is_dir, recursive) {
                Err(e) => Err(e),
                Ok(_) => Ok(path),
            },
        }
    }

    /// What moving one entry within a corpus does, and between which paths.
    /// `taken` says whether something is at the destination.
    pub fn move_corpus_entry(
        &self,
        project: &str,
        from: &str,
        to: &str,
        overwrite: bool,
        disk: &Table<OnDisk>,
        taken: bool,
    ) -> (r: Result<EntryMove, Error>)
        ensures
            error::outcome(r) == entry_move(
                corpus_entry(self@.root, project@, from@, EntryAccess::Mutate, disk@),
                corpus_entry(self@.root, project@, to@, EntryAccess::Destination, disk@),
                to@,
                overwrite,
                taken,
            ),
    {
        let src = match self.resolve_corpus_entry(project, from, EntryAccess::Mutate, disk) {
            Err(e) => {
                return Err(e);
            },
            Ok(src) => src,
        };
        let dst = match self.resolve_corpus_entry(project, to, EntryAccess::Destination, disk) {
            Err(e) => {
                return Err(e);
            },
            Ok(dst) => dst,
        };
        match plan_move(src.as_str(), dst.as_str(), taken, overwrite, to) {
            Err(e) => Err(e),
            Ok(plan) => Ok(EntryMove { src, dst, plan }),
        }
    }

    /// The file to write to replace one entry or to begin it. `is_dir` says
    /// whether a directory is there.
    pub fn write_corpus_entry(
        &self,
        project: &str,
        rel: &str,
        content: &str,
        disk: &Table<OnDisk>,
        is_dir: bool,
    ) -> (r: Result<FileWrite, Error>)
        ensures
            error::outcome(r) == (match corpus_entry(
                self@.root,
                project@,
                rel@,
                EntryAccess::Destination,
                disk@,
            ) {
                Err(e) => Err(e),
                Ok(path) => if is_dir {
                    Err(
                        ErrorView::Store(
                            rel@ + " is a directory — entry_write replaces a file, not a tree"@,
                        ),
                    )
                } else {
                    Ok((path, content@))
                },
            }),
    {
        match self.resolve_corpus_entry(project, rel, EntryAccess::Destination, disk) {
            Err(e) => Err(e),
            Ok(path) => if is_dir {
                Err(
                    Error::Store(
                        text::cat2(
                            rel,
                            " is a directory — entry_write replaces a file, not a tree",
                        ),
                    ),
                )
            } else {
                Ok(FileWrite { path, text: content.to_owned() })
            },
        }
    }
}

// ---------------------------------------------------------------------
// Deleting, moving, writing
// ---------------------------------------------------------------------

/// Whether what is to be removed may be: a directory needs `recursive`.
pub open spec fn delete_check(rel: Seq<char>, is_dir: bool, recursive: bool) -> Result<
    (),
    ErrorView,
> {
    if is_dir && !recursive {
        Err(
            ErrorView::Store(
                rel + " is a directory — pass recursive to remove it and everything under it"@,
            ),
        )
    } else {
        Ok(())
    }
}

/// Check that what is to be removed may be: a directory needs `recursive`.
fn check_delete(rel: &str, is_dir: bool, recursive: bool) -> (r: Result<(), Error>)
    ensures
        error::verdict(r) == delete_check(rel@, is_dir, recursive),
{
    if is_dir && !recursive {
        Err(
            Error::Store(
                text::cat2(
                    rel,
                    " is a directory — pass recursive to remove it and everything under it",
                ),
            ),
        )
    } else {
        Ok(())
    }
}

/// What a move has to do.
#[derive(Debug, Clone, Copy, PartialEq, Eq, Structural)]
pub enum MovePlan {
    /// Both ends are one and the same.
    Nothing,
    /// The destination is free.
    Rename,
    /// What is at the destination goes first.
    Replace,
}

/// What planning a move comes to.
pub open spec fn move_plan(
    src: Seq<char>,
    dst: Seq<char>,
    taken: bool,
    overwrite: bool,
    to: Seq<char>,
) -> Result<MovePlan, ErrorView> {
    if path::parts(src) == path::parts(dst) {
        Ok(MovePlan::Nothing)
    } else if !taken {
        Ok(MovePlan::Rename)
    } else if overwrite {
        Ok(MovePlan::Replace)
    } else {
        Err(ErrorView::Store(to + " already exists — pass overwrite to replace it"@))
    }
}

/// What a result of a plan holds.
pub open spec fn plan_outcome(r: Result<MovePlan, Error>) -> Result<MovePlan, ErrorView> {
    match r {
        Ok(p) => Ok(p),
        Err(e) => Err(e@),
    }
}

/// Plan a move between two resolved paths; `taken` says whether something is
/// at the destination.
pub fn plan_move(src: &str, dst: &str, taken: bool, overwrite: bool, to: &str) -> (r: Result<
    MovePlan,
    Error,
>)
    ensures
        plan_outcome(r) == move_plan(src@, dst@, taken, overwrite, to@),
{
    let same = path::within(src, dst) && path::within(dst, src);
    proof {
        let a = path::parts(src@);
        let b = path::parts(dst@);
        if path::is_within(src@, dst@) && path::is_within(dst@, src@) {
            assert(a.subrange(0, b.len() as int) =~= a);
            assert(a =~= b);
        }
        if a == b {
            assert(b =~= a.subrange(0, b.len() as int));
            assert(a =~= b.subrange(0, a.len() as int));
        }
    }
    if same {
        Ok(MovePlan::Nothing)
    } else if !taken {
        Ok(MovePlan::Rename)
    } else if overwrite {
        Ok(MovePlan::Replace)
    } else {
        Err(Error::Store(text::cat2(to, " already exists — pass overwrite to replace it")))
    }
}

/// A move between two resolved paths.
#[derive(Debug, PartialEq, Eq)]
pub struct EntryMove {
    pub src: String,
    pub dst: String,
    pub plan: MovePlan,
}

impl View for EntryMove {
    type V = (Seq<char>, Seq<char>, MovePlan);

    open spec fn view(&self) -> (Seq<char>, Seq<char>, MovePlan) {
        (self.src@, self.dst@, self.plan)
    }
}

/// What a move between two ends comes to.
pub open spec fn entry_move(
    src: Result<Seq<char>, ErrorView>,
    dst: Result<Seq<char>, ErrorView>,
    to: Seq<char>,
    overwrite: bool,
    taken: bool,
) -> Result<(Seq<char>, Seq<char>, MovePlan), ErrorView> {
    match src {
        Err(e) => Err(e),
        Ok(src) => match dst {
            Err(e) => Err(e),
            Ok(dst) => match move_plan(src, dst, taken, overwrite, to) {
                Err(e) => Err(e),
                Ok(plan) => Ok((src, dst, plan)),
            },
        },
    }
}

// ---------------------------------------------------------------------
// Laws
// ---------------------------------------------------------------------

proof fn lemma_no_odd(p: Seq<Part>, i: nat)
    requires
        first_odd(p, i) is None,
    ensures
        forall|j: int| i <= j < p.len() ==> (#[trigger] p[j]) is Normal,
    decreases p.len() - i,
{
    if i < p.len() {
        lemma_no_odd(p, i + 1);
    }
}

/// An accepted path leads below the corpus it is joined onto: to the category
/// that it begins with, and from there only down.
pub proof fn law_entry_stays_in_the_corpus(corpus: Seq<char>, rel: Seq<char>, access: EntryAccess)
    requires
        path_check(rel, access) is Ok,
    ensures
        path::is_within(path::joined(corpus, rel), corpus),
        path::parts(path::joined(corpus, rel)) == path::parts(corpus) + path::parts(rel),
        path::all_normal(path::parts(rel)),
        path::parts(rel).len() > 0,
        categories().contains(path::parts(rel)[0]->Normal_0),
{
    let p = path::parts(rel);
    lemma_no_odd(p, 0);
    path::lemma_parts_joined(corpus, rel);
    assert(path::parts(corpus) =~= (path::parts(corpus) + p).subrange(
        0,
        path::parts(corpus).len() as int,
    ));
}

/// A change that is accepted touches neither a transcript nor a category as a
/// whole.
pub proof fn law_transcripts_are_never_changed(rel: Seq<char>, access: EntryAccess)
    requires
        path_check(rel, access) is Ok,
        mutates(access),
    ensures
        path::parts(rel)[0] != Part::Normal("runs"@),
        path::parts(rel).len() > 1,
{
    lemma_no_odd(path::parts(rel), 0);
}

/// Whatever a name is joined onto a confined directory, the result is
/// confined: nothing in the tail of a destination can climb back out.
pub proof fn law_destination_stays_confined(
    root: Seq<char>,
    base: Seq<char>,
    tail: Seq<Seq<char>>,
)
    requires
        path::is_within(base, root),
        forall|i: int| 0 <= i < tail.len() ==> path::is_plain_name(#[trigger] tail[i]),
    ensures
        path::is_within(rejoined(base, tail), root),
    decreases tail.len(),
{
    if tail.len() > 0 {
        let next = path::joined(base, tail.last());
        assert(path::is_plain_name(tail[tail.len() - 1]));
        path::lemma_parts_join_name(base, tail.last());
        let r = path::parts(root);
        assert(r =~= path::parts(next).subrange(0, r.len() as int)) by {
            assert(r =~= path::parts(base).subrange(0, r.len() as int));
        }
        assert forall|i: int| 0 <= i < tail.drop_last().len() implies path::is_plain_name(
            #[trigger] tail.drop_last()[i],
        ) by {
            assert(path::is_plain_name(tail[i]));
        }
        law_destination_stays_confined(root, next, tail.drop_last());
    }
}

/// A path is reached from another by climbing: at each step of the way nothing
/// is there, not even a link.
pub open spec fn reached(disk: Map<Seq<char>, OnDisk>, from: Seq<char>, to: Seq<char>) -> bool
    decreases from.len(),
{
    from == to || (found_at(disk, from) is Absent && (path::parent_of(from) matches Some(up)
        && up.len() < from.len() && reached(disk, up, to)))
}

/// The deepest part of a destination that exists, where there is one.
spec fn base_of(disk: Map<Seq<char>, OnDisk>, existing: Seq<char>) -> Seq<char>
    decreases existing.len(),
{
    if found_at(disk, existing) is Absent {
        match path::parent_of(existing) {
            Some(up) => if up.len() < existing.len() {
                base_of(disk, up)
            } else {
                existing
            },
            None => existing,
        }
    } else {
        existing
    }
}

proof fn lemma_deepest(
    disk: Map<Seq<char>, OnDisk>,
    existing: Seq<char>,
    tail: Seq<Seq<char>>,
    rel: Seq<char>,
)
    requires
        deepest(disk, existing, tail, rel) is Ok,
        forall|i: int| 0 <= i < tail.len() ==> path::is_plain_name(#[trigger] tail[i]),
    ensures
        ({
            let (to, names) = deepest(disk, existing, tail, rel)->Ok_0;
            &&& reached(disk, existing, base_of(disk, existing))
            &&& found_at(disk, base_of(disk, existing)) == DiskView::At(to)
            &&& forall|i: int| 0 <= i < names.len() ==> path::is_plain_name(#[trigger] names[i])
        }),
    decreases existing.len(),
{
    if found_at(disk, existing) is Absent {
        path::lemma_file_name_is_plain(existing);
        let (parent, more) = climbed(existing, tail, rel)->Ok_0;
        assert forall|i: int| 0 <= i < more.len() implies path::is_plain_name(#[trigger] more[i]) by {
            if i < tail.len() {
                assert(more[i] == tail[i]);
            }
        }
        lemma_deepest(disk, parent, more, rel);
    }
}

/// Whatever links there are, an entry that is handed out lies inside the corpus
/// of its project with every link followed. What exists is handed out as the
/// path that it leads to. A destination is handed out as the path that its
/// deepest existing part leads to, which lies inside, with plain names below
/// it where nothing is, not even a link.
pub proof fn law_resolved_entries_are_confined(
    root: Seq<char>,
    project: Seq<char>,
    given: Seq<char>,
    access: EntryAccess,
    disk: Map<Seq<char>, OnDisk>,
)
    requires
        corpus_entry(root, project, given, access, disk) is Ok,
    ensures
        followed(disk, layout::corpus_path(root, project)) matches Ok(corpus) && {
            let entry = corpus_entry(root, project, given, access, disk)->Ok_0;
            let joined = path::joined(corpus, text::trimmed(given));
            &&& path::is_within(entry, corpus)
            &&& access != EntryAccess::Destination ==> found_at(disk, joined) == DiskView::At(entry)
            &&& access == EntryAccess::Destination ==> exists|
                base: Seq<char>,
                to: Seq<char>,
                names: Seq<Seq<char>>,
            |
                {
                    &&& #[trigger] reached(disk, joined, base)
                    &&& found_at(disk, base) == DiskView::At(to)
                    &&& path::is_within(to, corpus)
                    &&& forall|i: int| 0 <= i < names.len() ==> path::is_plain_name(names[i])
                    &&& entry == #[trigger] rejoined(to, names)
                }
        },
{
    let rel = text::trimmed(given);
    let corpus = followed(disk, layout::corpus_path(root, project))->Ok_0;
    let joined = path::joined(corpus, rel);
    if access == EntryAccess::Destination {
        lemma_deepest(disk, joined, Seq::empty(), rel);
        let (to, names) = deepest(disk, joined, Seq::empty(), rel)->Ok_0;
        let base = base_of(disk, joined);
        law_destination_stays_confined(corpus, to, names);
        assert(reached(disk, joined, base));
        assert(corpus_entry(root, project, given, access, disk)->Ok_0 == rejoined(to, names));
    }
}

/// A link that leads nowhere is refused, for reading, changing and writing
/// alike: what it names might appear later, and outside.
pub proof fn law_broken_links_are_refused(
    root: Seq<char>,
    project: Seq<char>,
    given: Seq<char>,
    access: EntryAccess,
    disk: Map<Seq<char>, OnDisk>,
    corpus: Seq<char>,
    link: Seq<char>,
)
    requires
        followed(disk, layout::corpus_path(root, project)) == Ok::<Seq<char>, Seq<char>>(corpus),
        reached(disk, path::joined(corpus, text::trimmed(given)), link),
        found_at(disk, link) is Broken,
    ensures
        corpus_entry(root, project, given, access, disk) is Err,
{
    let rel = text::trimmed(given);
    let joined = path::joined(corpus, rel);
    if access == EntryAccess::Destination {
        lemma_broken(disk, joined, Seq::empty(), rel, link);
    }
}

proof fn lemma_broken(
    disk: Map<Seq<char>, OnDisk>,
    existing: Seq<char>,
    tail: Seq<Seq<char>>,
    rel: Seq<char>,
    link: Seq<char>,
)
    requires
        reached(disk, existing, link),
        found_at(disk, link) is Broken,
    ensures
        deepest(disk, existing, tail, rel) is Err,
    decreases existing.len(),
{
    if existing != link {
        match climbed(existing, tail, rel) {
            Err(_) => {},
            Ok((parent, more)) => {
                lemma_broken(disk, parent, more, rel, link);
            },
        }
    }
}

/// The text of a path is checked first: one that is refused for its text is
/// refused whatever is on the disk, and for that reason.
pub proof fn law_text_is_checked_first(
    root: Seq<char>,
    project: Seq<char>,
    given: Seq<char>,
    access: EntryAccess,
    disk: Map<Seq<char>, OnDisk>,
)
    requires
        path_check(text::trimmed(given), access) is Err,
    ensures
        corpus_entry(root, project, given, access, disk) == Err::<Seq<char>, ErrorView>(
            path_check(text::trimmed(given), access)->Err_0,
        ),
{
}

} // verus!
