//! Fetching a source tree: the steps that bring one commit of a repository
//! into its place, and what each answer leads to. A tree is installed only
//! once its head was seen to be the commit that was asked for.
use vstd::prelude::*;
use crate::error::{Error, ErrorView};
use crate::path;
use crate::srcrev::revs;
use crate::text;

verus! {

/// A source tree that is asked for.
#[derive(Debug, PartialEq, Eq)]
pub struct SourceTree {
    /// The directory of all source trees.
    pub sources_dir: String,
    /// The source's name.
    pub name: String,
    /// The repository.
    pub repo: String,
    /// The revision that was picked.
    pub rev: String,
    /// The commit that it stands for.
    pub sha: String,
}

/// What a source tree that is asked for holds.
#[verifier::ext_equal]
pub struct TreeView {
    pub sources_dir: Seq<char>,
    pub name: Seq<char>,
    pub repo: Seq<char>,
    pub rev: Seq<char>,
    pub sha: Seq<char>,
}

impl View for SourceTree {
    type V = TreeView;

    open spec fn view(&self) -> TreeView {
        TreeView {
            sources_dir: self.sources_dir@,
            name: self.name@,
            repo: self.repo@,
            rev: self.rev@,
            sha: self.sha@,
        }
    }
}

/// Where a fetch stands: what was asked for last.
#[derive(Debug, Clone, Copy, PartialEq, Eq, Structural)]
pub enum FetchStage {
    /// The head of the tree in its place.
    Present,
    /// The staging directory.
    Staging,
    /// An empty repository in it.
    Init,
    /// The remote of that repository.
    Remote,
    /// The commit itself, by its id.
    Direct,
    /// A checkout of that commit.
    Checkout,
    /// The head after that.
    DirectHead,
    /// A clone at the revision.
    Clone,
    /// The head after that.
    CloneHead,
    /// The commit itself, into the clone of a revision that moved.
    Refetch,
    /// A checkout of that commit.
    Recheckout,
    /// The head after that.
    RecheckedHead,
    /// The head of a clone that could not be moved to the commit.
    MovedHead,
    /// The staged tree in its place.
    Install,
}

/// What was answered.
#[derive(Debug, PartialEq, Eq)]
pub enum FetchEvent {
    /// A step was done, or not.
    Did(bool),
    /// The head of a tree, if it has one.
    Head(Option<String>),
    /// The staged tree is in its place, or why not.
    Installed(Option<String>),
}

/// What was answered, as plain values.
pub enum EventView {
    Did(bool),
    Head(Option<Seq<char>>),
    Installed(Option<Seq<char>>),
}

impl View for FetchEvent {
    type V = EventView;

    open spec fn view(&self) -> EventView {
        match self {
            FetchEvent::Did(b) => EventView::Did(*b),
            FetchEvent::Head(h) => EventView::Head(text::opt_text(*h)),
            FetchEvent::Installed(e) => EventView::Installed(text::opt_text(*e)),
        }
    }
}

/// What to do next.
#[derive(Debug, PartialEq)]
pub enum FetchAction {
    /// Create the staging directory; answer whether that was done.
    MakeDir(String),
    /// Run git with these arguments; answer whether it succeeded.
    Git(Vec<String>),
    /// Read the head of this tree.
    ReadHead(String),
    /// Move the staged tree into its place.
    Install { staged: String, dest: String },
    /// The tree is there.
    Done(String),
    /// Remove the staged tree and give up.
    Fail(Error),
}

/// What to do next, as plain values.
pub enum ActionView {
    MakeDir(Seq<char>),
    Git(Seq<Seq<char>>),
    ReadHead(Seq<char>),
    Install { staged: Seq<char>, dest: Seq<char> },
    Done(Seq<char>),
    Fail(ErrorView),
}

impl View for FetchAction {
    type V = ActionView;

    open spec fn view(&self) -> ActionView {
        match self {
            FetchAction::MakeDir(d) => ActionView::MakeDir(d@),
            FetchAction::Git(args) => ActionView::Git(text::texts(args@)),
            FetchAction::ReadHead(t) => ActionView::ReadHead(t@),
            FetchAction::Install { staged, dest } => ActionView::Install {
                staged: staged@,
                dest: dest@,
            },
            FetchAction::Done(d) => ActionView::Done(d@),
            FetchAction::Fail(e) => ActionView::Fail(e@),
        }
    }
}

/// Where a tree belongs.
pub open spec fn tree_place(t: TreeView) -> Seq<char> {
    path::joined(path::joined(t.sources_dir, t.name), t.sha)
}

/// Where a tree is staged.
pub open spec fn tree_staging(t: TreeView) -> Seq<char> {
    path::joined(path::joined(t.sources_dir, t.name), ".fetch-"@ + t.sha)
}

/// The arguments that fetch a commit into the staged repository.
pub open spec fn fetch_args(t: TreeView) -> Seq<Seq<char>> {
    seq![
        "-C"@,
        tree_staging(t),
        "fetch"@,
        "--quiet"@,
        "--depth"@,
        "1"@,
        "origin"@,
        t.sha,
    ]
}

/// The arguments that check a commit out in the staged repository.
pub open spec fn checkout_args(t: TreeView) -> Seq<Seq<char>> {
    seq!["-C"@, tree_staging(t), "checkout"@, "--quiet"@, "--detach"@, t.sha]
}

/// What is asked for at a stage.
pub open spec fn asked(t: TreeView, stage: FetchStage) -> ActionView {
    let staged = tree_staging(t);
    match stage {
        FetchStage::Present => ActionView::ReadHead(tree_place(t)),
        FetchStage::Staging => ActionView::MakeDir(staged),
        FetchStage::Init => ActionView::Git(seq!["-C"@, staged, "init"@, "--quiet"@]),
        FetchStage::Remote => ActionView::Git(
            seq!["-C"@, staged, "remote"@, "add"@, "origin"@, revs::clone_url(t.repo)],
        ),
        FetchStage::Direct => ActionView::Git(fetch_args(t)),
        FetchStage::Checkout => ActionView::Git(checkout_args(t)),
        FetchStage::DirectHead => ActionView::ReadHead(staged),
        FetchStage::Clone => ActionView::Git(
            seq![
                "clone"@,
                "--quiet"@,
                "--depth"@,
                "1"@,
                "--branch"@,
                t.rev,
                revs::clone_url(t.repo),
                staged,
            ],
        ),
        FetchStage::CloneHead => ActionView::ReadHead(staged),
        FetchStage::Refetch => ActionView::Git(fetch_args(t)),
        FetchStage::Recheckout => ActionView::Git(checkout_args(t)),
        FetchStage::RecheckedHead => ActionView::ReadHead(staged),
        FetchStage::MovedHead => ActionView::ReadHead(staged),
        FetchStage::Install => ActionView::Install { staged, dest: tree_place(t) },
    }
}

/// How a fetch ends: with the tree, or with the reason there is none.
pub enum EndView {
    Done,
    Fail(ErrorView),
}

/// The error of a commit that could not be fetched.
pub open spec fn not_fetched(t: TreeView) -> ErrorView {
    ErrorView::Store(
        "fetch failed: "@ + t.repo + "@"@ + t.sha + " (network? sha not on the remote?)"@,
    )
}

/// The error of a revision that could not be cloned.
pub open spec fn not_cloned(t: TreeView) -> ErrorView {
    ErrorView::Store("clone failed: "@ + t.repo + "@"@ + t.rev + " (network? tag gone?)"@)
}

/// The error of a revision that moved while it was fetched.
pub open spec fn moved(t: TreeView, got: Option<Seq<char>>) -> ErrorView {
    ErrorView::Store(
        t.name + "@"@ + t.rev + " moved: expected "@ + t.sha + ", got "@ + (match got {
            Some(h) => h,
            None => "unknown"@,
        }) + ", and the sha itself is not fetchable — re-pick the rev"@,
    )
}

/// The error of a tree that could not be put in its place.
pub open spec fn not_installed(t: TreeView, why: Seq<char>) -> ErrorView {
    ErrorView::Store("install sources/"@ + t.name + "/"@ + t.sha + ": "@ + why)
}

/// The head that an answer gives; an answer of another kind gives none.
pub open spec fn head_of(event: EventView) -> Option<Seq<char>> {
    match event {
        EventView::Head(h) => h,
        _ => None,
    }
}

/// A step was done; an answer of another kind says it was not.
pub open spec fn was_done(event: EventView) -> bool {
    match event {
        EventView::Did(b) => b,
        _ => false,
    }
}

/// Where an answer leads: to the next stage, or to an end. A revision that is
/// a commit is fetched by its id; any other is cloned, and where it moved
/// since, the commit itself is fetched into the clone.
pub open spec fn led_to(t: TreeView, stage: FetchStage, event: EventView) -> Result<
    FetchStage,
    EndView,
> {
    let verified = head_of(event) == Some(t.sha);
    let done = was_done(event);
    match stage {
        FetchStage::Present => if verified {
            Err(EndView::Done)
        } else if revs::is_sha(t.rev) {
            Ok(FetchStage::Staging)
        } else {
            Ok(FetchStage::Clone)
        },
        FetchStage::Staging => if done {
            Ok(FetchStage::Init)
        } else {
            Err(EndView::Fail(not_fetched(t)))
        },
        FetchStage::Init => if done {
            Ok(FetchStage::Remote)
        } else {
            Err(EndView::Fail(not_fetched(t)))
        },
        FetchStage::Remote => if done {
            Ok(FetchStage::Direct)
        } else {
            Err(EndView::Fail(not_fetched(t)))
        },
        FetchStage::Direct => if done {
            Ok(FetchStage::Checkout)
        } else {
            Err(EndView::Fail(not_fetched(t)))
        },
        FetchStage::Checkout => if done {
            Ok(FetchStage::DirectHead)
        } else {
            Err(EndView::Fail(not_fetched(t)))
        },
        FetchStage::DirectHead => if verified {
            Ok(FetchStage::Install)
        } else {
            Err(EndView::Fail(not_fetched(t)))
        },
        FetchStage::Clone => if done {
            Ok(FetchStage::CloneHead)
        } else {
            Err(EndView::Fail(not_cloned(t)))
        },
        FetchStage::CloneHead => if verified {
            Ok(FetchStage::Install)
        } else {
            Ok(FetchStage::Refetch)
        },
        FetchStage::Refetch => if done {
            Ok(FetchStage::Recheckout)
        } else {
            Ok(FetchStage::MovedHead)
        },
        FetchStage::Recheckout => if done {
            Ok(FetchStage::RecheckedHead)
        } else {
            Ok(FetchStage::MovedHead)
        },
        FetchStage::RecheckedHead => if verified {
            Ok(FetchStage::Install)
        } else {
            Err(EndView::Fail(moved(t, head_of(event))))
        },
        FetchStage::MovedHead => Err(EndView::Fail(moved(t, head_of(event)))),
        FetchStage::Install => match event {
            EventView::Installed(None) => Err(EndView::Done),
            EventView::Installed(Some(why)) => Err(EndView::Fail(not_installed(t, why))),
            _ => Err(EndView::Fail(not_installed(t, "no answer"@))),
        },
    }
}

/// What to do after an answer.
pub open spec fn fetch_step(t: TreeView, stage: FetchStage, event: EventView) -> (
    FetchStage,
    ActionView,
) {
    match led_to(t, stage, event) {
        Ok(next) => (next, asked(t, next)),
        Err(EndView::Done) => (stage, ActionView::Done(tree_place(t))),
        Err(EndView::Fail(e)) => (stage, ActionView::Fail(e)),
    }
}

/// Does `head` say that the tree is at the commit `sha`?
fn is_at(head: &Option<String>, sha: &str) -> (r: bool)
    ensures
        r == (text::opt_text(*head) == Some(sha@)),
{
    match head {
        Some(h) => text::same(h.as_str(), sha),
        None => false,
    }
}

/// An argument list of at most four words.
fn args4(a: &str, b: &str, c: &str, d: &str) -> (r: Vec<String>)
    ensures
        text::texts(r@) == seq![a@, b@, c@, d@],
{
    let mut out: Vec<String> = Vec::new();
    out.push(a.to_owned());
    out.push(b.to_owned());
    out.push(c.to_owned());
    out.push(d.to_owned());
    assert(text::texts(out@) =~= seq![a@, b@, c@, d@]);
    out
}

impl SourceTree {
    /// Where the tree belongs.
    pub fn place(&self) -> (r: String)
        ensures
            r@ == tree_place(self@),
    {
        path::join(
            path::join(self.sources_dir.as_str(), self.name.as_str()).as_str(),
            self.sha.as_str(),
        )
    }

    /// Where the tree is staged.
    pub fn staging(&self) -> (r: String)
        ensures
            r@ == tree_staging(self@),
    {
        path::join(
            path::join(self.sources_dir.as_str(), self.name.as_str()).as_str(),
            text::cat2(".fetch-", self.sha.as_str()).as_str(),
        )
    }

    /// The arguments that fetch the commit into the staged repository.
    fn fetch_words(&self) -> (r: Vec<String>)
        ensures
            text::texts(r@) == fetch_args(self@),
    {
        let mut args = args4("-C", self.staging().as_str(), "fetch", "--quiet");
        let ghost was = text::texts(args@);
        let mut more = args4("--depth", "1", "origin", self.sha.as_str());
        let ghost added = text::texts(more@);
        args.append(&mut more);
        assert(text::texts(args@) =~= was + added);
        assert(text::texts(args@) =~= fetch_args(self@));
        args
    }

    /// The arguments that check the commit out in the staged repository.
    fn checkout_words(&self) -> (r: Vec<String>)
        ensures
            text::texts(r@) == checkout_args(self@),
    {
        let mut args = args4("-C", self.staging().as_str(), "checkout", "--quiet");
        let ghost was = text::texts(args@);
        args.push("--detach".to_owned());
        args.push(self.sha.clone());
        assert(text::texts(args@) =~= was.push("--detach"@).push(self.sha@));
        assert(text::texts(args@) =~= checkout_args(self@));
        args
    }

    /// What is asked for at a stage.
    pub fn ask(&self, stage: FetchStage) -> (r: FetchAction)
        ensures
            r@ == asked(self@, stage),
    {
        let staged = self.staging();
        match stage {
            FetchStage::Present => FetchAction::ReadHead(self.place()),
            FetchStage::Staging => FetchAction::MakeDir(staged),
            FetchStage::Init => FetchAction::Git(args4("-C", staged.as_str(), "init", "--quiet")),
            FetchStage::Remote => {
                let mut args = args4("-C", staged.as_str(), "remote", "add");
                let ghost was = text::texts(args@);
                args.push("origin".to_owned());
                let url = revs::remote_url(self.repo.as_str());
                args.push(url);
                assert(text::texts(args@) =~= was.push("origin"@).push(url@));
                assert(text::texts(args@) =~= seq![
                    "-C"@,
                    staged@,
                    "remote"@,
                    "add"@,
                    "origin"@,
                    revs::clone_url(self.repo@),
                ]);
                FetchAction::Git(args)
            },
            FetchStage::Direct => FetchAction::Git(self.fetch_words()),
            FetchStage::Checkout => FetchAction::Git(self.checkout_words()),
            FetchStage::DirectHead => FetchAction::ReadHead(staged),
            FetchStage::Clone => {
                let mut args = args4("clone", "--quiet", "--depth", "1");
                let ghost was = text::texts(args@);
                let mut more = args4(
                    "--branch",
                    self.rev.as_str(),
                    revs::remote_url(self.repo.as_str()).as_str(),
                    staged.as_str(),
                );
                let ghost added = text::texts(more@);
                args.append(&mut more);
                assert(text::texts(args@) =~= was + added);
                assert(text::texts(args@) =~= seq![
                    "clone"@,
                    "--quiet"@,
                    "--depth"@,
                    "1"@,
                    "--branch"@,
                    self.rev@,
                    revs::clone_url(self.repo@),
                    staged@,
                ]);
                FetchAction::Git(args)
            },
            FetchStage::CloneHead => FetchAction::ReadHead(staged),
            FetchStage::Refetch => FetchAction::Git(self.fetch_words()),
            FetchStage::Recheckout => FetchAction::Git(self.checkout_words()),
            FetchStage::RecheckedHead => FetchAction::ReadHead(staged),
            FetchStage::MovedHead => FetchAction::ReadHead(staged),
            FetchStage::Install => FetchAction::Install { staged, dest: self.place() },
        }
    }

    /// The error of a commit that could not be fetched.
    fn fetch_error(&self) -> (r: FetchAction)
        ensures
            r@ == ActionView::Fail(not_fetched(self@)),
    {
        FetchAction::Fail(
            Error::Store(
                text::cat5(
                    "fetch failed: ",
                    self.repo.as_str(),
                    "@",
                    self.sha.as_str(),
                    " (network? sha not on the remote?)",
                ),
            ),
        )
    }

    /// The error of a revision that moved.
    fn moved_error(&self, head: Option<String>) -> (r: FetchAction)
        ensures
            r@ == ActionView::Fail(moved(self@, text::opt_text(head))),
    {
        let got = match head {
            Some(h) => h,
            None => "unknown".to_owned(),
        };
        let start = text::cat4(
            self.name.as_str(),
            "@",
            self.rev.as_str(),
            " moved: expected ",
        );
        FetchAction::Fail(
            Error::Store(
                text::cat5(
                    start.as_str(),
                    self.sha.as_str(),
                    ", got ",
                    got.as_str(),
                    ", and the sha itself is not fetchable — re-pick the rev",
                ),
            ),
        )
    }

    /// The error of a tree that could not be put in its place.
    fn install_error(&self, why: &str) -> (r: FetchAction)
        ensures
            r@ == ActionView::Fail(not_installed(self@, why@)),
    {
        FetchAction::Fail(
            Error::Store(
                text::cat6(
                    "install sources/",
                    self.name.as_str(),
                    "/",
                    self.sha.as_str(),
                    ": ",
                    why,
                ),
            ),
        )
    }

    /// The next stage where a step was done, and giving up where it was not.
    fn go_on(&self, stage: FetchStage, next: FetchStage, done: bool) -> (r: (FetchStage, FetchAction))
        ensures
            (r.0, r.1@) == (if done {
                (next, asked(self@, next))
            } else {
                (stage, ActionView::Fail(not_fetched(self@)))
            }),
    {
        if done {
            (next, self.ask(next))
        } else {
            (stage, self.fetch_error())
        }
    }

    /// What to do after the answer `event` at a stage. A fetch begins by
    /// asking what it asks at [`FetchStage::Present`].
    pub fn next(&self, stage: FetchStage, event: FetchEvent) -> (r: (FetchStage, FetchAction))
        ensures
            (r.0, r.1@) == fetch_step(self@, stage, event@),
    {
        let done = match &event {
            FetchEvent::Did(b) => *b,
            _ => false,
        };
        let verified = match &event {
            FetchEvent::Head(h) => is_at(h, self.sha.as_str()),
            _ => false,
        };
        match stage {
            FetchStage::Present => if verified {
                (stage, FetchAction::Done(self.place()))
            } else if revs::is_commit_sha(self.rev.as_str()) {
                (FetchStage::Staging, self.ask(FetchStage::Staging))
            } else {
                (FetchStage::Clone, self.ask(FetchStage::Clone))
            },
            FetchStage::Staging => self.go_on(stage, FetchStage::Init, done),
            FetchStage::Init => self.go_on(stage, FetchStage::Remote, done),
            FetchStage::Remote => self.go_on(stage, FetchStage::Direct, done),
            FetchStage::Direct => self.go_on(stage, FetchStage::Checkout, done),
            FetchStage::Checkout => self.go_on(stage, FetchStage::DirectHead, done),
            FetchStage::DirectHead => self.go_on(stage, FetchStage::Install, verified),
            FetchStage::Clone => if done {
                (FetchStage::CloneHead, self.ask(FetchStage::CloneHead))
            } else {
                (
                    stage,
                    FetchAction::Fail(
                        Error::Store(
                            text::cat5(
                                "clone failed: ",
                                self.repo.as_str(),
                                "@",
                                self.rev.as_str(),
                                " (network? tag gone?)",
                            ),
                        ),
                    ),
                )
            },
            FetchStage::CloneHead => {
                let next = if verified {
                    FetchStage::Install
                } else {
                    FetchStage::Refetch
                };
                (next, self.ask(next))
            },
            FetchStage::Refetch => {
                let next = if done {
                    FetchStage::Recheckout
                } else {
                    FetchStage::MovedHead
                };
                (next, self.ask(next))
            },
            FetchStage::Recheckout => {
                let next = if done {
                    FetchStage::RecheckedHead
                } else {
                    FetchStage::MovedHead
                };
                (next, self.ask(next))
            },
            FetchStage::RecheckedHead => if verified {
                (FetchStage::Install, self.ask(FetchStage::Install))
            } else {
                match event {
                    FetchEvent::Head(h) => (stage, self.moved_error(h)),
                    _ => (stage, self.moved_error(None)),
                }
            },
            FetchStage::MovedHead => match event {
                FetchEvent::Head(h) => (stage, self.moved_error(h)),
                _ => (stage, self.moved_error(None)),
            },
            FetchStage::Install => match event {
                FetchEvent::Installed(None) => (stage, FetchAction::Done(self.place())),
                FetchEvent::Installed(Some(why)) => (stage, self.install_error(why.as_str())),
                _ => (stage, self.install_error("no answer")),
            },
        }
    }
}

// ---------------------------------------------------------------------
// Laws
// ---------------------------------------------------------------------

/// Only a verified tree is used: one is put in its place only after its head
/// was read as the commit that was asked for, and a fetch is done only with a
/// tree whose head was read as that commit or one that was just installed.
pub proof fn law_only_verified_trees_are_used(t: TreeView, stage: FetchStage, event: EventView)
    ensures
        fetch_step(t, stage, event).1 is Install ==> head_of(event) == Some(t.sha),
        fetch_step(t, stage, event).1 is Done ==> {
            ||| stage == FetchStage::Present && head_of(event) == Some(t.sha)
            ||| stage == FetchStage::Install && event == EventView::Installed(None)
        },
        fetch_step(t, stage, event).1 matches ActionView::Done(d) ==> d == tree_place(t),
{
}

/// How many answers a fetch takes at most from a stage on.
pub open spec fn steps_left(stage: FetchStage) -> nat {
    match stage {
        FetchStage::Present => 8,
        FetchStage::Staging => 7,
        FetchStage::Init => 6,
        FetchStage::Remote => 5,
        FetchStage::Direct => 4,
        FetchStage::Checkout => 3,
        FetchStage::DirectHead => 2,
        FetchStage::Clone => 6,
        FetchStage::CloneHead => 5,
        FetchStage::Refetch => 4,
        FetchStage::Recheckout => 3,
        FetchStage::RecheckedHead => 2,
        FetchStage::MovedHead => 1,
        FetchStage::Install => 1,
    }
}

/// A fetch ends: every answer that does not end it brings it closer to its
/// end.
pub proof fn law_fetch_ends(t: TreeView, stage: FetchStage, event: EventView)
    ensures
        led_to(t, stage, event) matches Ok(next) ==> steps_left(next) < steps_left(stage),
{
}

/// A revision that is itself a commit is fetched by its id into a tree of its
/// own; any other is cloned by its name.
pub proof fn law_commits_are_fetched_by_id(t: TreeView, event: EventView)
    requires
        head_of(event) != Some(t.sha),
    ensures
        revs::is_sha(t.rev) ==> led_to(t, FetchStage::Present, event) == Ok::<FetchStage, EndView>(
            FetchStage::Staging,
        ),
        !revs::is_sha(t.rev) ==> led_to(t, FetchStage::Present, event) == Ok::<FetchStage, EndView>(
            FetchStage::Clone,
        ),
{
}

} // verus!
