//! Source revisions: what a remote lists, what a picker offers, and what a
//! label resolves to.
use vstd::prelude::*;
use crate::error;
use crate::error::{Error, ErrorView};
use crate::path;
use crate::table;
use crate::table::Table;
use crate::text;
use crate::text::Runs;

verus! {

/// How long a remote's list of revisions is trusted, in seconds.
pub const REV_CACHE_TTL_SECS: u64 = 86400;

/// A revision is a full commit id: forty lower-case hexadecimal digits.
pub open spec fn is_sha(rev: Seq<char>) -> bool {
    rev.len() == 40 && forall|i: int| 0 <= i < rev.len() ==> text::is_hex(#[trigger] rev[i])
}

/// Is `rev` a full commit id? Such a revision needs no resolution; an
/// abbreviated one is ambiguous and cannot be fetched.
pub fn is_commit_sha(rev: &str) -> (r: bool)
    ensures
        r == is_sha(rev@),
{
    let v = text::chars_of(rev);
    if v.len() != 40 {
        return false;
    }
    let mut i: usize = 0;
    while i < v.len()
        invariant
            i <= v@.len(),
            v@ == rev@,
            forall|j: int| 0 <= j < i ==> text::is_hex(#[trigger] v@[j]),
        decreases v@.len() - i,
    {
        if !text::hex_char(v[i]) {
            return false;
        }
        i = i + 1;
    }
    true
}

/// Where a repository is cloned from: a name with a scheme or a path is used
/// as it is, and a short one is on GitHub.
pub open spec fn clone_url(repo: Seq<char>) -> Seq<char> {
    if text::contains(repo, "://"@) || "/"@.is_prefix_of(repo) || "."@.is_prefix_of(repo) {
        repo
    } else {
        "https://github.com/"@ + repo + ".git"@
    }
}

/// Where the repository `repo` is cloned from.
pub fn remote_url(repo: &str) -> (r: String)
    ensures
        r@ == clone_url(repo@),
{
    if text::has(repo, "://") || text::starts_with(repo, "/") || text::starts_with(repo, ".") {
        repo.to_owned()
    } else {
        text::cat3("https://github.com/", repo, ".git")
    }
}

// ---------------------------------------------------------------------
// Listings
// ---------------------------------------------------------------------

/// Revision labels and the commits they point at.
pub type Refs = Map<Seq<char>, Seq<char>>;

/// A line of a listing: a commit and a reference; none where there are fewer
/// than two words.
pub open spec fn listed_ref(line: Seq<char>) -> Option<(Seq<char>, Seq<char>)> {
    let words = text::runs(line, Runs::Words);
    if words.len() < 2 {
        None
    } else {
        Some((words[0], words[1]))
    }
}

/// What one line adds: a tag unless it is known already, the commit behind an
/// annotated tag in any case, and the head of a main branch.
pub open spec fn with_ref(refs: Refs, line: Seq<char>) -> Refs {
    match listed_ref(line) {
        None => refs,
        Some((sha, reference)) => match text::without_prefix(reference, "refs/tags/"@) {
            Some(tag) => match text::without_suffix(tag, "^{}"@) {
                Some(peeled) => refs.insert(peeled, sha),
                None => if refs.dom().contains(tag) {
                    refs
                } else {
                    refs.insert(tag, sha)
                },
            },
            None => if reference == "refs/heads/main"@ {
                refs.insert("main"@, sha)
            } else if reference == "refs/heads/master"@ {
                refs.insert("master"@, sha)
            } else {
                refs
            },
        },
    }
}

/// What the first `n` lines of a listing come to.
pub open spec fn refs_of(lines: Seq<Seq<char>>, n: nat) -> Refs
    decreases n,
{
    if n == 0 {
        Map::empty()
    } else {
        with_ref(refs_of(lines, (n - 1) as nat), lines[n - 1])
    }
}

/// Add what one line of a listing says.
fn take_ref(refs: &mut Table<String>, line: &str)
    ensures
        table::text_values(final(refs)@) == with_ref(table::text_values(old(refs)@), line@),
{
    let words = text::split_runs(line, Runs::Words);
    assert(text::texts(words@).len() == words@.len());
    if words.len() < 2 {
        return;
    }
    assert(text::texts(words@)[0] == words@[0]@ && text::texts(words@)[1] == words@[1]@);
    let sha = words[0].as_str();
    let reference = words[1].as_str();
    assert(table::text_values(refs@).dom() =~= refs@.dom());
    match text::strip_prefix(reference, "refs/tags/") {
        Some(tag) => match text::strip_suffix(tag.as_str(), "^{}") {
            Some(peeled) => {
                table::put_text(refs, peeled.as_str(), sha);
            },
            None => {
                if !refs.contains_key(tag.as_str()) {
                    table::put_text(refs, tag.as_str(), sha);
                }
            },
        },
        None => {
            if text::same(reference, "refs/heads/main") {
                table::put_text(refs, "main", sha);
            } else if text::same(reference, "refs/heads/master") {
                table::put_text(refs, "master", sha);
            }
        },
    }
}

/// The revisions that a remote's listing of tags and heads names.
pub fn parse_refs(listing: &str) -> (r: Table<String>)
    ensures
        table::text_values(r@) == refs_of(text::lines(listing@), text::lines(listing@).len()),
{
    let lines = text::split_lines(listing);
    let ghost all = text::texts(lines@);
    let mut refs: Table<String> = Table::new();
    let mut i: usize = 0;
    assert(table::text_values(refs@) =~= Map::empty());
    while i < lines.len()
        invariant
            i <= lines@.len(),
            all == text::texts(lines@),
            table::text_values(refs@) == refs_of(all, i as nat),
        decreases lines@.len() - i,
    {
        assert(all[i as int] == lines@[i as int]@);
        take_ref(&mut refs, lines[i].as_str());
        i = i + 1;
    }
    assert(all.len() == lines@.len());
    refs
}

// ---------------------------------------------------------------------
// The cache
// ---------------------------------------------------------------------

/// A remote's revisions as they were last listed.
#[derive(Debug, PartialEq)]
pub struct RevCache {
    /// Epoch seconds of the listing.
    pub fetched: u64,
    /// Labels and the commits they point at.
    pub refs: Table<String>,
}

/// What a cache of revisions holds.
#[verifier::ext_equal]
pub struct CacheView {
    pub fetched: u64,
    pub refs: Refs,
}

impl View for RevCache {
    type V = CacheView;

    open spec fn view(&self) -> CacheView {
        CacheView { fetched: self.fetched, refs: table::text_values(self.refs@) }
    }
}

/// What an optional cache holds.
pub open spec fn opt_cache(cache: Option<RevCache>) -> Option<CacheView> {
    match cache {
        Some(c) => Some(c@),
        None => None,
    }
}

/// The file of a source's cache.
pub fn cache_path(sources_dir: &str, name: &str) -> (r: String)
    ensures
        r@ == path::joined(path::joined(sources_dir@, ".rev-cache"@), name@ + ".json"@),
{
    path::join(path::join(sources_dir, ".rev-cache").as_str(), text::cat2(name, ".json").as_str())
}

/// When a source's revisions were last listed.
pub fn revs_cache_fetched(cache: &Option<RevCache>) -> (r: Option<u64>)
    ensures
        r == (match *cache {
            Some(c) => Some(c.fetched),
            None => None,
        }),
{
    match cache {
        Some(c) => Some(c.fetched),
        None => None,
    }
}

/// There is a revision at all.
pub open spec fn has_refs(refs: Refs) -> bool {
    exists|k: Seq<char>| #[trigger] refs.dom().contains(k)
}

/// Is there a revision at all?
fn any_refs(refs: &Table<String>) -> (r: bool)
    ensures
        r == has_refs(table::text_values(refs@)),
{
    let n: usize = refs.len();
    proof {
        let names = table::in_order(refs@.dom());
        let values = table::text_values(refs@);
        assert(values.dom() =~= refs@.dom());
        if n > 0 {
            assert(names.contains(names[0]));
            assert(values.dom().contains(names[0]));
        } else if has_refs(values) {
            let k = choose|k: Seq<char>| #[trigger] values.dom().contains(k);
            assert(names.contains(k));
        }
    }
    n > 0
}

/// A cache is young enough to be used without asking the remote, and holds
/// something. A time before the listing counts as none passed.
pub open spec fn is_fresh(cache: Option<CacheView>, now: u64) -> bool {
    match cache {
        Some(c) => now - c.fetched < REV_CACHE_TTL_SECS && has_refs(c.refs),
        None => false,
    }
}

/// Is the cache young enough to be used without asking the remote?
pub fn cache_is_fresh(cache: &Option<RevCache>, now: u64) -> (r: bool)
    ensures
        r == is_fresh(opt_cache(*cache), now),
{
    match cache {
        Some(c) => {
            any_refs(&c.refs) && (now < c.fetched || now - c.fetched < REV_CACHE_TTL_SECS)
        },
        None => false,
    }
}

/// The revisions to use, and the cache to keep, if it changed.
#[verifier::ext_equal]
pub struct ChoiceView {
    pub refs: Option<Refs>,
    pub keep: Option<CacheView>,
}

/// Revisions that hold something.
pub open spec fn some_refs(refs: Refs) -> Option<Refs> {
    if has_refs(refs) {
        Some(refs)
    } else {
        None
    }
}

/// What to use of a cache and a remote's answer, which is none where the
/// remote was not asked or did not answer: a fresh cache, else what the
/// remote lists, else a stale cache.
pub open spec fn chosen_refs(
    cache: Option<CacheView>,
    remote: Option<Refs>,
    now: u64,
) -> ChoiceView {
    if is_fresh(cache, now) {
        ChoiceView { refs: Some(cache->Some_0.refs), keep: None }
    } else {
        match remote {
            Some(refs) if has_refs(refs) => ChoiceView {
                refs: Some(refs),
                keep: Some(CacheView { fetched: now, refs }),
            },
            _ => ChoiceView {
                refs: match cache {
                    Some(c) => some_refs(c.refs),
                    None => None,
                },
                keep: None,
            },
        }
    }
}

/// The revisions to use, and the cache to keep, if it changed.
#[derive(Debug, PartialEq)]
pub struct RefsChoice {
    pub refs: Option<Table<String>>,
    pub keep: Option<RevCache>,
}

/// What optional revisions hold.
pub open spec fn opt_refs(refs: Option<Table<String>>) -> Option<Refs> {
    match refs {
        Some(t) => Some(table::text_values(t@)),
        None => None,
    }
}

impl View for RefsChoice {
    type V = ChoiceView;

    open spec fn view(&self) -> ChoiceView {
        ChoiceView { refs: opt_refs(self.refs), keep: opt_cache(self.keep) }
    }
}

/// Choose between a cache and a remote's answer.
pub fn cached_refs(cache: Option<RevCache>, remote: Option<Table<String>>, now: u64) -> (r:
    RefsChoice)
    ensures
        r@ == chosen_refs(opt_cache(cache), opt_refs(remote), now),
{
    if cache_is_fresh(&cache, now) {
        return match cache {
            Some(c) => RefsChoice { refs: Some(c.refs), keep: None },
            None => RefsChoice { refs: None, keep: None },
        };
    }
    match remote {
        Some(refs) => {
            if any_refs(&refs) {
                let kept = table::copy_texts(&refs);
                return RefsChoice {
                    refs: Some(refs),
                    keep: Some(RevCache { fetched: now, refs: kept }),
                };
            }
        },
        None => {},
    }
    match cache {
        Some(c) => {
            if any_refs(&c.refs) {
                RefsChoice { refs: Some(c.refs), keep: None }
            } else {
                RefsChoice { refs: None, keep: None }
            }
        },
        None => RefsChoice { refs: None, keep: None },
    }
}

// ---------------------------------------------------------------------
// Selection
// ---------------------------------------------------------------------

/// The numbers of the runs of digits, of the first `n`, that a `u64` holds.
pub open spec fn numbers(runs: Seq<Seq<char>>, n: nat) -> Seq<u64>
    decreases n,
{
    if n == 0 {
        Seq::empty()
    } else {
        let before = numbers(runs, (n - 1) as nat);
        match text::parsed_u64(runs[n - 1]) {
            Some(v) => before.push(v),
            None => before,
        }
    }
}

/// The version that a label names: its runs of digits, as numbers.
pub open spec fn version_of(rev: Seq<char>) -> Seq<u64> {
    let runs = text::runs(rev, Runs::Digits);
    numbers(runs, runs.len())
}

/// The version that the label `rev` names.
fn version_key(rev: &str) -> (r: Vec<u64>)
    ensures
        r@ == version_of(rev@),
{
    let runs = text::split_runs(rev, Runs::Digits);
    let ghost all = text::texts(runs@);
    let mut out: Vec<u64> = Vec::new();
    let mut i: usize = 0;
    while i < runs.len()
        invariant
            i <= runs@.len(),
            all == text::texts(runs@),
            out@ == numbers(all, i as nat),
        decreases runs@.len() - i,
    {
        assert(all[i as int] == runs@[i as int]@);
        match text::parse_u64(runs[i].as_str()) {
            Some(v) => {
                out.push(v);
            },
            None => {},
        }
        i = i + 1;
    }
    assert(all.len() == runs@.len());
    out
}

/// A version is before another: number by number, and a prefix is before
/// what it begins.
pub open spec fn older(a: Seq<u64>, b: Seq<u64>) -> bool
    decreases a.len(),
{
    if b.len() == 0 {
        false
    } else if a.len() == 0 {
        true
    } else if a[0] != b[0] {
        a[0] < b[0]
    } else {
        older(a.skip(1), b.skip(1))
    }
}

/// Is the version `a` before `b`?
fn is_older(a: &Vec<u64>, b: &Vec<u64>) -> (r: bool)
    ensures
        r == older(a@, b@),
{
    let mut i: usize = 0;
    assert(a@.skip(0) =~= a@ && b@.skip(0) =~= b@);
    while i < a.len() && i < b.len()
        invariant
            i <= a@.len(),
            i <= b@.len(),
            older(a@, b@) == older(a@.skip(i as int), b@.skip(i as int)),
        decreases a@.len() - i,
    {
        if a[i] != b[i] {
            return a[i] < b[i];
        }
        assert(a@.skip(i as int).skip(1) =~= a@.skip(i + 1));
        assert(b@.skip(i as int).skip(1) =~= b@.skip(i + 1));
        i = i + 1;
    }
    i < b.len()
}

/// Are the versions the same?
fn same_version(a: &Vec<u64>, b: &Vec<u64>) -> (r: bool)
    ensures
        r == (a@ == b@),
{
    if a.len() != b.len() {
        return false;
    }
    let mut i: usize = 0;
    while i < a.len()
        invariant
            i <= a@.len(),
            a@.len() == b@.len(),
            forall|j: int| 0 <= j < i ==> a@[j] == b@[j],
        decreases a@.len() - i,
    {
        if a[i] != b[i] {
            return false;
        }
        i = i + 1;
    }
    assert(a@ =~= b@);
    true
}

/// What follows the last digit of a label; all of it where it has none.
pub open spec fn tail_of(rev: Seq<char>) -> Seq<char>
    decreases rev.len(),
{
    if rev.len() == 0 || text::is_digit(rev.last()) {
        Seq::empty()
    } else {
        tail_of(rev.drop_last()).push(rev.last())
    }
}

/// What follows the last digit of the label `rev`.
fn tail_key(rev: &str) -> (r: String)
    ensures
        r@ == tail_of(rev@),
{
    let v = text::chars_of(rev);
    let mut at: usize = v.len();
    let ghost whole = tail_of(rev@);
    assert(v@.take(at as int) =~= v@);
    assert(v@.skip(at as int) =~= Seq::<char>::empty());
    assert(whole =~= tail_of(v@.take(at as int)) + v@.skip(at as int));
    while at > 0 && !text::digit(v[at - 1])
        invariant
            at <= v@.len(),
            whole == tail_of(v@.take(at as int)) + v@.skip(at as int),
        decreases at,
    {
        let ghost here = v@.take(at as int);
        at = at - 1;
        proof {
            assert(here.drop_last() =~= v@.take(at as int));
            assert(here.last() == v@[at as int]);
            assert(tail_of(here) + v@.skip(at + 1) =~= tail_of(v@.take(at as int)) + v@.skip(
                at as int,
            ));
        }
    }
    proof {
        let here = v@.take(at as int);
        if at > 0 {
            assert(here.last() == v@[at - 1]);
        }
        assert(tail_of(here) =~= Seq::<char>::empty());
        assert(whole =~= v@.skip(at as int));
    }
    let out = text::text_of(v.as_slice(), at, v.len());
    assert(out@ =~= v@.skip(at as int));
    out
}

/// A label is before another: its version is, or what follows its version
/// where the versions are the same.
pub open spec fn rev_older(a: Seq<char>, b: Seq<char>) -> bool {
    older(version_of(a), version_of(b)) || (version_of(a) == version_of(b) && table::precedes(
        tail_of(a),
        tail_of(b),
    ))
}

/// Where a label goes among labels that are newest first: before the first,
/// from the `i`-th on, that is before it.
pub open spec fn rev_place(v: Seq<Seq<char>>, rev: Seq<char>, i: nat) -> nat
    decreases v.len() - i,
{
    if i >= v.len() || rev_older(v[i as int], rev) {
        i
    } else {
        rev_place(v, rev, i + 1)
    }
}

/// The first `n` labels, newest first; labels of which neither is before the
/// other stay in their order.
pub open spec fn newest_first(v: Seq<Seq<char>>, n: nat) -> Seq<Seq<char>>
    decreases n,
{
    if n == 0 {
        Seq::empty()
    } else {
        let before = newest_first(v, (n - 1) as nat);
        before.insert(rev_place(before, v[n - 1], 0) as int, v[n - 1])
    }
}

/// Put the label `rev` among labels that are newest first.
fn place_rev(out: &mut Vec<String>, rev: String)
    ensures
        text::texts(final(out)@) == text::texts(old(out)@).insert(
            rev_place(text::texts(old(out)@), rev@, 0) as int,
            rev@,
        ),
{
    let ghost was = text::texts(out@);
    let key = version_key(rev.as_str());
    let tail = tail_key(rev.as_str());
    let mut at: usize = 0;
    while at < out.len()
        invariant_except_break
            at <= out@.len(),
            was == text::texts(out@),
            key@ == version_of(rev@),
            tail@ == tail_of(rev@),
            rev_place(was, rev@, 0) == rev_place(was, rev@, at as nat),
        ensures
            at <= out@.len(),
            was == text::texts(out@),
            at == rev_place(was, rev@, 0),
        decreases out@.len() - at,
    {
        assert(was[at as int] == out@[at as int]@);
        let other = version_key(out[at].as_str());
        if is_older(&other, &key) {
            break;
        }
        if same_version(&other, &key) && table::before(
            tail_key(out[at].as_str()).as_str(),
            tail.as_str(),
        ) {
            break;
        }
        at = at + 1;
    }
    out.insert(at, rev);
    assert(text::texts(out@) =~= was.insert(at as int, rev@));
}

/// A label is a main branch.
pub open spec fn is_branch(rev: Seq<char>) -> bool {
    rev == "main"@ || rev == "master"@
}

/// Is `rev` a main branch?
pub fn branch(rev: &str) -> (r: bool)
    ensures
        r == is_branch(rev@),
{
    text::same(rev, "main") || text::same(rev, "master")
}

/// The labels, of the first `n`, that are no main branch.
pub open spec fn tags(names: Seq<Seq<char>>, n: nat) -> Seq<Seq<char>>
    decreases n,
{
    if n == 0 {
        Seq::empty()
    } else {
        let before = tags(names, (n - 1) as nat);
        if is_branch(names[n - 1]) {
            before
        } else {
            before.push(names[n - 1])
        }
    }
}

/// The labels, of the first `n`, other than one.
pub open spec fn others(names: Seq<Seq<char>>, n: nat, rev: Seq<char>) -> Seq<Seq<char>>
    decreases n,
{
    if n == 0 {
        Seq::empty()
    } else {
        let before = others(names, (n - 1) as nat, rev);
        if names[n - 1] == rev {
            before
        } else {
            before.push(names[n - 1])
        }
    }
}

/// The tags of a remote, newest first.
pub open spec fn tags_newest_first(refs: Refs) -> Seq<Seq<char>> {
    let names = table::in_order(refs.dom());
    let found = tags(names, names.len());
    newest_first(found, found.len())
}

/// The main branch that leads a picker, if the remote has one.
pub open spec fn leading(refs: Refs) -> Seq<Seq<char>> {
    if refs.dom().contains("main"@) {
        seq!["main"@]
    } else if refs.dom().contains("master"@) {
        seq!["master"@]
    } else {
        Seq::empty()
    }
}

/// The revisions that a picker offers, the default first: a main branch whose
/// commit is known, then the manifest's pin, then the other tags newest
/// first. Where nothing is known the pin leads, for a default must resolve
/// without the network.
pub open spec fn selectable(refs: Option<Refs>, pinned: Seq<char>) -> Seq<Seq<char>> {
    match refs {
        None => if pinned == "main"@ {
            seq![pinned]
        } else {
            seq![pinned, "main"@]
        },
        Some(refs) => {
            let head = if leading(refs).contains(pinned) {
                leading(refs)
            } else {
                leading(refs).push(pinned)
            };
            let rest = tags_newest_first(refs);
            head + others(rest, rest.len(), pinned)
        },
    }
}

/// The tags of a remote, newest first.
fn sorted_tags(refs: &Table<String>) -> (r: Vec<String>)
    ensures
        text::texts(r@) == tags_newest_first(table::text_values(refs@)),
{
    let n: usize = refs.len();
    let ghost names = table::in_order(refs@.dom());
    assert(table::text_values(refs@).dom() =~= refs@.dom());
    let ghost mut found: Seq<Seq<char>> = Seq::empty();
    let mut out: Vec<String> = Vec::new();
    let mut i: usize = 0;
    assert(text::texts(out@) =~= newest_first(found, 0));
    while i < n
        invariant
            i <= n,
            n == names.len(),
            names == table::in_order(refs@.dom()),
            found == tags(names, i as nat),
            text::texts(out@) == newest_first(found, found.len()),
        decreases n - i,
    {
        let name = refs.key_at(i);
        if !branch(name.as_str()) {
            let ghost longer = found.push(name@);
            place_rev(&mut out, name.clone());
            proof {
                lemma_newest_first_prefix(found, longer, found.len());
                found = longer;
            }
        }
        i = i + 1;
    }
    out
}

/// Sorting looks at no label past the ones it sorts.
proof fn lemma_newest_first_prefix(a: Seq<Seq<char>>, b: Seq<Seq<char>>, n: nat)
    requires
        n <= a.len(),
        n <= b.len(),
        forall|i: int| 0 <= i < n ==> a[i] == b[i],
    ensures
        newest_first(a, n) == newest_first(b, n),
    decreases n,
{
    if n > 0 {
        lemma_newest_first_prefix(a, b, (n - 1) as nat);
    }
}

/// The revisions that a picker offers for a source that is pinned at
/// `pinned`, the default first.
pub fn selectable_revs(refs: &Option<Table<String>>, pinned: &str) -> (r: Vec<String>)
    ensures
        text::texts(r@) == selectable(opt_refs(*refs), pinned@),
{
    let mut out: Vec<String> = Vec::new();
    let refs = match refs {
        Some(refs) => refs,
        None => {
            out.push(pinned.to_owned());
            if !text::same(pinned, "main") {
                out.push("main".to_owned());
                assert(text::texts(out@) =~= seq![pinned@, "main"@]);
            } else {
                assert(text::texts(out@) =~= seq![pinned@]);
            }
            return out;
        },
    };
    let ghost view = table::text_values(refs@);
    assert(view.dom() =~= refs@.dom());
    if refs.contains_key("main") {
        out.push("main".to_owned());
    } else if refs.contains_key("master") {
        out.push("master".to_owned());
    }
    assert(text::texts(out@) =~= leading(view));
    if !text::listed(out.as_slice(), pinned) {
        let ghost was = text::texts(out@);
        out.push(pinned.to_owned());
        assert(text::texts(out@) =~= was.push(pinned@));
    }
    let ghost head = text::texts(out@);
    let rest = sorted_tags(refs);
    let ghost all = text::texts(rest@);
    let mut i: usize = 0;
    assert(head + others(all, 0, pinned@) =~= head);
    while i < rest.len()
        invariant
            i <= rest@.len(),
            all == text::texts(rest@),
            text::texts(out@) == head + others(all, i as nat, pinned@),
        decreases rest@.len() - i,
    {
        assert(all[i as int] == rest@[i as int]@);
        if !text::same(rest[i].as_str(), pinned) {
            let ghost was = text::texts(out@);
            let tag = rest[i].clone();
            out.push(tag);
            assert(text::texts(out@) =~= was.push(tag@));
            assert(head + others(all, (i + 1) as nat, pinned@) =~= was.push(tag@));
        }
        i = i + 1;
    }
    assert(all.len() == rest@.len());
    out
}

// ---------------------------------------------------------------------
// Resolution
// ---------------------------------------------------------------------

/// What resolving a label comes to.
pub open spec fn resolved(refs: Option<Refs>, name: Seq<char>, rev: Seq<char>) -> Result<
    Seq<char>,
    ErrorView,
> {
    match refs {
        None => Err(
            ErrorView::Store(
                "no rev data for "@ + name + " (offline and no cache) — cannot resolve "@
                    + text::quoted(rev),
            ),
        ),
        Some(refs) => if refs.dom().contains(rev) {
            Ok(refs[rev])
        } else {
            Err(
                ErrorView::Store(
                    "unknown rev "@ + text::quoted(rev) + " for "@ + name + " — known: "@
                        + text::joined(table::in_order(refs.dom()), ", "@),
                ),
            )
        },
    }
}

/// The labels of a table, in order.
fn names_of(refs: &Table<String>) -> (r: Vec<String>)
    ensures
        text::texts(r@) == table::in_order(refs@.dom()),
{
    let n: usize = refs.len();
    let ghost names = table::in_order(refs@.dom());
    let mut out: Vec<String> = Vec::new();
    let mut i: usize = 0;
    assert(text::texts(out@) =~= names.take(0));
    while i < n
        invariant
            i <= n,
            n == names.len(),
            names == table::in_order(refs@.dom()),
            text::texts(out@) == names.take(i as int),
        decreases n - i,
    {
        let ghost was = text::texts(out@);
        let name = refs.key_at(i).clone();
        out.push(name);
        assert(text::texts(out@) =~= was.push(name@));
        assert(names.take(i + 1) =~= names.take(i as int).push(names[i as int]));
        i = i + 1;
    }
    assert(names.take(n as int) =~= names);
    out
}

/// The commit that the label `rev` of the source `name` points at. A branch
/// resolves to the head that is known, so that a moving one is pinned when it
/// is picked.
pub fn resolve_rev(refs: &Option<Table<String>>, name: &str, rev: &str) -> (r: Result<String, Error>)
    ensures
        error::outcome(r) == resolved(opt_refs(*refs), name@, rev@),
{
    let refs = match refs {
        None => {
            return Err(
                Error::Store(
                    text::cat4(
                        "no rev data for ",
                        name,
                        " (offline and no cache) — cannot resolve ",
                        text::quote(rev).as_str(),
                    ),
                ),
            );
        },
        Some(refs) => refs,
    };
    assert(table::text_values(refs@).dom() =~= refs@.dom());
    match table::text_at(refs, rev) {
        Some(sha) => Ok(sha.to_owned()),
        None => Err(
            Error::Store(
                text::cat6(
                    "unknown rev ",
                    text::quote(rev).as_str(),
                    " for ",
                    name,
                    " — known: ",
                    text::join(names_of(refs).as_slice(), ", ").as_str(),
                ),
            ),
        ),
    }
}

} // verus!
