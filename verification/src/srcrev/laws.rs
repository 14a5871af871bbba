//! What holds of revisions: which commit a tag stands for, and what a picker
//! offers.
use vstd::prelude::*;
use crate::error::ErrorView;
use crate::path;
use crate::srcrev::fetch;
use crate::srcrev::fetch::{ActionView, EndView, EventView, FetchStage, TreeView};
use crate::srcrev::revs;
use crate::srcrev::revs::{CacheView, Refs};
use crate::table;
use crate::text;
use crate::text::Runs;

verus! {

/// The tag whose commit a line gives behind its annotation, and the commit.
pub open spec fn peels(line: Seq<char>) -> Option<(Seq<char>, Seq<char>)> {
    match revs::listed_ref(line) {
        None => None,
        Some((sha, reference)) => match text::without_prefix(reference, "refs/tags/"@) {
            None => None,
            Some(tag) => match text::without_suffix(tag, "^{}"@) {
                None => None,
                Some(peeled) => Some((peeled, sha)),
            },
        },
    }
}

/// The commit that the last of the first `n` lines to peel a tag gives it.
pub open spec fn last_peeled(lines: Seq<Seq<char>>, n: nat, tag: Seq<char>) -> Option<Seq<char>>
    decreases n,
{
    if n == 0 {
        None
    } else {
        match peels(lines[n - 1]) {
            Some((t, sha)) => if t == tag {
                Some(sha)
            } else {
                last_peeled(lines, (n - 1) as nat, tag)
            },
            None => last_peeled(lines, (n - 1) as nat, tag),
        }
    }
}

/// An annotated tag resolves to the commit behind it, never to the tag's own
/// object, in whatever order the two are listed.
pub proof fn law_annotated_tag_is_its_commit(lines: Seq<Seq<char>>, n: nat, tag: Seq<char>)
    requires
        n <= lines.len(),
        !revs::is_branch(tag),
    ensures
        last_peeled(lines, n, tag) matches Some(sha) ==> revs::refs_of(lines, n).dom().contains(tag)
            && revs::refs_of(lines, n)[tag] == sha,
    decreases n,
{
    if n > 0 {
        law_annotated_tag_is_its_commit(lines, (n - 1) as nat, tag);
    }
}

proof fn lemma_older_irreflexive(a: Seq<u64>)
    ensures
        !revs::older(a, a),
    decreases a.len(),
{
    if a.len() > 0 {
        lemma_older_irreflexive(a.skip(1));
    }
}

proof fn lemma_older_transitive(a: Seq<u64>, b: Seq<u64>, c: Seq<u64>)
    requires
        revs::older(a, b),
        revs::older(b, c),
    ensures
        revs::older(a, c),
    decreases a.len(),
{
    if a.len() > 0 && b.len() > 0 && c.len() > 0 && a[0] == b[0] && b[0] == c[0] {
        lemma_older_transitive(a.skip(1), b.skip(1), c.skip(1));
    }
}

proof fn lemma_rev_older_irreflexive(a: Seq<char>)
    ensures
        !revs::rev_older(a, a),
{
    lemma_older_irreflexive(revs::version_of(a));
    table::lemma_precedes_irreflexive(revs::tail_of(a));
}

proof fn lemma_rev_older_transitive(a: Seq<char>, b: Seq<char>, c: Seq<char>)
    requires
        revs::rev_older(a, b),
        revs::rev_older(b, c),
    ensures
        revs::rev_older(a, c),
{
    let (x, y, z) = (revs::version_of(a), revs::version_of(b), revs::version_of(c));
    if revs::older(x, y) && revs::older(y, z) {
        lemma_older_transitive(x, y, z);
    } else if x == y && y == z {
        table::lemma_precedes_transitive(revs::tail_of(a), revs::tail_of(b), revs::tail_of(c));
    }
}

proof fn lemma_rev_place(v: Seq<Seq<char>>, rev: Seq<char>, i: nat)
    requires
        i <= v.len(),
    ensures
        i <= revs::rev_place(v, rev, i) <= v.len(),
        forall|j: int|
            i <= j < revs::rev_place(v, rev, i) ==> !revs::rev_older(#[trigger] v[j], rev),
        revs::rev_place(v, rev, i) < v.len() ==> revs::rev_older(
            v[revs::rev_place(v, rev, i) as int],
            rev,
        ),
    decreases v.len() - i,
{
    if i < v.len() && !revs::rev_older(v[i as int], rev) {
        lemma_rev_place(v, rev, i + 1);
    }
}

/// Labels are newest first: none is followed by one of a newer version, nor by
/// one of the same version whose tail is greater.
pub open spec fn is_newest_first(v: Seq<Seq<char>>) -> bool {
    forall|i: int, j: int|
        #![trigger v[i], v[j]]
        0 <= i < j < v.len() ==> !revs::rev_older(v[i], v[j])
}

/// Sorting puts the labels newest first, and neither loses nor adds one.
pub proof fn law_tags_are_newest_first(v: Seq<Seq<char>>, n: nat)
    requires
        n <= v.len(),
    ensures
        is_newest_first(revs::newest_first(v, n)),
        revs::newest_first(v, n).len() == n,
        forall|x: Seq<char>|
            #![trigger revs::newest_first(v, n).contains(x)]
            revs::newest_first(v, n).contains(x) <==> v.take(n as int).contains(x),
    decreases n,
{
    if n > 0 {
        law_tags_are_newest_first(v, (n - 1) as nat);
        let was = revs::newest_first(v, (n - 1) as nat);
        let fewer = v.take(n - 1);
        let more = v.take(n as int);
        let x = v[n - 1];
        lemma_rev_place(was, x, 0);
        let at = revs::rev_place(was, x, 0) as int;
        let now = was.insert(at, x);
        assert forall|a: int, b: int|
            #![trigger now[a], now[b]]
            0 <= a < b < now.len() implies !revs::rev_older(now[a], now[b]) by {
            if a != at && b != at {
                let pa = if a < at {
                    a
                } else {
                    a - 1
                };
                let pb = if b < at {
                    b
                } else {
                    b - 1
                };
                assert(now[a] == was[pa] && now[b] == was[pb]);
            } else if b == at {
                assert(now[a] == was[a]);
            } else {
                assert(now[b] == was[b - 1]);
                if revs::rev_older(x, was[b - 1]) {
                    lemma_rev_older_transitive(was[at], x, was[b - 1]);
                    if b - 1 == at {
                        lemma_rev_older_irreflexive(was[at]);
                    } else {
                        assert(!revs::rev_older(was[at], was[b - 1]));
                    }
                }
            }
        }
        assert forall|y: Seq<char>|
            #![trigger now.contains(y)]
            now.contains(y) <==> v.take(n as int).contains(y) by {
            assert(v.take(n as int) =~= v.take(n - 1).push(x));
            if now.contains(y) {
                let i = choose|i: int| 0 <= i < now.len() && now[i] == y;
                if i == at {
                    assert(v.take(n as int)[n - 1] == y);
                } else {
                    let p = if i < at {
                        i
                    } else {
                        i - 1
                    };
                    assert(was[p] == y);
                    assert(was.contains(y));
                    let j = choose|j: int| 0 <= j < fewer.len() && fewer[j] == y;
                    assert(v.take(n as int)[j] == y);
                }
            }
            if v.take(n as int).contains(y) {
                let j = choose|j: int| 0 <= j < more.len() && more[j] == y;
                if j == n - 1 {
                    assert(now[at] == y);
                } else {
                    assert(v.take(n - 1)[j] == y);
                    assert(was.contains(y));
                    let i = choose|i: int| 0 <= i < was.len() && was[i] == y;
                    assert(now[if i < at {
                        i
                    } else {
                        i + 1
                    }] == y);
                }
            }
        }
    }
}

proof fn lemma_newest_first_distinct(v: Seq<Seq<char>>, n: nat)
    requires
        n <= v.len(),
        v.no_duplicates(),
    ensures
        revs::newest_first(v, n).no_duplicates(),
    decreases n,
{
    if n > 0 {
        lemma_newest_first_distinct(v, (n - 1) as nat);
        law_tags_are_newest_first(v, (n - 1) as nat);
        let was = revs::newest_first(v, (n - 1) as nat);
        let fewer = v.take(n - 1);
        let x = v[n - 1];
        lemma_rev_place(was, x, 0);
        let at = revs::rev_place(was, x, 0) as int;
        let now = was.insert(at, x);
        assert(!v.take(n - 1).contains(x)) by {
            if v.take(n - 1).contains(x) {
                let j = choose|j: int| 0 <= j < fewer.len() && fewer[j] == x;
                assert(v[j] == v[n - 1]);
            }
        }
        assert(!was.contains(x));
        assert forall|a: int, b: int| 0 <= a < now.len() && 0 <= b < now.len() && a != b implies now[a]
            != now[b] by {
            let pa = if a < at {
                a
            } else {
                a - 1
            };
            let pb = if b < at {
                b
            } else {
                b - 1
            };
            if a == at {
                assert(now[b] == was[pb]);
                assert(was.contains(was[pb]));
            } else if b == at {
                assert(now[a] == was[pa]);
                assert(was.contains(was[pa]));
            } else {
                assert(now[a] == was[pa] && now[b] == was[pb]);
            }
        }
    }
}

proof fn lemma_tags(names: Seq<Seq<char>>, n: nat)
    requires
        n <= names.len(),
        names.no_duplicates(),
    ensures
        revs::tags(names, n).no_duplicates(),
        forall|x: Seq<char>|
            #![trigger revs::tags(names, n).contains(x)]
            revs::tags(names, n).contains(x) <==> names.take(n as int).contains(x)
                && !revs::is_branch(x),
    decreases n,
{
    if n > 0 {
        lemma_tags(names, (n - 1) as nat);
        let was = revs::tags(names, (n - 1) as nat);
        let fewer = names.take(n - 1);
        let x = names[n - 1];
        assert(names.take(n as int) =~= names.take(n - 1).push(x));
        assert(!names.take(n - 1).contains(x)) by {
            if names.take(n - 1).contains(x) {
                let j = choose|j: int| 0 <= j < fewer.len() && fewer[j] == x;
                assert(names[j] == names[n - 1]);
            }
        }
        lemma_pushed(was, x);
        lemma_pushed(names.take(n - 1), x);
        assert(was.contains(x) ==> names.take(n - 1).contains(x));
    } else {
        assert(names.take(0) =~= Seq::empty());
    }
}

proof fn lemma_pushed(s: Seq<Seq<char>>, x: Seq<char>)
    ensures
        forall|y: Seq<char>| #[trigger] s.push(x).contains(y) <==> s.contains(y) || y == x,
        s.no_duplicates() && !s.contains(x) ==> s.push(x).no_duplicates(),
{
    assert forall|y: Seq<char>| #[trigger] s.push(x).contains(y) <==> s.contains(y) || y == x by {
        if s.contains(y) {
            let i = choose|i: int| 0 <= i < s.len() && s[i] == y;
            assert(s.push(x)[i] == y);
        }
        if y == x {
            assert(s.push(x)[s.len() as int] == y);
        }
        if s.push(x).contains(y) && y != x {
            let i = choose|i: int| 0 <= i < s.push(x).len() && s.push(x)[i] == y;
            assert(s[i] == y);
        }
    }
    if s.no_duplicates() && !s.contains(x) {
        let t = s.push(x);
        assert forall|a: int, b: int| 0 <= a < t.len() && 0 <= b < t.len() && a != b implies t[a]
            != t[b] by {
            if a == s.len() {
                assert(s.contains(s[b]));
            } else if b == s.len() {
                assert(s.contains(s[a]));
            }
        }
    }
}

proof fn lemma_others(names: Seq<Seq<char>>, n: nat, rev: Seq<char>)
    requires
        n <= names.len(),
        names.no_duplicates(),
    ensures
        revs::others(names, n, rev).no_duplicates(),
        forall|x: Seq<char>|
            #![trigger revs::others(names, n, rev).contains(x)]
            revs::others(names, n, rev).contains(x) <==> names.take(n as int).contains(x) && x != rev,
    decreases n,
{
    if n > 0 {
        lemma_others(names, (n - 1) as nat, rev);
        let was = revs::others(names, (n - 1) as nat, rev);
        let fewer = names.take(n - 1);
        let x = names[n - 1];
        assert(names.take(n as int) =~= names.take(n - 1).push(x));
        assert(!names.take(n - 1).contains(x)) by {
            if names.take(n - 1).contains(x) {
                let j = choose|j: int| 0 <= j < fewer.len() && fewer[j] == x;
                assert(names[j] == names[n - 1]);
            }
        }
        lemma_pushed(was, x);
        lemma_pushed(names.take(n - 1), x);
        assert(was.contains(x) ==> names.take(n - 1).contains(x));
    } else {
        assert(names.take(0) =~= Seq::empty());
    }
}

/// The tags that a picker lists, newest first, are those of the remote.
proof fn lemma_sorted_tags(refs: Refs)
    requires
        refs.dom().finite(),
    ensures
        revs::tags_newest_first(refs).no_duplicates(),
        forall|x: Seq<char>|
            #![trigger revs::tags_newest_first(refs).contains(x)]
            revs::tags_newest_first(refs).contains(x) <==> refs.dom().contains(x)
                && !revs::is_branch(x),
{
    let names = table::in_order(refs.dom());
    table::lemma_finite_in_order(refs.dom());
    assert forall|a: int, b: int|
        0 <= a < names.len() && 0 <= b < names.len() && a != b implies names[a] != names[b] by {
        table::lemma_ascending_apart(names, a, b);
    }
    lemma_tags(names, names.len());
    assert(names.take(names.len() as int) =~= names);
    let found = revs::tags(names, names.len());
    lemma_newest_first_distinct(found, found.len());
    law_tags_are_newest_first(found, found.len());
    assert(found.take(found.len() as int) =~= found);
    assert forall|x: Seq<char>|
        #![trigger revs::tags_newest_first(refs).contains(x)]
        revs::tags_newest_first(refs).contains(x) <==> refs.dom().contains(x) && !revs::is_branch(x) by {
        assert(found.contains(x) <==> names.contains(x) && !revs::is_branch(x));
        assert(names.contains(x) <==> refs.dom().contains(x));
    }
}

/// A picker offers every revision once: the pin, and every tag of the remote;
/// and whatever else it offers is known to the remote.
pub proof fn law_picker_offers_each_rev_once(refs: Refs, pinned: Seq<char>)
    requires
        refs.dom().finite(),
    ensures
        revs::selectable(Some(refs), pinned).no_duplicates(),
        revs::selectable(Some(refs), pinned).contains(pinned),
        forall|x: Seq<char>|
            #![trigger revs::selectable(Some(refs), pinned).contains(x)]
            refs.dom().contains(x) && !revs::is_branch(x) ==> revs::selectable(
                Some(refs),
                pinned,
            ).contains(x),
        forall|x: Seq<char>|
            #![trigger revs::selectable(Some(refs), pinned).contains(x)]
            revs::selectable(Some(refs), pinned).contains(x) ==> x == pinned || refs.dom().contains(
                x,
            ),
{
    lemma_sorted_tags(refs);
    let lead = revs::leading(refs);
    let head = if lead.contains(pinned) {
        lead
    } else {
        lead.push(pinned)
    };
    let all = revs::tags_newest_first(refs);
    let rest = revs::others(all, all.len(), pinned);
    lemma_others(all, all.len(), pinned);
    assert(all.take(all.len() as int) =~= all);
    lemma_pushed(lead, pinned);
    assert(lead.no_duplicates());
    let whole = head + rest;
    assert forall|x: Seq<char>| #[trigger] whole.contains(x) <==> head.contains(x) || rest.contains(
        x,
    ) by {
        if head.contains(x) {
            let i = choose|i: int| 0 <= i < head.len() && head[i] == x;
            assert(whole[i] == x);
        }
        if rest.contains(x) {
            let i = choose|i: int| 0 <= i < rest.len() && rest[i] == x;
            assert(whole[head.len() + i] == x);
        }
        if whole.contains(x) {
            let i = choose|i: int| 0 <= i < whole.len() && whole[i] == x;
            if i < head.len() {
                assert(head[i] == x);
            } else {
                assert(rest[i - head.len()] == x);
            }
        }
    }
    assert forall|x: Seq<char>| lead.contains(x) implies revs::is_branch(x) && refs.dom().contains(
        x,
    ) by {
        let i = choose|i: int| 0 <= i < lead.len() && lead[i] == x;
        assert(i == 0);
    }
    assert forall|x: Seq<char>| #[trigger] head.contains(x) implies !rest.contains(x) by {
        if rest.contains(x) {
            assert(all.contains(x) && x != pinned);
            assert(lead.contains(x));
        }
    }
    assert forall|a: int, b: int| 0 <= a < whole.len() && 0 <= b < whole.len() && a != b implies whole[a]
        != whole[b] by {
        let n = head.len() as int;
        if a < n && b < n {
            assert(head[a] != head[b]);
        } else if a >= n && b >= n {
            assert(rest[a - n] != rest[b - n]);
        } else if a < n {
            assert(head.contains(head[a]) && rest.contains(rest[b - n]));
        } else {
            assert(head.contains(head[b]) && rest.contains(rest[a - n]));
        }
    }
    assert(head.contains(pinned));
    assert forall|x: Seq<char>|
        #![trigger whole.contains(x)]
        refs.dom().contains(x) && !revs::is_branch(x) implies whole.contains(x) by {
        assert(all.contains(x));
        if x != pinned {
            assert(rest.contains(x));
        }
    }
    assert forall|x: Seq<char>| #[trigger] whole.contains(x) implies x == pinned
        || refs.dom().contains(x) by {
        if head.contains(x) && x != pinned {
            assert(lead.contains(x));
        }
        if rest.contains(x) {
            assert(all.contains(x));
        }
    }
}

/// The default leads: a main branch whose commit is known, else the pin. Where
/// nothing is known of the remote the pin leads, which resolves offline.
pub proof fn law_default_rev_leads(refs: Refs, pinned: Seq<char>)
    ensures
        revs::selectable(None, pinned)[0] == pinned,
        refs.dom().contains("main"@) ==> revs::selectable(Some(refs), pinned)[0] == "main"@,
        !refs.dom().contains("main"@) && refs.dom().contains("master"@) ==> revs::selectable(
            Some(refs),
            pinned,
        )[0] == "master"@,
        !refs.dom().contains("main"@) && !refs.dom().contains("master"@) ==> revs::selectable(
            Some(refs),
            pinned,
        )[0] == pinned,
{
    assert(!Seq::<Seq<char>>::empty().contains(pinned));
}

/// A fresh cache is used whatever the remote would say; a stale one only
/// where the remote says nothing; and what is kept is what the remote said
/// now.
pub proof fn law_stale_cache_beats_nothing(cache: Option<CacheView>, remote: Option<Refs>, now: u64)
    ensures
        revs::is_fresh(cache, now) ==> revs::chosen_refs(cache, remote, now) == revs::chosen_refs(
            cache,
            None,
            now,
        ),
        remote is Some && revs::has_refs(remote->Some_0) && !revs::is_fresh(cache, now)
            ==> revs::chosen_refs(cache, remote, now).refs == remote,
        cache is Some && revs::has_refs(cache->Some_0.refs) ==> revs::chosen_refs(
            cache,
            None,
            now,
        ).refs == Some(cache->Some_0.refs),
        revs::chosen_refs(cache, remote, now).keep matches Some(k) ==> remote == Some(k.refs)
            && k.fetched == now && !revs::is_fresh(cache, now),
        revs::chosen_refs(cache, remote, now).refs matches Some(refs) ==> revs::has_refs(refs),
{
}

/// A label that is known resolves to its own commit, and to no other; one that
/// is not known, or where nothing is, does not resolve.
pub proof fn law_label_resolves_to_its_commit(refs: Refs, name: Seq<char>, rev: Seq<char>)
    ensures
        forall|c: Seq<char>|
            refs.dom().contains(rev) && refs[rev] == c <==> #[trigger] revs::resolved(
                Some(refs),
                name,
                rev,
            ) == Ok::<Seq<char>, ErrorView>(c),
        !refs.dom().contains(rev) <==> revs::resolved(Some(refs), name, rev) is Err,
        revs::resolved(None, name, rev) is Err,
{
    if refs.dom().contains(rev) {
        assert(revs::resolved(Some(refs), name, rev) == Ok::<Seq<char>, ErrorView>(refs[rev]));
    }
}

/// What a label resolves to depends on its own reference alone: whatever is
/// added, changed or taken out under another label, it stays.
pub proof fn law_other_labels_do_not_matter(
    refs: Refs,
    name: Seq<char>,
    rev: Seq<char>,
    other: Seq<char>,
    commit: Seq<char>,
)
    requires
        refs.dom().contains(rev),
        other != rev,
    ensures
        revs::resolved(Some(refs.insert(other, commit)), name, rev) == revs::resolved(
            Some(refs),
            name,
            rev,
        ),
        revs::resolved(Some(refs.remove(other)), name, rev) == revs::resolved(
            Some(refs),
            name,
            rev,
        ),
        revs::resolved(Some(refs.insert(rev, commit)), name, rev) == Ok::<Seq<char>, ErrorView>(
            commit,
        ),
{
}

// ---------------------------------------------------------------------
// Listings
// ---------------------------------------------------------------------

/// A text holds no white space.
pub open spec fn is_word(s: Seq<char>) -> bool {
    s.len() > 0 && forall|i: int| 0 <= i < s.len() ==> !text::is_white(#[trigger] s[i])
}

/// A line of a listing gives the commit that stands first and the reference
/// that stands second.
pub proof fn law_lines_list_commit_and_reference(sha: Seq<char>, reference: Seq<char>)
    requires
        is_word(sha),
        is_word(reference),
    ensures
        revs::listed_ref(sha.push('\t') + reference) == Some((sha, reference)),
{
    assert forall|i: int| 0 <= i < sha.len() implies !text::separates(
        Runs::Words,
        #[trigger] sha[i],
    ) by {
        assert(!text::is_white(sha[i]));
    }
    assert forall|i: int| 0 <= i < reference.len() implies !text::separates(
        Runs::Words,
        #[trigger] reference[i],
    ) by {
        assert(!text::is_white(reference[i]));
    }
    text::law_runs_of_two_texts(sha, '\t', reference, Runs::Words);
    text::law_text_without_separators_is_one_run(sha, Runs::Words);
    text::law_text_without_separators_is_one_run(reference, Runs::Words);
    let words = text::runs(sha.push('\t') + reference, Runs::Words);
    assert(words =~= seq![sha, reference]);
}

/// A line for a main branch gives the branch that commit, and leaves every
/// other label as it was.
pub proof fn law_branches_are_listed(refs: Refs, sha: Seq<char>, other: Seq<char>)
    requires
        is_word(sha),
    ensures
        ({
            let line = sha.push('\t') + "refs/heads/main"@;
            &&& revs::with_ref(refs, line).dom().contains("main"@)
            &&& revs::with_ref(refs, line)["main"@] == sha
            &&& other != "main"@ ==> (revs::with_ref(refs, line).dom().contains(other)
                <==> refs.dom().contains(other)) && (refs.dom().contains(other)
                ==> revs::with_ref(refs, line)[other] == refs[other])
        }),
        ({
            let line = sha.push('\t') + "refs/heads/master"@;
            &&& revs::with_ref(refs, line).dom().contains("master"@)
            &&& revs::with_ref(refs, line)["master"@] == sha
        }),
{
    reveal_strlit("refs/heads/main");
    reveal_strlit("refs/heads/master");
    reveal_strlit("refs/tags/");
    assert("refs/heads/main"@[5] == 'h' && "refs/heads/master"@[5] == 'h' && "refs/tags/"@[5]
        == 't');
    assert("refs/heads/main"@.len() == 15 && "refs/heads/master"@.len() == 17);
    law_lines_list_commit_and_reference(sha, "refs/heads/main"@);
    law_lines_list_commit_and_reference(sha, "refs/heads/master"@);
    assert(!"refs/tags/"@.is_prefix_of("refs/heads/main"@)) by {
        if "refs/tags/"@.is_prefix_of("refs/heads/main"@) {
            assert("refs/heads/main"@.subrange(0, "refs/tags/"@.len() as int)[5] == 't');
        }
    }
    assert(!"refs/tags/"@.is_prefix_of("refs/heads/master"@)) by {
        if "refs/tags/"@.is_prefix_of("refs/heads/master"@) {
            assert("refs/heads/master"@.subrange(0, "refs/tags/"@.len() as int)[5] == 't');
        }
    }
}

/// A line for a tag that is not known yet gives the tag that commit, one that
/// is known keeps what it has, and every other label stays as it was.
pub proof fn law_tags_are_listed(refs: Refs, sha: Seq<char>, tag: Seq<char>, other: Seq<char>)
    requires
        is_word(sha),
        is_word(tag),
        !"^{}"@.is_suffix_of(tag),
    ensures
        ({
            let line = sha.push('\t') + ("refs/tags/"@ + tag);
            let after = revs::with_ref(refs, line);
            &&& after.dom().contains(tag)
            &&& !refs.dom().contains(tag) ==> after[tag] == sha
            &&& refs.dom().contains(tag) ==> after[tag] == refs[tag]
            &&& other != tag ==> (after.dom().contains(other) <==> refs.dom().contains(other)) && (
            refs.dom().contains(other) ==> after[other] == refs[other])
        }),
{
    reveal_strlit("refs/tags/");
    let reference = "refs/tags/"@ + tag;
    assert forall|i: int| 0 <= i < reference.len() implies !text::is_white(
        #[trigger] reference[i],
    ) by {
        if i < "refs/tags/"@.len() {
            assert(reference[i] == "refs/tags/"@[i]);
        } else {
            assert(reference[i] == tag[i - "refs/tags/"@.len()]);
        }
    }
    law_lines_list_commit_and_reference(sha, reference);
    assert("refs/tags/"@ =~= reference.subrange(0, "refs/tags/"@.len() as int));
    assert(reference.skip("refs/tags/"@.len() as int) =~= tag);
}

// ---------------------------------------------------------------------
// Labels
// ---------------------------------------------------------------------

/// Only a full commit id is one: forty hexadecimal digits in lower case.
pub proof fn law_commit_ids(rev: Seq<char>)
    ensures
        revs::is_sha(rev) ==> rev.len() == 40,
        revs::is_sha(rev) ==> forall|i: int|
            0 <= i < rev.len() ==> ('0' <= #[trigger] rev[i] && rev[i] <= '9') || ('a' <= rev[i]
                && rev[i] <= 'f'),
        rev.len() == 40 && (forall|i: int|
            0 <= i < rev.len() ==> ('0' <= #[trigger] rev[i] && rev[i] <= '9') || ('a' <= rev[i]
                && rev[i] <= 'f')) ==> revs::is_sha(rev),
{
    if revs::is_sha(rev) {
        assert forall|i: int| 0 <= i < rev.len() implies ('0' <= #[trigger] rev[i] && rev[i] <= '9')
            || ('a' <= rev[i] && rev[i] <= 'f') by {
            assert(text::is_hex(rev[i]));
        }
    }
}

/// A repository with a scheme or a path is cloned from where it says; a short
/// name stands for that repository on GitHub.
pub proof fn law_repositories_are_cloned_from_where_they_are(repo: Seq<char>)
    ensures
        text::contains(repo, "://"@) ==> revs::clone_url(repo) == repo,
        "/"@.is_prefix_of(repo) ==> revs::clone_url(repo) == repo,
        "."@.is_prefix_of(repo) ==> revs::clone_url(repo) == repo,
        !text::contains(repo, "://"@) && !"/"@.is_prefix_of(repo) && !"."@.is_prefix_of(repo)
            ==> revs::clone_url(repo) == "https://github.com/"@ + repo + ".git"@,
{
}

/// A main branch is `main` or `master`, and no other label is one.
pub proof fn law_main_branches(rev: Seq<char>)
    ensures
        revs::is_branch(rev) <==> rev == "main"@ || rev == "master"@,
{
}

/// A listing is trusted for a day, and only where it lists something.
pub proof fn law_listings_are_trusted_for_a_day(c: CacheView, now: u64)
    ensures
        revs::is_fresh(Some(c), now) <==> now - c.fetched < 86400 && revs::has_refs(c.refs),
        !revs::is_fresh(None, now),
{
}

proof fn lemma_numbers_concat(a: Seq<Seq<char>>, b: Seq<Seq<char>>, k: nat)
    requires
        k <= b.len(),
    ensures
        revs::numbers(a + b, a.len() + k) == revs::numbers(a, a.len()) + revs::numbers(b, k),
    decreases k,
{
    if k == 0 {
        lemma_numbers_prefix(a, b, a.len());
        assert(revs::numbers(a, a.len()) + revs::numbers(b, 0) =~= revs::numbers(a, a.len()));
    } else {
        lemma_numbers_concat(a, b, (k - 1) as nat);
        assert((a + b)[a.len() + k - 1] == b[k - 1]);
        let before = revs::numbers(a, a.len());
        let part = revs::numbers(b, (k - 1) as nat);
        match text::parsed_u64(b[k - 1]) {
            Some(v) => {
                assert((before + part).push(v) =~= before + part.push(v));
            },
            None => {},
        }
    }
}

proof fn lemma_numbers_prefix(a: Seq<Seq<char>>, b: Seq<Seq<char>>, n: nat)
    requires
        n <= a.len(),
    ensures
        revs::numbers(a + b, n) == revs::numbers(a, n),
    decreases n,
{
    if n > 0 {
        lemma_numbers_prefix(a, b, (n - 1) as nat);
        assert((a + b)[n - 1] == a[n - 1]);
    }
}

/// The version of a label is made of its numbers, in order: a number is read
/// as the number it is, and what is no digit only stands between them.
pub proof fn law_versions_are_the_numbers(a: Seq<char>, c: char, b: Seq<char>, n: u64)
    requires
        !text::is_digit(c),
    ensures
        revs::version_of(a.push(c) + b) == revs::version_of(a) + revs::version_of(b),
        revs::version_of(text::decimal(n as nat)) == seq![n],
        revs::version_of(Seq::empty()).len() == 0,
{
    text::law_runs_of_two_texts(a, c, b, Runs::Digits);
    let ra = text::runs(a, Runs::Digits);
    let rb = text::runs(b, Runs::Digits);
    lemma_numbers_concat(ra, rb, rb.len());
    let d = text::decimal(n as nat);
    text::lemma_decimal_value(n as nat);
    assert forall|i: int| 0 <= i < d.len() implies !text::separates(
        Runs::Digits,
        #[trigger] d[i],
    ) by {
        assert(text::is_digit(d[i]));
    }
    text::law_text_without_separators_is_one_run(d, Runs::Digits);
    assert(text::is_digit(d[0]));
    assert(d[0] != '+');
    assert(text::parsed_u64(d) == Some(n));
    let one = seq![d];
    assert(revs::numbers(one, 0) =~= Seq::<u64>::empty());
    assert(revs::numbers(one, 1) =~= seq![n]);
    assert(text::runs(Seq::<char>::empty(), Runs::Digits).len() == 0);
}

/// Versions are told apart by the first number in which they differ, as
/// numbers; and a version is before every one that goes on after it.
pub proof fn law_versions_are_ordered_by_number(
    same: Seq<u64>,
    x: u64,
    a: Seq<u64>,
    y: u64,
    b: Seq<u64>,
)
    ensures
        x < y ==> revs::older(same + seq![x] + a, same + seq![y] + b) && !revs::older(
            same + seq![y] + b,
            same + seq![x] + a,
        ),
        revs::older(same, same + seq![y] + b),
    decreases same.len(),
{
    let p = same + seq![x] + a;
    let q = same + seq![y] + b;
    if same.len() == 0 {
        assert(p[0] == x);
        assert(q[0] == y);
    } else {
        law_versions_are_ordered_by_number(same.skip(1), x, a, y, b);
        assert(p[0] == same[0] && q[0] == same[0]);
        assert(p.skip(1) =~= same.skip(1) + seq![x] + a);
        assert(q.skip(1) =~= same.skip(1) + seq![y] + b);
    }
}

/// What follows the version of a label is all of it behind its last digit.
pub proof fn law_tails_follow_the_last_digit(rev: Seq<char>)
    ensures
        revs::tail_of(rev).is_suffix_of(rev),
        forall|i: int|
            0 <= i < revs::tail_of(rev).len() ==> !text::is_digit(
                #[trigger] revs::tail_of(rev)[i],
            ),
        revs::tail_of(rev).len() < rev.len() ==> text::is_digit(
            rev[rev.len() - revs::tail_of(rev).len() - 1],
        ),
    decreases rev.len(),
{
    let tail = revs::tail_of(rev);
    if rev.len() == 0 || text::is_digit(rev.last()) {
        assert(tail =~= rev.subrange(rev.len() - tail.len(), rev.len() as int));
    } else {
        law_tails_follow_the_last_digit(rev.drop_last());
        let before = revs::tail_of(rev.drop_last());
        let rest = rev.drop_last();
        assert(before =~= rest.subrange(rest.len() - before.len(), rest.len() as int));
        assert(tail =~= rev.subrange(rev.len() - tail.len(), rev.len() as int));
    }
}

// ---------------------------------------------------------------------
// Fetching
// ---------------------------------------------------------------------

/// A tree belongs under its source's name and its commit; trees of two commits
/// lie apart, and a tree is staged elsewhere than where it belongs.
pub proof fn law_trees_lie_under_their_commit(t: TreeView, other: Seq<char>)
    requires
        revs::is_sha(t.sha),
        revs::is_sha(other),
    ensures
        t.sha.is_suffix_of(fetch::tree_place(t)),
        fetch::tree_place(t) != fetch::tree_staging(t),
        other != t.sha ==> fetch::tree_place(t) != fetch::tree_place(TreeView { sha: other, ..t }),
{
    reveal_strlit(".fetch-");
    let dir = path::joined(t.sources_dir, t.name);
    assert(text::is_hex(t.sha[0]));
    assert(text::is_hex(other[0]));
    let place = fetch::tree_place(t);
    let staged = fetch::tree_staging(t);
    assert(t.sha =~= place.subrange(place.len() - t.sha.len(), place.len() as int));
    assert((".fetch-"@ + t.sha)[0] == '.');
    assert(staged.len() == place.len() + 7);
    if other != t.sha {
        let u = TreeView { sha: other, ..t };
        let there = fetch::tree_place(u);
        assert(there.len() == place.len());
        assert(other =~= there.subrange(there.len() - 40, there.len() as int));
        assert(t.sha =~= place.subrange(place.len() - 40, place.len() as int));
    }
}

/// What is asked of git is about the tree that is meant: the commit that is
/// fetched and checked out is the one that was asked for, out of the repository
/// that is named; a clone is made at the revision that was picked.
pub proof fn law_git_is_asked_for_the_tree(t: TreeView)
    ensures
        fetch::asked(t, FetchStage::Direct) matches ActionView::Git(args) && args.contains(
            "fetch"@,
        ) && args.last() == t.sha && args[1] == fetch::tree_staging(t),
        fetch::asked(t, FetchStage::Refetch) == fetch::asked(t, FetchStage::Direct),
        fetch::asked(t, FetchStage::Checkout) matches ActionView::Git(args) && args.contains(
            "checkout"@,
        ) && args.last() == t.sha && args[1] == fetch::tree_staging(t),
        fetch::asked(t, FetchStage::Recheckout) == fetch::asked(t, FetchStage::Checkout),
        fetch::asked(t, FetchStage::Remote) matches ActionView::Git(args) && args.contains(
            "remote"@,
        ) && args.last() == revs::clone_url(t.repo) && args[1] == fetch::tree_staging(t),
        fetch::asked(t, FetchStage::Clone) matches ActionView::Git(args) && args[0] == "clone"@
            && args[4] == "--branch"@ && args[5] == t.rev && args[6] == revs::clone_url(t.repo)
            && args.last() == fetch::tree_staging(t),
        fetch::asked(t, FetchStage::Install) == (ActionView::Install {
            staged: fetch::tree_staging(t),
            dest: fetch::tree_place(t),
        }),
        fetch::asked(t, FetchStage::Present) == ActionView::ReadHead(fetch::tree_place(t)),
        fetch::asked(t, FetchStage::DirectHead) == ActionView::ReadHead(fetch::tree_staging(t)),
        fetch::asked(t, FetchStage::CloneHead) == ActionView::ReadHead(fetch::tree_staging(t)),
{
    assert(fetch::fetch_args(t)[2] == "fetch"@);
    assert(fetch::checkout_args(t)[2] == "checkout"@);
    let remote = seq![
        "-C"@,
        fetch::tree_staging(t),
        "remote"@,
        "add"@,
        "origin"@,
        revs::clone_url(t.repo),
    ];
    assert(remote[2] == "remote"@);
}

/// A fetch that meets no trouble brings the tree: by the commit's id, step by
/// step, where the revision is one; else by a clone, and where the revision
/// moved since, by the commit after all.
pub proof fn law_fetches_without_trouble_succeed(t: TreeView, other: Option<Seq<char>>)
    requires
        other != Some(t.sha),
    ensures
        ({
            let did = EventView::Did(true);
            let there = EventView::Head(Some(t.sha));
            let absent = EventView::Head(other);
            let put = EventView::Installed(None);
            &&& fetch::led_to(t, FetchStage::Present, there) == Err::<FetchStage, EndView>(
                EndView::Done,
            )
            &&& fetch::led_to(t, FetchStage::Staging, did) == Ok::<FetchStage, EndView>(
                FetchStage::Init,
            )
            &&& fetch::led_to(t, FetchStage::Init, did) == Ok::<FetchStage, EndView>(
                FetchStage::Remote,
            )
            &&& fetch::led_to(t, FetchStage::Remote, did) == Ok::<FetchStage, EndView>(
                FetchStage::Direct,
            )
            &&& fetch::led_to(t, FetchStage::Direct, did) == Ok::<FetchStage, EndView>(
                FetchStage::Checkout,
            )
            &&& fetch::led_to(t, FetchStage::Checkout, did) == Ok::<FetchStage, EndView>(
                FetchStage::DirectHead,
            )
            &&& fetch::led_to(t, FetchStage::DirectHead, there) == Ok::<FetchStage, EndView>(
                FetchStage::Install,
            )
            &&& fetch::led_to(t, FetchStage::Clone, did) == Ok::<FetchStage, EndView>(
                FetchStage::CloneHead,
            )
            &&& fetch::led_to(t, FetchStage::CloneHead, there) == Ok::<FetchStage, EndView>(
                FetchStage::Install,
            )
            &&& fetch::led_to(t, FetchStage::CloneHead, absent) == Ok::<FetchStage, EndView>(
                FetchStage::Refetch,
            )
            &&& fetch::led_to(t, FetchStage::Refetch, did) == Ok::<FetchStage, EndView>(
                FetchStage::Recheckout,
            )
            &&& fetch::led_to(t, FetchStage::Recheckout, did) == Ok::<FetchStage, EndView>(
                FetchStage::RecheckedHead,
            )
            &&& fetch::led_to(t, FetchStage::RecheckedHead, there) == Ok::<FetchStage, EndView>(
                FetchStage::Install,
            )
            &&& fetch::led_to(t, FetchStage::Install, put) == Err::<FetchStage, EndView>(
                EndView::Done,
            )
        }),
{
}

/// A step that was not done, or a head that is another commit, never leads to
/// an installation.
pub proof fn law_trouble_installs_nothing(t: TreeView, stage: FetchStage, other: Option<Seq<char>>)
    requires
        other != Some(t.sha),
    ensures
        fetch::led_to(t, stage, EventView::Did(false)) != Ok::<FetchStage, EndView>(
            FetchStage::Install,
        ),
        fetch::led_to(t, stage, EventView::Head(other)) != Ok::<FetchStage, EndView>(
            FetchStage::Install,
        ),
        fetch::led_to(t, FetchStage::Direct, EventView::Did(false)) matches Err(EndView::Fail(_)),
        fetch::led_to(t, FetchStage::Clone, EventView::Did(false)) matches Err(EndView::Fail(_)),
        fetch::led_to(t, FetchStage::MovedHead, EventView::Head(other)) matches Err(
            EndView::Fail(_),
        ),
{
}

} // verus!
