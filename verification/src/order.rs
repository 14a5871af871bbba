//! Lists of texts in order.
use vstd::prelude::*;
use crate::table;
use crate::text;

verus! {

/// Where a text goes in an ordered list: before the first, from the `i`-th
/// on, that comes after it.
pub open spec fn text_place(v: Seq<Seq<char>>, x: Seq<char>, i: nat) -> nat
    decreases v.len() - i,
{
    if i >= v.len() || table::precedes(x, v[i as int]) {
        i
    } else {
        text_place(v, x, i + 1)
    }
}

/// The first `n` texts in order.
pub open spec fn sorted(v: Seq<Seq<char>>, n: nat) -> Seq<Seq<char>>
    decreases n,
{
    if n == 0 {
        Seq::empty()
    } else {
        let before = sorted(v, (n - 1) as nat);
        before.insert(text_place(before, v[n - 1], 0) as int, v[n - 1])
    }
}

/// The texts in order.
pub fn sort_texts(v: &Vec<String>) -> (r: Vec<String>)
    ensures
        text::texts(r@) == sorted(text::texts(v@), v@.len()),
{
    let ghost all = text::texts(v@);
    let mut out: Vec<String> = Vec::new();
    let mut i: usize = 0;
    assert(text::texts(out@) =~= sorted(all, 0));
    while i < v.len()
        invariant
            i <= v@.len(),
            all == text::texts(v@),
            text::texts(out@) == sorted(all, i as nat),
        decreases v@.len() - i,
    {
        let x = v[i].clone();
        assert(all[i as int] == x@);
        let ghost was = text::texts(out@);
        let mut at: usize = 0;
        while at < out.len() && !table::before(x.as_str(), out[at].as_str())
            invariant
                at <= out@.len(),
                was == text::texts(out@),
                text_place(was, x@, 0) == text_place(was, x@, at as nat),
            decreases out@.len() - at,
        {
            assert(was[at as int] == out@[at as int]@);
            at = at + 1;
        }
        proof {
            if at < out@.len() {
                assert(was[at as int] == out@[at as int]@);
            }
        }
        out.insert(at, x);
        assert(text::texts(out@) =~= was.insert(at as int, x@));
        i = i + 1;
    }
    out
}

/// A text does not come after another.
pub open spec fn at_most(a: Seq<char>, b: Seq<char>) -> bool {
    a == b || table::precedes(a, b)
}

proof fn lemma_at_most_is_an_order()
    ensures
        vstd::relations::total_ordering(|a: Seq<char>, b: Seq<char>| at_most(a, b)),
{
    let leq = |a: Seq<char>, b: Seq<char>| at_most(a, b);
    assert(vstd::relations::reflexive(leq));
    assert forall|a: Seq<char>, b: Seq<char>| #[trigger] leq(a, b) && #[trigger] leq(b, a) implies a
        == b by {
        if a != b {
            table::lemma_precedes_transitive(a, b, a);
            table::lemma_precedes_irreflexive(a);
        }
    }
    assert(vstd::relations::antisymmetric(leq));
    assert forall|a: Seq<char>, b: Seq<char>, c: Seq<char>|
        #[trigger] leq(a, b) && #[trigger] leq(b, c) implies leq(a, c) by {
        if a != b && b != c {
            table::lemma_precedes_transitive(a, b, c);
        }
    }
    assert(vstd::relations::transitive(leq));
    assert forall|a: Seq<char>, b: Seq<char>| #[trigger] leq(a, b) || #[trigger] leq(b, a) by {
        table::lemma_precedes_total(a, b);
    }
    assert(vstd::relations::strongly_connected(leq));
}

proof fn lemma_text_place(v: Seq<Seq<char>>, x: Seq<char>, i: nat)
    requires
        i <= v.len(),
    ensures
        i <= text_place(v, x, i) <= v.len(),
        forall|j: int| i <= j < text_place(v, x, i) ==> !table::precedes(x, #[trigger] v[j]),
        text_place(v, x, i) < v.len() ==> table::precedes(x, v[text_place(v, x, i) as int]),
    decreases v.len() - i,
{
    if i < v.len() && !table::precedes(x, v[i as int]) {
        lemma_text_place(v, x, i + 1);
    }
}

/// Sorting puts the texts in order, and neither loses nor adds one.
pub proof fn law_sorted_is_in_order(v: Seq<Seq<char>>, n: nat)
    requires
        n <= v.len(),
    ensures
        vstd::relations::sorted_by(sorted(v, n), |a: Seq<char>, b: Seq<char>| at_most(a, b)),
        sorted(v, n).to_multiset() == v.take(n as int).to_multiset(),
    decreases n,
{
    broadcast use vstd::seq_lib::group_to_multiset_ensures;

    let leq = |a: Seq<char>, b: Seq<char>| at_most(a, b);
    if n > 0 {
        law_sorted_is_in_order(v, (n - 1) as nat);
        let was = sorted(v, (n - 1) as nat);
        let x = v[n - 1];
        lemma_text_place(was, x, 0);
        let at = text_place(was, x, 0) as int;
        let now = was.insert(at, x);
        assert forall|a: int, b: int| 0 <= a < b < now.len() implies #[trigger] leq(now[a], now[b]) by {
            if a != at && b != at {
                let pa = if a < at {
                    a
                } else {
                    a - 1
                };
                let pb = if b < at {
                    b
                } else {
                    b - 1
                };
                assert(now[a] == was[pa] && now[b] == was[pb]);
                assert(leq(was[pa], was[pb]));
            } else if b == at {
                assert(now[a] == was[a]);
                table::lemma_precedes_total(was[a], x);
            } else {
                assert(now[b] == was[b - 1]);
                if b - 1 > at {
                    assert(leq(was[at], was[b - 1]));
                    if was[at] != was[b - 1] {
                        table::lemma_precedes_transitive(x, was[at], was[b - 1]);
                    }
                }
            }
        }
        let more = v.take(n as int);
        let fewer = v.take(n - 1);
        assert(more =~= fewer.push(x));
        assert(more.to_multiset() =~= fewer.to_multiset().insert(x));
        assert(now.to_multiset() =~= was.to_multiset().insert(x)) by {
            assert(now.remove(at) =~= was);
        }
    } else {
        assert(v.take(0) =~= Seq::empty());
    }
}

/// Two lists are the same in order just where they hold the same texts, each
/// as often.
pub proof fn law_same_texts_sort_alike(a: Seq<Seq<char>>, b: Seq<Seq<char>>)
    ensures
        sorted(a, a.len()) == sorted(b, b.len()) <==> a.to_multiset() == b.to_multiset(),
{
    law_sorted_is_in_order(a, a.len());
    law_sorted_is_in_order(b, b.len());
    assert(a.take(a.len() as int) =~= a);
    assert(b.take(b.len() as int) =~= b);
    if a.to_multiset() == b.to_multiset() {
        lemma_at_most_is_an_order();
        vstd::seq_lib::lemma_sorted_unique(
            sorted(a, a.len()),
            sorted(b, b.len()),
            |x: Seq<char>, y: Seq<char>| at_most(x, y),
        );
    }
}

} // verus!
