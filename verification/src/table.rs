//! A map from texts to values that is walked in the order of its keys.
use vstd::prelude::*;
use crate::text;

verus! {

// ---------------------------------------------------------------------
// The order of texts
// ---------------------------------------------------------------------

/// `a` comes before `b`: compared character by character by code point, a
/// proper prefix coming first.
pub open spec fn precedes(a: Seq<char>, b: Seq<char>) -> bool
    decreases a.len(),
{
    if b.len() == 0 {
        false
    } else if a.len() == 0 {
        true
    } else if a[0] != b[0] {
        a[0] < b[0]
    } else {
        precedes(a.skip(1), b.skip(1))
    }
}

/// No text comes before itself.
pub proof fn lemma_precedes_irreflexive(a: Seq<char>)
    ensures
        !precedes(a, a),
    decreases a.len(),
{
    if a.len() > 0 {
        lemma_precedes_irreflexive(a.skip(1));
    }
}

/// The order of texts is transitive.
pub proof fn lemma_precedes_transitive(a: Seq<char>, b: Seq<char>, c: Seq<char>)
    requires
        precedes(a, b),
        precedes(b, c),
    ensures
        precedes(a, c),
    decreases a.len(),
{
    if a.len() > 0 && a[0] == b[0] && b[0] == c[0] {
        lemma_precedes_transitive(a.skip(1), b.skip(1), c.skip(1));
    }
}

/// Of two different texts one comes before the other.
pub proof fn lemma_precedes_total(a: Seq<char>, b: Seq<char>)
    ensures
        a == b || precedes(a, b) || precedes(b, a),
    decreases a.len(),
{
    if a.len() > 0 && b.len() > 0 && a[0] == b[0] {
        lemma_precedes_total(a.skip(1), b.skip(1));
        if a.skip(1) == b.skip(1) {
            assert(a =~= seq![a[0]] + a.skip(1));
            assert(b =~= seq![b[0]] + b.skip(1));
        }
    } else if a.len() == 0 && b.len() == 0 {
        assert(a =~= b);
    }
}

/// Texts that agree in their first `n` characters are in order of the next
/// one: that with the lower code point comes first, and so does a text that
/// ends there.
pub proof fn law_first_difference_decides(a: Seq<char>, b: Seq<char>, n: nat)
    requires
        n <= a.len(),
        n < b.len(),
        a.take(n as int) == b.take(n as int),
        n < a.len() ==> a[n as int] < b[n as int],
    ensures
        precedes(a, b),
        !precedes(b, a),
    decreases n,
{
    if n > 0 {
        assert(a[0] == a.take(n as int)[0]);
        assert(b[0] == b.take(n as int)[0]);
        assert(a.skip(1).take(n - 1) =~= a.take(n as int).skip(1));
        assert(b.skip(1).take(n - 1) =~= b.take(n as int).skip(1));
        law_first_difference_decides(a.skip(1), b.skip(1), (n - 1) as nat);
    }
    if precedes(b, a) {
        lemma_precedes_transitive(a, b, a);
        lemma_precedes_irreflexive(a);
    }
}

/// Each text comes before all that follow it.
pub open spec fn ascending(ks: Seq<Seq<char>>) -> bool {
    forall|i: int, j: int|
        #![trigger ks[i], ks[j]]
        0 <= i < j < ks.len() ==> precedes(ks[i], ks[j])
}

/// `ks` names each text of `keys` once, in ascending order.
pub open spec fn lists(ks: Seq<Seq<char>>, keys: Set<Seq<char>>) -> bool {
    &&& ascending(ks)
    &&& forall|k: Seq<char>| #[trigger] keys.contains(k) <==> ks.contains(k)
}

/// The texts of a finite set in ascending order.
pub open spec fn in_order(keys: Set<Seq<char>>) -> Seq<Seq<char>> {
    choose|ks: Seq<Seq<char>>| lists(ks, keys)
}

/// The ascending order of a set is unique.
pub proof fn lemma_lists_unique(a: Seq<Seq<char>>, b: Seq<Seq<char>>, keys: Set<Seq<char>>)
    requires
        lists(a, keys),
        lists(b, keys),
    ensures
        a == b,
    decreases a.len(),
{
    if a.len() == 0 {
        if b.len() > 0 {
            assert(b.contains(b[0]));
            assert(keys.contains(b[0]));
            assert(a.contains(b[0]));
        }
        assert(a =~= b);
    } else {
        assert(a.contains(a.last()));
        assert(keys.contains(a.last()));
        assert(b.contains(a.last()));
        let i = choose|i: int| 0 <= i < b.len() && b[i] == a.last();
        assert(b.contains(b.last()));
        assert(keys.contains(b.last()));
        assert(a.contains(b.last()));
        let j = choose|j: int| 0 <= j < a.len() && a[j] == b.last();
        if i != b.len() - 1 {
            assert(precedes(b[i], b[b.len() - 1]));
            if j == a.len() - 1 {
                lemma_precedes_irreflexive(a.last());
            } else {
                assert(precedes(a[j], a[a.len() - 1]));
                lemma_precedes_transitive(a.last(), b.last(), a.last());
                lemma_precedes_irreflexive(a.last());
            }
        }
        assert(a.last() == b.last());
        let rest = keys.remove(a.last());
        lemma_lists_shorter(a, keys);
        lemma_lists_shorter(b, keys);
        lemma_lists_unique(a.drop_last(), b.drop_last(), rest);
        assert(a =~= a.drop_last().push(a.last()));
        assert(b =~= b.drop_last().push(b.last()));
    }
}

/// Leaving out the last text leaves the others in order.
proof fn lemma_lists_shorter(a: Seq<Seq<char>>, keys: Set<Seq<char>>)
    requires
        lists(a, keys),
        a.len() > 0,
    ensures
        lists(a.drop_last(), keys.remove(a.last())),
{
    let rest = keys.remove(a.last());
    assert(ascending(a.drop_last())) by {
        assert forall|i: int, j: int|
            #![trigger a.drop_last()[i], a.drop_last()[j]]
            0 <= i < j < a.drop_last().len() implies precedes(a.drop_last()[i], a.drop_last()[j]) by {
            assert(precedes(a[i], a[j]));
        }
    }
    assert forall|k: Seq<char>| #[trigger] rest.contains(k) <==> a.drop_last().contains(k) by {
        if rest.contains(k) {
            assert(a.contains(k));
            let i = choose|i: int| 0 <= i < a.len() && a[i] == k;
            assert(a.drop_last()[i] == k);
        }
        if a.drop_last().contains(k) {
            let i = choose|i: int| 0 <= i < a.drop_last().len() && a.drop_last()[i] == k;
            assert(a[i] == k);
            assert(keys.contains(k));
            assert(precedes(a[i], a[a.len() - 1]));
            lemma_precedes_irreflexive(k);
        }
    }
}

/// A listing is the ascending order.
pub proof fn lemma_in_order(ks: Seq<Seq<char>>, keys: Set<Seq<char>>)
    requires
        lists(ks, keys),
    ensures
        in_order(keys) == ks,
        lists(in_order(keys), keys),
{
    lemma_lists_unique(in_order(keys), ks, keys);
}

/// The row with one more text put in its place.
proof fn lemma_lists_longer(ks: Seq<Seq<char>>, keys: Set<Seq<char>>, k: Seq<char>) -> (r: Seq<Seq<char>>)
    requires
        lists(ks, keys),
        !keys.contains(k),
    ensures
        lists(r, keys.insert(k)),
    decreases ks.len(),
{
    let more = keys.insert(k);
    if ks.len() == 0 {
        let r = seq![k];
        assert forall|x: Seq<char>| #[trigger] more.contains(x) <==> r.contains(x) by {
            assert(r[0] == k);
            if keys.contains(x) {
                assert(ks.contains(x));
            }
        }
        r
    } else {
        let last = ks.last();
        assert(ks.contains(last));
        assert(keys.contains(last));
        lemma_precedes_total(last, k);
        if precedes(last, k) {
            let r = ks.push(k);
            assert(ascending(r)) by {
                assert forall|i: int, j: int| #![trigger r[i], r[j]] 0 <= i < j < r.len() implies precedes(
                    r[i],
                    r[j],
                ) by {
                    if j < ks.len() {
                        assert(precedes(ks[i], ks[j]));
                    } else if i < ks.len() - 1 {
                        assert(precedes(ks[i], ks[ks.len() - 1]));
                        lemma_precedes_transitive(ks[i], last, k);
                    }
                }
            }
            assert forall|x: Seq<char>| #[trigger] more.contains(x) <==> r.contains(x) by {
                if keys.contains(x) {
                    assert(ks.contains(x));
                    let i = choose|i: int| 0 <= i < ks.len() && ks[i] == x;
                    assert(r[i] == x);
                }
                assert(r[ks.len() as int] == k);
                if r.contains(x) && x != k {
                    let i = choose|i: int| 0 <= i < r.len() && r[i] == x;
                    assert(ks[i] == x);
                    assert(keys.contains(x));
                }
            }
            r
        } else {
            lemma_lists_shorter(ks, keys);
            let rest = keys.remove(last);
            let p = lemma_lists_longer(ks.drop_last(), rest, k);
            let r = p.push(last);
            assert forall|x: Seq<char>| p.contains(x) implies precedes(x, last) by {
                assert(rest.insert(k).contains(x));
                if x != k {
                    assert(rest.contains(x));
                    let i = choose|i: int| 0 <= i < ks.drop_last().len() && ks.drop_last()[i] == x;
                    assert(precedes(ks[i], ks[ks.len() - 1]));
                }
            }
            assert(ascending(r)) by {
                assert forall|i: int, j: int| #![trigger r[i], r[j]] 0 <= i < j < r.len() implies precedes(
                    r[i],
                    r[j],
                ) by {
                    if j < p.len() {
                        assert(precedes(p[i], p[j]));
                    } else {
                        assert(p.contains(p[i]));
                    }
                }
            }
            assert forall|x: Seq<char>| #[trigger] more.contains(x) <==> r.contains(x) by {
                assert(rest.insert(k).contains(x) <==> p.contains(x));
                if p.contains(x) {
                    let i = choose|i: int| 0 <= i < p.len() && p[i] == x;
                    assert(r[i] == x);
                }
                assert(r[p.len() as int] == last);
                if r.contains(x) && x != last {
                    let i = choose|i: int| 0 <= i < r.len() && r[i] == x;
                    assert(p[i] == x);
                }
            }
            r
        }
    }
}

/// A finite set has an ascending order.
pub proof fn lemma_finite_in_order(keys: Set<Seq<char>>)
    requires
        keys.finite(),
    ensures
        lists(in_order(keys), keys),
    decreases keys.len(),
{
    if keys.len() == 0 {
        assert(keys =~= Set::empty());
        let none = Seq::<Seq<char>>::empty();
        assert(lists(none, keys));
        lemma_in_order(none, keys);
    } else {
        let k = keys.choose();
        let rest = keys.remove(k);
        lemma_finite_in_order(rest);
        let r = lemma_lists_longer(in_order(rest), rest, k);
        assert(rest.insert(k) =~= keys);
        lemma_in_order(r, keys);
    }
}

/// The ascending order of no text at all.
pub proof fn lemma_in_order_empty()
    ensures
        in_order(Set::empty()) == Seq::<Seq<char>>::empty(),
{
    lemma_in_order(Seq::empty(), Set::empty());
}

/// Does `a` come before `b`?
pub fn before(a: &str, b: &str) -> (r: bool)
    ensures
        r == precedes(a@, b@),
{
    let x = text::chars_of(a);
    let y = text::chars_of(b);
    let mut i: usize = 0;
    assert(x@.skip(0) =~= a@);
    assert(y@.skip(0) =~= b@);
    while i < x.len() && i < y.len() && x[i] == y[i]
        invariant
            i <= x@.len(),
            i <= y@.len(),
            precedes(x@.skip(i as int), y@.skip(i as int)) == precedes(a@, b@),
        decreases x@.len() - i,
    {
        assert(x@.skip(i as int).skip(1) =~= x@.skip(i + 1));
        assert(y@.skip(i as int).skip(1) =~= y@.skip(i + 1));
        i = i + 1;
    }
    if i == y.len() {
        false
    } else if i == x.len() {
        true
    } else {
        x[i] < y[i]
    }
}

// ---------------------------------------------------------------------
// The map
// ---------------------------------------------------------------------

/// A map from texts to values, kept in the order of its keys.
#[derive(Debug, PartialEq)]
pub struct Table<V> {
    entries: Vec<(String, V)>,
}

/// The map that a row of entries stands for.
spec fn entries_map<V>(entries: Seq<(String, V)>) -> Map<Seq<char>, V>
    decreases entries.len(),
{
    if entries.len() == 0 {
        Map::empty()
    } else {
        entries_map(entries.drop_last()).insert(entries.last().0@, entries.last().1)
    }
}

/// The keys of a row of entries.
spec fn entry_keys<V>(entries: Seq<(String, V)>) -> Seq<Seq<char>> {
    Seq::new(entries.len(), |i: int| entries[i].0@)
}

impl<V> Table<V> {
    #[verifier::type_invariant]
    spec fn sorted(self) -> bool {
        ascending(entry_keys(self.entries@))
    }
}

impl<V> View for Table<V> {
    type V = Map<Seq<char>, V>;

    closed spec fn view(&self) -> Map<Seq<char>, V> {
        entries_map(self.entries@)
    }
}

/// Where the keys ascend, an entry's value is what the map holds under its
/// key, and the map holds nothing else.
proof fn lemma_entries_map<V>(entries: Seq<(String, V)>)
    requires
        ascending(entry_keys(entries)),
    ensures
        forall|i: int|
            0 <= i < entries.len() ==> {
                &&& entries_map(entries).dom().contains(#[trigger] entries[i].0@)
                &&& entries_map(entries)[entries[i].0@] == entries[i].1
            },
        forall|k: Seq<char>| #[trigger]
            entries_map(entries).dom().contains(k) ==> entry_keys(entries).contains(k),
        lists(entry_keys(entries), entries_map(entries).dom()),
    decreases entries.len(),
{
    if entries.len() > 0 {
        let rest = entries.drop_last();
        assert(entry_keys(rest) =~= entry_keys(entries).drop_last());
        assert(ascending(entry_keys(rest))) by {
            assert forall|i: int, j: int|
                #![trigger entry_keys(rest)[i], entry_keys(rest)[j]]
                0 <= i < j < rest.len() implies precedes(entry_keys(rest)[i], entry_keys(rest)[j]) by {
                assert(precedes(entry_keys(entries)[i], entry_keys(entries)[j]));
            }
        }
        lemma_entries_map(rest);
        assert forall|i: int| 0 <= i < entries.len() implies {
            &&& entries_map(entries).dom().contains(#[trigger] entries[i].0@)
            &&& entries_map(entries)[entries[i].0@] == entries[i].1
        } by {
            if i < entries.len() - 1 {
                assert(rest[i] == entries[i]);
                assert(precedes(entry_keys(entries)[i], entry_keys(entries)[entries.len() - 1]));
                lemma_precedes_irreflexive(entries[i].0@);
            }
        }
        assert forall|k: Seq<char>| #[trigger]
            entries_map(entries).dom().contains(k) implies entry_keys(entries).contains(k) by {
            if k == entries.last().0@ {
                assert(entry_keys(entries)[entries.len() - 1] == k);
            } else {
                assert(entries_map(rest).dom().contains(k));
                let i = choose|i: int| 0 <= i < entry_keys(rest).len() && entry_keys(rest)[i] == k;
                assert(entry_keys(entries)[i] == k);
            }
        }
    }
    assert forall|k: Seq<char>| #[trigger]
        entries_map(entries).dom().contains(k) <==> entry_keys(entries).contains(k) by {
        if entry_keys(entries).contains(k) {
            let i = choose|i: int| 0 <= i < entry_keys(entries).len() && entry_keys(entries)[i] == k;
            assert(entries[i].0@ == k);
        }
    }
}

/// A row of ascending entries stands for a given map where each entry is in
/// it and each of its keys has an entry.
proof fn lemma_entries_map_is<V>(entries: Seq<(String, V)>, m: Map<Seq<char>, V>)
    requires
        ascending(entry_keys(entries)),
        forall|i: int|
            0 <= i < entries.len() ==> {
                &&& m.dom().contains(#[trigger] entries[i].0@)
                &&& m[entries[i].0@] == entries[i].1
            },
        forall|k: Seq<char>| #[trigger]
            m.dom().contains(k) ==> entry_keys(entries).contains(k),
    ensures
        entries_map(entries) == m,
{
    lemma_entries_map(entries);
    assert forall|k: Seq<char>| #[trigger] m.dom().contains(k) implies entries_map(
        entries,
    ).dom().contains(k) && entries_map(entries)[k] == m[k] by {
        let i = choose|i: int| 0 <= i < entry_keys(entries).len() && entry_keys(entries)[i] == k;
        assert(entries[i].0@ == k);
    }
    assert forall|k: Seq<char>| #[trigger] entries_map(entries).dom().contains(k) implies m.dom().contains(
        k,
    ) by {
        let i = choose|i: int| 0 <= i < entry_keys(entries).len() && entry_keys(entries)[i] == k;
        assert(entries[i].0@ == k);
    }
    assert(entries_map(entries) =~= m);
}

proof fn lemma_entries_source<V>(entries: Seq<(String, V)>, k: Seq<char>)
    requires
        entries_map(entries).dom().contains(k),
    ensures
        exists|i: int|
            0 <= i < entries.len() && #[trigger] entries[i].0@ == k && entries[i].1 == entries_map(
                entries,
            )[k],
    decreases entries.len(),
{
    let last = entries.len() - 1;
    if entries.last().0@ == k {
        assert(entries[last].0@ == k);
    } else {
        let rest = entries.drop_last();
        lemma_entries_source(rest, k);
        let i = choose|i: int|
            0 <= i < rest.len() && #[trigger] rest[i].0@ == k && rest[i].1 == entries_map(rest)[k];
        assert(entries[i].0@ == k);
    }
}

/// The values of a table are structurally smaller than the table.
pub broadcast proof fn lemma_table_decreases<V>(t: Table<V>, k: Seq<char>)
    requires
        t@.dom().contains(k),
    ensures
        decreases_to!(t => #[trigger] t@[k]),
{
    lemma_entries_source(t.entries@, k);
    let i = choose|i: int|
        0 <= i < t.entries@.len() && #[trigger] t.entries@[i].0@ == k && t.entries@[i].1 == entries_map(
            t.entries@,
        )[k];
    assert(decreases_to!(t => t.entries));
    assert(decreases_to!(t.entries => t.entries@));
    assert(decreases_to!(t.entries@ => t.entries@[i]));
    assert(decreases_to!(t.entries@[i] => t.entries@[i].1));
}

impl<V> Table<V> {
    /// The empty table.
    pub fn new() -> (r: Self)
        ensures
            r@ == Map::<Seq<char>, V>::empty(),
    {
        Table { entries: Vec::new() }
    }

    /// The number of entries.
    pub fn len(&self) -> (r: usize)
        ensures
            r == in_order(self@.dom()).len(),
            lists(in_order(self@.dom()), self@.dom()),
    {
        proof {
            use_type_invariant(self);
            lemma_entries_map(self.entries@);
            lemma_in_order(entry_keys(self.entries@), self@.dom());
        }
        self.entries.len()
    }

    /// The `i`-th key in ascending order.
    pub fn key_at(&self, i: usize) -> (r: &String)
        requires
            i < in_order(self@.dom()).len(),
        ensures
            r@ == in_order(self@.dom())[i as int],
            self@.dom().contains(r@),
    {
        proof {
            use_type_invariant(self);
            lemma_entries_map(self.entries@);
            lemma_in_order(entry_keys(self.entries@), self@.dom());
        }
        &self.entries[i].0
    }

    /// The value under the `i`-th key in ascending order.
    pub fn value_at(&self, i: usize) -> (r: &V)
        requires
            i < in_order(self@.dom()).len(),
        ensures
            self@.dom().contains(in_order(self@.dom())[i as int]),
            *r == self@[in_order(self@.dom())[i as int]],
    {
        proof {
            use_type_invariant(self);
            lemma_entries_map(self.entries@);
            lemma_in_order(entry_keys(self.entries@), self@.dom());
            assert(entry_keys(self.entries@)[i as int] == self.entries@[i as int].0@);
        }
        &self.entries[i].1
    }

    /// The position of the first entry whose key does not come before `key`.
    fn position(&self, key: &str) -> (r: usize)
        ensures
            r <= self.entries@.len(),
            forall|i: int| 0 <= i < r ==> precedes(#[trigger] self.entries@[i].0@, key@),
            r < self.entries@.len() ==> !precedes(self.entries@[r as int].0@, key@),
    {
        let mut i: usize = 0;
        while i < self.entries.len()
            invariant
                i <= self.entries@.len(),
                forall|j: int| 0 <= j < i ==> precedes(#[trigger] self.entries@[j].0@, key@),
            decreases self.entries@.len() - i,
        {
            if !before(self.entries[i].0.as_str(), key) {
                return i;
            }
            i = i + 1;
        }
        i
    }

    /// The value under `key`.
    pub fn get(&self, key: &str) -> (r: Option<&V>)
        ensures
            match r {
                Some(v) => self@.dom().contains(key@) && *v == self@[key@],
                None => !self@.dom().contains(key@),
            },
    {
        let i = self.position(key);
        proof {
            use_type_invariant(self);
            lemma_entries_map(self.entries@);
        }
        if i < self.entries.len() && text::same(self.entries[i].0.as_str(), key) {
            Some(&self.entries[i].1)
        } else {
            proof {
                if self@.dom().contains(key@) {
                    let ks = entry_keys(self.entries@);
                    let j = choose|j: int| 0 <= j < ks.len() && ks[j] == key@;
                    assert(self.entries@[j].0@ == key@);
                    lemma_precedes_irreflexive(key@);
                    if j > i {
                        assert(precedes(ks[i as int], ks[j]));
                    }
                }
            }
            None
        }
    }

    /// Is there a value under `key`?
    pub fn contains_key(&self, key: &str) -> (r: bool)
        ensures
            r == self@.dom().contains(key@),
    {
        self.get(key).is_some()
    }

    /// Put `value` under `key`, in place of what was there.
    pub fn insert(&mut self, key: String, value: V)
        ensures
            final(self)@ == old(self)@.insert(key@, value),
    {
        let i = self.position(key.as_str());
        proof {
            use_type_invariant(&*self);
            lemma_entries_map(self.entries@);
        }
        let ghost was = self.entries@;
        let ghost m = entries_map(was);
        let ghost name = key@;
        let mut entries: Vec<(String, V)> = Vec::new();
        std::mem::swap(&mut entries, &mut self.entries);
        if i < entries.len() && text::same(entries[i].0.as_str(), key.as_str()) {
            entries.set(i, (key, value));
            proof {
                let now = entries@;
                assert(entry_keys(now) =~= entry_keys(was));
                let want = m.insert(name, value);
                assert forall|j: int| 0 <= j < now.len() implies {
                    &&& want.dom().contains(#[trigger] now[j].0@)
                    &&& want[now[j].0@] == now[j].1
                } by {
                    if j != i {
                        assert(now[j] == was[j]);
                        lemma_ascending_apart(entry_keys(was), i as int, j);
                    }
                }
                assert forall|k: Seq<char>| #[trigger] want.dom().contains(k) implies entry_keys(
                    now,
                ).contains(k) by {
                    if k == name {
                        assert(entry_keys(now)[i as int] == k);
                    }
                }
                lemma_entries_map_is(now, want);
            }
        } else {
            entries.insert(i, (key, value));
            proof {
                let now = entries@;
                lemma_insert_keeps_order(was, now, i as int, name);
                let want = m.insert(name, value);
                assert(now =~= was.insert(i as int, (key, value)));
                assert forall|j: int| 0 <= j < now.len() implies {
                    &&& want.dom().contains(#[trigger] now[j].0@)
                    &&& want[now[j].0@] == now[j].1
                } by {
                    if j != i {
                        lemma_ascending_apart(entry_keys(now), i as int, j);
                        if j < i {
                            assert(now[j] == was[j]);
                        } else {
                            assert(now[j] == was[j - 1]);
                        }
                    }
                }
                assert forall|k: Seq<char>| #[trigger] want.dom().contains(k) implies entry_keys(
                    now,
                ).contains(k) by {
                    if k == name {
                        assert(entry_keys(now)[i as int] == k);
                    } else {
                        assert(m.dom().contains(k));
                        let j = choose|j: int| 0 <= j < entry_keys(was).len() && entry_keys(was)[j] == k;
                        if j < i {
                            assert(entry_keys(now)[j] == k);
                        } else {
                            assert(entry_keys(now)[j + 1] == k);
                        }
                    }
                }
                lemma_entries_map_is(now, want);
            }
        }
        self.entries = entries;
    }

    /// Take out the value under `key`.
    pub fn remove(&mut self, key: &str) -> (r: Option<V>)
        ensures
            final(self)@ == old(self)@.remove(key@),
            match r {
                Some(v) => old(self)@.dom().contains(key@) && v == old(self)@[key@],
                None => !old(self)@.dom().contains(key@),
            },
    {
        if !self.contains_key(key) {
            assert(self@.remove(key@) =~= self@);
            return None;
        }
        let i = self.position(key);
        proof {
            use_type_invariant(&*self);
            lemma_entries_map(self.entries@);
        }
        let ghost was = self.entries@;
        let ghost m = entries_map(was);
        proof {
            let ks = entry_keys(was);
            let j = choose|j: int| 0 <= j < ks.len() && ks[j] == key@;
            assert(was[j].0@ == key@);
            lemma_precedes_irreflexive(key@);
            if j > i {
                assert(precedes(ks[i as int], ks[j]));
            }
            assert(i == j);
        }
        let mut entries: Vec<(String, V)> = Vec::new();
        std::mem::swap(&mut entries, &mut self.entries);
        let taken = entries.remove(i);
        proof {
            let now = entries@;
            assert(now =~= was.remove(i as int));
            assert(ascending(entry_keys(now))) by {
                assert forall|a: int, b: int|
                    #![trigger entry_keys(now)[a], entry_keys(now)[b]]
                    0 <= a < b < now.len() implies precedes(entry_keys(now)[a], entry_keys(now)[b]) by {
                    let x = if a < i { a } else { a + 1 };
                    let y = if b < i { b } else { b + 1 };
                    assert(precedes(entry_keys(was)[x], entry_keys(was)[y]));
                }
            }
            let want = m.remove(key@);
            assert forall|j: int| 0 <= j < now.len() implies {
                &&& want.dom().contains(#[trigger] now[j].0@)
                &&& want[now[j].0@] == now[j].1
            } by {
                let x = if j < i { j } else { j + 1 };
                assert(now[j] == was[x]);
                lemma_ascending_apart(entry_keys(was), i as int, x);
            }
            assert forall|k: Seq<char>| #[trigger] want.dom().contains(k) implies entry_keys(
                now,
            ).contains(k) by {
                let j = choose|j: int| 0 <= j < entry_keys(was).len() && entry_keys(was)[j] == k;
                let x = if j < i { j } else { j - 1 };
                assert(entry_keys(now)[x] == k);
            }
            lemma_entries_map_is(now, want);
        }
        self.entries = entries;
        Some(taken.1)
    }
}

impl<V: Copy> Table<V> {
    /// A copy of a table of plain values.
    pub fn duplicate(&self) -> (r: Table<V>)
        ensures
            r@ == self@,
    {
        proof {
            use_type_invariant(self);
        }
        let mut entries: Vec<(String, V)> = Vec::new();
        let mut i: usize = 0;
        while i < self.entries.len()
            invariant
                i <= self.entries@.len(),
                entries@ == self.entries@.take(i as int),
            decreases self.entries@.len() - i,
        {
            entries.push((self.entries[i].0.clone(), self.entries[i].1));
            i = i + 1;
        }
        assert(entries@ =~= self.entries@);
        Table { entries }
    }
}

/// The texts that a table of strings holds.
pub open spec fn text_values(m: Map<Seq<char>, String>) -> Map<Seq<char>, Seq<char>> {
    Map::new(|k: Seq<char>| m.dom().contains(k), |k: Seq<char>| m[k]@)
}

/// The text under `key`.
pub fn text_at<'a>(t: &'a Table<String>, key: &str) -> (r: Option<&'a str>)
    ensures
        match r {
            Some(v) => text_values(t@).dom().contains(key@) && v@ == text_values(t@)[key@],
            None => !text_values(t@).dom().contains(key@),
        },
{
    match t.get(key) {
        Some(v) => Some(v.as_str()),
        None => None,
    }
}

/// Put the text `value` under `key`.
pub fn put_text(t: &mut Table<String>, key: &str, value: &str)
    ensures
        text_values(final(t)@) == text_values(old(t)@).insert(key@, value@),
{
    let ghost was = t@;
    t.insert(key.to_owned(), value.to_owned());
    assert(text_values(t@) =~= text_values(was).insert(key@, value@));
}

/// The keys of a table, without what is under them.
pub fn key_set<V>(t: &Table<V>) -> (r: Table<()>)
    ensures
        r@.dom() == t@.dom(),
{
    let n: usize = t.len();
    let ghost ks = in_order(t@.dom());
    let mut out: Table<()> = Table::new();
    let mut i: usize = 0;
    while i < n
        invariant
            i <= n,
            n == ks.len(),
            ks == in_order(t@.dom()),
            lists(ks, t@.dom()),
            forall|k: Seq<char>| #[trigger]
                out@.dom().contains(k) <==> exists|j: int| 0 <= j < i && #[trigger] ks[j] == k,
        decreases n - i,
    {
        let ghost was = out@;
        let key = t.key_at(i);
        out.insert(key.clone(), ());
        proof {
            assert forall|k: Seq<char>| #[trigger] out@.dom().contains(k) <==> exists|j: int|
                0 <= j < i + 1 && #[trigger] ks[j] == k by {
                assert(was.dom().contains(k) <==> exists|j: int| 0 <= j < i && #[trigger] ks[j] == k);
                if k == ks[i as int] {
                    assert(ks[i as int] == k);
                }
            }
        }
        i = i + 1;
    }
    proof {
        assert forall|k: Seq<char>| out@.dom().contains(k) <==> t@.dom().contains(k) by {
            if out@.dom().contains(k) {
                let j = choose|j: int| 0 <= j < n && #[trigger] ks[j] == k;
                assert(ks.contains(k));
            }
            if t@.dom().contains(k) {
                assert(ks.contains(k));
                let j = choose|j: int| 0 <= j < ks.len() && ks[j] == k;
                assert(ks[j] == k);
            }
        }
        assert(out@.dom() =~= t@.dom());
    }
    out
}

/// A copy of a table of texts.
pub fn copy_texts(t: &Table<String>) -> (r: Table<String>)
    ensures
        r@ == t@,
{
    proof {
        use_type_invariant(t);
    }
    let mut entries: Vec<(String, String)> = Vec::new();
    let mut i: usize = 0;
    while i < t.entries.len()
        invariant
            i <= t.entries@.len(),
            entries@ == t.entries@.take(i as int),
        decreases t.entries@.len() - i,
    {
        entries.push((t.entries[i].0.clone(), t.entries[i].1.clone()));
        i = i + 1;
    }
    assert(entries@ =~= t.entries@);
    Table { entries }
}

/// Two positions of an ascending row hold different texts.
pub proof fn lemma_ascending_apart(ks: Seq<Seq<char>>, i: int, j: int)
    requires
        ascending(ks),
        0 <= i < ks.len(),
        0 <= j < ks.len(),
        i != j,
    ensures
        ks[i] != ks[j],
{
    if i < j {
        assert(precedes(ks[i], ks[j]));
    } else {
        assert(precedes(ks[j], ks[i]));
    }
    lemma_precedes_irreflexive(ks[i]);
}

/// A new key put between the keys before it and the keys after it leaves the
/// row ascending.
proof fn lemma_insert_keeps_order<V>(
    was: Seq<(String, V)>,
    now: Seq<(String, V)>,
    i: int,
    key: Seq<char>,
)
    requires
        ascending(entry_keys(was)),
        0 <= i <= was.len(),
        now.len() == was.len() + 1,
        now[i].0@ == key,
        now == was.insert(i, now[i]),
        forall|j: int| 0 <= j < i ==> precedes(#[trigger] was[j].0@, key),
        i < was.len() ==> !precedes(was[i].0@, key) && was[i].0@ != key,
    ensures
        ascending(entry_keys(now)),
{
    let a = entry_keys(was);
    let b = entry_keys(now);
    if i < was.len() {
        lemma_precedes_total(was[i].0@, key);
    }
    assert forall|x: int, y: int| #![trigger b[x], b[y]] 0 <= x < y < b.len() implies precedes(
        b[x],
        b[y],
    ) by {
        let p = if x < i { x } else { x - 1 };
        let q = if y < i { y } else { y - 1 };
        if x < i {
            assert(b[x] == was[x].0@);
        } else if x > i {
            assert(b[x] == was[x - 1].0@);
        }
        if y < i {
            assert(b[y] == was[y].0@);
        } else if y > i {
            assert(b[y] == was[y - 1].0@);
        }
        if x != i && y != i {
            assert(precedes(a[p], a[q]));
        } else if x == i {
            if y - 1 > i {
                assert(precedes(a[i], a[y - 1]));
                lemma_precedes_transitive(key, a[i], a[y - 1]);
            }
        }
    }
}

} // verus!
