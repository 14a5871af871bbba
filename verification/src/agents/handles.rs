//! The names a project's agents are rendered and launched under, and the
//! closure of the set under delegation.
use vstd::prelude::*;
use crate::agents::document;
use crate::agents::document::Fields;
use crate::agents::sidecar;
use crate::agents::sidecar::{AgentConfig, AgentView};
use crate::error;
use crate::error::{Error, ErrorView};
use crate::json;
use crate::json::{Json, JsonView};
use crate::store::naming;
use crate::table;
use crate::table::Table;
use crate::text;

verus! {

// ---------------------------------------------------------------------
// Handles
// ---------------------------------------------------------------------

/// The handle of one agent before it is told apart from others: the slug of
/// its display name, or its own slug where it has no name of its own.
pub open spec fn base_handle(name: Seq<char>, slug: Seq<char>) -> Seq<char> {
    if name.len() == 0 || name == slug || naming::slug_of(name).len() == 0 {
        slug
    } else {
        naming::slug_of(name)
    }
}

/// The first `k` characters of a text, or all of it where it is shorter.
pub open spec fn head(s: Seq<char>, k: nat) -> Seq<char> {
    if s.len() <= k {
        s
    } else {
        s.take(k as int)
    }
}

/// A short piece of a slug that tells agents apart: its first eight
/// characters, which are the first segment of a UUID.
pub open spec fn fragment(slug: Seq<char>) -> Seq<char> {
    head(slug, 8)
}

/// The base handles of the first `n` agents, under their slugs.
pub open spec fn base_handles(agents: Seq<AgentView>, n: nat) -> Map<Seq<char>, Seq<char>>
    decreases n,
{
    if n == 0 {
        Map::empty()
    } else {
        let a = agents[n - 1];
        base_handles(agents, (n - 1) as nat).insert(a.slug, base_handle(a.meta.name, a.slug))
    }
}

/// Another agent has the same base handle.
pub open spec fn is_shared(base: Map<Seq<char>, Seq<char>>, slug: Seq<char>) -> bool {
    exists|other: Seq<char>|
        #![trigger base.dom().contains(other)]
        base.dom().contains(other) && other != slug && base[other] == base[slug]
}

/// Another agent with the same base handle has a slug that begins with the
/// same `k` characters.
pub open spec fn clashes(base: Map<Seq<char>, Seq<char>>, slug: Seq<char>, k: nat) -> bool {
    exists|other: Seq<char>|
        #![trigger base.dom().contains(other)]
        base.dom().contains(other) && other != slug && base[other] == base[slug] && head(other, k)
            == head(slug, k)
}

/// How much of a slug tells its agent apart from those with the same base
/// handle: `k` characters, or as many more as it takes.
pub open spec fn piece_len(base: Map<Seq<char>, Seq<char>>, slug: Seq<char>, k: nat) -> nat
    decreases slug.len() + 1 - k,
{
    if k > slug.len() || !clashes(base, slug, k) {
        k
    } else {
        piece_len(base, slug, k + 1)
    }
}

/// The handle of one agent as its base handle gives it: where others have the
/// same, with the piece of its slug that tells it apart from them.
pub open spec fn own_handle(base: Map<Seq<char>, Seq<char>>, slug: Seq<char>) -> Seq<char> {
    if is_shared(base, slug) {
        base[slug] + "-"@ + head(slug, piece_len(base, slug, 8))
    } else {
        base[slug]
    }
}

/// The own handles of the agents with these slugs.
pub open spec fn own_handles(base: Map<Seq<char>, Seq<char>>, slugs: Seq<Seq<char>>) -> Seq<
    Seq<char>,
> {
    Seq::new(slugs.len(), |i: int| own_handle(base, slugs[i]))
}

/// The length of the longest of the texts.
pub open spec fn longest(v: Seq<Seq<char>>) -> nat
    decreases v.len(),
{
    if v.len() == 0 {
        0
    } else if v.last().len() > longest(v.drop_last()) {
        v.last().len()
    } else {
        longest(v.drop_last())
    }
}

/// How many characters more a text needs to be longer than the longest.
pub open spec fn missing(c: Seq<char>, v: Seq<Seq<char>>) -> nat {
    if c.len() <= longest(v) {
        (longest(v) + 1 - c.len()) as nat
    } else {
        0
    }
}

/// The first text that is not taken, of `c` and of `c` with a dash and the
/// slug after it once, twice and so on.
pub open spec fn free_handle(c: Seq<char>, slug: Seq<char>, taken: Seq<Seq<char>>) -> Seq<char>
    decreases missing(c, taken),
{
    if !taken.contains(c) || c.len() > longest(taken) {
        c
    } else {
        proof {
            reveal_strlit("-");
        }
        free_handle(c + "-"@ + slug, slug, taken)
    }
}

/// The `i`-th text occurs in another place too.
pub open spec fn recurs(v: Seq<Seq<char>>, i: int) -> bool {
    exists|j: int| 0 <= j < v.len() && j != i && #[trigger] v[j] == v[i]
}

/// The handles of the first `n` of these agents: each its own, but where an
/// agent that shares its base handle would get what another agent's base
/// handle comes to, a free one with its whole slug.
pub open spec fn settled(base: Map<Seq<char>, Seq<char>>, slugs: Seq<Seq<char>>, n: nat) -> Seq<
    Seq<char>,
>
    decreases n,
{
    if n == 0 {
        Seq::empty()
    } else {
        let done = settled(base, slugs, (n - 1) as nat);
        let own = own_handles(base, slugs);
        let slug = slugs[n - 1];
        done.push(
            if is_shared(base, slug) && recurs(own, n - 1) {
                free_handle(base[slug] + "-"@ + slug, slug, own + done)
            } else {
                own[n - 1]
            },
        )
    }
}

/// The handles: no two agents have the same. A base handle that several agents
/// have gets a piece of each one's slug.
pub open spec fn told_apart(base: Map<Seq<char>, Seq<char>>) -> Map<Seq<char>, Seq<char>> {
    let slugs = table::in_order(base.dom());
    Map::new(
        |slug: Seq<char>| base.dom().contains(slug),
        |slug: Seq<char>| settled(base, slugs, slugs.len())[slugs.index_of(slug)],
    )
}

/// The handles of a project's agents, under their slugs.
pub open spec fn handles(agents: Seq<AgentView>) -> Map<Seq<char>, Seq<char>> {
    told_apart(base_handles(agents, agents.len()))
}

/// The handle of one agent before it is told apart from others.
fn handle_base(name: &str, slug: &str) -> (r: String)
    ensures
        r@ == base_handle(name@, slug@),
{
    if name.is_empty() || text::same(name, slug) {
        return slug.to_owned();
    }
    let s = naming::slugify(name);
    if s.as_str().is_empty() {
        slug.to_owned()
    } else {
        s
    }
}

/// The first `k` characters of a text.
fn text_head(s: &str, k: usize) -> (r: String)
    ensures
        r@ == head(s@, k as nat),
{
    let v = text::chars_of(s);
    if v.len() <= k {
        s.to_owned()
    } else {
        let out = text::text_of(v.as_slice(), 0, k);
        assert(out@ =~= v@.take(k as int));
        out
    }
}

/// A short piece of a slug that tells agents apart.
pub fn slug_fragment(slug: &str) -> (r: String)
    ensures
        r@ == fragment(slug@),
{
    text_head(slug, 8)
}

/// Does another agent have the base handle of the `i`-th, and where `k` is
/// given, a slug that begins with the same `k` characters?
fn has_rival(base: &Table<String>, i: usize, k: Option<usize>) -> (r: bool)
    requires
        i < table::in_order(base@.dom()).len(),
    ensures
        ({
            let m = table::text_values(base@);
            let slug = table::in_order(base@.dom())[i as int];
            r == (match k {
                Some(k) => clashes(m, slug, k as nat),
                None => is_shared(m, slug),
            })
        }),
{
    let n: usize = base.len();
    let ghost ks = table::in_order(base@.dom());
    let ghost m = table::text_values(base@);
    assert(m.dom() =~= base@.dom());
    let slug = base.key_at(i);
    let handle = base.value_at(i);
    assert(m[slug@] == handle@);
    let mut j: usize = 0;
    while j < n
        invariant
            j <= n,
            i < n,
            n == ks.len(),
            ks == table::in_order(base@.dom()),
            table::lists(ks, base@.dom()),
            m == table::text_values(base@),
            m.dom() == base@.dom(),
            slug@ == ks[i as int],
            m[slug@] == handle@,
            forall|x: int|
                0 <= x < j && x != i ==> !(m[#[trigger] ks[x]] == handle@ && (match k {
                    Some(k) => head(ks[x], k as nat) == head(slug@, k as nat),
                    None => true,
                })),
        decreases n - j,
    {
        if j != i && text::same(base.value_at(j).as_str(), handle.as_str()) {
            let alike = match k {
                Some(k) => text::same(
                    text_head(base.key_at(j).as_str(), k).as_str(),
                    text_head(slug.as_str(), k).as_str(),
                ),
                None => true,
            };
            if alike {
                proof {
                    let other = ks[j as int];
                    assert(m.dom().contains(other));
                    assert(m[other] == handle@);
                    table::lemma_ascending_apart(ks, i as int, j as int);
                }
                return true;
            }
        }
        j = j + 1;
    }
    proof {
        assert forall|other: Seq<char>|
            #![trigger m.dom().contains(other)]
            m.dom().contains(other) && other != slug@ implies !(m[other] == m[slug@] && (match k {
            Some(k) => head(other, k as nat) == head(slug@, k as nat),
            None => true,
        })) by {
            assert(base@.dom().contains(other));
            assert(ks.contains(other));
            let x = choose|x: int| 0 <= x < ks.len() && ks[x] == other;
            assert(!(m[ks[x]] == handle@ && (match k {
                Some(k) => head(ks[x], k as nat) == head(slug@, k as nat),
                None => true,
            })));
        }
    }
    false
}

/// The own handle of the `i`-th agent, which is `shared` or not.
fn handle_of(base: &Table<String>, i: usize, shared: bool) -> (r: String)
    requires
        i < table::in_order(base@.dom()).len(),
        shared == is_shared(table::text_values(base@), table::in_order(base@.dom())[i as int]),
    ensures
        r@ == own_handle(table::text_values(base@), table::in_order(base@.dom())[i as int]),
{
    let ghost m = table::text_values(base@);
    let slug = base.key_at(i);
    let handle = base.value_at(i);
    assert(m[slug@] == handle@);
    if !shared {
        return handle.clone();
    }
    let size: usize = text::chars_of(slug.as_str()).len();
    let mut piece = slug_fragment(slug.as_str());
    let mut k: usize = 8;
    while k <= size && has_rival(base, i, Some(k))
        invariant
            i < table::in_order(base@.dom()).len(),
            m == table::text_values(base@),
            slug@ == table::in_order(base@.dom())[i as int],
            size == slug@.len(),
            m[slug@] == handle@,
            is_shared(m, slug@),
            8 <= k,
            k == 8 || k <= size + 1,
            piece@ == head(slug@, k as nat),
            piece_len(m, slug@, 8) == piece_len(m, slug@, k as nat),
        decreases size + 1 - k,
    {
        if k == size {
            // The whole slug is longer than every piece that was alike.
            assert(piece_len(m, slug@, (k + 1) as nat) == k + 1);
            assert(head(slug@, (k + 1) as nat) == slug@);
            return text::cat3(handle.as_str(), "-", slug.as_str());
        }
        k = k + 1;
        piece = text_head(slug.as_str(), k);
    }
    text::cat3(handle.as_str(), "-", piece.as_str())
}

/// Does the `i`-th text occur in another place too?
fn occurs_again(v: &Vec<String>, i: usize) -> (r: bool)
    requires
        i < v@.len(),
    ensures
        r == recurs(text::texts(v@), i as int),
{
    let ghost all = text::texts(v@);
    let mut j: usize = 0;
    assert(all[i as int] == v@[i as int]@);
    while j < v.len()
        invariant
            j <= v@.len(),
            i < v@.len(),
            all == text::texts(v@),
            all.len() == v@.len(),
            all[i as int] == v@[i as int]@,
            forall|x: int| 0 <= x < j && x != i ==> #[trigger] all[x] != all[i as int],
        decreases v@.len() - j,
    {
        assert(all[j as int] == v@[j as int]@);
        if j != i && text::same(v[j].as_str(), v[i].as_str()) {
            return true;
        }
        j = j + 1;
    }
    false
}

/// No text is longer than the longest.
proof fn lemma_longest(v: Seq<Seq<char>>)
    ensures
        forall|i: int| 0 <= i < v.len() ==> (#[trigger] v[i]).len() <= longest(v),
    decreases v.len(),
{
    if v.len() > 0 {
        lemma_longest(v.drop_last());
        assert forall|i: int| 0 <= i < v.len() implies (#[trigger] v[i]).len() <= longest(v) by {
            if i < v.len() - 1 {
                assert(v.drop_last()[i] == v[i]);
            }
        }
    }
}

/// A handle for `slug` that is neither an own handle nor one that was settled.
fn find_free(handle: &str, slug: &str, own: &Vec<String>, done: &Vec<String>) -> (r: String)
    ensures
        r@ == free_handle(
            handle@ + "-"@ + slug@,
            slug@,
            text::texts(own@) + text::texts(done@),
        ),
{
    let ghost taken = text::texts(own@) + text::texts(done@);
    let mut c = text::cat3(handle, "-", slug);
    proof {
        lemma_longest(taken);
        reveal_strlit("-");
    }
    while text::listed(own.as_slice(), c.as_str()) || text::listed(done.as_slice(), c.as_str())
        invariant
            taken == text::texts(own@) + text::texts(done@),
            forall|i: int| 0 <= i < taken.len() ==> (#[trigger] taken[i]).len() <= longest(taken),
            "-"@.len() == 1,
            free_handle(handle@ + "-"@ + slug@, slug@, taken) == free_handle(c@, slug@, taken),
        decreases missing(c@, taken),
    {
        assert(taken.contains(c@)) by {
            if text::texts(own@).contains(c@) {
                let i = choose|i: int| 0 <= i < text::texts(own@).len() && text::texts(own@)[i] == c@;
                assert(taken[i] == c@);
            } else {
                let i = choose|i: int|
                    0 <= i < text::texts(done@).len() && text::texts(done@)[i] == c@;
                assert(taken[text::texts(own@).len() + i] == c@);
            }
        }
        assert(c@.len() <= longest(taken));
        c = text::cat3(c.as_str(), "-", slug);
    }
    proof {
        if taken.contains(c@) {
            let i = choose|i: int| 0 <= i < taken.len() && taken[i] == c@;
            if i < text::texts(own@).len() {
                assert(text::texts(own@)[i] == c@);
            } else {
                assert(text::texts(done@)[i - text::texts(own@).len()] == c@);
            }
        }
    }
    c
}

/// Tell the agents apart, given their base handles.
pub fn disambiguate(base: &Table<String>) -> (r: Table<String>)
    ensures
        table::text_values(r@) == told_apart(table::text_values(base@)),
{
    let n: usize = base.len();
    let ghost ks = table::in_order(base@.dom());
    let ghost m = table::text_values(base@);
    assert(m.dom() =~= base@.dom());
    let mut own: Vec<String> = Vec::new();
    let mut shared: Vec<bool> = Vec::new();
    let mut i: usize = 0;
    while i < n
        invariant
            i <= n,
            n == ks.len(),
            ks == table::in_order(base@.dom()),
            m == table::text_values(base@),
            own@.len() == i,
            shared@.len() == i,
            forall|j: int| 0 <= j < i ==> (#[trigger] own@[j])@ == own_handle(m, ks[j]),
            forall|j: int| 0 <= j < i ==> #[trigger] shared@[j] == is_shared(m, ks[j]),
        decreases n - i,
    {
        let rival = has_rival(base, i, None);
        own.push(handle_of(base, i, rival));
        shared.push(rival);
        i = i + 1;
    }
    assert(text::texts(own@) =~= own_handles(m, ks));
    let mut done: Vec<String> = Vec::new();
    let mut out: Table<String> = Table::new();
    i = 0;
    assert(text::texts(done@) =~= settled(m, ks, 0));
    while i < n
        invariant
            i <= n,
            n == ks.len(),
            ks == table::in_order(base@.dom()),
            table::lists(ks, base@.dom()),
            m == table::text_values(base@),
            m.dom() == base@.dom(),
            own@.len() == n,
            shared@.len() == n,
            text::texts(own@) == own_handles(m, ks),
            forall|j: int| 0 <= j < n ==> #[trigger] shared@[j] == is_shared(m, ks[j]),
            text::texts(done@) == settled(m, ks, i as nat),
            forall|k: Seq<char>|
                #![trigger table::text_values(out@).dom().contains(k)]
                table::text_values(out@).dom().contains(k) <==> ks.take(i as int).contains(k),
            forall|j: int|
                0 <= j < i ==> table::text_values(out@)[#[trigger] ks[j]] == settled(
                    m,
                    ks,
                    i as nat,
                )[j],
        decreases n - i,
    {
        let slug = base.key_at(i);
        let handle = base.value_at(i);
        assert(m[slug@] == handle@);
        assert(own_handles(m, ks)[i as int] == own@[i as int]@);
        let ghost was = table::text_values(out@);
        let ghost before = settled(m, ks, i as nat);
        let resolved = if shared[i] && occurs_again(&own, i) {
            find_free(handle.as_str(), slug.as_str(), &own, &done)
        } else {
            own[i].clone()
        };
        table::put_text(&mut out, slug.as_str(), resolved.as_str());
        done.push(resolved);
        proof {
            assert(text::texts(done@) =~= before.push(resolved@));
            lemma_settled_len(m, ks, i as nat);
            assert(ks.take(i + 1) =~= ks.take(i as int).push(ks[i as int]));
            assert forall|k: Seq<char>| #[trigger] ks.take(i + 1).contains(k) <==> ks.take(
                i as int,
            ).contains(k) || k == ks[i as int] by {
                document::lemma_push_contains(ks.take(i as int), ks[i as int], k);
            }
            assert forall|j: int| 0 <= j < i + 1 implies table::text_values(out@)[#[trigger] ks[j]]
                == settled(m, ks, (i + 1) as nat)[j] by {
                if j < i {
                    table::lemma_ascending_apart(ks, i as int, j);
                    assert(was[ks[j]] == before[j]);
                }
            }
        }
        i = i + 1;
    }
    proof {
        assert(ks.take(n as int) =~= ks);
        assert(m.dom() =~= base@.dom());
        assert forall|k: Seq<char>| table::text_values(out@).dom().contains(k) <==> m.dom().contains(
            k,
        ) by {
            assert(base@.dom().contains(k) <==> ks.contains(k));
        }
        assert forall|k: Seq<char>| m.dom().contains(k) implies #[trigger] table::text_values(out@)[k]
            == told_apart(m)[k] by {
            assert(ks.contains(k));
            let j = ks.index_of(k);
            assert(0 <= j < ks.len() && ks[j] == k);
            assert(table::text_values(out@)[ks[j]] == settled(m, ks, n as nat)[j]);
        }
        assert(table::text_values(out@) =~= told_apart(m));
    }
    out
}

/// As many agents have a settled handle as were settled.
proof fn lemma_settled_len(base: Map<Seq<char>, Seq<char>>, slugs: Seq<Seq<char>>, n: nat)
    ensures
        settled(base, slugs, n).len() == n,
    decreases n,
{
    if n > 0 {
        lemma_settled_len(base, slugs, (n - 1) as nat);
    }
}

/// The launch handle of every primary of a project, under its slug: derived
/// from the display name, so that the operator sees a name, and from the
/// agent set alone, so that renderer and launcher agree without sharing
/// state.
pub fn primary_handles(agents: &[(String, AgentConfig)]) -> (r: Table<String>)
    ensures
        table::text_values(r@) == handles(sidecar::agent_views(agents@)),
{
    let mut base: Table<String> = Table::new();
    let ghost views = sidecar::agent_views(agents@);
    let mut i: usize = 0;
    assert(table::text_values(base@) =~= base_handles(views, 0));
    while i < agents.len()
        invariant
            i <= agents@.len(),
            views == sidecar::agent_views(agents@),
            table::text_values(base@) == base_handles(views, i as nat),
        decreases agents@.len() - i,
    {
        let slug = agents[i].0.as_str();
        let handle = handle_base(agents[i].1.meta.name.as_str(), slug);
        assert(views[i as int].slug == slug@);
        table::put_text(&mut base, slug, handle.as_str());
        i = i + 1;
    }
    disambiguate(&base)
}

/// The name an entry is rendered under: the primary under its handle, a
/// subagent under its own.
pub open spec fn entry_name(
    handles: Map<Seq<char>, Seq<char>>,
    slug: Seq<char>,
    entry: Seq<char>,
) -> Seq<char> {
    if entry == slug && handles.dom().contains(slug) {
        handles[slug]
    } else {
        entry
    }
}

/// The name the entry `entry` of the agent under `slug` is rendered under.
pub fn rendered_name(handles: &Table<String>, slug: &str, entry: &str) -> (r: String)
    ensures
        r@ == entry_name(table::text_values(handles@), slug@, entry@),
{
    if text::same(entry, slug) {
        match table::text_at(handles, slug) {
            Some(handle) => handle.to_owned(),
            None => slug.to_owned(),
        }
    } else {
        entry.to_owned()
    }
}

// ---------------------------------------------------------------------
// Claims
// ---------------------------------------------------------------------

/// The claims of the first `n` entries of one agent: rendered name and slug.
pub open spec fn agent_claims(
    handles: Map<Seq<char>, Seq<char>>,
    slug: Seq<char>,
    m: Fields,
    n: nat,
) -> Seq<(Seq<char>, Seq<char>)>
    decreases n,
{
    if n == 0 {
        Seq::empty()
    } else {
        agent_claims(handles, slug, m, (n - 1) as nat).push(
            (entry_name(handles, slug, document::names(m)[n - 1]), slug),
        )
    }
}

/// The claims of the first `n` agents, agent by agent and entry by entry.
pub open spec fn claims(
    handles: Map<Seq<char>, Seq<char>>,
    agents: Seq<AgentView>,
    n: nat,
) -> Seq<(Seq<char>, Seq<char>)>
    decreases n,
{
    if n == 0 {
        Seq::empty()
    } else {
        let a = agents[n - 1];
        claims(handles, agents, (n - 1) as nat) + (match json::member_fields(a.doc, "agent"@) {
            Some(m) => agent_claims(handles, a.slug, m, document::names(m).len()),
            None => Seq::empty(),
        })
    }
}

/// The owners of the names that the first `n` claims take; a name that is
/// claimed twice is refused.
pub open spec fn owners(claims: Seq<(Seq<char>, Seq<char>)>, n: nat, project: Seq<char>) -> Result<
    Map<Seq<char>, Seq<char>>,
    ErrorView,
>
    decreases n,
{
    if n == 0 {
        Ok(Map::empty())
    } else {
        match owners(claims, (n - 1) as nat, project) {
            Err(e) => Err(e),
            Ok(m) => {
                let (name, slug) = claims[n - 1];
                if m.dom().contains(name) {
                    Err(
                        ErrorView::Store(
                            "agent entry "@ + text::quoted(name) + " is declared by both "@
                                + text::quoted(m[name]) + " and "@ + text::quoted(slug)
                                + " in project "@ + project
                                + " — rendered agent names are flat across a project; rename one"@,
                        ),
                    )
                } else {
                    Ok(m.insert(name, slug))
                }
            },
        }
    }
}

/// What claiming the names of a project's agents comes to.
pub open spec fn claimed(agents: Seq<AgentView>, project: Seq<char>) -> Result<
    Map<Seq<char>, Seq<char>>,
    ErrorView,
> {
    let all = claims(handles(agents), agents, agents.len());
    owners(all, all.len(), project)
}

/// What a row of claims holds.
pub open spec fn claim_views(v: Seq<(String, String)>) -> Seq<(Seq<char>, Seq<char>)> {
    Seq::new(v.len(), |i: int| (v[i].0@, v[i].1@))
}

/// What a result of owners or error holds.
pub open spec fn owners_outcome(r: Result<Table<String>, Error>) -> Result<
    Map<Seq<char>, Seq<char>>,
    ErrorView,
> {
    match r {
        Ok(t) => Ok(table::text_values(t@)),
        Err(e) => Err(e@),
    }
}

/// The claims of every entry of a project's agents.
fn list_claims(handles: &Table<String>, agents: &[(String, AgentConfig)]) -> (r: Vec<
    (String, String),
>)
    ensures
        claim_views(r@) == claims(
            table::text_values(handles@),
            sidecar::agent_views(agents@),
            agents@.len(),
        ),
{
    let ghost h = table::text_values(handles@);
    let ghost views = sidecar::agent_views(agents@);
    let mut out: Vec<(String, String)> = Vec::new();
    let mut i: usize = 0;
    assert(claim_views(out@) =~= claims(h, views, 0));
    while i < agents.len()
        invariant
            i <= agents@.len(),
            h == table::text_values(handles@),
            views == sidecar::agent_views(agents@),
            claim_views(out@) == claims(h, views, i as nat),
        decreases agents@.len() - i,
    {
        let slug = agents[i].0.as_str();
        assert(views[i as int].slug == slug@);
        assert(views[i as int].doc == agents@[i as int].1.doc@);
        let ghost before = claim_views(out@);
        match agents[i].1.doc.get_object("agent") {
            Some(m) => {
                proof {
                    json::lemma_fields_dom(*m);
                }
                let n: usize = m.len();
                let ghost fields = json::fields(*m);
                let mut j: usize = 0;
                assert(before + agent_claims(h, slug@, fields, 0) =~= before);
                while j < n
                    invariant
                        j <= n,
                        h == table::text_values(handles@),
                        fields == json::fields(*m),
                        n == document::names(fields).len(),
                        fields.dom() == m@.dom(),
                        claim_views(out@) == before + agent_claims(h, slug@, fields, j as nat),
                    decreases n - j,
                {
                    let ghost was = out@;
                    let name = rendered_name(handles, slug, m.key_at(j).as_str());
                    out.push((name, slug.to_owned()));
                    j = j + 1;
                    assert(claim_views(out@) =~= claim_views(was).push((name@, slug@)));
                    assert(claim_views(out@) =~= before + agent_claims(h, slug@, fields, j as nat));
                }
            },
            None => {
                assert(before + Seq::<(Seq<char>, Seq<char>)>::empty() =~= before);
            },
        }
        i = i + 1;
    }
    out
}

/// Claim the names in order, refusing one that is claimed twice.
pub fn take_names(list: &Vec<(String, String)>, project: &str) -> (r: Result<Table<String>, Error>)
    ensures
        owners_outcome(r) == owners(claim_views(list@), list@.len(), project@),
{
    let ghost all = claim_views(list@);
    let mut out: Table<String> = Table::new();
    let mut i: usize = 0;
    assert(table::text_values(out@) =~= Map::<Seq<char>, Seq<char>>::empty());
    while i < list.len()
        invariant
            i <= list@.len(),
            all == claim_views(list@),
            owners(all, i as nat, project@) == Ok::<Map<Seq<char>, Seq<char>>, ErrorView>(
                table::text_values(out@),
            ),
        decreases list@.len() - i,
    {
        let name = list[i].0.as_str();
        let slug = list[i].1.as_str();
        assert(all[i as int] == (name@, slug@));
        match table::text_at(&out, name) {
            Some(owner) => {
                let e = Error::Store(
                    text::cat2(
                        text::cat6(
                            "agent entry ",
                            text::quote(name).as_str(),
                            " is declared by both ",
                            text::quote(owner).as_str(),
                            " and ",
                            text::quote(slug).as_str(),
                        ).as_str(),
                        text::cat3(
                            " in project ",
                            project,
                            " — rendered agent names are flat across a project; rename one",
                        ).as_str(),
                    ),
                );
                proof {
                    let m = table::text_values(out@);
                    let head = "agent entry "@ + text::quoted(name@) + " is declared by both "@
                        + text::quoted(m[name@]) + " and "@ + text::quoted(slug@);
                    assert(head + (" in project "@ + project@
                        + " — rendered agent names are flat across a project; rename one"@) =~= head
                        + " in project "@ + project@
                        + " — rendered agent names are flat across a project; rename one"@);
                    lemma_owners_error_stays(all, (i + 1) as nat, list@.len(), project@);
                }
                return Err(e);
            },
            None => {},
        }
        table::put_text(&mut out, name, slug);
        i = i + 1;
    }
    Ok(out)
}

/// A refused claim refuses the whole row.
proof fn lemma_owners_error_stays(
    all: Seq<(Seq<char>, Seq<char>)>,
    i: nat,
    n: nat,
    project: Seq<char>,
)
    requires
        i <= n,
        owners(all, i, project) is Err,
    ensures
        owners(all, n, project) == owners(all, i, project),
    decreases n,
{
    if i < n {
        lemma_owners_error_stays(all, i, (n - 1) as nat, project);
    }
}

/// Claim every name that a project's agents are rendered under, refusing a
/// collision: rendered names are flat across the project, so that one entry
/// would silently replace another.
pub fn claim_entries(agents: &[(String, AgentConfig)], project: &str) -> (r: Result<
    Table<String>,
    Error,
>)
    ensures
        owners_outcome(r) == claimed(sidecar::agent_views(agents@), project@),
{
    let handles = primary_handles(agents);
    let list = list_claims(&handles, agents);
    assert(claim_views(list@).len() == list@.len());
    take_names(&list, project)
}

// ---------------------------------------------------------------------
// Delegation
// ---------------------------------------------------------------------

/// The names among the first `n` delegation rules that may be delegated to:
/// every name but the default whose action is not a denial.
pub open spec fn open_targets(rules: Fields, n: nat) -> Seq<Seq<char>>
    decreases n,
{
    if n == 0 {
        Seq::empty()
    } else {
        let before = open_targets(rules, (n - 1) as nat);
        let name = document::names(rules)[n - 1];
        if name != "*"@ && json::as_text(rules[name]) != Some("deny"@) {
            before.push(name)
        } else {
            before
        }
    }
}

/// The delegation rules of an entry.
pub open spec fn entry_rules(cfg: Fields) -> Fields {
    match json::entry(cfg, "permission"@) {
        None => Map::empty(),
        Some(p) => match json::member_fields(p, "task"@) {
            None => Map::empty(),
            Some(rules) => rules,
        },
    }
}

/// The entries that an entry may delegate to.
pub open spec fn targets(cfg: Fields) -> Seq<Seq<char>> {
    open_targets(entry_rules(cfg), document::names(entry_rules(cfg)).len())
}

/// The entries that an entry may delegate to.
pub fn delegation_targets(cfg: &Table<Json>) -> (r: Vec<String>)
    ensures
        text::texts(r@) == targets(json::fields(*cfg)),
{
    let mut out: Vec<String> = Vec::new();
    proof {
        table::lemma_in_order_empty();
        assert(Map::<Seq<char>, JsonView>::empty().dom() =~= Set::<Seq<char>>::empty());
        assert(text::texts(out@) =~= Seq::<Seq<char>>::empty());
    }
    let p = match json::field(cfg, "permission") {
        Some(p) => p,
        None => {
            return out;
        },
    };
    let rules = match p.get_object("task") {
        Some(rules) => rules,
        None => {
            return out;
        },
    };
    proof {
        json::lemma_fields_dom(*rules);
    }
    let n: usize = rules.len();
    let mut i: usize = 0;
    while i < n
        invariant
            i <= n,
            n == document::names(json::fields(*rules)).len(),
            json::fields(*rules).dom() == rules@.dom(),
            text::texts(out@) == open_targets(json::fields(*rules), i as nat),
        decreases n - i,
    {
        let name = rules.key_at(i);
        let ghost was = text::texts(out@);
        let denied = match rules.value_at(i).as_str() {
            Some(action) => text::same(action, "deny"),
            None => false,
        };
        if !text::same(name.as_str(), "*") && !denied {
            out.push(name.clone());
            assert(text::texts(out@) =~= was.push(name@));
        }
        i = i + 1;
    }
    out
}

/// What checking the delegation targets of one entry from the `i`-th on comes
/// to: each must be declared by the project.
pub open spec fn targets_check(
    name: Seq<char>,
    slug: Seq<char>,
    targets: Seq<Seq<char>>,
    i: nat,
    known: Set<Seq<char>>,
    project: Seq<char>,
) -> Result<(), ErrorView>
    decreases targets.len() - i,
{
    if i >= targets.len() {
        Ok(())
    } else if !known.contains(targets[i as int]) {
        Err(
            ErrorView::Store(
                "agent entry "@ + text::quoted(name) + " (agent "@ + text::quoted(slug)
                    + ") delegates to "@ + text::quoted(targets[i as int]) + ", which no agent in project "@
                    + project
                    + " declares — a rendered agent set must be closed under delegation, or opencode resolves the name from config outside the run dir. Add the subagent or drop the task rule."@,
            ),
        )
    } else {
        targets_check(name, slug, targets, i + 1, known, project)
    }
}

/// What checking the entries of one agent from the `i`-th on comes to.
pub open spec fn agent_closure(
    slug: Seq<char>,
    m: Fields,
    i: nat,
    known: Set<Seq<char>>,
    project: Seq<char>,
) -> Result<(), ErrorView>
    decreases document::names(m).len() - i,
{
    if i >= document::names(m).len() {
        Ok(())
    } else {
        let name = document::names(m)[i as int];
        let here = match json::as_fields(m[name]) {
            Some(cfg) => targets_check(name, slug, targets(cfg), 0, known, project),
            None => Ok(()),
        };
        match here {
            Ok(_) => agent_closure(slug, m, i + 1, known, project),
            Err(e) => Err(e),
        }
    }
}

/// What checking the agents from the `i`-th on comes to.
pub open spec fn closure(
    agents: Seq<AgentView>,
    i: nat,
    known: Set<Seq<char>>,
    project: Seq<char>,
) -> Result<(), ErrorView>
    decreases agents.len() - i,
{
    if i >= agents.len() {
        Ok(())
    } else {
        let a = agents[i as int];
        let here = match json::member_fields(a.doc, "agent"@) {
            Some(m) => agent_closure(a.slug, m, 0, known, project),
            None => Ok(()),
        };
        match here {
            Ok(_) => closure(agents, i + 1, known, project),
            Err(e) => Err(e),
        }
    }
}

/// Check the delegation targets of one entry.
fn check_targets(
    name: &str,
    slug: &str,
    list: &Vec<String>,
    known: &Table<String>,
    project: &str,
) -> (r: Result<(), Error>)
    ensures
        error::verdict(r) == targets_check(
            name@,
            slug@,
            text::texts(list@),
            0,
            known@.dom(),
            project@,
        ),
{
    let mut i: usize = 0;
    while i < list.len()
        invariant
            i <= list@.len(),
            targets_check(name@, slug@, text::texts(list@), 0, known@.dom(), project@)
                == targets_check(
                name@,
                slug@,
                text::texts(list@),
                i as nat,
                known@.dom(),
                project@,
            ),
        decreases list@.len() - i,
    {
        let target = list[i].as_str();
        assert(text::texts(list@)[i as int] == target@);
        if !known.contains_key(target) {
            let head = text::cat6(
                "agent entry ",
                text::quote(name).as_str(),
                " (agent ",
                text::quote(slug).as_str(),
                ") delegates to ",
                text::quote(target).as_str(),
            );
            return Err(
                Error::Store(
                    text::cat4(
                        head.as_str(),
                        ", which no agent in project ",
                        project,
                        " declares — a rendered agent set must be closed under delegation, or opencode resolves the name from config outside the run dir. Add the subagent or drop the task rule.",
                    ),
                ),
            );
        }
        i = i + 1;
    }
    Ok(())
}

/// Refuse a set of agents that is not closed under delegation: a name that
/// the project does not declare would be resolved from whatever configuration
/// lies outside the run directory. A rule may name an entry of another agent
/// of the project, so that this sees the whole set.
pub fn check_delegation_closure(
    agents: &[(String, AgentConfig)],
    known: &Table<String>,
    project: &str,
) -> (r: Result<(), Error>)
    ensures
        error::verdict(r) == closure(sidecar::agent_views(agents@), 0, known@.dom(), project@),
{
    let ghost views = sidecar::agent_views(agents@);
    let mut i: usize = 0;
    while i < agents.len()
        invariant
            i <= agents@.len(),
            views == sidecar::agent_views(agents@),
            closure(views, 0, known@.dom(), project@) == closure(
                views,
                i as nat,
                known@.dom(),
                project@,
            ),
        decreases agents@.len() - i,
    {
        let slug = agents[i].0.as_str();
        assert(views[i as int].slug == slug@);
        assert(views[i as int].doc == agents@[i as int].1.doc@);
        match agents[i].1.doc.get_object("agent") {
            None => {},
            Some(m) => {
                proof {
                    json::lemma_fields_dom(*m);
                }
                let n: usize = m.len();
                let ghost fields = json::fields(*m);
                let mut j: usize = 0;
                while j < n
                    invariant
                        j <= n,
                        i < agents@.len(),
                        views == sidecar::agent_views(agents@),
                        views[i as int].slug == slug@,
                        json::member_fields(views[i as int].doc, "agent"@) == Some(fields),
                        closure(views, 0, known@.dom(), project@) == closure(
                            views,
                            i as nat,
                            known@.dom(),
                            project@,
                        ),
                        fields == json::fields(*m),
                        n == document::names(fields).len(),
                        fields.dom() == m@.dom(),
                        agent_closure(slug@, fields, 0, known@.dom(), project@) == agent_closure(
                            slug@,
                            fields,
                            j as nat,
                            known@.dom(),
                            project@,
                        ),
                    decreases n - j,
                {
                    match m.value_at(j).as_object() {
                        None => {},
                        Some(cfg) => {
                            let list = delegation_targets(cfg);
                            match check_targets(m.key_at(j).as_str(), slug, &list, known, project) {
                                Ok(_) => {},
                                Err(e) => {
                                    return Err(e);
                                },
                            }
                        },
                    }
                    j = j + 1;
                }
            },
        }
        i = i + 1;
    }
    Ok(())
}

/// What checking a project's delegation comes to: no name claimed twice, and
/// the set closed.
pub open spec fn delegation_check(agents: Seq<AgentView>, project: Seq<char>) -> Result<
    (),
    ErrorView,
> {
    match claimed(agents, project) {
        Err(e) => Err(e),
        Ok(known) => closure(agents, 0, known.dom(), project),
    }
}

/// Check that a project's agents are closed under delegation.
pub fn check_project_delegation(agents: &[(String, AgentConfig)], project: &str) -> (r: Result<
    (),
    Error,
>)
    ensures
        error::verdict(r) == delegation_check(sidecar::agent_views(agents@), project@),
{
    match claim_entries(agents, project) {
        Err(e) => Err(e),
        Ok(known) => {
            assert(table::text_values(known@).dom() =~= known@.dom());
            check_delegation_closure(agents, &known, project)
        },
    }
}

// ---------------------------------------------------------------------
// Laws
// ---------------------------------------------------------------------

proof fn lemma_base_handles(agents: Seq<AgentView>, n: nat)
    requires
        n <= agents.len(),
    ensures
        forall|slug: Seq<char>| #[trigger]
            base_handles(agents, n).dom().contains(slug) <==> exists|i: int|
                0 <= i < n && (#[trigger] agents[i]).slug == slug,
    decreases n,
{
    if n > 0 {
        lemma_base_handles(agents, (n - 1) as nat);
        let before = base_handles(agents, (n - 1) as nat);
        assert forall|slug: Seq<char>| #[trigger]
            base_handles(agents, n).dom().contains(slug) <==> exists|i: int|
                0 <= i < n && (#[trigger] agents[i]).slug == slug by {
            if base_handles(agents, n).dom().contains(slug) {
                if slug == agents[n - 1].slug {
                    assert(agents[n - 1].slug == slug);
                } else {
                    assert(before.dom().contains(slug));
                    let i = choose|i: int| 0 <= i < n - 1 && (#[trigger] agents[i]).slug == slug;
                    assert(agents[i].slug == slug);
                }
            }
            if exists|i: int| 0 <= i < n && (#[trigger] agents[i]).slug == slug {
                let i = choose|i: int| 0 <= i < n && (#[trigger] agents[i]).slug == slug;
                if i < n - 1 {
                    assert(before.dom().contains(slug));
                }
            }
        }
    }
}

/// Every agent of a project has a handle, and nothing else has one.
pub proof fn law_every_agent_has_a_handle(agents: Seq<AgentView>, slug: Seq<char>)
    ensures
        handles(agents).dom().contains(slug) <==> exists|i: int|
            0 <= i < agents.len() && (#[trigger] agents[i]).slug == slug,
{
    lemma_base_handles(agents, agents.len());
}

proof fn lemma_head_distinct(a: Seq<char>, b: Seq<char>, k: nat)
    requires
        a != b,
        k > a.len(),
    ensures
        head(a, k) != head(b, k),
{
}

/// Past its own length a piece tells any slug apart.
proof fn lemma_piece_len(base: Map<Seq<char>, Seq<char>>, slug: Seq<char>, k: nat)
    ensures
        piece_len(base, slug, k) >= k,
        !clashes(base, slug, piece_len(base, slug, k)),
    decreases slug.len() + 1 - k,
{
    if k > slug.len() {
        assert forall|other: Seq<char>|
            #![trigger base.dom().contains(other)]
            base.dom().contains(other) && other != slug implies head(other, k) != head(slug, k) by {
            lemma_head_distinct(slug, other, k);
        }
    } else if clashes(base, slug, k) {
        lemma_piece_len(base, slug, k + 1);
    }
}

/// Two agents that share a base handle have own handles that differ.
proof fn lemma_own_handles_differ(base: Map<Seq<char>, Seq<char>>, a: Seq<char>, b: Seq<char>)
    requires
        base.dom().contains(a),
        base.dom().contains(b),
        a != b,
        base[a] == base[b],
    ensures
        is_shared(base, a),
        is_shared(base, b),
        own_handle(base, a) != own_handle(base, b),
{
    assert(base.dom().contains(b) && b != a && base[b] == base[a]);
    assert(base.dom().contains(a) && a != b && base[a] == base[b]);
    let ka = piece_len(base, a, 8);
    let kb = piece_len(base, b, 8);
    lemma_piece_len(base, a, 8);
    lemma_piece_len(base, b, 8);
    assert(head(a, ka) != head(b, ka));
    assert(head(a, kb) != head(b, kb));
    let pa = head(a, ka);
    let pb = head(b, kb);
    if pa == pb {
        if ka <= kb {
            if b.len() > ka {
                assert(pb.len() == pa.len());
                assert(kb == ka || b.len() <= kb);
                if a.len() <= ka {
                    assert(pa == a);
                    assert(head(a, kb) == a);
                }
            } else {
                assert(pb == b);
                assert(head(b, ka) == b);
            }
        } else {
            if a.len() > kb {
                if b.len() <= kb {
                    assert(pb == b);
                    assert(head(b, ka) == b);
                }
            } else {
                assert(pa == a);
                assert(head(a, kb) == a);
            }
        }
    }
    let x = base[a] + "-"@;
    if x + pa == x + pb {
        assert((x + pa).skip(x.len() as int) =~= pa);
        assert((x + pb).skip(x.len() as int) =~= pb);
    }
}

/// A handle that is looked for is free, and begins with what it was looked for
/// from.
proof fn lemma_free_handle(c: Seq<char>, slug: Seq<char>, taken: Seq<Seq<char>>)
    ensures
        !taken.contains(free_handle(c, slug, taken)),
        c.is_prefix_of(free_handle(c, slug, taken)),
    decreases missing(c, taken),
{
    lemma_longest(taken);
    reveal_strlit("-");
    if taken.contains(c) && c.len() <= longest(taken) {
        let next = c + "-"@ + slug;
        lemma_free_handle(next, slug, taken);
        let found = free_handle(next, slug, taken);
        assert(c =~= found.subrange(0, c.len() as int)) by {
            assert(next =~= found.subrange(0, next.len() as int));
            assert forall|i: int| 0 <= i < c.len() implies c[i] == found[i] by {
                assert(next[i] == found.subrange(0, next.len() as int)[i]);
            }
        }
    } else {
        assert(c =~= c.subrange(0, c.len() as int));
        if taken.contains(c) {
            let i = choose|i: int| 0 <= i < taken.len() && taken[i] == c;
            assert(taken[i].len() <= longest(taken));
        }
    }
}

/// What was settled stays.
proof fn lemma_settled_stays(
    base: Map<Seq<char>, Seq<char>>,
    slugs: Seq<Seq<char>>,
    n: nat,
    i: int,
)
    requires
        0 <= i < n,
    ensures
        settled(base, slugs, n)[i] == settled(base, slugs, (i + 1) as nat)[i],
    decreases n,
{
    lemma_settled_len(base, slugs, (n - 1) as nat);
    if i < n - 1 {
        lemma_settled_stays(base, slugs, (n - 1) as nat, i);
    }
}

/// What is settled for one agent is its own handle, or begins with its base
/// handle and its slug and is nobody's own handle and nobody's settled before.
proof fn lemma_settled_at(base: Map<Seq<char>, Seq<char>>, slugs: Seq<Seq<char>>, n: nat, i: int)
    requires
        0 <= i < n <= slugs.len(),
    ensures
        ({
            let own = own_handles(base, slugs);
            let here = settled(base, slugs, n)[i];
            if is_shared(base, slugs[i]) && recurs(own, i) {
                &&& (base[slugs[i]] + "-"@ + slugs[i]).is_prefix_of(here)
                &&& !own.contains(here)
                &&& forall|j: int| 0 <= j < i ==> #[trigger] settled(base, slugs, n)[j] != here
            } else {
                here == own[i]
            }
        }),
{
    let own = own_handles(base, slugs);
    let here = settled(base, slugs, n)[i];
    lemma_settled_stays(base, slugs, n, i);
    let done = settled(base, slugs, i as nat);
    lemma_settled_len(base, slugs, i as nat);
    if is_shared(base, slugs[i]) && recurs(own, i) {
        let taken = own + done;
        lemma_free_handle(base[slugs[i]] + "-"@ + slugs[i], slugs[i], taken);
        assert(here == free_handle(base[slugs[i]] + "-"@ + slugs[i], slugs[i], taken));
        if own.contains(here) {
            let j = choose|j: int| 0 <= j < own.len() && own[j] == here;
            assert(taken[j] == here);
        }
        assert forall|j: int| 0 <= j < i implies #[trigger] settled(base, slugs, n)[j] != here by {
            lemma_settled_stays(base, slugs, n, j);
            lemma_settled_stays(base, slugs, i as nat, j);
            assert(taken[own.len() + j] == done[j]);
        }
    }
}

/// No two of the agents get the same.
proof fn lemma_settled_differ(
    base: Map<Seq<char>, Seq<char>>,
    slugs: Seq<Seq<char>>,
    i: int,
    j: int,
)
    requires
        table::lists(slugs, base.dom()),
        0 <= i < j < slugs.len(),
    ensures
        settled(base, slugs, slugs.len())[i] != settled(base, slugs, slugs.len())[j],
{
    let n = slugs.len();
    let own = own_handles(base, slugs);
    let a = slugs[i];
    let b = slugs[j];
    lemma_settled_at(base, slugs, n, i);
    lemma_settled_at(base, slugs, n, j);
    assert(slugs.contains(a) && slugs.contains(b));
    assert(base.dom().contains(a) && base.dom().contains(b));
    table::lemma_ascending_apart(slugs, i, j);
    assert(own[i] == own_handle(base, a) && own[j] == own_handle(base, b));
    assert(own.contains(own[i]) && own.contains(own[j]));
    if own[i] == own[j] {
        if base[a] == base[b] {
            lemma_own_handles_differ(base, a, b);
        }
        assert(own[j] == own[i]);
        assert(recurs(own, i));
        assert(recurs(own, j));
    }
}

/// Of the agents of a project no two have the same handle. A base handle that
/// one agent alone has is its handle as it is; agents that share one all get
/// it with a dash and more after it: a piece of the slug that tells them apart
/// from each other, or the whole slug where that is what another base handle
/// comes to.
pub proof fn law_same_names_are_told_apart(
    base: Map<Seq<char>, Seq<char>>,
    a: Seq<char>,
    b: Seq<char>,
)
    requires
        base.dom().finite(),
        base.dom().contains(a),
        base.dom().contains(b),
        a != b,
    ensures
        told_apart(base)[a] != told_apart(base)[b],
        !is_shared(base, a) ==> told_apart(base)[a] == base[a],
        is_shared(base, a) ==> told_apart(base)[a] == own_handle(base, a) || (base[a] + "-"@
            + a).is_prefix_of(told_apart(base)[a]),
        is_shared(base, a) && (forall|other: Seq<char>|
            #![trigger base.dom().contains(other)]
            base.dom().contains(other) && other != a ==> own_handle(base, other) != own_handle(
                base,
                a,
            )) ==> told_apart(base)[a] == own_handle(base, a),
{
    table::lemma_finite_in_order(base.dom());
    let slugs = table::in_order(base.dom());
    let own = own_handles(base, slugs);
    assert(slugs.contains(a) && slugs.contains(b));
    let i = slugs.index_of(a);
    let j = slugs.index_of(b);
    assert(slugs[i] == a && slugs[j] == b);
    if i < j {
        lemma_settled_differ(base, slugs, i, j);
    } else {
        lemma_settled_differ(base, slugs, j, i);
    }
    lemma_settled_at(base, slugs, slugs.len(), i);
    if recurs(own, i) {
        let x = choose|x: int| 0 <= x < own.len() && x != i && #[trigger] own[x] == own[i];
        table::lemma_ascending_apart(slugs, i, x);
        assert(slugs.contains(slugs[x]));
        assert(base.dom().contains(slugs[x]));
        assert(own[x] == own_handle(base, slugs[x]));
    }
}

proof fn lemma_base_handles_finite(agents: Seq<AgentView>, n: nat)
    ensures
        base_handles(agents, n).dom().finite(),
    decreases n,
{
    if n > 0 {
        lemma_base_handles_finite(agents, (n - 1) as nat);
    }
}

/// Whatever the agents of a project are called, no two have the same handle:
/// a launch is never held up by a name.
pub proof fn law_handles_are_unique(agents: Seq<AgentView>, a: Seq<char>, b: Seq<char>)
    requires
        handles(agents).dom().contains(a),
        handles(agents).dom().contains(b),
        a != b,
    ensures
        handles(agents)[a] != handles(agents)[b],
{
    lemma_base_handles_finite(agents, agents.len());
    law_same_names_are_told_apart(base_handles(agents, agents.len()), a, b);
}

/// No two agents have the same slug.
pub open spec fn slugs_differ(agents: Seq<AgentView>) -> bool {
    forall|i: int, j: int|
        #![trigger agents[i], agents[j]]
        0 <= i < j < agents.len() ==> agents[i].slug != agents[j].slug
}

proof fn lemma_base_handle_at(agents: Seq<AgentView>, n: nat, i: int)
    requires
        slugs_differ(agents),
        0 <= i < n <= agents.len(),
    ensures
        base_handles(agents, n).dom().contains(agents[i].slug),
        base_handles(agents, n)[agents[i].slug] == base_handle(
            agents[i].meta.name,
            agents[i].slug,
        ),
    decreases n,
{
    if i < n - 1 {
        lemma_base_handle_at(agents, (n - 1) as nat, i);
        assert(agents[i].slug != agents[n - 1].slug);
    }
}

/// The handles are those of the set of agents: the order in which they are
/// listed does not matter, so that whoever lists them comes to the same.
pub proof fn law_handles_ignore_order(a: Seq<AgentView>, b: Seq<AgentView>)
    requires
        slugs_differ(a),
        slugs_differ(b),
        a.to_multiset() == b.to_multiset(),
    ensures
        handles(a) == handles(b),
{
    broadcast use vstd::seq_lib::group_to_multiset_ensures;

    let x = base_handles(a, a.len());
    let y = base_handles(b, b.len());
    lemma_base_handles(a, a.len());
    lemma_base_handles(b, b.len());
    assert forall|k: Seq<char>| #[trigger] x.dom().contains(k) implies y.dom().contains(k) && x[k]
        == y[k] by {
        let i = choose|i: int| 0 <= i < a.len() && (#[trigger] a[i]).slug == k;
        lemma_base_handle_at(a, a.len(), i);
        assert(a.contains(a[i]));
        assert(b.to_multiset().contains(a[i]));
        assert(b.contains(a[i]));
        let j = choose|j: int| 0 <= j < b.len() && b[j] == a[i];
        lemma_base_handle_at(b, b.len(), j);
    }
    assert forall|k: Seq<char>| #[trigger] y.dom().contains(k) implies x.dom().contains(k) by {
        let j = choose|j: int| 0 <= j < b.len() && (#[trigger] b[j]).slug == k;
        assert(b.contains(b[j]));
        assert(a.to_multiset().contains(b[j]));
        assert(a.contains(b[j]));
        let i = choose|i: int| 0 <= i < a.len() && a[i] == b[j];
        assert(a[i].slug == k);
    }
    assert(x =~= y);
}

/// Where the claims are accepted, each rendered name has the one owner that
/// claimed it: no entry silently replaces another.
pub proof fn law_rendered_names_have_one_owner(
    all: Seq<(Seq<char>, Seq<char>)>,
    n: nat,
    project: Seq<char>,
)
    requires
        n <= all.len(),
        owners(all, n, project) is Ok,
    ensures
        forall|i: int|
            #![trigger all[i]]
            0 <= i < n ==> owners(all, n, project)->Ok_0.dom().contains(all[i].0) && owners(
                all,
                n,
                project,
            )->Ok_0[all[i].0] == all[i].1,
        forall|i: int, j: int|
            #![trigger all[i], all[j]]
            0 <= i < j < n ==> all[i].0 != all[j].0,
        forall|name: Seq<char>| #[trigger]
            owners(all, n, project)->Ok_0.dom().contains(name) ==> exists|i: int|
                0 <= i < n && (#[trigger] all[i]).0 == name,
    decreases n,
{
    if n > 0 {
        law_rendered_names_have_one_owner(all, (n - 1) as nat, project);
        let before = owners(all, (n - 1) as nat, project)->Ok_0;
        let now = owners(all, n, project)->Ok_0;
        assert(now == before.insert(all[n - 1].0, all[n - 1].1));
        assert forall|i: int, j: int| #![trigger all[i], all[j]] 0 <= i < j < n implies all[i].0
            != all[j].0 by {
            if j == n - 1 {
                assert(before.dom().contains(all[i].0));
            }
        }
        assert forall|name: Seq<char>| #[trigger] now.dom().contains(name) implies exists|i: int|
            0 <= i < n && (#[trigger] all[i]).0 == name by {
            if name == all[n - 1].0 {
                assert(all[n - 1].0 == name);
            } else {
                assert(before.dom().contains(name));
                let i = choose|i: int| 0 <= i < n - 1 && (#[trigger] all[i]).0 == name;
                assert(all[i].0 == name);
            }
        }
    }
}

proof fn lemma_targets_known(
    name: Seq<char>,
    slug: Seq<char>,
    list: Seq<Seq<char>>,
    i: nat,
    known: Set<Seq<char>>,
    project: Seq<char>,
)
    requires
        targets_check(name, slug, list, i, known, project) is Ok,
    ensures
        forall|k: int| i <= k < list.len() ==> known.contains(#[trigger] list[k]),
    decreases list.len() - i,
{
    if i < list.len() {
        lemma_targets_known(name, slug, list, i + 1, known, project);
    }
}

proof fn lemma_agent_closed(
    slug: Seq<char>,
    m: Fields,
    i: nat,
    known: Set<Seq<char>>,
    project: Seq<char>,
)
    requires
        agent_closure(slug, m, i, known, project) is Ok,
    ensures
        forall|k: int, t: int|
            #![trigger document::names(m)[k], targets(json::as_fields(m[document::names(m)[k]])->Some_0)[t]]
            i <= k < document::names(m).len() && json::as_fields(m[document::names(m)[k]]) is Some && 0
                <= t < targets(json::as_fields(m[document::names(m)[k]])->Some_0).len()
                ==> known.contains(targets(json::as_fields(m[document::names(m)[k]])->Some_0)[t]),
    decreases document::names(m).len() - i,
{
    if i < document::names(m).len() {
        let name = document::names(m)[i as int];
        match json::as_fields(m[name]) {
            Some(cfg) => {
                lemma_targets_known(name, slug, targets(cfg), 0, known, project);
            },
            None => {},
        }
        lemma_agent_closed(slug, m, i + 1, known, project);
    }
}

proof fn lemma_closed_from(
    agents: Seq<AgentView>,
    i: nat,
    at: int,
    known: Set<Seq<char>>,
    project: Seq<char>,
)
    requires
        closure(agents, i, known, project) is Ok,
        i <= at < agents.len(),
    ensures
        json::member_fields(agents[at].doc, "agent"@) matches Some(m) ==> agent_closure(
            agents[at].slug,
            m,
            0,
            known,
            project,
        ) is Ok,
    decreases agents.len() - i,
{
    if i < at {
        lemma_closed_from(agents, i + 1, at, known, project);
    }
}

/// In a set that is accepted, whatever any entry may delegate to is rendered
/// in the same project.
pub proof fn law_accepted_set_is_closed(
    agents: Seq<AgentView>,
    project: Seq<char>,
    at: int,
    m: Fields,
    k: int,
    cfg: Fields,
    t: int,
)
    requires
        delegation_check(agents, project) is Ok,
        0 <= at < agents.len(),
        json::member_fields(agents[at].doc, "agent"@) == Some(m),
        0 <= k < document::names(m).len(),
        json::as_fields(m[document::names(m)[k]]) == Some(cfg),
        0 <= t < targets(cfg).len(),
    ensures
        claimed(agents, project) is Ok,
        claimed(agents, project)->Ok_0.dom().contains(targets(cfg)[t]),
{
    let known = claimed(agents, project)->Ok_0.dom();
    lemma_closed_from(agents, 0, at, known, project);
    lemma_agent_closed(agents[at].slug, m, 0, known, project);
    assert(document::names(m)[k] == document::names(m)[k]);
    assert(known.contains(targets(json::as_fields(m[document::names(m)[k]])->Some_0)[t]));
}

} // verus!
