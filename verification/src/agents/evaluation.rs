//! What a bound block lets an agent read and write, path by path, as the
//! enforcement layer evaluates it: the last matching rule decides, in the
//! order of the rendered keys.
use vstd::prelude::*;
use crate::agents::binding;
use crate::agents::binding::CtxView;
use crate::agents::boundary;
use crate::agents::document::Fields;
use crate::json::JsonView;
use crate::store::naming;
use crate::table;
use crate::text;

verus! {

/// A path matches a pattern: `*` stands for any run of characters, `?` for any
/// one.
pub open spec fn glob(p: Seq<char>, t: Seq<char>) -> bool
    decreases p.len(), t.len(),
{
    if p.len() == 0 {
        t.len() == 0
    } else if p[0] == '*' {
        glob(p.skip(1), t) || (t.len() > 0 && glob(p, t.skip(1)))
    } else if t.len() == 0 {
        false
    } else {
        (p[0] == '?' || p[0] == t[0]) && glob(p.skip(1), t.skip(1))
    }
}

/// What the first `n` rules, in key order, decide about a path.
pub open spec fn decided(rules: Fields, path: Seq<char>, n: nat) -> Option<Seq<char>>
    decreases n,
{
    if n == 0 {
        None
    } else {
        let key = table::in_order(rules.dom())[n - 1];
        match rules[key] {
            JsonView::Text(action) => if glob(key, path) {
                Some(action)
            } else {
                decided(rules, path, (n - 1) as nat)
            },
            _ => decided(rules, path, (n - 1) as nat),
        }
    }
}

/// What rules decide about a path: the last that matches stands.
pub open spec fn action_on(rules: Fields, path: Seq<char>) -> Option<Seq<char>> {
    decided(rules, path, table::in_order(rules.dom()).len())
}

/// A text holds no wildcard.
pub open spec fn is_literal(s: Seq<char>) -> bool {
    !s.contains('*') && !s.contains('?')
}

// ---------------------------------------------------------------------
// Matching and order
// ---------------------------------------------------------------------

proof fn lemma_literal_rest(s: Seq<char>)
    requires
        s.len() > 0,
        is_literal(s),
    ensures
        s[0] != '*',
        s[0] != '?',
        is_literal(s.skip(1)),
{
    assert(s.contains(s[0]));
    assert forall|c: char| s.skip(1).contains(c) implies s.contains(c) by {
        let i = choose|i: int| 0 <= i < s.skip(1).len() && s.skip(1)[i] == c;
        assert(s[i + 1] == c);
    }
}

proof fn lemma_literal_concat(a: Seq<char>, b: Seq<char>)
    requires
        is_literal(a),
        is_literal(b),
    ensures
        is_literal(a + b),
{
    assert forall|c: char| (a + b).contains(c) implies a.contains(c) || b.contains(c) by {
        let i = choose|i: int| 0 <= i < (a + b).len() && (a + b)[i] == c;
        if i < a.len() {
            assert(a[i] == c);
        } else {
            assert(b[i - a.len()] == c);
        }
    }
}

/// A literal beginning of a pattern must begin the path.
proof fn lemma_glob_literal(l: Seq<char>, q: Seq<char>, t: Seq<char>)
    requires
        is_literal(l),
    ensures
        glob(l + q, t) <==> l.is_prefix_of(t) && glob(q, t.skip(l.len() as int)),
    decreases l.len(),
{
    let p = l + q;
    if l.len() == 0 {
        assert(p =~= q);
        assert(t.skip(0) =~= t);
        assert(l =~= t.subrange(0, 0));
    } else {
        lemma_literal_rest(l);
        assert(p.skip(1) =~= l.skip(1) + q);
        assert(p[0] == l[0]);
        if t.len() > 0 {
            lemma_glob_literal(l.skip(1), q, t.skip(1));
            if l.len() <= t.len() {
                assert(t.skip(1).skip(l.skip(1).len() as int) =~= t.skip(l.len() as int));
            }
            assert(l.is_prefix_of(t) <==> l[0] == t[0] && l.skip(1).is_prefix_of(t.skip(1))) by {
                if l.is_prefix_of(t) {
                    assert(l[0] == t[0]);
                    assert(l.skip(1) =~= t.skip(1).subrange(0, l.skip(1).len() as int)) by {
                        assert forall|i: int| 0 <= i < l.skip(1).len() implies l.skip(1)[i] == t.skip(1)[i] by {
                            assert(l[i + 1] == t.subrange(0, l.len() as int)[i + 1]);
                        }
                    }
                }
                if l[0] == t[0] && l.skip(1).is_prefix_of(t.skip(1)) {
                    assert(l =~= t.subrange(0, l.len() as int)) by {
                        assert forall|i: int| 0 <= i < l.len() implies l[i] == t[i] by {
                            if i > 0 {
                                assert(l.skip(1)[i - 1] == t.skip(1).subrange(
                                    0,
                                    l.skip(1).len() as int,
                                )[i - 1]);
                            }
                        }
                    }
                }
            }
        }
    }
}

/// A star at the end of a pattern matches whatever is left.
proof fn lemma_glob_star(t: Seq<char>)
    ensures
        glob(seq!['*'], t),
    decreases t.len(),
{
    let p = seq!['*'];
    assert(p.skip(1) =~= Seq::<char>::empty());
    assert(glob(p.skip(1), t) == (t.len() == 0));
    if t.len() > 0 {
        lemma_glob_star(t.skip(1));
    }
}

/// The pattern of everything below a literal directory.
proof fn lemma_glob_below(l: Seq<char>, t: Seq<char>)
    requires
        is_literal(l),
    ensures
        glob(l + "**"@, t) <==> l.is_prefix_of(t),
        glob(l + "*"@, t) <==> l.is_prefix_of(t),
{
    reveal_strlit("**");
    reveal_strlit("*");
    assert("*"@ =~= seq!['*']);
    assert("**"@.skip(1) =~= seq!['*']);
    let rest = t.skip(l.len() as int);
    lemma_glob_literal(l, "**"@, t);
    lemma_glob_literal(l, "*"@, t);
    lemma_glob_star(rest);
}

/// A common beginning does not decide an order.
proof fn lemma_precedes_common(c: Seq<char>, a: Seq<char>, b: Seq<char>)
    ensures
        table::precedes(c + a, c + b) == table::precedes(a, b),
    decreases c.len(),
{
    if c.len() == 0 {
        assert(c + a =~= a);
        assert(c + b =~= b);
    } else {
        lemma_precedes_common(c.skip(1), a, b);
        assert((c + a).skip(1) =~= c.skip(1) + a);
        assert((c + b).skip(1) =~= c.skip(1) + b);
    }
}

/// The greatest matching rule decides.
proof fn lemma_greatest_decides(rules: Fields, path: Seq<char>, key: Seq<char>, action: Seq<char>)
    requires
        table::lists(table::in_order(rules.dom()), rules.dom()),
        rules.dom().contains(key),
        rules[key] == JsonView::Text(action),
        glob(key, path),
        forall|k: Seq<char>| #[trigger]
            rules.dom().contains(k) && table::precedes(key, k) ==> !glob(k, path),
    ensures
        action_on(rules, path) == Some(action),
{
    let ks = table::in_order(rules.dom());
    assert(ks.contains(key));
    let at = choose|i: int| 0 <= i < ks.len() && ks[i] == key;
    lemma_greatest_from(rules, path, at, action, ks.len());
}

proof fn lemma_greatest_from(
    rules: Fields,
    path: Seq<char>,
    at: int,
    action: Seq<char>,
    n: nat,
)
    requires
        table::lists(table::in_order(rules.dom()), rules.dom()),
        0 <= at < n <= table::in_order(rules.dom()).len(),
        rules[table::in_order(rules.dom())[at]] == JsonView::Text(action),
        glob(table::in_order(rules.dom())[at], path),
        forall|k: Seq<char>| #[trigger]
            rules.dom().contains(k) && table::precedes(table::in_order(rules.dom())[at], k) ==> !glob(
                k,
                path,
            ),
    ensures
        decided(rules, path, n) == Some(action),
    decreases n,
{
    let ks = table::in_order(rules.dom());
    if n - 1 > at {
        let k = ks[n - 1];
        assert(ks.contains(k));
        assert(rules.dom().contains(k));
        assert(table::precedes(ks[at], k));
        lemma_greatest_from(rules, path, at, action, (n - 1) as nat);
    }
}

/// What is decided is the action of some rule that matches.
proof fn lemma_decided_by_some(rules: Fields, path: Seq<char>, n: nat)
    requires
        table::lists(table::in_order(rules.dom()), rules.dom()),
        n <= table::in_order(rules.dom()).len(),
    ensures
        decided(rules, path, n) matches Some(a) ==> exists|k: Seq<char>|
            #[trigger] rules.dom().contains(k) && rules[k] == JsonView::Text(a) && glob(k, path),
        decided(rules, path, n) is None ==> forall|i: int|
            0 <= i < n && rules[#[trigger] table::in_order(rules.dom())[i]] is Text ==> !glob(
                table::in_order(rules.dom())[i],
                path,
            ),
    decreases n,
{
    if n > 0 {
        let ks = table::in_order(rules.dom());
        let k = ks[n - 1];
        assert(ks.contains(k));
        assert(rules.dom().contains(k));
        lemma_decided_by_some(rules, path, (n - 1) as nat);
    }
}

/// Where every rule that matches has one and the same action, and one does
/// match, that is what is decided.
proof fn lemma_all_agree(rules: Fields, path: Seq<char>, key: Seq<char>, action: Seq<char>)
    requires
        table::lists(table::in_order(rules.dom()), rules.dom()),
        rules.dom().contains(key),
        rules[key] is Text,
        glob(key, path),
        forall|k: Seq<char>| #[trigger]
            rules.dom().contains(k) && glob(k, path) ==> rules[k] == JsonView::Text(action),
    ensures
        action_on(rules, path) == Some(action),
{
    let ks = table::in_order(rules.dom());
    lemma_decided_by_some(rules, path, ks.len());
    assert(ks.contains(key));
    let i = choose|i: int| 0 <= i < ks.len() && ks[i] == key;
    assert(rules[ks[i]] is Text);
    match action_on(rules, path) {
        Some(a) => {
            let k = choose|k: Seq<char>| #[trigger]
                rules.dom().contains(k) && rules[k] == JsonView::Text(a) && glob(k, path);
            assert(rules[k] == JsonView::Text(action));
        },
        None => {},
    }
}

// ---------------------------------------------------------------------
// The boundary of an entry that says nothing about paths
// ---------------------------------------------------------------------

/// The directory that one part of a project's subtree is exposed as.
pub open spec fn own_dir(project: Seq<char>, dir: Seq<char>) -> Seq<char> {
    "store/projects/"@ + project + "/"@ + dir + "/"@
}

/// The same directory by absolute path.
pub open spec fn own_absolute_dir(store: Seq<char>, project: Seq<char>, dir: Seq<char>) -> Seq<char> {
    text::without_trailing(store, '/') + "/projects/"@ + project + "/"@ + dir + "/"@
}

/// The directory of the management chats.
pub open spec fn chat_dir(data: Seq<char>) -> Seq<char> {
    text::without_trailing(data, '/') + "/var/chat/"@
}

/// A root that patterns can be drawn from: none, or an absolute path without
/// wildcards.
pub open spec fn is_plain_root(root: Seq<char>) -> bool {
    root.len() > 0 ==> root[0] == '/' && is_literal(root)
}

/// A context that paths can be judged in: the project is a slug, and the roots
/// are absolute paths without wildcards, where they are set.
pub open spec fn is_plain_ctx(ctx: CtxView) -> bool {
    &&& naming::is_slug(ctx.project)
    &&& is_plain_root(ctx.store)
    &&& is_plain_root(ctx.data)
}

/// A path lies in the store, by absolute path.
pub open spec fn in_store(path: Seq<char>, ctx: CtxView) -> bool {
    ctx.store.len() > 0 && (text::without_trailing(ctx.store, '/') + "/"@).is_prefix_of(path)
}

/// A path lies in one part of the own project's subtree, by absolute path.
pub open spec fn in_own_store(path: Seq<char>, ctx: CtxView, dir: Seq<char>) -> bool {
    ctx.store.len() > 0 && own_absolute_dir(ctx.store, ctx.project, dir).is_prefix_of(path)
}

/// A path lies among the management chats.
pub open spec fn in_chats(path: Seq<char>, ctx: CtxView) -> bool {
    ctx.data.len() > 0 && chat_dir(ctx.data).is_prefix_of(path)
}

/// A path may be written: it lies in the own corpus, by relative or absolute
/// path, and is no run transcript.
pub open spec fn is_writable(path: Seq<char>, ctx: CtxView) -> bool {
    ||| own_dir(ctx.project, "corpus"@).is_prefix_of(path) && !own_dir(
        ctx.project,
        "corpus/runs"@,
    ).is_prefix_of(path)
    ||| in_own_store(path, ctx, "corpus"@) && !in_own_store(path, ctx, "corpus/runs"@)
}

/// A path may not be read: it is the answer key or the harness, another
/// project's subtree, the store by absolute path outside the own corpus, or a
/// management chat.
pub open spec fn is_unreadable(path: Seq<char>, ctx: CtxView) -> bool {
    ||| "benchmarks/"@.is_prefix_of(path)
    ||| "plugins/"@.is_prefix_of(path)
    ||| "store/projects/"@.is_prefix_of(path) && !own_dir(ctx.project, "corpus"@).is_prefix_of(path)
        && !own_dir(ctx.project, "missions"@).is_prefix_of(path)
    ||| in_store(path, ctx) && !in_own_store(path, ctx, "corpus"@)
    ||| in_chats(path, ctx)
}

/// The write rules that an entry starts from.
pub open spec fn start_writes(project: Seq<char>) -> Fields {
    Map::empty().insert("*"@, binding::deny()).insert(
        binding::project_pattern(project, "corpus"@),
        binding::allow(),
    )
}

/// The read rules that an entry starts from.
pub open spec fn start_reads() -> Fields {
    Map::empty().insert("*"@, binding::allow())
}

/// A text without trailing slashes is a beginning of the text.
proof fn lemma_trimmed_root(s: Seq<char>)
    requires
        is_literal(s),
    ensures
        is_literal(text::without_trailing(s, '/')),
        text::without_trailing(s, '/').is_prefix_of(s),
        text::without_trailing(s, '/').len() > 0 ==> s.len() > 0 && text::without_trailing(s, '/')[0]
            == s[0],
    decreases s.len(),
{
    if s.len() > 0 && s.last() == '/' {
        let r = s.drop_last();
        assert forall|c: char| r.contains(c) implies s.contains(c) by {
            let i = choose|i: int| 0 <= i < r.len() && r[i] == c;
            assert(s[i] == c);
        }
        lemma_trimmed_root(r);
        let t = text::without_trailing(s, '/');
        assert(t =~= s.subrange(0, t.len() as int)) by {
            assert(t =~= r.subrange(0, t.len() as int));
        }
    } else {
        assert(s =~= s.subrange(0, s.len() as int));
    }
}

/// A slug holds no wildcard and begins after the wildcard in order.
proof fn lemma_slug_literal(p: Seq<char>)
    requires
        naming::is_slug(p),
    ensures
        is_literal(p),
        '*' < p[0],
{
    assert(naming::is_slug_char(p[0]));
    assert forall|c: char| p.contains(c) implies naming::is_slug_char(c) by {
        let i = choose|i: int| 0 <= i < p.len() && p[i] == c;
        assert(naming::is_slug_char(p[i]));
    }
}

/// Rules of plain actions under keys that name no project are kept by binding.
proof fn lemma_bound_rules_kept(m: Fields, ctx: CtxView, n: nat)
    requires
        table::lists(table::in_order(m.dom()), m.dom()),
        n <= table::in_order(m.dom()).len(),
        forall|k: Seq<char>| #[trigger]
            m.dom().contains(k) ==> m[k] is Text && !binding::is_path_key(k) && !text::contains(
                k,
                "store/projects/*"@,
            ),
    ensures
        ({
            let out = binding::bound_entries(JsonView::Object(m), ctx, n);
            let seen = table::in_order(m.dom()).take(n as int);
            &&& forall|k: Seq<char>| #[trigger] out.dom().contains(k) <==> seen.contains(k)
            &&& forall|k: Seq<char>| #[trigger] out.dom().contains(k) ==> out[k] == m[k]
        }),
    decreases n,
{
    let ks = table::in_order(m.dom());
    let out = binding::bound_entries(JsonView::Object(m), ctx, n);
    if n == 0 {
        assert(ks.take(0) =~= Seq::<Seq<char>>::empty());
    } else {
        let key = ks[n - 1];
        assert(ks.contains(key));
        assert(m.dom().contains(key));
        lemma_bound_rules_kept(m, ctx, (n - 1) as nat);
        text::lemma_replaced_absent(key, "store/projects/*"@, "store/projects/"@ + ctx.project);
        assert(ks.take(n as int) =~= ks.take(n - 1).push(key));
        let prior = binding::bound_entries(JsonView::Object(m), ctx, (n - 1) as nat);
        assert(binding::bound_value(m[key], ctx) == m[key]);
        assert(binding::with_red_lines(key, m[key], ctx) == m[key]);
        assert(binding::bound_key(key, ctx.project) == key);
        assert(out == prior.insert(key, m[key]));
        assert forall|k: Seq<char>| #[trigger] out.dom().contains(k) <==> ks.take(n as int).contains(k) by {
            assert(prior.dom().contains(k) <==> ks.take(n - 1).contains(k));
            crate::agents::document::lemma_push_contains(ks.take(n - 1), key, k);
        }
        assert forall|k: Seq<char>| #[trigger] out.dom().contains(k) implies out[k] == m[k] by {
            if k != key {
                assert(prior.dom().contains(k));
            }
        }
    }
}

proof fn lemma_rules_kept(m: Fields, ctx: CtxView)
    requires
        m.dom().finite(),
        forall|k: Seq<char>| #[trigger]
            m.dom().contains(k) ==> m[k] is Text && !binding::is_path_key(k) && !text::contains(
                k,
                "store/projects/*"@,
            ),
    ensures
        binding::bound_value(JsonView::Object(m), ctx) == JsonView::Object(m),
{
    table::lemma_finite_in_order(m.dom());
    let ks = table::in_order(m.dom());
    lemma_bound_rules_kept(m, ctx, ks.len());
    assert(ks.take(ks.len() as int) =~= ks);
    assert(binding::bound_entries(JsonView::Object(m), ctx, ks.len()) =~= m);
}

/// The pattern of the own corpus holds no pattern of every project.
proof fn lemma_own_pattern_is_bound(project: Seq<char>)
    requires
        naming::is_slug(project),
    ensures
        !text::contains(binding::project_pattern(project, "corpus"@), "store/projects/*"@),
        !text::contains("*"@, "store/projects/*"@),
{
    reveal_strlit("store/projects/*");
    reveal_strlit("store/projects/");
    reveal_strlit("/");
    reveal_strlit("corpus");
    reveal_strlit("/**");
    reveal_strlit("*");
    lemma_slug_literal(project);
    let k = binding::project_pattern(project, "corpus"@);
    let p = "store/projects/*"@;
    if text::contains(k, p) {
        let i = choose|i: int| text::occurs_at(k, p, i);
        let n = project.len() as int;
        assert(k.len() == 15 + n + 1 + 6 + 3);
        assert(k.subrange(i, i + 16)[15] == '*');
        assert(k.subrange(i, i + 16)[14] == '/');
        assert(k.subrange(i, i + 16)[12] == 't');
        assert(k[i + 15] == '*');
        assert(k[i + 14] == '/');
        assert(k[i + 12] == 't');
        let at = i + 15;
        if at < 15 {
        } else if at < 15 + n {
            assert(k[at] == project[at - 15]);
            assert(project.contains('*'));
        } else if at < 22 + n {
        } else if at == 22 + n {
        } else if at == 23 + n {
            assert(k[at - 3] == 'u');
        } else {
        }
        assert(false);
    }
    if text::contains("*"@, p) {
        let i = choose|i: int| text::occurs_at("*"@, p, i);
    }
}

/// The texts that the boundary patterns are made of.
proof fn lemma_boundary_texts(ctx: CtxView)
    requires
        is_plain_ctx(ctx),
    ensures
        ({
            let p = ctx.project;
            let s = text::without_trailing(ctx.store, '/');
            let d = text::without_trailing(ctx.data, '/');
            &&& binding::project_pattern(p, "corpus"@) == own_dir(p, "corpus"@) + "**"@
            &&& binding::project_pattern(p, "missions"@) == own_dir(p, "missions"@) + "**"@
            &&& binding::project_pattern(p, "corpus/runs"@) == own_dir(p, "corpus/runs"@) + "**"@
            &&& binding::absolute_pattern(ctx.store, p, "corpus"@) == own_absolute_dir(
                ctx.store,
                p,
                "corpus"@,
            ) + "**"@
            &&& binding::absolute_pattern(ctx.store, p, "corpus/runs"@) == own_absolute_dir(
                ctx.store,
                p,
                "corpus/runs"@,
            ) + "**"@
            &&& d + "/var/chat/**"@ == chat_dir(ctx.data) + "**"@
            &&& s + "/**"@ == (s + "/"@) + "**"@
            &&& own_dir(p, "corpus/runs"@) == own_dir(p, "corpus"@) + "runs/"@
            &&& own_absolute_dir(ctx.store, p, "corpus/runs"@) == own_absolute_dir(
                ctx.store,
                p,
                "corpus"@,
            ) + "runs/"@
            &&& is_literal(own_dir(p, "corpus"@))
            &&& is_literal(own_dir(p, "missions"@))
            &&& is_literal(own_dir(p, "corpus/runs"@))
            &&& is_literal(own_absolute_dir(ctx.store, p, "corpus"@))
            &&& is_literal(own_absolute_dir(ctx.store, p, "corpus/runs"@))
            &&& is_literal(chat_dir(ctx.data))
            &&& is_literal(s + "/"@)
            &&& own_dir(p, "corpus"@).len() > 15
            &&& own_dir(p, "corpus"@)[0] == 's'
            &&& own_dir(p, "missions"@)[0] == 's'
            &&& own_absolute_dir(ctx.store, p, "corpus"@).len() > 0
            &&& own_absolute_dir(ctx.store, p, "corpus"@)[0] == '/'
            &&& chat_dir(ctx.data)[0] == '/'
            &&& (s + "/"@)[0] == '/'
            &&& (s + "/"@).len() > 0
            &&& chat_dir(ctx.data).len() > 0
            &&& own_absolute_dir(ctx.store, p, "corpus"@) == (s + "/"@) + ("projects/"@ + p
                + "/corpus/"@)
            &&& own_dir(p, "corpus"@) == "store/projects/"@ + (p + "/corpus/"@)
            &&& own_dir(p, "missions"@) == "store/projects/"@ + (p + "/missions/"@)
        }),
{
    let p = ctx.project;
    let s = text::without_trailing(ctx.store, '/');
    let d = text::without_trailing(ctx.data, '/');
    reveal_strlit("**");
    reveal_strlit("/**");
    reveal_strlit("/");
    reveal_strlit("corpus");
    reveal_strlit("missions");
    reveal_strlit("corpus/runs");
    reveal_strlit("runs/");
    reveal_strlit("/projects/");
    reveal_strlit("projects/");
    reveal_strlit("/corpus/");
    reveal_strlit("/missions/");
    reveal_strlit("store/projects/");
    reveal_strlit("/var/chat/");
    reveal_strlit("/var/chat/**");
    lemma_slug_literal(p);
    lemma_trimmed_root(ctx.store);
    lemma_trimmed_root(ctx.data);
    lemma_literal_texts();
    assert(binding::project_pattern(p, "corpus"@) =~= own_dir(p, "corpus"@) + "**"@);
    assert(binding::project_pattern(p, "missions"@) =~= own_dir(p, "missions"@) + "**"@);
    assert(binding::project_pattern(p, "corpus/runs"@) =~= own_dir(p, "corpus/runs"@) + "**"@);
    assert(binding::absolute_pattern(ctx.store, p, "corpus"@) =~= own_absolute_dir(
        ctx.store,
        p,
        "corpus"@,
    ) + "**"@);
    assert(binding::absolute_pattern(ctx.store, p, "corpus/runs"@) =~= own_absolute_dir(
        ctx.store,
        p,
        "corpus/runs"@,
    ) + "**"@);
    assert(d + "/var/chat/**"@ =~= chat_dir(ctx.data) + "**"@);
    assert(s + "/**"@ =~= (s + "/"@) + "**"@);
    assert(own_dir(p, "corpus/runs"@) =~= own_dir(p, "corpus"@) + "runs/"@);
    assert(own_absolute_dir(ctx.store, p, "corpus/runs"@) =~= own_absolute_dir(
        ctx.store,
        p,
        "corpus"@,
    ) + "runs/"@);
    lemma_literal_concat("store/projects/"@, p);
    lemma_literal_concat("store/projects/"@ + p, "/"@);
    lemma_literal_concat("store/projects/"@ + p + "/"@, "corpus"@);
    lemma_literal_concat("store/projects/"@ + p + "/"@ + "corpus"@, "/"@);
    lemma_literal_concat("store/projects/"@ + p + "/"@, "missions"@);
    lemma_literal_concat("store/projects/"@ + p + "/"@ + "missions"@, "/"@);
    lemma_literal_concat(own_dir(p, "corpus"@), "runs/"@);
    lemma_literal_concat(s, "/projects/"@);
    lemma_literal_concat(s + "/projects/"@, p);
    lemma_literal_concat(s + "/projects/"@ + p, "/"@);
    lemma_literal_concat(s + "/projects/"@ + p + "/"@, "corpus"@);
    lemma_literal_concat(s + "/projects/"@ + p + "/"@ + "corpus"@, "/"@);
    lemma_literal_concat(own_absolute_dir(ctx.store, p, "corpus"@), "runs/"@);
    lemma_literal_concat(d, "/var/chat/"@);
    lemma_literal_concat(s, "/"@);
    assert(own_absolute_dir(ctx.store, p, "corpus"@) =~= (s + "/"@) + ("projects/"@ + p
        + "/corpus/"@));
    assert(own_dir(p, "corpus"@) =~= "store/projects/"@ + (p + "/corpus/"@));
    assert(own_dir(p, "missions"@) =~= "store/projects/"@ + (p + "/missions/"@));
}

/// The fixed parts of the patterns hold no wildcard.
proof fn lemma_literal_texts()
    ensures
        is_literal("store/projects/"@),
        is_literal("/"@),
        is_literal("corpus"@),
        is_literal("missions"@),
        is_literal("runs/"@),
        is_literal("/projects/"@),
        is_literal("/var/chat/"@),
        is_literal("benchmarks/"@),
        is_literal("plugins/"@),
{
    reveal_strlit("store/projects/");
    reveal_strlit("/");
    reveal_strlit("corpus");
    reveal_strlit("missions");
    reveal_strlit("runs/");
    reveal_strlit("/projects/");
    reveal_strlit("/var/chat/");
    reveal_strlit("benchmarks/");
    reveal_strlit("plugins/");
}

/// Patterns of one directory and of one below it are ordered, and the pattern
/// with a wildcard first comes first.
proof fn lemma_runs_after(l: Seq<char>)
    ensures
        !table::precedes(l + "runs/"@ + "**"@, l + "**"@),
        l + "runs/"@ + "**"@ != l + "**"@,
{
    reveal_strlit("**");
    reveal_strlit("runs/");
    assert(l + "runs/"@ + "**"@ =~= l + ("runs/"@ + "**"@));
    lemma_precedes_common(l, "runs/"@ + "**"@, "**"@);
    assert((l + "runs/"@ + "**"@).len() != (l + "**"@).len());
}

/// A beginning of a text is decided by the characters it shares.
proof fn lemma_prefix_first(l: Seq<char>, t: Seq<char>)
    requires
        l.len() > 0,
        l.is_prefix_of(t),
    ensures
        t.len() > 0,
        t[0] == l[0],
{
    assert(t.subrange(0, l.len() as int)[0] == l[0]);
}

/// A longer beginning contains the shorter.
proof fn lemma_prefix_of_concat(l: Seq<char>, m: Seq<char>, t: Seq<char>)
    requires
        (l + m).is_prefix_of(t),
    ensures
        l.is_prefix_of(t),
{
    assert(l =~= t.subrange(0, l.len() as int)) by {
        assert forall|i: int| 0 <= i < l.len() implies l[i] == t[i] by {
            assert((l + m)[i] == t.subrange(0, (l + m).len() as int)[i]);
        }
    }
}

/// What the write rules of an entry that says nothing about paths decide.
proof fn lemma_start_writes_decide(ctx: CtxView, path: Seq<char>)
    requires
        is_plain_ctx(ctx),
        !(in_chats(path, ctx) && in_own_store(path, ctx, "corpus"@)),
    ensures
        action_on(binding::write_rules(start_writes(ctx.project), ctx), path) == Some(
            if is_writable(path, ctx) {
                "allow"@
            } else {
                "deny"@
            },
        ),
{
    let p = ctx.project;
    let s = text::without_trailing(ctx.store, '/');
    let rules = binding::write_rules(start_writes(p), ctx);
    let l1 = own_dir(p, "corpus"@);
    let la = own_absolute_dir(ctx.store, p, "corpus"@);
    let star = "*"@;
    let k1 = l1 + "**"@;
    let k1r = l1 + "runs/"@ + "**"@;
    let ag = "store/projects/*/agents/**"@;
    let ch = chat_dir(ctx.data) + "**"@;
    let sa = (s + "/"@) + "**"@;
    let a1 = la + "**"@;
    let a1r = la + "runs/"@ + "**"@;
    lemma_boundary_texts(ctx);
    lemma_slug_literal(p);
    table::lemma_finite_in_order(rules.dom());
    reveal_strlit("*");
    reveal_strlit("**");
    reveal_strlit("allow");
    reveal_strlit("deny");
    reveal_strlit("store/projects/*/agents/**");
    reveal_strlit("store/projects/");
    reveal_strlit("projects/");
    lemma_runs_after(l1);
    lemma_runs_after(la);
    lemma_glob_below(l1, path);
    lemma_glob_below(l1 + "runs/"@, path);
    lemma_glob_below(la, path);
    lemma_glob_below(la + "runs/"@, path);
    lemma_glob_below(chat_dir(ctx.data), path);
    lemma_glob_below(s + "/"@, path);
    // The order of the own corpus against the agent trees of every project.
    assert(ag =~= "store/projects/"@ + ag.skip(15));
    assert(k1 =~= "store/projects/"@ + (p + "/corpus/"@ + "**"@));
    assert(k1r =~= "store/projects/"@ + (p + "/corpus/"@ + "runs/"@ + "**"@));
    lemma_precedes_common("store/projects/"@, p + "/corpus/"@ + "**"@, ag.skip(15));
    lemma_precedes_common("store/projects/"@, p + "/corpus/"@ + "runs/"@ + "**"@, ag.skip(15));
    assert(!table::precedes(k1, ag));
    assert(!table::precedes(k1r, ag));
    assert(k1 != ag) by {
        assert(k1[15] == p[0]);
        assert(ag[15] == '*');
    }
    // The order of the own corpus against the whole store.
    assert(a1 =~= (s + "/"@) + ("projects/"@ + p + "/corpus/"@ + "**"@));
    assert(a1r =~= (s + "/"@) + ("projects/"@ + p + "/corpus/"@ + "runs/"@ + "**"@));
    lemma_precedes_common(s + "/"@, "projects/"@ + p + "/corpus/"@ + "**"@, "**"@);
    lemma_precedes_common(s + "/"@, "projects/"@ + p + "/corpus/"@ + "runs/"@ + "**"@, "**"@);
    assert(!table::precedes(a1, sa));
    assert(!table::precedes(a1r, sa));
    assert(a1 != sa) by {
        assert(a1[(s + "/"@).len() as int] == 'p');
        assert(sa[(s + "/"@).len() as int] == '*');
    }
    assert(ch[0] == '/' && sa[0] == '/' && a1[0] == '/' && a1r[0] == '/');
    assert(k1[0] == 's' && k1r[0] == 's' && ag[0] == 's' && star[0] == '*');
    // The chats are not the corpus.
    assert(ch != a1) by {
        reveal_strlit("/var/chat/");
        reveal_strlit("/corpus/");
        assert(ch[ch.len() - 4] == 't');
        assert(a1[a1.len() - 4] == 's');
    }
    // What the rules hold.
    assert forall|k: Seq<char>| #[trigger] rules.dom().contains(k) implies k == star || k == k1 || k == k1r
        || k == ag || k == ch || k == sa || k == a1 || k == a1r by {}
    assert forall|k: Seq<char>| #[trigger] rules.dom().contains(k) implies rules[k] == (if k == k1 || k
        == a1 {
        binding::allow()
    } else {
        binding::deny()
    }) by {}
    lemma_glob_star(path);
    assert(star =~= seq!['*']);
    table::lemma_precedes_irreflexive(k1);
    table::lemma_precedes_irreflexive(k1r);
    table::lemma_precedes_irreflexive(a1);
    table::lemma_precedes_irreflexive(a1r);
    if (l1 + "runs/"@).is_prefix_of(path) {
        lemma_prefix_of_concat(l1, "runs/"@, path);
        lemma_prefix_first(l1, path);
        if la.is_prefix_of(path) {
            lemma_prefix_first(la, path);
        }
        lemma_greatest_decides(rules, path, k1r, "deny"@);
    } else if l1.is_prefix_of(path) {
        lemma_prefix_first(l1, path);
        if la.is_prefix_of(path) {
            lemma_prefix_first(la, path);
        }
        lemma_greatest_decides(rules, path, k1, "allow"@);
    } else if ctx.store.len() > 0 && (la + "runs/"@).is_prefix_of(path) {
        lemma_prefix_of_concat(la, "runs/"@, path);
        lemma_prefix_first(la, path);
        assert(!glob(ag, path));
        lemma_greatest_decides(rules, path, a1r, "deny"@);
    } else if ctx.store.len() > 0 && la.is_prefix_of(path) {
        lemma_prefix_first(la, path);
        assert(!glob(ag, path));
        lemma_greatest_decides(rules, path, a1, "allow"@);
    } else {
        lemma_all_agree(rules, path, star, "deny"@);
    }
}

/// An agent whose entry says nothing about writing (or editing) may write its
/// own project's corpus, by relative path and, where the store's root is set,
/// by absolute path, except the run transcripts, and nothing else at all.
pub proof fn law_write_boundary(
    permission: JsonView,
    ctx: CtxView,
    key: Seq<char>,
    path: Seq<char>,
)
    requires
        is_plain_ctx(ctx),
        boundary::stored_fields(permission).dom().finite(),
        key == "write"@ || key == "edit"@,
        !boundary::stored_fields(permission).dom().contains(key),
        !(in_chats(path, ctx) && in_own_store(path, ctx, "corpus"@)),
    ensures
        binding::bound_permission(permission, ctx).dom().contains(key),
        binding::bound_permission(permission, ctx)[key] matches JsonView::Object(rules) && action_on(
            rules,
            path,
        ) == Some(
            if is_writable(path, ctx) {
                "allow"@
            } else {
                "deny"@
            },
        ),
{
    boundary::lemma_plain_keys();
    let stored = boundary::stored_fields(permission);
    let full = binding::with_path_defaults(stored, ctx.project);
    assert(full.dom().contains(key));
    assert(full[key] == JsonView::Object(start_writes(ctx.project)));
    boundary::lemma_bound_plain(full, ctx, key);
    lemma_own_pattern_is_bound(ctx.project);
    let start = start_writes(ctx.project);
    assert forall|k: Seq<char>| #[trigger] start.dom().contains(k) implies start[k] is Text
        && !binding::is_path_key(k) && !text::contains(k, "store/projects/*"@) by {
        reveal_strlit("*");
        lemma_boundary_texts(ctx);
    }
    lemma_rules_kept(start, ctx);
    let m = boundary::before_tools(permission, ctx);
    boundary::lemma_with_tools(m, ctx.role, 8);
    assert(binding::with_tools(m, ctx.role, 8).dom().contains(key) == m.dom().contains(key));
    lemma_start_writes_decide(ctx, path);
}

/// What the read rules of an entry that says nothing about paths decide.
proof fn lemma_start_reads_decide(ctx: CtxView, path: Seq<char>)
    requires
        is_plain_ctx(ctx),
        !(in_chats(path, ctx) && in_own_store(path, ctx, "corpus"@)),
    ensures
        action_on(binding::read_rules(start_reads(), ctx), path) == Some(
            if is_unreadable(path, ctx) {
                "deny"@
            } else {
                "allow"@
            },
        ),
{
    let p = ctx.project;
    let s = text::without_trailing(ctx.store, '/');
    let rules = binding::read_rules(start_reads(), ctx);
    let l1 = own_dir(p, "corpus"@);
    let lm = own_dir(p, "missions"@);
    let la = own_absolute_dir(ctx.store, p, "corpus"@);
    let star = "*"@;
    let bm = "benchmarks/**"@;
    let pl = "plugins/**"@;
    let sp = "store/projects/*"@;
    let k1 = l1 + "**"@;
    let km = lm + "**"@;
    let ch = chat_dir(ctx.data) + "**"@;
    let sa = (s + "/"@) + "**"@;
    let a1 = la + "**"@;
    lemma_boundary_texts(ctx);
    lemma_slug_literal(p);
    lemma_literal_texts();
    table::lemma_finite_in_order(rules.dom());
    reveal_strlit("*");
    reveal_strlit("**");
    reveal_strlit("allow");
    reveal_strlit("deny");
    reveal_strlit("benchmarks/**");
    reveal_strlit("plugins/**");
    reveal_strlit("benchmarks/");
    reveal_strlit("plugins/");
    reveal_strlit("store/projects/*");
    reveal_strlit("store/projects/");
    reveal_strlit("projects/");
    reveal_strlit("/corpus/");
    reveal_strlit("/missions/");
    assert(bm =~= "benchmarks/"@ + "**"@);
    assert(pl =~= "plugins/"@ + "**"@);
    assert(sp =~= "store/projects/"@ + "*"@);
    lemma_glob_below("benchmarks/"@, path);
    lemma_glob_below("plugins/"@, path);
    lemma_glob_below("store/projects/"@, path);
    lemma_glob_below(l1, path);
    lemma_glob_below(lm, path);
    lemma_glob_below(la, path);
    lemma_glob_below(chat_dir(ctx.data), path);
    lemma_glob_below(s + "/"@, path);
    // No rule names a project before the boundary is drawn.
    let red = binding::with_default(
        binding::with_default(start_reads(), bm, binding::deny()),
        pl,
        binding::deny(),
    );
    assert(!binding::has_boundary(red)) by {
        assert forall|k: Seq<char>| #[trigger]
            red.dom().contains(k) implies !"store/projects/"@.is_prefix_of(k) by {
            if "store/projects/"@.is_prefix_of(k) {
                lemma_prefix_first("store/projects/"@, k);
            }
        }
    }
    // Order.
    assert(k1 =~= "store/projects/"@ + (p + "/corpus/"@ + "**"@));
    assert(km =~= "store/projects/"@ + (p + "/missions/"@ + "**"@));
    lemma_precedes_common("store/projects/"@, p + "/corpus/"@ + "**"@, "*"@);
    lemma_precedes_common("store/projects/"@, p + "/missions/"@ + "**"@, "*"@);
    assert(!table::precedes(k1, sp));
    assert(!table::precedes(km, sp));
    assert(a1 =~= (s + "/"@) + ("projects/"@ + p + "/corpus/"@ + "**"@));
    lemma_precedes_common(s + "/"@, "projects/"@ + p + "/corpus/"@ + "**"@, "**"@);
    assert(!table::precedes(a1, sa));
    assert(a1 != sa) by {
        assert(a1[(s + "/"@).len() as int] == 'p');
        assert(sa[(s + "/"@).len() as int] == '*');
    }
    assert(k1 != sp) by {
        assert(k1[15] == p[0]);
    }
    assert(km != sp) by {
        assert(km[15] == p[0]);
    }
    assert(ch[0] == '/' && sa[0] == '/' && a1[0] == '/');
    assert(k1[0] == 's' && km[0] == 's' && sp[0] == 's' && star[0] == '*');
    assert(bm[0] == 'b' && pl[0] == 'p');
    // The chats are not the corpus.
    assert(ch != a1) by {
        reveal_strlit("/var/chat/");
        reveal_strlit("/corpus/");
        assert(ch[ch.len() - 4] == 't');
        assert(a1[a1.len() - 4] == 's');
    }
    assert forall|k: Seq<char>| #[trigger] rules.dom().contains(k) implies k == star || k == bm || k == pl
        || k == sp || k == k1 || k == km || k == ch || k == sa || k == a1 by {}
    assert(star != ch && star != sa && star != a1 && star != k1 && star != km && star != sp && star != bm
        && star != pl);
    assert forall|k: Seq<char>| #[trigger] rules.dom().contains(k) implies rules[k] == (if k == star || k
        == k1 || k == km || k == a1 {
        binding::allow()
    } else {
        binding::deny()
    }) by {}
    lemma_glob_star(path);
    assert(star =~= seq!['*']);
    table::lemma_precedes_irreflexive(k1);
    table::lemma_precedes_irreflexive(km);
    table::lemma_precedes_irreflexive(a1);
    // Both own directories at once is impossible.
    if l1.is_prefix_of(path) && lm.is_prefix_of(path) {
        let at = 15 + p.len() as int;
        assert(l1[at + 1] == 'c');
        assert(lm[at + 1] == 'm');
        assert(path.subrange(0, l1.len() as int)[at + 1] == 'c');
        assert(path.subrange(0, lm.len() as int)[at + 1] == 'm');
        assert(false);
    }
    if l1.is_prefix_of(path) {
        lemma_prefix_first(l1, path);
        lemma_not_prefix(path);
        if la.is_prefix_of(path) {
            lemma_prefix_first(la, path);
        }
        if (s + "/"@).is_prefix_of(path) {
            lemma_prefix_first(s + "/"@, path);
        }
        if chat_dir(ctx.data).is_prefix_of(path) {
            lemma_prefix_first(chat_dir(ctx.data), path);
        }
        lemma_greatest_decides(rules, path, k1, "allow"@);
    } else if lm.is_prefix_of(path) {
        lemma_prefix_first(lm, path);
        lemma_not_prefix(path);
        if (s + "/"@).is_prefix_of(path) {
            lemma_prefix_first(s + "/"@, path);
        }
        if chat_dir(ctx.data).is_prefix_of(path) {
            lemma_prefix_first(chat_dir(ctx.data), path);
        }
        lemma_greatest_decides(rules, path, km, "allow"@);
    } else if ctx.store.len() > 0 && la.is_prefix_of(path) {
        lemma_prefix_first(la, path);
        lemma_not_prefix(path);
        if "store/projects/"@.is_prefix_of(path) {
            lemma_prefix_first("store/projects/"@, path);
        }
        lemma_greatest_decides(rules, path, a1, "allow"@);
    } else if is_unreadable(path, ctx) {
        let key = if "benchmarks/"@.is_prefix_of(path) {
            bm
        } else if "plugins/"@.is_prefix_of(path) {
            pl
        } else if "store/projects/"@.is_prefix_of(path) {
            sp
        } else if in_store(path, ctx) {
            sa
        } else {
            ch
        };
        assert(glob(key, path));
        lemma_denied_above_star(rules, path, key);
    } else {
        lemma_all_agree(rules, path, star, "allow"@);
    }
}

/// A path that begins with a letter of no fixed denial is under none.
proof fn lemma_not_prefix(path: Seq<char>)
    ensures
        path.len() > 0 && (path[0] == 's' || path[0] == '/') ==> !"benchmarks/"@.is_prefix_of(path)
            && !"plugins/"@.is_prefix_of(path),
{
    reveal_strlit("benchmarks/");
    reveal_strlit("plugins/");
    if "benchmarks/"@.is_prefix_of(path) {
        lemma_prefix_first("benchmarks/"@, path);
    }
    if "plugins/"@.is_prefix_of(path) {
        lemma_prefix_first("plugins/"@, path);
    }
}

/// Where the only matching rule that allows is the one for everything, a
/// matching denial decides.
proof fn lemma_denied_above_star(rules: Fields, path: Seq<char>, key: Seq<char>)
    requires
        table::lists(table::in_order(rules.dom()), rules.dom()),
        rules.dom().contains(key),
        rules[key] == binding::deny(),
        glob(key, path),
        key.len() > 0,
        '*' < key[0],
        forall|k: Seq<char>| #[trigger]
            rules.dom().contains(k) && glob(k, path) && k != "*"@ ==> rules[k] == binding::deny(),
    ensures
        action_on(rules, path) == Some("deny"@),
{
    let ks = table::in_order(rules.dom());
    assert(ks.contains(key));
    let at = choose|i: int| 0 <= i < ks.len() && ks[i] == key;
    lemma_denied_from(rules, path, at, ks.len());
}

proof fn lemma_denied_from(rules: Fields, path: Seq<char>, at: int, n: nat)
    requires
        table::lists(table::in_order(rules.dom()), rules.dom()),
        0 <= at < n <= table::in_order(rules.dom()).len(),
        rules[table::in_order(rules.dom())[at]] == binding::deny(),
        glob(table::in_order(rules.dom())[at], path),
        table::in_order(rules.dom())[at].len() > 0,
        '*' < table::in_order(rules.dom())[at][0],
        forall|k: Seq<char>| #[trigger]
            rules.dom().contains(k) && glob(k, path) && k != "*"@ ==> rules[k] == binding::deny(),
    ensures
        decided(rules, path, n) == Some("deny"@),
    decreases n,
{
    let ks = table::in_order(rules.dom());
    if n - 1 > at {
        let k = ks[n - 1];
        assert(ks.contains(k));
        assert(rules.dom().contains(k));
        assert(table::precedes(ks[at], k));
        reveal_strlit("*");
        lemma_denied_from(rules, path, at, (n - 1) as nat);
    }
}

/// An agent whose entry says nothing about reading may read everything but the
/// answer key and the harness, other projects, the rest of the store by
/// absolute path, and the management chats; the last two where their roots are
/// set.
pub proof fn law_read_boundary(permission: JsonView, ctx: CtxView, path: Seq<char>)
    requires
        is_plain_ctx(ctx),
        boundary::stored_fields(permission).dom().finite(),
        !boundary::stored_fields(permission).dom().contains("read"@),
        !(in_chats(path, ctx) && in_own_store(path, ctx, "corpus"@)),
    ensures
        binding::bound_permission(permission, ctx).dom().contains("read"@),
        binding::bound_permission(permission, ctx)["read"@] matches JsonView::Object(rules)
            && action_on(rules, path) == Some(
            if is_unreadable(path, ctx) {
                "deny"@
            } else {
                "allow"@
            },
        ),
{
    boundary::lemma_plain_keys();
    let stored = boundary::stored_fields(permission);
    let full = binding::with_path_defaults(stored, ctx.project);
    boundary::lemma_bound_plain(full, ctx, "read"@);
    lemma_own_pattern_is_bound(ctx.project);
    let start = start_reads();
    assert forall|k: Seq<char>| #[trigger] start.dom().contains(k) implies start[k] is Text
        && !binding::is_path_key(k) && !text::contains(k, "store/projects/*"@) by {
        reveal_strlit("*");
    }
    lemma_rules_kept(start, ctx);
    let m = boundary::before_tools(permission, ctx);
    boundary::lemma_with_tools(m, ctx.role, 8);
    assert(binding::with_tools(m, ctx.role, 8).dom().contains("read"@) == m.dom().contains("read"@));
    lemma_start_reads_decide(ctx, path);
}

} // verus!
