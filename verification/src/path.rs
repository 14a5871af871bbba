//! Unix paths as texts: joining, parents, components.
use vstd::prelude::*;
use crate::text;

verus! {

/// A path joined onto another: an absolute one replaces it, any other follows
/// it after a separator.
pub open spec fn joined(base: Seq<char>, rel: Seq<char>) -> Seq<char> {
    if base.len() == 0 || (rel.len() > 0 && rel[0] == '/') {
        rel
    } else if base.last() == '/' {
        base + rel
    } else {
        base + "/"@ + rel
    }
}

/// `rel` joined onto `base`.
pub fn join(base: &str, rel: &str) -> (r: String)
    ensures
        r@ == joined(base@, rel@),
{
    let b = text::chars_of(base);
    let p = text::chars_of(rel);
    if b.len() == 0 || (p.len() > 0 && p[0] == '/') {
        rel.to_owned()
    } else if b[b.len() - 1] == '/' {
        text::cat2(base, rel)
    } else {
        text::cat3(base, "/", rel)
    }
}

/// Where the components of a path begin: after the root, if it has one.
pub open spec fn body_start(s: Seq<char>) -> int {
    if s.len() > 0 && s[0] == '/' {
        1
    } else {
        0
    }
}

/// How much of the first `n` characters is left without separators and `.`
/// components at the end.
pub open spec fn trimmed_len(s: Seq<char>, n: int) -> int
    decreases n,
{
    if n <= body_start(s) || n > s.len() {
        n
    } else if s[n - 1] == '/' {
        trimmed_len(s, n - 1)
    } else if s[n - 1] == '.' && n >= 2 && s[n - 2] == '/' {
        trimmed_len(s, n - 1)
    } else {
        n
    }
}

/// Where the component that ends before position `n` starts.
pub open spec fn component_start(s: Seq<char>, n: int) -> int
    decreases n,
{
    if n <= body_start(s) || n > s.len() || s[n - 1] == '/' {
        n
    } else {
        component_start(s, n - 1)
    }
}

/// A path without its last component; none where there is no component.
pub open spec fn parent_of(s: Seq<char>) -> Option<Seq<char>> {
    let n = trimmed_len(s, s.len() as int);
    if n <= body_start(s) {
        None
    } else {
        Some(s.take(trimmed_len(s, component_start(s, n))))
    }
}

/// Trimming never makes a path longer.
proof fn lemma_trimmed_len(s: Seq<char>, n: int)
    requires
        0 <= n <= s.len(),
    ensures
        0 <= trimmed_len(s, n) <= n,
    decreases n,
{
    if n > body_start(s) && (s[n - 1] == '/' || (s[n - 1] == '.' && n >= 2 && s[n - 2] == '/')) {
        lemma_trimmed_len(s, n - 1);
    }
}

/// A path without its last component is shorter.
pub proof fn lemma_parent_is_shorter(s: Seq<char>)
    ensures
        parent_of(s) matches Some(parent) ==> parent.len() < s.len(),
{
    let n = trimmed_len(s, s.len() as int);
    lemma_trimmed_len(s, s.len() as int);
    if n > body_start(s) {
        let c = component_start(s, n);
        lemma_component_start(s, n);
        lemma_trimmed_end(s, s.len() as int);
        assert(s[n - 1] != '/');
        lemma_component_start(s, n - 1);
        assert(c == component_start(s, n - 1));
        lemma_trimmed_len(s, c);
    }
}

/// What is left after trimming does not end in a separator.
proof fn lemma_trimmed_end(s: Seq<char>, n: int)
    requires
        0 <= n <= s.len(),
    ensures
        trimmed_len(s, n) > body_start(s) ==> s[trimmed_len(s, n) - 1] != '/',
    decreases n,
{
    if n > body_start(s) && (s[n - 1] == '/' || (s[n - 1] == '.' && n >= 2 && s[n - 2] == '/')) {
        lemma_trimmed_end(s, n - 1);
    }
}

fn trim_len(s: &[char], n: usize) -> (r: usize)
    requires
        n <= s@.len(),
    ensures
        r == trimmed_len(s@, n as int),
        r <= n,
{
    let start: usize = if s.len() > 0 && s[0] == '/' { 1 } else { 0 };
    let mut i: usize = n;
    while i > start && (s[i - 1] == '/' || (s[i - 1] == '.' && i >= 2 && s[i - 2] == '/'))
        invariant
            start == body_start(s@),
            i <= n <= s@.len(),
            trimmed_len(s@, i as int) == trimmed_len(s@, n as int),
        decreases i,
    {
        i = i - 1;
    }
    i
}

/// The path without its last component; none where there is no component.
pub fn parent(path: &str) -> (r: Option<String>)
    ensures
        text::opt_text(r) == parent_of(path@),
{
    let s = text::chars_of(path);
    let start: usize = if s.len() > 0 && s[0] == '/' { 1 } else { 0 };
    let n = trim_len(s.as_slice(), s.len());
    if n <= start {
        return None;
    }
    let mut i: usize = n;
    while i > start && s[i - 1] != '/'
        invariant
            start == body_start(s@),
            i <= n <= s@.len(),
            component_start(s@, i as int) == component_start(s@, n as int),
        decreases i,
    {
        i = i - 1;
    }
    let m = trim_len(s.as_slice(), i);
    let out = text::text_of(s.as_slice(), 0, m);
    assert(out@ =~= s@.take(m as int));
    Some(out)
}

// ---------------------------------------------------------------------
// Components
// ---------------------------------------------------------------------

/// A component of a path.
#[derive(Debug, PartialEq, Eq)]
pub enum Component {
    Root,
    Cur,
    Parent,
    Normal(String),
}

/// What a component holds.
#[verifier::ext_equal]
pub enum Part {
    Root,
    Cur,
    Parent,
    Normal(Seq<char>),
}

impl View for Component {
    type V = Part;

    open spec fn view(&self) -> Part {
        match *self {
            Component::Root => Part::Root,
            Component::Cur => Part::Cur,
            Component::Parent => Part::Parent,
            Component::Normal(name) => Part::Normal(name@),
        }
    }
}

/// What a row of components holds.
pub open spec fn part_views(v: Seq<Component>) -> Seq<Part> {
    Seq::new(v.len(), |i: int| v[i]@)
}

/// The components among the first `n` pieces of a path: empty pieces and `.`
/// are passed over, except a `.` that begins a relative path.
pub open spec fn piece_parts(pieces: Seq<Seq<char>>, n: nat) -> Seq<Part>
    decreases n,
{
    if n == 0 {
        Seq::empty()
    } else {
        let before = piece_parts(pieces, (n - 1) as nat);
        let p = pieces[n - 1];
        if p.len() == 0 {
            before
        } else if p == "."@ {
            if n == 1 {
                before.push(Part::Cur)
            } else {
                before
            }
        } else if p == ".."@ {
            before.push(Part::Parent)
        } else {
            before.push(Part::Normal(p))
        }
    }
}

/// The components of a path.
pub open spec fn parts(s: Seq<char>) -> Seq<Part> {
    let pieces = text::pieces(s, '/');
    let body = piece_parts(pieces, pieces.len());
    if s.len() > 0 && s[0] == '/' {
        seq![Part::Root] + body
    } else {
        body
    }
}

/// The components of `path`.
pub fn components(path: &str) -> (r: Vec<Component>)
    ensures
        part_views(r@) == parts(path@),
{
    let s = text::chars_of(path);
    let all = text::split(path, '/');
    let mut out: Vec<Component> = Vec::new();
    let rooted = s.len() > 0 && s[0] == '/';
    if rooted {
        out.push(Component::Root);
    }
    let ghost head = if rooted {
        seq![Part::Root]
    } else {
        Seq::empty()
    };
    let mut i: usize = 0;
    assert(part_views(out@) =~= head + piece_parts(text::texts(all@), 0));
    while i < all.len()
        invariant
            i <= all@.len(),
            part_views(out@) == head + piece_parts(text::texts(all@), i as nat),
        decreases all@.len() - i,
    {
        let p = all[i].as_str();
        assert(text::texts(all@)[i as int] == p@);
        let ghost was = out@;
        let ghost before = piece_parts(text::texts(all@), i as nat);
        if p.is_empty() {
        } else if text::same(p, ".") {
            if i == 0 {
                out.push(Component::Cur);
                assert(part_views(out@) =~= part_views(was).push(Part::Cur));
                assert((head + before).push(Part::Cur) =~= head + before.push(Part::Cur));
            }
        } else if text::same(p, "..") {
            out.push(Component::Parent);
            assert(part_views(out@) =~= part_views(was).push(Part::Parent));
            assert((head + before).push(Part::Parent) =~= head + before.push(Part::Parent));
        } else {
            out.push(Component::Normal(p.to_owned()));
            assert(part_views(out@) =~= part_views(was).push(Part::Normal(p@)));
            assert((head + before).push(Part::Normal(p@)) =~= head + before.push(Part::Normal(p@)));
        }
        i = i + 1;
    }
    assert(Seq::<Part>::empty() + piece_parts(text::texts(all@), all@.len()) =~= piece_parts(
        text::texts(all@),
        all@.len(),
    ));
    out
}

/// A path lies in a directory, or is it: the directory's components begin the
/// path's.
pub open spec fn is_within(path: Seq<char>, dir: Seq<char>) -> bool {
    parts(dir).is_prefix_of(parts(path))
}

/// Are the two the same component?
fn same_component(a: &Component, b: &Component) -> (r: bool)
    ensures
        r == (a@ == b@),
{
    match (a, b) {
        (Component::Root, Component::Root) => true,
        (Component::Cur, Component::Cur) => true,
        (Component::Parent, Component::Parent) => true,
        (Component::Normal(x), Component::Normal(y)) => text::same(x.as_str(), y.as_str()),
        _ => false,
    }
}

/// Does `path` lie in the directory `dir`, component by component?
pub fn within(path: &str, dir: &str) -> (r: bool)
    ensures
        r == is_within(path@, dir@),
{
    let p = components(path);
    let d = components(dir);
    assert(part_views(p@).len() == p@.len());
    assert(part_views(d@).len() == d@.len());
    if d.len() > p.len() {
        return false;
    }
    let mut i: usize = 0;
    while i < d.len()
        invariant
            i <= d@.len() <= p@.len(),
            part_views(p@) == parts(path@),
            part_views(d@) == parts(dir@),
            forall|j: int| 0 <= j < i ==> part_views(d@)[j] == part_views(p@)[j],
        decreases d@.len() - i,
    {
        if !same_component(&d[i], &p[i]) {
            assert(part_views(d@)[i as int] != part_views(p@)[i as int]);
            assert(parts(path@).subrange(0, parts(dir@).len() as int)[i as int]
                == part_views(p@)[i as int]);
            return false;
        }
        i = i + 1;
    }
    assert(parts(dir@) =~= parts(path@).subrange(0, parts(dir@).len() as int));
    true
}

/// The name of a path's last component, if that is a plain name.
pub open spec fn file_name_of(s: Seq<char>) -> Option<Seq<char>> {
    let p = parts(s);
    if p.len() == 0 {
        None
    } else {
        match p.last() {
            Part::Normal(name) => Some(name),
            _ => None,
        }
    }
}

/// The name of the last component of `path`, if that is a plain name.
pub fn file_name(path: &str) -> (r: Option<String>)
    ensures
        text::opt_text(r) == file_name_of(path@),
{
    let mut all = components(path);
    assert(part_views(all@).len() == all@.len());
    let last = all.pop();
    match last {
        Some(Component::Normal(name)) => {
            assert(parts(path@).last() == Part::Normal(name@));
            Some(name)
        },
        Some(c) => {
            assert(parts(path@).last() == c@);
            None
        },
        None => None,
    }
}

// ---------------------------------------------------------------------
// What joining and taking parents do to components
// ---------------------------------------------------------------------

/// The pieces of two texts with a separator between them.
proof fn lemma_pieces_concat(a: Seq<char>, b: Seq<char>)
    ensures
        text::pieces(a.push('/') + b, '/') == text::pieces(a, '/') + text::pieces(b, '/'),
    decreases b.len(),
{
    let x = a.push('/');
    text::lemma_pieces_nonempty(b, '/');
    if b.len() == 0 {
        assert(x + b =~= x);
        assert(x.drop_last() =~= a);
        assert(text::pieces(x, '/') =~= text::pieces(a, '/').push(Seq::empty()));
        assert(text::pieces(a, '/') + seq![Seq::<char>::empty()] =~= text::pieces(a, '/').push(
            Seq::empty(),
        ));
    } else {
        let c = b.drop_last();
        lemma_pieces_concat(a, c);
        text::lemma_pieces_nonempty(c, '/');
        assert((x + b).drop_last() =~= x + c);
        assert((x + b).last() == b.last());
        let before = text::pieces(a, '/') + text::pieces(c, '/');
        if b.last() == '/' {
            assert(text::pieces(x + b, '/') =~= text::pieces(a, '/') + text::pieces(b, '/'));
        } else {
            assert(before.last() == text::pieces(c, '/').last());
            assert(text::pieces(x + b, '/') =~= text::pieces(a, '/') + text::pieces(b, '/'));
        }
    }
}

/// The components of a row of pieces followed by another that does not begin
/// with a `.`.
proof fn lemma_piece_parts_concat(x: Seq<Seq<char>>, y: Seq<Seq<char>>, k: nat)
    requires
        x.len() > 0,
        k <= y.len(),
        k > 0 ==> y[0] != "."@,
    ensures
        piece_parts(x + y, x.len() + k) == piece_parts(x, x.len()) + piece_parts(y, k),
    decreases k,
{
    if k == 0 {
        lemma_piece_parts_prefix(x + y, x, x.len());
        assert(piece_parts(x, x.len()) + piece_parts(y, 0) =~= piece_parts(x, x.len()));
    } else {
        lemma_piece_parts_concat(x, y, (k - 1) as nat);
        assert((x + y)[x.len() + k - 1] == y[k - 1]);
        assert((x.len() + k - 1) as nat == x.len() + (k - 1) as nat);
        let a = piece_parts(x, x.len());
        let b = piece_parts(y, (k - 1) as nat);
        let p = y[k - 1];
        assert((a + b).push(Part::Parent) =~= a + b.push(Part::Parent));
        assert((a + b).push(Part::Normal(p)) =~= a + b.push(Part::Normal(p)));
    }
}

/// The components of the first pieces depend on those alone.
proof fn lemma_piece_parts_prefix(z: Seq<Seq<char>>, x: Seq<Seq<char>>, n: nat)
    requires
        n <= x.len() <= z.len(),
        forall|i: int| 0 <= i < n ==> z[i] == x[i],
    ensures
        piece_parts(z, n) == piece_parts(x, n),
    decreases n,
{
    if n > 0 {
        lemma_piece_parts_prefix(z, x, (n - 1) as nat);
    }
}

/// Every component is a plain name.
pub open spec fn all_normal(p: Seq<Part>) -> bool {
    forall|i: int| 0 <= i < p.len() ==> (#[trigger] p[i]) is Normal
}

/// A relative path that begins with a `.` has a component for it.
proof fn lemma_leading_cur(s: Seq<char>)
    requires
        s.len() > 0,
        s[0] != '/',
        text::pieces(s, '/')[0] == "."@,
    ensures
        parts(s).len() > 0,
        parts(s)[0] == Part::Cur,
{
    reveal_strlit(".");
    let ps = text::pieces(s, '/');
    text::lemma_pieces_nonempty(s, '/');
    lemma_first_part(ps, ps.len());
}

proof fn lemma_first_part(ps: Seq<Seq<char>>, n: nat)
    requires
        0 < n <= ps.len(),
        ps[0] == "."@,
        "."@.len() == 1,
    ensures
        piece_parts(ps, n).len() > 0,
        piece_parts(ps, n)[0] == Part::Cur,
    decreases n,
{
    if n > 1 {
        lemma_first_part(ps, (n - 1) as nat);
    } else {
        assert(piece_parts(ps, 0) =~= Seq::<Part>::empty());
    }
}

/// Joining a relative path of plain names onto a path adds its components.
pub proof fn lemma_parts_joined(base: Seq<char>, rel: Seq<char>)
    requires
        rel.len() > 0,
        rel[0] != '/',
        all_normal(parts(rel)),
    ensures
        parts(joined(base, rel)) == parts(base) + parts(rel),
{
    reveal_strlit("/");
    reveal_strlit(".");
    let b = text::pieces(rel, '/');
    text::lemma_pieces_nonempty(rel, '/');
    if b[0] == "."@ {
        lemma_leading_cur(rel);
        assert(parts(rel)[0] is Normal);
    }
    if base.len() == 0 {
        assert(text::pieces(base, '/') =~= seq![Seq::<char>::empty()]);
        assert(piece_parts(seq![Seq::<char>::empty()], 0) =~= Seq::<Part>::empty());
        assert(parts(base) =~= Seq::<Part>::empty());
        assert(parts(base) + parts(rel) =~= parts(rel));
    } else {
        let a = if base.last() == '/' {
            base.drop_last()
        } else {
            base
        };
        let x = text::pieces(a, '/');
        text::lemma_pieces_nonempty(a, '/');
        lemma_pieces_concat(a, rel);
        lemma_piece_parts_concat(x, b, b.len());
        let whole = joined(base, rel);
        assert(whole =~= a.push('/') + rel);
        assert(whole[0] == base[0]) by {
            if a.len() > 0 {
                assert(whole[0] == a[0]);
            }
        }
        if base.last() == '/' {
            assert(base =~= a.push('/'));
            lemma_trailing_separator(a);
        }
        let body = piece_parts(x, x.len());
        if base[0] == '/' {
            assert(seq![Part::Root] + (body + parts(rel)) =~= (seq![Part::Root] + body) + parts(rel));
        }
    }
}

/// A separator at the end adds no component to the body of a path.
proof fn lemma_trailing_separator(a: Seq<char>)
    ensures
        piece_parts(text::pieces(a.push('/'), '/'), text::pieces(a.push('/'), '/').len())
            == piece_parts(text::pieces(a, '/'), text::pieces(a, '/').len()),
{
    let x = text::pieces(a, '/');
    assert(a.push('/').drop_last() =~= a);
    let y = x.push(Seq::<char>::empty());
    assert(text::pieces(a.push('/'), '/') == y);
    lemma_piece_parts_prefix(y, x, x.len());
    assert(y[x.len() as int] == Seq::<char>::empty());
}

/// Joining a path of plain names, or none, onto a path stays within it.
pub proof fn lemma_joined_within(base: Seq<char>, rel: Seq<char>)
    requires
        all_normal(parts(rel)),
    ensures
        is_within(joined(base, rel), base),
{
    if rel.len() == 0 {
        reveal_strlit("/");
        if base.len() == 0 {
            assert(rel =~= base);
        } else if base.last() == '/' {
            assert(base + rel =~= base);
        } else {
            assert(base + "/"@ + rel =~= base.push('/'));
            lemma_trailing_separator(base);
            assert(parts(base.push('/')) == parts(base));
        }
    } else {
        if rel[0] == '/' {
            assert(parts(rel)[0] is Normal);
        }
        lemma_parts_joined(base, rel);
        assert(parts(base) =~= (parts(base) + parts(rel)).subrange(0, parts(base).len() as int));
    }
}

/// A plain name: not empty, without separators, and neither `.` nor `..`.
pub open spec fn is_plain_name(n: Seq<char>) -> bool {
    n.len() > 0 && !n.contains('/') && n != "."@ && n != ".."@
}

/// A text without separators is one piece.
pub proof fn lemma_single_piece(n: Seq<char>)
    requires
        !n.contains('/'),
    ensures
        text::pieces(n, '/') == seq![n],
    decreases n.len(),
{
    if n.len() == 0 {
        assert(n =~= Seq::<char>::empty());
    } else {
        let m = n.drop_last();
        assert(!m.contains('/')) by {
            if m.contains('/') {
                let i = choose|i: int| 0 <= i < m.len() && m[i] == '/';
                assert(n[i] == '/');
            }
        }
        assert(n.contains(n.last())) by {
            assert(n[n.len() - 1] == n.last());
        }
        lemma_single_piece(m);
        assert(m.push(n.last()) =~= n);
        assert(text::pieces(n, '/') =~= seq![n]);
    }
}

/// A plain name is one component.
pub proof fn lemma_plain_name(n: Seq<char>)
    requires
        is_plain_name(n),
    ensures
        parts(n) == seq![Part::Normal(n)],
        all_normal(parts(n)),
        n[0] != '/',
{
    lemma_single_piece(n);
    assert(n.contains(n[0]));
    assert(piece_parts(seq![n], 0) =~= Seq::<Part>::empty());
    assert(piece_parts(seq![n], 1) =~= seq![Part::Normal(n)]);
}

/// No piece between separators holds one.
proof fn lemma_pieces_have_no_separator(s: Seq<char>)
    ensures
        forall|i: int|
            0 <= i < text::pieces(s, '/').len() ==> !(#[trigger] text::pieces(s, '/')[i]).contains(
                '/',
            ),
    decreases s.len(),
{
    let all = text::pieces(s, '/');
    if s.len() > 0 {
        lemma_pieces_have_no_separator(s.drop_last());
        text::lemma_pieces_nonempty(s.drop_last(), '/');
        let before = text::pieces(s.drop_last(), '/');
        assert forall|i: int| 0 <= i < all.len() implies !(#[trigger] all[i]).contains('/') by {
            if i < before.len() - 1 {
                assert(all[i] == before[i]);
            } else if s.last() == '/' {
                if i < before.len() {
                    assert(all[i] == before[i]);
                }
            } else {
                let last = before.last();
                assert(!before[before.len() - 1].contains('/'));
                if all[i].contains('/') {
                    let k = choose|k: int| 0 <= k < all[i].len() && all[i][k] == '/';
                    assert(k < last.len());
                    assert(last[k] == '/');
                }
            }
        }
    }
}

proof fn lemma_parts_are_pieces(pieces: Seq<Seq<char>>, n: nat)
    requires
        n <= pieces.len(),
        forall|i: int| 0 <= i < pieces.len() ==> !(#[trigger] pieces[i]).contains('/'),
    ensures
        forall|i: int|
            0 <= i < piece_parts(pieces, n).len() ==> ((#[trigger] piece_parts(
                pieces,
                n,
            )[i]) matches Part::Normal(name) ==> is_plain_name(name)),
    decreases n,
{
    if n > 0 {
        lemma_parts_are_pieces(pieces, (n - 1) as nat);
        let before = piece_parts(pieces, (n - 1) as nat);
        let now = piece_parts(pieces, n);
        assert(!pieces[n - 1].contains('/'));
        assert forall|i: int| 0 <= i < now.len() implies ((#[trigger] now[i]) matches Part::Normal(
            name,
        ) ==> is_plain_name(name)) by {
            if i < before.len() {
                assert(now[i] == before[i]);
            }
        }
    }
}

/// The name of a path's last component is a plain name.
pub proof fn lemma_file_name_is_plain(s: Seq<char>)
    ensures
        file_name_of(s) matches Some(name) ==> is_plain_name(name),
{
    let pieces = text::pieces(s, '/');
    lemma_pieces_have_no_separator(s);
    lemma_parts_are_pieces(pieces, pieces.len());
    let body = piece_parts(pieces, pieces.len());
    let p = parts(s);
    if p.len() > 0 && p.last() is Normal {
        assert(body.len() > 0);
        assert(p.last() == body[body.len() - 1]);
    }
}

/// Joining a plain name onto a path adds one component.
pub proof fn lemma_parts_join_name(base: Seq<char>, n: Seq<char>)
    requires
        is_plain_name(n),
    ensures
        parts(joined(base, n)) == parts(base).push(Part::Normal(n)),
{
    lemma_plain_name(n);
    lemma_parts_joined(base, n);
    assert(parts(base) + seq![Part::Normal(n)] =~= parts(base).push(Part::Normal(n)));
}

/// Cutting separators and `.` components off the end changes no component.
proof fn lemma_trim_keeps_parts(s: Seq<char>, n: int)
    requires
        0 <= n <= s.len(),
    ensures
        parts(s.take(trimmed_len(s, n))) == parts(s.take(n)),
        0 <= trimmed_len(s, n) <= n,
        n >= body_start(s) ==> trimmed_len(s, n) >= body_start(s),
        trimmed_len(s, trimmed_len(s, n)) == trimmed_len(s, n),
    decreases n,
{
    reveal_strlit(".");
    reveal_strlit("..");
    if n > body_start(s) {
        let t = s.take(n);
        let u = s.take(n - 1);
        assert(t.drop_last() =~= u);
        assert(t.last() == s[n - 1]);
        let x = text::pieces(u, '/');
        text::lemma_pieces_nonempty(u, '/');
        if s[n - 1] == '/' {
            lemma_trim_keeps_parts(s, n - 1);
            assert(t =~= u.push('/'));
            lemma_trailing_separator(u);
            assert(u.len() > 0);
            assert(t[0] == u[0]);
        } else if s[n - 1] == '.' && n >= 2 && s[n - 2] == '/' {
            lemma_trim_keeps_parts(s, n - 1);
            let w = s.take(n - 2);
            assert(u =~= w.push('/'));
            assert(u.drop_last() =~= w);
            let z = text::pieces(w, '/');
            text::lemma_pieces_nonempty(w, '/');
            assert(x == z.push(Seq::<char>::empty()));
            let y = text::pieces(t, '/');
            assert(y == x.drop_last().push(x.last().push('.')));
            assert(x.drop_last() =~= z);
            assert(x.last() =~= Seq::<char>::empty());
            assert(Seq::<char>::empty().push('.') =~= "."@);
            assert(y == z.push("."@));
            lemma_piece_parts_prefix(y, z, z.len());
            lemma_piece_parts_prefix(x, z, z.len());
            assert(y.len() == z.len() + 1 && x.len() == z.len() + 1);
            assert(piece_parts(y, y.len()) == piece_parts(z, z.len()));
            assert(piece_parts(x, x.len()) == piece_parts(z, z.len()));
            assert(t[0] == u[0]);
        }
    }
}

/// The start of a component lies before its end, and nothing between is a
/// separator.
proof fn lemma_component_start(s: Seq<char>, n: int)
    requires
        body_start(s) <= n <= s.len(),
    ensures
        body_start(s) <= component_start(s, n) <= n,
        component_start(s, n) == body_start(s) || s[component_start(s, n) - 1] == '/',
        forall|i: int| component_start(s, n) <= i < n ==> s[i] != '/',
    decreases n,
{
    if n > body_start(s) && s[n - 1] != '/' {
        lemma_component_start(s, n - 1);
    }
}

/// The pieces of a text that goes on without a separator.
proof fn lemma_pieces_extend(s: Seq<char>, b: int, n: int)
    requires
        0 <= b <= n <= s.len(),
        forall|i: int| b <= i < n ==> s[i] != '/',
    ensures
        text::pieces(s.take(n), '/') == text::pieces(s.take(b), '/').drop_last().push(
            text::pieces(s.take(b), '/').last() + s.subrange(b, n),
        ),
    decreases n - b,
{
    let x = text::pieces(s.take(b), '/');
    text::lemma_pieces_nonempty(s.take(b), '/');
    if n == b {
        assert(x.last() + s.subrange(b, n) =~= x.last());
        assert(x.drop_last().push(x.last()) =~= x);
    } else {
        lemma_pieces_extend(s, b, n - 1);
        assert(s.take(n).drop_last() =~= s.take(n - 1));
        let y = text::pieces(s.take(n - 1), '/');
        assert(y.drop_last() =~= x.drop_last());
        assert((x.last() + s.subrange(b, n - 1)).push(s[n - 1]) =~= x.last() + s.subrange(b, n));
    }
}

/// A path with a parent has one component more than its parent.
pub proof fn lemma_parts_parent(s: Seq<char>)
    requires
        parent_of(s) is Some,
    ensures
        parts(s).len() == parts(parent_of(s)->Some_0).len() + 1,
        parts(s).drop_last() == parts(parent_of(s)->Some_0),
{
    reveal_strlit(".");
    reveal_strlit("..");
    let n = trimmed_len(s, s.len() as int);
    lemma_trim_keeps_parts(s, s.len() as int);
    assert(s.take(s.len() as int) =~= s);
    let b = component_start(s, n);
    lemma_component_start(s, n);
    lemma_trim_keeps_parts(s, b);
    lemma_pieces_extend(s, b, n);
    let t = s.take(n);
    let u = s.take(b);
    let x = text::pieces(u, '/');
    text::lemma_pieces_nonempty(u, '/');
    let c = s.subrange(b, n);
    assert(b < n) by {
        if b == n {
            assert(s[n - 1] == '/');
            assert(trimmed_len(s, n) == trimmed_len(s, n - 1));
            lemma_trim_keeps_parts(s, n - 1);
        }
    }
    // The last piece before the component is empty.
    assert(x.last() =~= Seq::<char>::empty()) by {
        if b == 0 {
            assert(u =~= Seq::<char>::empty());
        } else {
            assert(s[b - 1] == '/');
            assert(u.last() == '/');
        }
    }
    assert(x.last() + c =~= c);
    let y = text::pieces(t, '/');
    assert(y == x.drop_last().push(c));
    let z = x.drop_last();
    lemma_piece_parts_prefix(y, z, z.len());
    lemma_piece_parts_prefix(x, z, z.len());
    assert(x[z.len() as int] == x.last());
    assert(piece_parts(x, x.len()) == piece_parts(z, z.len()));
    assert(c.len() > 0);
    if c == "."@ {
        assert(s[n - 1] == c[c.len() - 1]);
        if b > 0 {
            assert(n >= 2 && s[n - 2] == '/');
            assert(trimmed_len(s, n) == trimmed_len(s, n - 1));
            lemma_trim_keeps_parts(s, n - 1);
        }
        assert(b == 0);
        assert(u =~= Seq::<char>::empty());
        assert(z.len() == 0);
    }
    let before = piece_parts(z, z.len());
    let after = piece_parts(y, y.len());
    assert(y.len() == z.len() + 1);
    assert(after.drop_last() =~= before);
    assert(after.len() == before.len() + 1);
    if s.len() > 0 && s[0] == '/' {
        assert(t[0] == '/');
        assert(b >= 1);
        assert(u[0] == '/');
        assert((seq![Part::Root] + after).drop_last() =~= seq![Part::Root] + before);
    } else {
        assert(t[0] == s[0]);
        if u.len() > 0 {
            assert(u[0] == s[0]);
        }
    }
}

/// The extension of a file name: what follows its last dot, unless that dot
/// begins the name or the name is `..`.
pub open spec fn extension_of(name: Seq<char>) -> Option<Seq<char>> {
    let all = text::pieces(name, '.');
    if all.len() < 2 || name == ".."@ || (all.len() == 2 && all[0].len() == 0) {
        None
    } else {
        Some(all.last())
    }
}

/// The extension of the file name `name`.
pub fn extension(name: &str) -> (r: Option<String>)
    ensures
        text::opt_text(r) == extension_of(name@),
{
    let all = text::split(name, '.');
    assert(text::texts(all@).len() == all@.len());
    assert(text::texts(all@)[0] == all@[0]@);
    if all.len() < 2 || text::same(name, "..") || (all.len() == 2 && all[0].as_str().is_empty()) {
        None
    } else {
        let last = all[all.len() - 1].clone();
        assert(text::texts(all@).last() == last@);
        Some(last)
    }
}

/// A name that is joined onto a path is its last component, and what it was
/// joined onto is where it lies.
pub proof fn law_joined_names_lie_in_their_directory(base: Seq<char>, n: Seq<char>)
    requires
        is_plain_name(n),
    ensures
        file_name_of(joined(base, n)) == Some(n),
        is_within(joined(base, n), base),
        parts(joined(base, n)).drop_last() == parts(base),
        parent_of(joined(base, n)) matches Some(up) ==> parts(up) == parts(base),
        base.len() > 0 ==> base.is_prefix_of(joined(base, n)),
        n.is_suffix_of(joined(base, n)),
{
    lemma_parts_join_name(base, n);
    lemma_plain_name(n);
    let p = joined(base, n);
    assert(parts(p).drop_last() =~= parts(base));
    assert(parts(base) =~= parts(p).subrange(0, parts(base).len() as int));
    if parent_of(p) is Some {
        lemma_parts_parent(p);
    }
    assert(n =~= p.subrange(p.len() - n.len(), p.len() as int));
    if base.len() > 0 {
        assert(base =~= p.subrange(0, base.len() as int));
    }
}

/// A path that is absolute replaces what it is joined onto.
pub proof fn law_absolute_paths_replace(base: Seq<char>, rel: Seq<char>)
    requires
        rel.len() > 0,
        rel[0] == '/',
    ensures
        joined(base, rel) == rel,
{
}

/// The extension of a name is what follows its last dot.
pub proof fn law_extension_follows_the_last_dot(stem: Seq<char>, ext: Seq<char>)
    requires
        stem.len() > 0,
        !ext.contains('.'),
        !(stem == "."@ && ext.len() == 0),
    ensures
        extension_of(stem.push('.') + ext) == Some(ext),
        !ext.contains('.') ==> extension_of(ext) is None,
{
    let name = stem.push('.') + ext;
    text::law_pieces_of_two_texts(stem, '.', ext);
    text::law_text_without_separator_is_one_piece(ext, '.');
    text::lemma_pieces_nonempty(stem, '.');
    let all = text::pieces(name, '.');
    assert(all.last() == ext);
    reveal_strlit("..");
    reveal_strlit(".");
    if name == ".."@ {
        assert(name.len() == 2);
        assert(stem.len() + 1 + ext.len() == 2);
        assert(stem[0] == name[0]);
        assert(stem =~= "."@);
    }
    if all.len() == 2 && all[0].len() == 0 {
        let first = text::pieces(stem, '.');
        assert(all =~= first + seq![ext]);
        assert(first.len() == 1);
        assert(all[0] == first[0]);
        lemma_single_is_whole(stem);
    }
}

proof fn lemma_single_is_whole(s: Seq<char>)
    requires
        text::pieces(s, '.').len() == 1,
    ensures
        text::pieces(s, '.')[0] == s,
    decreases s.len(),
{
    if s.len() > 0 {
        let before = text::pieces(s.drop_last(), '.');
        text::lemma_pieces_nonempty(s.drop_last(), '.');
        if s.last() != '.' {
            lemma_single_is_whole(s.drop_last());
            assert(before[0].push(s.last()) =~= s);
        }
    } else {
        assert(text::pieces(s, '.')[0] =~= s);
    }
}

} // verus!
