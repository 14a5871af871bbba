//! Text as a sequence of characters: the searching, splitting, trimming and
//! number formatting that the rest of the library is stated over.
use vstd::prelude::*;

verus! {

/// `String::push` appends the given character to the end of the string.
pub assume_specification[ String::push ](s: &mut String, c: char)
    ensures
        final(s)@ == old(s)@.push(c),
;

/// What `format!("{:?}", text)` prints for a text: the text in double quotes
/// with its special characters escaped.
pub uninterp spec fn quoted(text: Seq<char>) -> Seq<char>;

/// What `str::to_lowercase` maps a text to.
pub uninterp spec fn lowercased(text: Seq<char>) -> Seq<char>;

/// The `Debug` rendering of a `str` by `format!`, named [`quoted`].
#[verifier::external_body]
pub(crate) fn quote(text: &str) -> (r: String)
    ensures
        r@ == quoted(text@),
{
    format!("{:?}", text)
}

/// `str::to_lowercase`, whose result is named [`lowercased`]. It leaves no
/// upper-case ASCII letter, and on a text of ASCII characters alone it lowers
/// each letter and keeps everything else.
#[verifier::external_body]
pub(crate) fn lowercase(text: &str) -> (r: String)
    ensures
        r@ == lowercased(text@),
        forall|i: int| 0 <= i < r@.len() ==> !is_upper(#[trigger] r@[i]),
        (forall|i: int| 0 <= i < text@.len() ==> text@[i] as u32 <= 0x7f) ==> r@ == ascii_lowered(
            text@,
        ),
{
    text.to_lowercase()
}

/// The texts held by a sequence of strings.
pub open spec fn texts(v: Seq<String>) -> Seq<Seq<char>> {
    Seq::new(v.len(), |i: int| v[i]@)
}

/// The text held by an optional string.
pub open spec fn opt_text(v: Option<String>) -> Option<Seq<char>> {
    match v {
        Some(s) => Some(s@),
        None => None,
    }
}

/// The text held by an optional string slice.
pub open spec fn opt_str(v: Option<&str>) -> Option<Seq<char>> {
    match v {
        Some(s) => Some(s@),
        None => None,
    }
}

/// A borrowed optional text.
pub fn borrowed(s: &Option<String>) -> (r: Option<&str>)
    ensures
        opt_str(r) == opt_text(*s),
{
    match s {
        Some(s) => Some(s.as_str()),
        None => None,
    }
}

// ---------------------------------------------------------------------
// Character classes
// ---------------------------------------------------------------------

/// An ASCII digit.
pub open spec fn is_digit(c: char) -> bool {
    '0' <= c && c <= '9'
}

/// A lower-case ASCII letter.
pub open spec fn is_lower(c: char) -> bool {
    'a' <= c && c <= 'z'
}

/// An upper-case ASCII letter.
pub open spec fn is_upper(c: char) -> bool {
    'A' <= c && c <= 'Z'
}

/// An ASCII letter or digit.
pub open spec fn is_alnum(c: char) -> bool {
    is_digit(c) || is_lower(c) || is_upper(c)
}

/// A lower-case hexadecimal digit.
pub open spec fn is_hex(c: char) -> bool {
    is_digit(c) || ('a' <= c && c <= 'f')
}

/// The characters with Unicode's White_Space property.
pub open spec fn is_white(c: char) -> bool {
    let n = c as u32;
    ||| 0x9 <= n <= 0xd
    ||| n == 0x20
    ||| n == 0x85
    ||| n == 0xa0
    ||| n == 0x1680
    ||| 0x2000 <= n <= 0x200a
    ||| n == 0x2028
    ||| n == 0x2029
    ||| n == 0x202f
    ||| n == 0x205f
    ||| n == 0x3000
}

/// An ASCII upper-case letter lowered; every other character as it is.
pub open spec fn ascii_lower(c: char) -> char {
    if is_upper(c) {
        (c as u32 + 32) as char
    } else {
        c
    }
}

/// Every ASCII letter of a text lowered.
pub open spec fn ascii_lowered(s: Seq<char>) -> Seq<char> {
    Seq::new(s.len(), |i: int| ascii_lower(s[i]))
}

/// Is `c` an ASCII digit?
pub fn digit(c: char) -> (r: bool)
    ensures
        r == is_digit(c),
{
    '0' <= c && c <= '9'
}

/// Is `c` an ASCII letter or digit?
pub fn alnum(c: char) -> (r: bool)
    ensures
        r == is_alnum(c),
{
    ('0' <= c && c <= '9') || ('a' <= c && c <= 'z') || ('A' <= c && c <= 'Z')
}

/// Is `c` a lower-case hexadecimal digit?
pub fn hex_char(c: char) -> (r: bool)
    ensures
        r == is_hex(c),
{
    ('0' <= c && c <= '9') || ('a' <= c && c <= 'f')
}

/// Does `c` have the White_Space property?
pub fn white(c: char) -> (r: bool)
    ensures
        r == is_white(c),
{
    let n: u32 = c as u32;
    (0x9 <= n && n <= 0xd) || n == 0x20 || n == 0x85 || n == 0xa0 || n == 0x1680 || (0x2000 <= n && n
        <= 0x200a) || n == 0x2028 || n == 0x2029 || n == 0x202f || n == 0x205f || n == 0x3000
}

/// `c` lowered if it is an upper-case ASCII letter.
pub fn lower_char(c: char) -> (r: char)
    ensures
        r == ascii_lower(c),
{
    if 'A' <= c && c <= 'Z' {
        let n: u8 = c as u8;
        (n + 32) as char
    } else {
        c
    }
}

// ---------------------------------------------------------------------
// Taking texts apart and putting them together
// ---------------------------------------------------------------------

/// The characters of `s`, in order.
pub fn chars_of(s: &str) -> (r: Vec<char>)
    ensures
        r@ == s@,
{
    let mut out: Vec<char> = Vec::new();
    for c in it: s.chars()
        invariant
            out@ == it.seq().take(it.index() as int),
            it.seq() == s@,
    {
        out.push(c);
    }
    out
}

/// The text held by `chars[from..to]`.
pub fn text_of(chars: &[char], from: usize, to: usize) -> (r: String)
    requires
        from <= to <= chars@.len(),
    ensures
        r@ == chars@.subrange(from as int, to as int),
{
    let mut out = String::new();
    let mut i: usize = from;
    while i < to
        invariant
            from <= i <= to <= chars@.len(),
            out@ == chars@.subrange(from as int, i as int),
        decreases to - i,
    {
        out.push(chars[i]);
        i = i + 1;
    }
    out
}

/// Do the two hold the same text?
pub fn same(a: &str, b: &str) -> (r: bool)
    ensures
        r == (a@ == b@),
{
    a.to_owned() == b.to_owned()
}

/// Is `text` one of `list`?
pub fn listed(list: &[String], text: &str) -> (r: bool)
    ensures
        r == texts(list@).contains(text@),
{
    let mut i: usize = 0;
    while i < list.len()
        invariant
            i <= list@.len(),
            forall|j: int| 0 <= j < i ==> texts(list@)[j] != text@,
        decreases list@.len() - i,
    {
        if same(list[i].as_str(), text) {
            assert(texts(list@)[i as int] == text@);
            return true;
        }
        i = i + 1;
    }
    false
}

/// `a` followed by `b`.
pub fn cat2(a: &str, b: &str) -> (r: String)
    ensures
        r@ == a@ + b@,
{
    let mut out = a.to_owned();
    out.append(b);
    out
}

/// The three texts in a row.
pub fn cat3(a: &str, b: &str, c: &str) -> (r: String)
    ensures
        r@ == a@ + b@ + c@,
{
    let mut out = cat2(a, b);
    out.append(c);
    out
}

/// The four texts in a row.
pub fn cat4(a: &str, b: &str, c: &str, d: &str) -> (r: String)
    ensures
        r@ == a@ + b@ + c@ + d@,
{
    let mut out = cat3(a, b, c);
    out.append(d);
    out
}

/// The five texts in a row.
pub fn cat5(a: &str, b: &str, c: &str, d: &str, e: &str) -> (r: String)
    ensures
        r@ == a@ + b@ + c@ + d@ + e@,
{
    let mut out = cat4(a, b, c, d);
    out.append(e);
    out
}

/// The six texts in a row.
pub fn cat6(a: &str, b: &str, c: &str, d: &str, e: &str, f: &str) -> (r: String)
    ensures
        r@ == a@ + b@ + c@ + d@ + e@ + f@,
{
    let mut out = cat5(a, b, c, d, e);
    out.append(f);
    out
}

/// The seven texts in a row.
pub fn cat7(a: &str, b: &str, c: &str, d: &str, e: &str, f: &str, g: &str) -> (r: String)
    ensures
        r@ == a@ + b@ + c@ + d@ + e@ + f@ + g@,
{
    let mut out = cat6(a, b, c, d, e, f);
    out.append(g);
    out
}

/// Does `s` begin with `p`?
pub fn starts_with(s: &str, p: &str) -> (r: bool)
    ensures
        r == p@.is_prefix_of(s@),
{
    let sc = chars_of(s);
    let pc = chars_of(p);
    pc.len() <= sc.len() && matches_at(sc.as_slice(), pc.as_slice(), 0)
}

/// Does `s` end with `p`?
pub fn ends_with(s: &str, p: &str) -> (r: bool)
    ensures
        r == p@.is_suffix_of(s@),
{
    let sc = chars_of(s);
    let pc = chars_of(p);
    if pc.len() > sc.len() {
        return false;
    }
    matches_at(sc.as_slice(), pc.as_slice(), sc.len() - pc.len())
}

/// `s` without the prefix `p`, if it has that prefix.
pub open spec fn without_prefix(s: Seq<char>, p: Seq<char>) -> Option<Seq<char>> {
    if p.is_prefix_of(s) {
        Some(s.skip(p.len() as int))
    } else {
        None
    }
}

/// `s` without the suffix `p`, if it has that suffix.
pub open spec fn without_suffix(s: Seq<char>, p: Seq<char>) -> Option<Seq<char>> {
    if p.is_suffix_of(s) {
        Some(s.take(s.len() - p.len()))
    } else {
        None
    }
}

/// `s` without the prefix `p`, if it has that prefix.
pub fn strip_prefix(s: &str, p: &str) -> (r: Option<String>)
    ensures
        opt_text(r) == without_prefix(s@, p@),
{
    if starts_with(s, p) {
        let sc = chars_of(s);
        let n: usize = chars_of(p).len();
        let out = text_of(sc.as_slice(), n, sc.len());
        assert(out@ == s@.skip(p@.len() as int));
        Some(out)
    } else {
        None
    }
}

/// `s` without the suffix `p`, if it has that suffix.
pub fn strip_suffix(s: &str, p: &str) -> (r: Option<String>)
    ensures
        opt_text(r) == without_suffix(s@, p@),
{
    if ends_with(s, p) {
        let sc = chars_of(s);
        let n: usize = chars_of(p).len();
        let out = text_of(sc.as_slice(), 0, sc.len() - n);
        assert(out@ == s@.take(s@.len() - p@.len()));
        Some(out)
    } else {
        None
    }
}

// ---------------------------------------------------------------------
// Searching
// ---------------------------------------------------------------------

/// `p` stands in `s` at position `i`.
pub open spec fn occurs_at(s: Seq<char>, p: Seq<char>, i: int) -> bool {
    0 <= i && i + p.len() <= s.len() && s.subrange(i, i + p.len()) == p
}

/// `p` stands somewhere in `s`.
pub open spec fn contains(s: Seq<char>, p: Seq<char>) -> bool {
    exists|i: int| occurs_at(s, p, i)
}

/// The first position of `p` in `s` at or after `from`.
pub open spec fn index_from(s: Seq<char>, p: Seq<char>, from: nat) -> Option<nat>
    decreases s.len() + 1 - from,
{
    if from + p.len() > s.len() {
        None
    } else if occurs_at(s, p, from as int) {
        Some(from)
    } else {
        index_from(s, p, from + 1)
    }
}

/// The position that `index_from` gives is the first one, and it gives none
/// only where there is none.
pub proof fn lemma_index_from(s: Seq<char>, p: Seq<char>, from: nat)
    ensures
        match index_from(s, p, from) {
            Some(i) => {
                &&& from <= i
                &&& occurs_at(s, p, i as int)
                &&& forall|j: int| from <= j < i ==> !occurs_at(s, p, j)
            },
            None => forall|j: int| from <= j ==> !occurs_at(s, p, j),
        },
    decreases s.len() + 1 - from,
{
    if from + p.len() <= s.len() && !occurs_at(s, p, from as int) {
        lemma_index_from(s, p, from + 1);
    }
}

/// Does `p` stand in `s` at position `at`?
fn matches_at(s: &[char], p: &[char], at: usize) -> (r: bool)
    requires
        at + p@.len() <= s@.len(),
    ensures
        r == occurs_at(s@, p@, at as int),
{
    let total: usize = s.len();
    let mut i: usize = 0;
    while i < p.len()
        invariant
            i <= p@.len(),
            total == s@.len(),
            at + p@.len() <= s@.len(),
            forall|j: int| 0 <= j < i ==> s@[at + j] == p@[j],
        decreases p@.len() - i,
    {
        if s[at + i] != p[i] {
            assert(s@.subrange(at as int, at + p@.len())[i as int] != p@[i as int]);
            return false;
        }
        i = i + 1;
    }
    assert(s@.subrange(at as int, at + p@.len()) =~= p@);
    true
}

/// The first position of `p` in `s` at or after `from`.
pub fn find(s: &[char], p: &[char], from: usize) -> (r: Option<usize>)
    ensures
        match r {
            Some(i) => index_from(s@, p@, from as nat) == Some(i as nat),
            None => index_from(s@, p@, from as nat) is None,
        },
{
    let mut i: usize = from;
    if p.len() > s.len() {
        return None;
    }
    while i <= s.len() - p.len()
        invariant
            p@.len() <= s@.len(),
            from <= i,
            i <= s@.len() - p@.len() + 1 || i == from,
            index_from(s@, p@, from as nat) == index_from(s@, p@, i as nat),
        decreases s@.len() - p@.len() + 1 - i,
    {
        if matches_at(s, p, i) {
            return Some(i);
        }
        if i == s.len() - p.len() {
            assert(index_from(s@, p@, (i + 1) as nat) is None);
            return None;
        }
        i = i + 1;
    }
    None
}

/// Does `p` stand somewhere in `s`?
pub fn has(s: &str, p: &str) -> (r: bool)
    ensures
        r == contains(s@, p@),
{
    proof {
        lemma_index_from(s@, p@, 0);
    }
    match find(chars_of(s).as_slice(), chars_of(p).as_slice(), 0) {
        Some(i) => {
            assert(occurs_at(s@, p@, i as int));
            true
        },
        None => {
            assert forall|j: int| !occurs_at(s@, p@, j) by {
                if j < 0 {
                }
            }
            false
        },
    }
}

/// Does the character `c` stand in `s`?
pub fn has_char(s: &str, c: char) -> (r: bool)
    ensures
        r == s@.contains(c),
{
    let v = chars_of(s);
    let mut i: usize = 0;
    while i < v.len()
        invariant
            v@ == s@,
            i <= v@.len(),
            forall|j: int| 0 <= j < i ==> s@[j] != c,
        decreases v@.len() - i,
    {
        if v[i] == c {
            assert(s@[i as int] == c);
            return true;
        }
        i = i + 1;
    }
    false
}

/// The text from position `from` on, with every occurrence of `p`, taken from
/// left to right without overlap, replaced by `with`.
pub open spec fn replaced_from(s: Seq<char>, p: Seq<char>, with: Seq<char>, from: nat) -> Seq<char>
    decreases s.len() - from,
{
    if p.len() == 0 || from > s.len() {
        s.skip(from as int)
    } else {
        match index_from(s, p, from) {
            Some(i) => if from <= i && i + p.len() <= s.len() {
                s.subrange(from as int, i as int) + with + replaced_from(s, p, with, i + p.len())
            } else {
                s.skip(from as int)
            },
            None => s.skip(from as int),
        }
    }
}

/// `s` with every occurrence of `p` replaced by `with`.
pub open spec fn replaced(s: Seq<char>, p: Seq<char>, with: Seq<char>) -> Seq<char> {
    replaced_from(s, p, with, 0)
}

/// A text in which `p` does not stand is left as it is.
pub proof fn lemma_replaced_absent(s: Seq<char>, p: Seq<char>, with: Seq<char>)
    requires
        !contains(s, p),
    ensures
        replaced(s, p, with) == s,
{
    lemma_index_from(s, p, 0);
    assert(s.skip(0) =~= s);
}

/// `s` with every occurrence of `p` replaced by `with`.
pub fn replace(s: &str, p: &str, with: &str) -> (r: String)
    requires
        p@.len() > 0,
    ensures
        r@ == replaced(s@, p@, with@),
{
    let sc = chars_of(s);
    let pc = chars_of(p);
    let mut out = String::new();
    let total: usize = sc.len();
    let mut pos: usize = 0;
    assert(Seq::<char>::empty() + replaced(s@, p@, with@) =~= replaced(s@, p@, with@));
    loop
        invariant
            sc@ == s@,
            pc@ == p@,
            total == s@.len(),
            p@.len() > 0,
            pos <= s@.len(),
            out@ + replaced_from(s@, p@, with@, pos as nat) == replaced(s@, p@, with@),
        decreases s@.len() - pos,
    {
        proof {
            lemma_index_from(s@, p@, pos as nat);
        }
        match find(sc.as_slice(), pc.as_slice(), pos) {
            Some(i) => {
                let ghost before = out@;
                out.append(text_of(sc.as_slice(), pos, i).as_str());
                out.append(with);
                let ghost rest = replaced_from(s@, p@, with@, (i + p@.len()) as nat);
                assert(before + (s@.subrange(pos as int, i as int) + with@ + rest) =~= out@ + rest);
                pos = i + pc.len();
            },
            None => {
                out.append(text_of(sc.as_slice(), pos, sc.len()).as_str());
                assert(s@.subrange(pos as int, s@.len() as int) =~= s@.skip(pos as int));
                return out;
            },
        }
    }
}

// ---------------------------------------------------------------------
// Splitting and trimming
// ---------------------------------------------------------------------

/// The pieces of a text between the separators: a separator starts a new,
/// empty piece, any other character extends the last one.
pub open spec fn pieces(s: Seq<char>, sep: char) -> Seq<Seq<char>>
    decreases s.len(),
{
    if s.len() == 0 {
        seq![Seq::empty()]
    } else {
        let before = pieces(s.drop_last(), sep);
        if s.last() == sep {
            before.push(Seq::empty())
        } else {
            before.drop_last().push(before.last().push(s.last()))
        }
    }
}

/// A text always has at least one piece.
pub proof fn lemma_pieces_nonempty(s: Seq<char>, sep: char)
    ensures
        pieces(s, sep).len() > 0,
    decreases s.len(),
{
    if s.len() > 0 {
        lemma_pieces_nonempty(s.drop_last(), sep);
    }
}

/// The pieces of `s` between the separators.
pub fn split(s: &str, sep: char) -> (r: Vec<String>)
    ensures
        texts(r@) == pieces(s@, sep),
        r@.len() > 0,
{
    let v = chars_of(s);
    let mut done: Vec<String> = Vec::new();
    let mut current = String::new();
    let mut i: usize = 0;
    assert(v@.take(0) =~= Seq::<char>::empty());
    assert(texts(done@).push(current@) =~= seq![Seq::<char>::empty()]);
    while i < v.len()
        invariant
            i <= v@.len(),
            texts(done@).push(current@) == pieces(v@.take(i as int), sep),
        decreases v@.len() - i,
    {
        let ghost before = texts(done@).push(current@);
        assert(v@.take(i + 1).drop_last() =~= v@.take(i as int));
        assert(v@.take(i + 1).last() == v@[i as int]);
        if v[i] == sep {
            done.push(current);
            current = String::new();
            assert(texts(done@).push(current@) =~= before.push(Seq::<char>::empty()));
        } else {
            current.push(v[i]);
            assert(texts(done@).push(current@) =~= before.drop_last().push(before.last().push(v@[i as int])));
        }
        i = i + 1;
    }
    assert(v@.take(i as int) =~= s@);
    let ghost all = texts(done@).push(current@);
    done.push(current);
    assert(texts(done@) =~= all);
    done
}

/// A line without the carriage return that belongs to its line ending.
pub open spec fn without_cr(s: Seq<char>) -> Seq<char> {
    if s.len() > 0 && s.last() == '\r' {
        s.drop_last()
    } else {
        s
    }
}

/// The lines of a text: the pieces between newlines, an ending newline not
/// opening another line, and a carriage return before a newline belonging to
/// the line ending.
pub open spec fn lines(s: Seq<char>) -> Seq<Seq<char>> {
    let all = pieces(s, '\n');
    let closed = Seq::new((all.len() - 1) as nat, |i: int| without_cr(all[i]));
    if all.last().len() == 0 {
        closed
    } else {
        closed.push(all.last())
    }
}

/// The lines of `s`.
pub fn split_lines(s: &str) -> (r: Vec<String>)
    ensures
        texts(r@) == lines(s@),
{
    let all = split(s, '\n');
    let mut out: Vec<String> = Vec::new();
    let mut i: usize = 0;
    while i < all.len() - 1
        invariant
            all@.len() > 0,
            i <= all@.len() - 1,
            texts(all@) == pieces(s@, '\n'),
            texts(out@) == Seq::new(i as nat, |j: int| without_cr(pieces(s@, '\n')[j])),
        decreases all@.len() - i,
    {
        let line = chars_of(all[i].as_str());
        assert(texts(all@)[i as int] == line@);
        let ghost before = texts(out@);
        if line.len() > 0 && line[line.len() - 1] == '\r' {
            out.push(text_of(line.as_slice(), 0, line.len() - 1));
            assert(line@.subrange(0, line@.len() - 1) =~= line@.drop_last());
        } else {
            out.push(text_of(line.as_slice(), 0, line.len()));
            assert(line@.subrange(0, line@.len() as int) =~= line@);
        }
        assert(texts(out@) =~= before.push(without_cr(line@)));
        i = i + 1;
        assert(texts(out@) =~= Seq::new(i as nat, |j: int| without_cr(pieces(s@, '\n')[j])));
    }
    let last = all[all.len() - 1].clone();
    assert(texts(all@)[all@.len() - 1] == last@);
    if !last.as_str().is_empty() {
        let ghost before = texts(out@);
        out.push(last);
        assert(texts(out@) =~= before.push(last@));
    }
    out
}

/// A text without the white space it begins with.
pub open spec fn trimmed_start(s: Seq<char>) -> Seq<char>
    decreases s.len(),
{
    if s.len() > 0 && is_white(s[0]) {
        trimmed_start(s.skip(1))
    } else {
        s
    }
}

/// A text without the white space it ends with.
pub open spec fn trimmed_end(s: Seq<char>) -> Seq<char>
    decreases s.len(),
{
    if s.len() > 0 && is_white(s.last()) {
        trimmed_end(s.drop_last())
    } else {
        s
    }
}

/// A text without the white space at either end.
pub open spec fn trimmed(s: Seq<char>) -> Seq<char> {
    trimmed_end(trimmed_start(s))
}

/// `s` without the white space at either end.
pub fn trim(s: &str) -> (r: String)
    ensures
        r@ == trimmed(s@),
{
    let v = chars_of(s);
    let mut from: usize = 0;
    assert(v@.skip(0) =~= s@);
    while from < v.len() && white(v[from])
        invariant
            from <= v@.len(),
            trimmed_start(v@.skip(from as int)) == trimmed_start(s@),
        decreases v@.len() - from,
    {
        assert(v@.skip(from as int).skip(1) =~= v@.skip(from + 1));
        from = from + 1;
    }
    assert(v@.skip(from as int) == trimmed_start(s@));
    let mut to: usize = v.len();
    assert(v@.subrange(from as int, to as int) =~= v@.skip(from as int));
    while to > from && white(v[to - 1])
        invariant
            from <= to <= v@.len(),
            trimmed_end(v@.subrange(from as int, to as int)) == trimmed(s@),
        decreases to,
    {
        assert(v@.subrange(from as int, to as int).drop_last() =~= v@.subrange(from as int, to - 1));
        to = to - 1;
    }
    text_of(v.as_slice(), from, to)
}

/// A text without the repetitions of `c` it ends with.
pub open spec fn without_trailing(s: Seq<char>, c: char) -> Seq<char>
    decreases s.len(),
{
    if s.len() > 0 && s.last() == c {
        without_trailing(s.drop_last(), c)
    } else {
        s
    }
}

/// `s` without the repetitions of `c` it ends with.
pub fn trim_end_char(s: &str, c: char) -> (r: String)
    ensures
        r@ == without_trailing(s@, c),
{
    let v = chars_of(s);
    let mut to: usize = v.len();
    assert(v@.subrange(0, to as int) =~= s@);
    while to > 0 && v[to - 1] == c
        invariant
            to <= v@.len(),
            without_trailing(v@.subrange(0, to as int), c) == without_trailing(s@, c),
        decreases to,
    {
        assert(v@.subrange(0, to as int).drop_last() =~= v@.subrange(0, to - 1));
        to = to - 1;
    }
    text_of(v.as_slice(), 0, to)
}

/// Every ASCII letter of `s` lowered.
pub fn to_ascii_lower(s: &str) -> (r: String)
    ensures
        r@ == ascii_lowered(s@),
{
    let v = chars_of(s);
    let mut out = String::new();
    let mut i: usize = 0;
    while i < v.len()
        invariant
            v@ == s@,
            i <= v@.len(),
            out@ == ascii_lowered(s@.take(i as int)),
        decreases v@.len() - i,
    {
        out.push(lower_char(v[i]));
        i = i + 1;
        assert(out@ =~= ascii_lowered(s@.take(i as int)));
    }
    assert(s@.take(i as int) =~= s@);
    out
}

/// The texts with `sep` between each two.
pub open spec fn joined(parts: Seq<Seq<char>>, sep: Seq<char>) -> Seq<char>
    decreases parts.len(),
{
    if parts.len() == 0 {
        Seq::empty()
    } else if parts.len() == 1 {
        parts[0]
    } else {
        joined(parts.drop_last(), sep) + sep + parts.last()
    }
}

/// The texts of `parts` with `sep` between each two.
pub fn join(parts: &[String], sep: &str) -> (r: String)
    ensures
        r@ == joined(texts(parts@), sep@),
{
    let mut out = String::new();
    let mut i: usize = 0;
    assert(texts(parts@).take(0) =~= Seq::<Seq<char>>::empty());
    while i < parts.len()
        invariant
            i <= parts@.len(),
            out@ == joined(texts(parts@).take(i as int), sep@),
        decreases parts@.len() - i,
    {
        let ghost next = texts(parts@).take(i + 1);
        assert(next.drop_last() =~= texts(parts@).take(i as int));
        assert(next.last() == parts@[i as int]@);
        if i == 0 {
            out = parts[i].clone();
        } else {
            out.append(sep);
            out.append(parts[i].as_str());
        }
        i = i + 1;
    }
    assert(texts(parts@).take(i as int) =~= texts(parts@));
    out
}

// ---------------------------------------------------------------------
// Numbers
// ---------------------------------------------------------------------

/// The character of a digit below sixteen, letters in lower case.
pub open spec fn digit_char(d: nat) -> char {
    if d < 10 {
        (48 + d) as char
    } else {
        (87 + d) as char
    }
}

/// A number in decimal notation.
pub open spec fn decimal(n: nat) -> Seq<char>
    decreases n,
{
    if n < 10 {
        seq![digit_char(n)]
    } else {
        decimal(n / 10).push(digit_char(n % 10))
    }
}

/// The low `width` hexadecimal digits of a number.
pub open spec fn hex_digits(n: nat, width: nat) -> Seq<char>
    decreases width,
{
    if width == 0 {
        Seq::empty()
    } else {
        hex_digits(n / 16, (width - 1) as nat).push(digit_char(n % 16))
    }
}

/// Bytes in hexadecimal notation, two digits each.
pub open spec fn hex_bytes(bytes: Seq<u8>) -> Seq<char>
    decreases bytes.len(),
{
    if bytes.len() == 0 {
        Seq::empty()
    } else {
        hex_bytes(bytes.drop_last()) + hex_digits(bytes.last() as nat, 2)
    }
}

/// The character of the digit `d`.
fn digit_to_char(d: u8) -> (r: char)
    requires
        d < 16,
    ensures
        r == digit_char(d as nat),
{
    if d < 10 {
        (48 + d) as char
    } else {
        (87 + d) as char
    }
}

/// `n` in decimal notation.
pub fn decimal_of(n: u64) -> (r: String)
    ensures
        r@ == decimal(n as nat),
    decreases n,
{
    if n < 10 {
        let mut out = String::new();
        out.push(digit_to_char(n as u8));
        assert(out@ =~= seq![digit_char(n as nat)]);
        out
    } else {
        let mut out = decimal_of(n / 10);
        out.push(digit_to_char((n % 10) as u8));
        out
    }
}

/// The low `width` hexadecimal digits of `n`.
pub fn hex_of(n: u64, width: u8) -> (r: String)
    ensures
        r@ == hex_digits(n as nat, width as nat),
    decreases width,
{
    if width == 0 {
        String::new()
    } else {
        let mut out = hex_of(n / 16, width - 1);
        out.push(digit_to_char((n % 16) as u8));
        out
    }
}

/// `bytes` in hexadecimal notation.
pub fn hex_of_bytes(bytes: &[u8]) -> (r: String)
    ensures
        r@ == hex_bytes(bytes@),
{
    let mut out = String::new();
    let mut i: usize = 0;
    while i < bytes.len()
        invariant
            i <= bytes@.len(),
            out@ == hex_bytes(bytes@.take(i as int)),
        decreases bytes@.len() - i,
    {
        assert(bytes@.take(i + 1).drop_last() =~= bytes@.take(i as int));
        out.append(hex_of(bytes[i] as u64, 2).as_str());
        i = i + 1;
    }
    assert(bytes@.take(i as int) =~= bytes@);
    out
}

/// So many hexadecimal digits are that many, and nothing else.
pub proof fn lemma_hex_digits(n: nat, width: nat)
    ensures
        hex_digits(n, width).len() == width,
        forall|i: int| 0 <= i < width ==> is_hex(#[trigger] hex_digits(n, width)[i]),
    decreases width,
{
    if width > 0 {
        lemma_hex_digits(n / 16, (width - 1) as nat);
    }
}

/// Hexadecimal notation holds two digits for each byte, and nothing else.
pub proof fn lemma_hex_bytes(bytes: Seq<u8>)
    ensures
        hex_bytes(bytes).len() == 2 * bytes.len(),
        forall|i: int| 0 <= i < hex_bytes(bytes).len() ==> is_hex(#[trigger] hex_bytes(bytes)[i]),
    decreases bytes.len(),
{
    if bytes.len() > 0 {
        lemma_hex_bytes(bytes.drop_last());
        let n = bytes.last() as nat;
        reveal_with_fuel(hex_digits, 3);
        assert(hex_digits(n, 2) =~= seq![digit_char((n / 16) % 16), digit_char(n % 16)]);
    }
}

/// The number that a run of digits stands for.
pub open spec fn digits_value(s: Seq<char>) -> nat
    decreases s.len(),
{
    if s.len() == 0 {
        0
    } else {
        digits_value(s.drop_last()) * 10 + (s.last() as u32 - 48) as nat
    }
}

/// Every character is a digit.
pub open spec fn all_digits(s: Seq<char>) -> bool {
    forall|i: int| 0 <= i < s.len() ==> is_digit(#[trigger] s[i])
}

/// Decimal notation is a run of digits that stand for the number.
pub proof fn lemma_decimal_value(n: nat)
    ensures
        all_digits(decimal(n)),
        decimal(n).len() > 0,
        digits_value(decimal(n)) == n,
    decreases n,
{
    let s = decimal(n);
    if n >= 10 {
        lemma_decimal_value(n / 10);
        assert(s.drop_last() =~= decimal(n / 10));
        assert(s.last() == digit_char(n % 10));
    } else {
        assert(s.drop_last() =~= Seq::empty());
        assert(digits_value(Seq::empty()) == 0);
    }
}

/// The number written in a text: at least one digit, after an optional plus
/// sign, and nothing else.
pub open spec fn parsed_nat(s: Seq<char>) -> Option<nat> {
    let body = if s.len() > 0 && s[0] == '+' {
        s.skip(1)
    } else {
        s
    };
    if body.len() > 0 && all_digits(body) {
        Some(digits_value(body))
    } else {
        None
    }
}

/// The number written in a text, if it is one that a `u64` holds.
pub open spec fn parsed_u64(s: Seq<char>) -> Option<u64> {
    match parsed_nat(s) {
        Some(n) => if n <= u64::MAX {
            Some(n as u64)
        } else {
            None
        },
        None => None,
    }
}

/// The number written in a text, if it is one that a `u32` holds.
pub open spec fn parsed_u32(s: Seq<char>) -> Option<u32> {
    match parsed_nat(s) {
        Some(n) => if n <= u32::MAX {
            Some(n as u32)
        } else {
            None
        },
        None => None,
    }
}

/// More digits never make the number smaller.
proof fn lemma_digits_value_grows(s: Seq<char>, i: int)
    requires
        0 <= i <= s.len(),
    ensures
        digits_value(s.take(i)) <= digits_value(s),
    decreases s.len(),
{
    if i == s.len() {
        assert(s.take(i) =~= s);
    } else {
        assert(s.drop_last().take(i) =~= s.take(i));
        lemma_digits_value_grows(s.drop_last(), i);
    }
}

/// The number written in `s`, if it is one that a `u64` holds.
pub fn parse_u64(s: &str) -> (r: Option<u64>)
    ensures
        r == parsed_u64(s@),
{
    let v = chars_of(s);
    let start: usize = if v.len() > 0 && v[0] == '+' { 1 } else { 0 };
    let ghost body = if s@.len() > 0 && s@[0] == '+' {
        s@.skip(1)
    } else {
        s@
    };
    assert(body =~= v@.skip(start as int));
    if start == v.len() {
        return None;
    }
    let mut value: u64 = 0;
    let mut i: usize = start;
    assert(body.take(0) =~= Seq::<char>::empty());
    while i < v.len()
        invariant
            start <= i <= v@.len(),
            start < v@.len(),
            body == v@.skip(start as int),
            parsed_u64(s@) == (if body.len() > 0 && all_digits(body) && digits_value(body) <= u64::MAX {
                Some(digits_value(body) as u64)
            } else {
                None
            }),
            forall|j: int| 0 <= j < i - start ==> is_digit(#[trigger] body[j]),
            value == digits_value(body.take(i - start)),
        decreases v@.len() - i,
    {
        assert(body[i - start] == v@[i as int]);
        if !digit(v[i]) {
            return None;
        }
        let d: u64 = (v[i] as u32 - 48) as u64;
        let ghost next = body.take(i - start + 1);
        assert(next.drop_last() =~= body.take(i - start));
        assert(next.last() == v@[i as int]);
        proof {
            lemma_digits_value_grows(body, i - start + 1);
        }
        if value > (u64::MAX - d) / 10 {
            return None;
        }
        value = value * 10 + d;
        i = i + 1;
    }
    assert(body.take(i - start) =~= body);
    Some(value)
}

/// The number written in `s`, if it is one that a `u32` holds.
pub fn parse_u32(s: &str) -> (r: Option<u32>)
    ensures
        r == parsed_u32(s@),
{
    match parse_u64(s) {
        Some(n) => if n <= 0xffff_ffff {
            Some(n as u32)
        } else {
            None
        },
        None => None,
    }
}

// ---------------------------------------------------------------------
// Runs
// ---------------------------------------------------------------------

/// What a text is split into: the words between white space, or the runs of
/// digits, or of letters and digits, between other characters.
#[derive(Clone, Copy, PartialEq, Eq, Structural)]
pub enum Runs {
    Words,
    Digits,
    Alnum,
}

/// A character stands between runs.
pub open spec fn separates(kind: Runs, c: char) -> bool {
    match kind {
        Runs::Words => is_white(c),
        Runs::Digits => !is_digit(c),
        Runs::Alnum => !is_alnum(c),
    }
}

/// The length of the run that a text begins with.
pub open spec fn run_len(s: Seq<char>, kind: Runs) -> nat
    decreases s.len(),
{
    if s.len() == 0 || separates(kind, s[0]) {
        0
    } else {
        1 + run_len(s.skip(1), kind)
    }
}

/// The runs of a text, none of them empty.
pub open spec fn runs(s: Seq<char>, kind: Runs) -> Seq<Seq<char>>
    decreases s.len(),
{
    if s.len() == 0 {
        Seq::empty()
    } else if separates(kind, s[0]) {
        runs(s.skip(1), kind)
    } else {
        let n = run_len(s, kind) as int;
        if 0 < n <= s.len() {
            seq![s.take(n)] + runs(s.skip(n), kind)
        } else {
            Seq::empty()
        }
    }
}

proof fn lemma_run_len(s: Seq<char>, kind: Runs)
    ensures
        run_len(s, kind) <= s.len(),
        s.len() > 0 && !separates(kind, s[0]) ==> run_len(s, kind) > 0,
        run_len(s, kind) < s.len() ==> separates(kind, s[run_len(s, kind) as int]),
    decreases s.len(),
{
    if s.len() > 0 && !separates(kind, s[0]) {
        lemma_run_len(s.skip(1), kind);
    }
}

/// Does `c` stand between runs?
fn between(kind: Runs, c: char) -> (r: bool)
    ensures
        r == separates(kind, c),
{
    match kind {
        Runs::Words => white(c),
        Runs::Digits => !digit(c),
        Runs::Alnum => !alnum(c),
    }
}

/// The runs of `s`.
pub fn split_runs(s: &str, kind: Runs) -> (r: Vec<String>)
    ensures
        texts(r@) == runs(s@, kind),
{
    let v = chars_of(s);
    let total: usize = v.len();
    let mut out: Vec<String> = Vec::new();
    let mut i: usize = 0;
    assert(v@.skip(0) =~= s@);
    assert(texts(out@) + runs(v@.skip(0), kind) =~= runs(s@, kind));
    while i < total
        invariant
            total == v@.len(),
            i <= total,
            runs(s@, kind) == texts(out@) + runs(v@.skip(i as int), kind),
        decreases total - i,
    {
        let ghost rest = v@.skip(i as int);
        if between(kind, v[i]) {
            assert(rest.skip(1) =~= v@.skip(i + 1));
            i = i + 1;
        } else {
            let mut j: usize = i;
            while j < total && !between(kind, v[j])
                invariant
                    total == v@.len(),
                    i <= j <= total,
                    run_len(v@.skip(i as int), kind) == (j - i) + run_len(v@.skip(j as int), kind),
                decreases total - j,
            {
                assert(v@.skip(j as int).skip(1) =~= v@.skip(j + 1));
                j = j + 1;
            }
            proof {
                lemma_run_len(rest, kind);
            }
            let ghost was = texts(out@);
            let run = text_of(v.as_slice(), i, j);
            assert(run@ =~= rest.take(j - i));
            assert(rest.skip(j - i) =~= v@.skip(j as int));
            out.push(run);
            assert(texts(out@) =~= was.push(run@));
            assert(texts(out@) + runs(v@.skip(j as int), kind) =~= was + (seq![run@] + runs(
                v@.skip(j as int),
                kind,
            )));
            i = j;
        }
    }
    assert(runs(v@.skip(total as int), kind) =~= Seq::empty());
    assert(texts(out@) =~= runs(s@, kind));
    out
}

// ---------------------------------------------------------------------
// Laws
// ---------------------------------------------------------------------

/// A text stands in every text that is put together with it.
pub proof fn lemma_contains_middle(a: Seq<char>, p: Seq<char>, b: Seq<char>)
    ensures
        occurs_at(a + p + b, p, a.len() as int),
        contains(a + p + b, p),
{
    assert((a + p + b).subrange(a.len() as int, (a.len() + p.len()) as int) =~= p);
}

/// What stands in a text stands in every text that is put together with it.
pub proof fn lemma_contains_wider(a: Seq<char>, s: Seq<char>, b: Seq<char>, p: Seq<char>)
    requires
        contains(s, p),
    ensures
        contains(a + s + b, p),
{
    let i = choose|i: int| occurs_at(s, p, i);
    assert((a + s + b).subrange(a.len() + i, a.len() + i + p.len()) =~= s.subrange(
        i,
        i + p.len(),
    ));
    assert(occurs_at(a + s + b, p, a.len() + i));
}

/// Two texts that begin alike and end alike differ where their middles do.
pub proof fn lemma_middles_differ(a: Seq<char>, x: Seq<char>, y: Seq<char>, b: Seq<char>)
    requires
        x != y,
    ensures
        a + x + b != a + y + b,
{
    if a + x + b == a + y + b {
        assert((a + x + b).len() == (a + y + b).len());
        assert(x =~= (a + x + b).subrange(a.len() as int, (a.len() + x.len()) as int));
        assert(y =~= (a + y + b).subrange(a.len() as int, (a.len() + y.len()) as int));
    }
}

/// Trimming takes white space off both ends, all of it, and nothing else.
pub proof fn law_trimming_takes_only_white_space(s: Seq<char>)
    ensures
        trimmed(s).len() > 0 ==> !is_white(trimmed(s)[0]) && !is_white(trimmed(s).last()),
        is_padded(trimmed(s), s),
        trimmed(s).len() == 0 <==> all_white(s),
        trimmed(trimmed(s)) == trimmed(s),
{
    lemma_trimmed_start(s);
    let t = trimmed_start(s);
    lemma_trimmed_end(t);
    let a = s.take(s.len() - t.len());
    let r = trimmed(s);
    let b = t.skip(r.len() as int);
    assert(s =~= a + r + b);
    assert(s == a + trimmed(s) + b && all_white(a) && all_white(b));
    if r.len() == 0 {
        assert forall|i: int| 0 <= i < s.len() implies is_white(#[trigger] s[i]) by {
            if i < a.len() {
                assert(a[i] == s[i]);
            } else {
                assert(b[i - a.len()] == s[i]);
            }
        }
    } else {
        assert(r[0] == s[a.len() as int]);
        assert(!is_white(s[a.len() as int]));
        assert(r[0] == t[0]);
    }
    if r.len() > 0 {
        assert(trimmed_start(r) == r);
        assert(trimmed_end(r) == r);
    }
}

/// A text is another with white space around it.
pub open spec fn is_padded(t: Seq<char>, s: Seq<char>) -> bool {
    exists|a: Seq<char>, b: Seq<char>|
        #![trigger a + t + b]
        s == a + t + b && all_white(a) && all_white(b)
}

/// Every character is white space.
pub open spec fn all_white(s: Seq<char>) -> bool {
    forall|i: int| 0 <= i < s.len() ==> is_white(#[trigger] s[i])
}

proof fn lemma_trimmed_start(s: Seq<char>)
    ensures
        trimmed_start(s).len() <= s.len(),
        trimmed_start(s) == s.skip(s.len() - trimmed_start(s).len()),
        all_white(s.take(s.len() - trimmed_start(s).len())),
        trimmed_start(s).len() > 0 ==> !is_white(trimmed_start(s)[0]),
    decreases s.len(),
{
    if s.len() > 0 && is_white(s[0]) {
        lemma_trimmed_start(s.skip(1));
        let rest = s.skip(1);
        let t = trimmed_start(s);
        assert(rest.skip(rest.len() - t.len()) =~= s.skip(s.len() - t.len()));
        let head = s.take(s.len() - t.len());
        assert forall|i: int| 0 <= i < head.len() implies is_white(#[trigger] head[i]) by {
            if i > 0 {
                assert(rest.take(rest.len() - t.len())[i - 1] == head[i]);
            }
        }
    } else {
        assert(s.skip(0) =~= s);
    }
}

proof fn lemma_trimmed_end(s: Seq<char>)
    ensures
        trimmed_end(s).len() <= s.len(),
        trimmed_end(s) == s.take(trimmed_end(s).len() as int),
        all_white(s.skip(trimmed_end(s).len() as int)),
        trimmed_end(s).len() > 0 ==> !is_white(trimmed_end(s).last()),
    decreases s.len(),
{
    if s.len() > 0 && is_white(s.last()) {
        let rest = s.drop_last();
        lemma_trimmed_end(rest);
        let t = trimmed_end(s);
        assert(rest.take(t.len() as int) =~= s.take(t.len() as int));
        let tail = s.skip(t.len() as int);
        assert forall|i: int| 0 <= i < tail.len() implies is_white(#[trigger] tail[i]) by {
            if i < tail.len() - 1 {
                assert(rest.skip(t.len() as int)[i] == tail[i]);
            }
        }
    } else {
        assert(s.take(s.len() as int) =~= s);
    }
}

/// Splitting at a separator loses nothing: the pieces hold no separator, and
/// put together with it they are the text.
pub proof fn law_pieces_make_the_text(s: Seq<char>, sep: char)
    ensures
        joined(pieces(s, sep), seq![sep]) == s,
        forall|i: int|
            0 <= i < pieces(s, sep).len() ==> !(#[trigger] pieces(s, sep)[i]).contains(sep),
        pieces(s, sep).len() > 0,
    decreases s.len(),
{
    let all = pieces(s, sep);
    if s.len() > 0 {
        let before = pieces(s.drop_last(), sep);
        law_pieces_make_the_text(s.drop_last(), sep);
        if s.last() == sep {
            assert(all.drop_last() =~= before);
            assert(joined(all, seq![sep]) =~= s);
            assert forall|i: int| 0 <= i < all.len() implies !(#[trigger] all[i]).contains(sep) by {
                if i < before.len() {
                    assert(all[i] == before[i]);
                }
            }
        } else {
            let grown = before.last().push(s.last());
            assert(all.drop_last() =~= before.drop_last());
            if all.len() == 1 {
                assert(joined(all, seq![sep]) =~= s);
            } else {
                assert(joined(all, seq![sep]) =~= joined(before, seq![sep]).push(s.last()));
                assert(s.drop_last().push(s.last()) =~= s);
            }
            assert forall|i: int| 0 <= i < all.len() implies !(#[trigger] all[i]).contains(sep) by {
                if i < before.len() - 1 {
                    assert(all[i] == before[i]);
                } else {
                    assert(all[i] == grown);
                    if grown.contains(sep) {
                        let k = choose|k: int| 0 <= k < grown.len() && grown[k] == sep;
                        assert(before.last()[k] == sep);
                        assert(before[before.len() - 1].contains(sep));
                    }
                }
            }
        }
    }
}

/// A number that is written down in decimal notation is read back, if a `u64`
/// holds it.
pub proof fn law_decimal_is_read_back(n: nat)
    ensures
        parsed_nat(decimal(n)) == Some(n),
        n <= u64::MAX ==> parsed_u64(decimal(n)) == Some(n as u64),
        n > u64::MAX ==> parsed_u64(decimal(n)) is None,
        n <= u32::MAX ==> parsed_u32(decimal(n)) == Some(n as u32),
{
    lemma_decimal_value(n);
    assert(is_digit(decimal(n)[0]));
}

/// Different numbers are written differently.
pub proof fn law_decimals_differ(a: nat, b: nat)
    requires
        decimal(a) == decimal(b),
    ensures
        a == b,
{
    lemma_decimal_value(a);
    lemma_decimal_value(b);
}

/// A text without a prefix, put behind it again, is the text; likewise with a
/// suffix.
pub proof fn law_stripping_is_undone(s: Seq<char>, p: Seq<char>)
    ensures
        without_prefix(p + s, p) == Some(s),
        without_suffix(s + p, p) == Some(s),
        without_prefix(s, p) matches Some(rest) ==> p + rest == s,
        without_suffix(s, p) matches Some(rest) ==> rest + p == s,
{
    assert(p =~= (p + s).subrange(0, p.len() as int));
    assert((p + s).skip(p.len() as int) =~= s);
    assert(p =~= (s + p).subrange(s.len() as int, (s + p).len() as int));
    assert((s + p).take(s.len() as int) =~= s);
    if p.is_prefix_of(s) {
        assert(p + s.skip(p.len() as int) =~= s);
    }
    if p.is_suffix_of(s) {
        assert(s.take(s.len() - p.len()) + p =~= s);
    }
}

/// A text that two others make with a separator between them has the pieces of
/// the first and then those of the second.
pub proof fn law_pieces_of_two_texts(a: Seq<char>, sep: char, b: Seq<char>)
    ensures
        pieces(a.push(sep) + b, sep) == pieces(a, sep) + pieces(b, sep),
    decreases b.len(),
{
    let whole = a.push(sep) + b;
    lemma_pieces_nonempty(a, sep);
    lemma_pieces_nonempty(b, sep);
    if b.len() == 0 {
        assert(whole =~= a.push(sep));
        assert(a.push(sep).drop_last() =~= a);
        assert(pieces(a, sep) + pieces(b, sep) =~= pieces(a, sep).push(Seq::empty()));
    } else {
        law_pieces_of_two_texts(a, sep, b.drop_last());
        lemma_pieces_nonempty(b.drop_last(), sep);
        assert(whole.drop_last() =~= a.push(sep) + b.drop_last());
        assert(whole.last() == b.last());
        let before = pieces(b.drop_last(), sep);
        let first = pieces(a, sep);
        if b.last() == sep {
            assert((first + before).push(Seq::empty()) =~= first + before.push(Seq::empty()));
        } else {
            assert((first + before).drop_last() =~= first + before.drop_last());
            assert((first + before).last() == before.last());
            assert((first + before.drop_last()).push(before.last().push(b.last())) =~= first
                + before.drop_last().push(before.last().push(b.last())));
        }
    }
}

/// A text without the separator is one piece.
pub proof fn law_text_without_separator_is_one_piece(s: Seq<char>, sep: char)
    requires
        !s.contains(sep),
    ensures
        pieces(s, sep) == seq![s],
    decreases s.len(),
{
    if s.len() == 0 {
        assert(s =~= Seq::empty());
    } else {
        let rest = s.drop_last();
        assert(!rest.contains(sep)) by {
            if rest.contains(sep) {
                let i = choose|i: int| 0 <= i < rest.len() && rest[i] == sep;
                assert(s[i] == sep);
            }
        }
        law_text_without_separator_is_one_piece(rest, sep);
        assert(s[s.len() - 1] != sep);
        assert(rest.push(s.last()) =~= s);
        assert(seq![rest].drop_last().push(rest.push(s.last())) =~= seq![s]);
    }
}

/// A line and what follows it are the line, without the carriage return of its
/// ending, and then the lines of what follows.
pub proof fn law_lines_are_read_one_by_one(line: Seq<char>, rest: Seq<char>)
    requires
        !line.contains('\n'),
    ensures
        lines(line.push('\n') + rest) == seq![without_cr(line)] + lines(rest),
        line.len() > 0 ==> lines(line) == seq![line],
        lines(Seq::empty()).len() == 0,
{
    law_pieces_of_two_texts(line, '\n', rest);
    law_text_without_separator_is_one_piece(line, '\n');
    lemma_pieces_nonempty(rest, '\n');
    let all = pieces(line.push('\n') + rest, '\n');
    let later = pieces(rest, '\n');
    assert(all =~= seq![line] + later);
    assert(all.last() == later.last());
    assert(lines(line.push('\n') + rest) =~= seq![without_cr(line)] + lines(rest));
    if line.len() > 0 {
        assert(lines(line) =~= seq![line]);
    }
}

/// What is cut off at the end of a text is the one character, all of it, and
/// nothing else.
pub proof fn law_only_trailing_characters_are_cut(s: Seq<char>, c: char)
    ensures
        without_trailing(s, c).is_prefix_of(s),
        without_trailing(s, c).len() > 0 ==> without_trailing(s, c).last() != c,
        forall|i: int| without_trailing(s, c).len() <= i < s.len() ==> #[trigger] s[i] == c,
    decreases s.len(),
{
    if s.len() > 0 && s.last() == c {
        law_only_trailing_characters_are_cut(s.drop_last(), c);
        let cut = without_trailing(s, c);
        assert(cut =~= s.subrange(0, cut.len() as int));
        assert forall|i: int| cut.len() <= i < s.len() implies #[trigger] s[i] == c by {
            if i < s.len() - 1 {
                assert(s.drop_last()[i] == c);
            }
        }
    } else {
        assert(s =~= s.subrange(0, s.len() as int));
    }
}

proof fn lemma_run_ends_at_separator(a: Seq<char>, c: char, b: Seq<char>, kind: Runs)
    requires
        separates(kind, c),
    ensures
        run_len(a.push(c) + b, kind) == run_len(a, kind),
    decreases a.len(),
{
    let whole = a.push(c) + b;
    if a.len() == 0 {
        assert(whole[0] == c);
    } else {
        assert(whole[0] == a[0]);
        if !separates(kind, a[0]) {
            lemma_run_ends_at_separator(a.skip(1), c, b, kind);
            assert(whole.skip(1) =~= a.skip(1).push(c) + b);
        }
    }
}

/// Runs end where a separator stands: two texts with one between them have the
/// runs of the first and then those of the second.
pub proof fn law_runs_of_two_texts(a: Seq<char>, c: char, b: Seq<char>, kind: Runs)
    requires
        separates(kind, c),
    ensures
        runs(a.push(c) + b, kind) == runs(a, kind) + runs(b, kind),
    decreases a.len(),
{
    let whole = a.push(c) + b;
    if a.len() == 0 {
        assert(whole[0] == c);
        assert(whole.skip(1) =~= b);
        assert(runs(a, kind) + runs(b, kind) =~= runs(b, kind));
    } else if separates(kind, a[0]) {
        law_runs_of_two_texts(a.skip(1), c, b, kind);
        assert(whole[0] == a[0]);
        assert(whole.skip(1) =~= a.skip(1).push(c) + b);
    } else {
        assert(whole[0] == a[0]);
        lemma_run_ends_at_separator(a, c, b, kind);
        lemma_run_len(a, kind);
        let n = run_len(a, kind) as int;
        law_runs_of_two_texts(a.skip(n), c, b, kind);
        assert(whole.take(n) =~= a.take(n));
        assert(whole.skip(n) =~= a.skip(n).push(c) + b);
        assert(seq![a.take(n)] + (runs(a.skip(n), kind) + runs(b, kind)) =~= seq![a.take(n)] + runs(
            a.skip(n),
            kind,
        ) + runs(b, kind));
    }
}

/// A text without a separator is one run.
pub proof fn law_text_without_separators_is_one_run(s: Seq<char>, kind: Runs)
    requires
        s.len() > 0,
        forall|i: int| 0 <= i < s.len() ==> !separates(kind, #[trigger] s[i]),
    ensures
        runs(s, kind) == seq![s],
        runs(Seq::empty(), kind).len() == 0,
{
    lemma_whole_run(s, kind);
    assert(s.take(s.len() as int) =~= s);
    assert(s.skip(s.len() as int) =~= Seq::empty());
    assert(!separates(kind, s[0]));
    let none = runs(s.skip(s.len() as int), kind);
    assert(none.len() == 0);
    assert(runs(s, kind) =~= seq![s] + none);
    assert(seq![s] + none =~= seq![s]);
}

proof fn lemma_whole_run(s: Seq<char>, kind: Runs)
    requires
        forall|i: int| 0 <= i < s.len() ==> !separates(kind, #[trigger] s[i]),
    ensures
        run_len(s, kind) == s.len(),
    decreases s.len(),
{
    if s.len() > 0 {
        assert(!separates(kind, s[0]));
        assert forall|i: int| 0 <= i < s.skip(1).len() implies !separates(
            kind,
            #[trigger] s.skip(1)[i],
        ) by {
            assert(s.skip(1)[i] == s[i + 1]);
        }
        lemma_whole_run(s.skip(1), kind);
    }
}

/// What separates words, runs of digits, and runs of letters and digits.
pub proof fn law_separators(c: char)
    ensures
        separates(Runs::Words, c) <==> is_white(c),
        separates(Runs::Digits, c) <==> !('0' <= c && c <= '9'),
        separates(Runs::Alnum, c) <==> !(('0' <= c && c <= '9') || ('a' <= c && c <= 'z') || ('A'
            <= c && c <= 'Z')),
{
}

/// Lowering keeps every character that is no upper-case letter, and makes a
/// letter its small one.
pub proof fn law_lowering_keeps_the_rest(s: Seq<char>, i: int)
    requires
        0 <= i < s.len(),
    ensures
        ascii_lowered(s).len() == s.len(),
        !('A' <= s[i] && s[i] <= 'Z') ==> ascii_lowered(s)[i] == s[i],
        'A' <= s[i] && s[i] <= 'Z' ==> ascii_lowered(s)[i] as u32 - 'a' as u32 == s[i] as u32
            - 'A' as u32,
{
}

} // verus!
