//! Names of projects, agents and missions, and content hashes.
use vstd::prelude::*;
use crate::error;
use crate::error::{Error, ErrorView};
use crate::text;

verus! {

/// A character that a slug may hold.
pub open spec fn is_slug_char(c: char) -> bool {
    text::is_lower(c) || text::is_digit(c) || c == '-'
}

/// A text holds slug characters alone.
pub open spec fn is_slug_text(s: Seq<char>) -> bool {
    forall|i: int| 0 <= i < s.len() ==> is_slug_char(#[trigger] s[i])
}

/// A valid slug: one to sixty-four slug characters, no dash at either end.
pub open spec fn is_slug(s: Seq<char>) -> bool {
    &&& 0 < s.len() <= 64
    &&& is_slug_text(s)
    &&& s[0] != '-'
    &&& s.last() != '-'
}

/// What checking a slug comes to.
pub open spec fn slug_check(s: Seq<char>) -> Result<(), ErrorView> {
    if s.len() == 0 || s.len() > 64 || !is_slug_text(s) {
        Err(
            ErrorView::Store(
                "invalid slug "@ + text::quoted(s) + ": kebab-case alphanumerics only (a-z0-9-)"@,
            ),
        )
    } else if s[0] == '-' || s.last() == '-' {
        Err(
            ErrorView::Store(
                "invalid slug "@ + text::quoted(s) + ": no leading/trailing dashes"@,
            ),
        )
    } else {
        Ok(())
    }
}

/// Check a project, agent or mission slug: kebab-case, no path escapes.
pub fn validate_slug(slug: &str) -> (r: Result<(), Error>)
    ensures
        error::verdict(r) == slug_check(slug@),
        r is Ok <==> is_slug(slug@),
{
    let s = text::chars_of(slug);
    let mut plain = s.len() > 0 && s.len() <= 64;
    let mut i: usize = 0;
    while i < s.len() && plain
        invariant
            s@ == slug@,
            i <= s@.len(),
            plain ==> 0 < s@.len() <= 64,
            plain ==> forall|j: int| 0 <= j < i ==> is_slug_char(#[trigger] s@[j]),
            !plain ==> s@.len() == 0 || s@.len() > 64 || !is_slug_text(s@),
        decreases s@.len() - i,
    {
        let c = s[i];
        if !(('a' <= c && c <= 'z') || text::digit(c) || c == '-') {
            assert(!is_slug_char(s@[i as int]));
            plain = false;
        }
        i = i + 1;
    }
    if !plain {
        return Err(
            Error::Store(
                text::cat3(
                    "invalid slug ",
                    text::quote(slug).as_str(),
                    ": kebab-case alphanumerics only (a-z0-9-)",
                ),
            ),
        );
    }
    assert(is_slug_text(s@));
    if s[0] == '-' || s[s.len() - 1] == '-' {
        return Err(
            Error::Store(
                text::cat3(
                    "invalid slug ",
                    text::quote(slug).as_str(),
                    ": no leading/trailing dashes",
                ),
            ),
        );
    }
    Ok(())
}

// ---------------------------------------------------------------------
// Slugs out of names
// ---------------------------------------------------------------------

/// The runs of letters and digits of a text with one dash between each two,
/// and whether other characters have followed the last run.
pub open spec fn kebab_state(s: Seq<char>) -> (Seq<char>, bool)
    decreases s.len(),
{
    if s.len() == 0 {
        (Seq::empty(), false)
    } else {
        let (done, gap) = kebab_state(s.drop_last());
        if !text::is_alnum(s.last()) {
            (done, true)
        } else if gap && done.len() > 0 {
            (done.push('-').push(s.last()), false)
        } else {
            (done.push(s.last()), false)
        }
    }
}

/// The runs of letters and digits of a text with one dash between each two.
pub open spec fn kebab(s: Seq<char>) -> Seq<char> {
    kebab_state(s).0
}

/// The slug that a display name gives.
pub open spec fn slug_of(name: Seq<char>) -> Seq<char> {
    kebab(text::lowercased(name))
}

/// The runs of letters and digits of `lowered` with one dash between each two.
pub fn to_kebab(lowered: &str) -> (r: String)
    ensures
        r@ == kebab(lowered@),
{
    let s = text::chars_of(lowered);
    let mut out = String::new();
    let mut empty = true;
    let mut gap = false;
    let mut i: usize = 0;
    assert(s@.take(0) =~= Seq::<char>::empty());
    while i < s.len()
        invariant
            s@ == lowered@,
            i <= s@.len(),
            empty == (out@.len() == 0),
            kebab_state(s@.take(i as int)) == (out@, gap),
        decreases s@.len() - i,
    {
        assert(s@.take(i + 1).drop_last() =~= s@.take(i as int));
        let c = s[i];
        if !text::alnum(c) {
            gap = true;
        } else {
            if gap && !empty {
                out.push('-');
            }
            out.push(c);
            empty = false;
            gap = false;
        }
        i = i + 1;
    }
    assert(s@.take(i as int) =~= s@);
    out
}

/// The slug that the display name `name` gives: lower-cased, every run of
/// characters other than letters and digits a single dash, none at the ends.
pub fn slugify(name: &str) -> (r: String)
    ensures
        r@ == slug_of(name@),
        is_kebab(r@),
        0 < r@.len() <= 64 ==> is_slug(r@),
{
    let lowered = text::lowercase(name);
    proof {
        lemma_kebab_shape(lowered@);
        law_kebab_is_idempotent(lowered@);
    }
    to_kebab(lowered.as_str())
}

/// Letters and digits with single dashes between them.
pub open spec fn is_kebab(s: Seq<char>) -> bool {
    &&& forall|i: int| 0 <= i < s.len() ==> text::is_alnum(#[trigger] s[i]) || s[i] == '-'
    &&& s.len() > 0 ==> s[0] != '-' && s.last() != '-'
    &&& forall|i: int| 0 <= i < s.len() - 1 ==> #[trigger] s[i] != '-' || s[i + 1] != '-'
}

proof fn lemma_kebab_shape(s: Seq<char>)
    ensures
        is_kebab(kebab_state(s).0),
        forall|i: int|
            0 <= i < kebab_state(s).0.len() ==> (#[trigger] kebab_state(s).0[i]) == '-' || s.contains(
                kebab_state(s).0[i],
            ),
    decreases s.len(),
{
    if s.len() > 0 {
        lemma_kebab_shape(s.drop_last());
        let (done, gap) = kebab_state(s.drop_last());
        let now = kebab_state(s).0;
        assert forall|i: int| 0 <= i < now.len() implies (#[trigger] now[i]) == '-' || s.contains(
            now[i],
        ) by {
            if i < done.len() {
                assert(now[i] == done[i]);
                if done[i] != '-' {
                    let j = choose|j: int| 0 <= j < s.drop_last().len() && s.drop_last()[j] == done[i];
                    assert(s[j] == done[i]);
                }
            } else if now[i] != '-' {
                assert(s[s.len() - 1] == now[i]);
            }
        }
        if text::is_alnum(s.last()) {
            if done.len() > 0 {
                assert(now[0] == done[0]);
            }
            assert forall|i: int| 0 <= i < now.len() - 1 implies #[trigger] now[i] != '-' || now[i + 1]
                != '-' by {
                if i < done.len() {
                    assert(now[i] == done[i]);
                    if i + 1 < done.len() {
                        assert(now[i + 1] == done[i + 1]);
                    } else {
                        assert(done[i] == done.last());
                    }
                }
            }
        }
    }
}

proof fn lemma_kebab_keeps(s: Seq<char>, n: int)
    requires
        is_kebab(s),
        0 <= n <= s.len(),
    ensures
        kebab_state(s.take(n)) == (if n > 0 && s[n - 1] == '-' {
            (s.take(n - 1), true)
        } else {
            (s.take(n), false)
        }),
    decreases n,
{
    if n == 0 {
        assert(s.take(0) =~= Seq::<char>::empty());
    } else {
        lemma_kebab_keeps(s, n - 1);
        assert(s.take(n).drop_last() =~= s.take(n - 1));
        assert(s.take(n).last() == s[n - 1]);
        assert(text::is_alnum(s[n - 1]) || s[n - 1] == '-');
        if s[n - 1] == '-' {
            if n > 1 {
                assert(s[n - 2] != '-' || s[n - 1] != '-');
            }
        } else if n > 1 && s[n - 2] == '-' {
            assert(n > 2);
            assert(s.take(n - 2).push('-').push(s[n - 1]) =~= s.take(n));
        } else {
            assert(s.take(n - 1).push(s[n - 1]) =~= s.take(n));
        }
    }
}

/// A text that already is letters and digits with single dashes between them
/// is kept as it is.
pub proof fn law_kebab_keeps_kebab(s: Seq<char>)
    requires
        is_kebab(s),
    ensures
        kebab(s) == s,
{
    lemma_kebab_keeps(s, s.len() as int);
    assert(s.take(s.len() as int) =~= s);
}

/// Making a slug out of a slug changes nothing more, and what is made out of a
/// lower-case text of at most sixty-four characters is empty or a valid slug.
pub proof fn law_kebab_is_idempotent(lowered: Seq<char>)
    requires
        forall|i: int| 0 <= i < lowered.len() ==> !text::is_upper(#[trigger] lowered[i]),
    ensures
        kebab(kebab(lowered)) == kebab(lowered),
        0 < kebab(lowered).len() <= 64 ==> is_slug(kebab(lowered)),
{
    lemma_kebab_shape(lowered);
    law_kebab_keeps_kebab(kebab(lowered));
    let out = kebab(lowered);
    assert forall|i: int| 0 <= i < out.len() implies is_slug_char(#[trigger] out[i]) by {
        if out[i] != '-' {
            let j = choose|j: int| 0 <= j < lowered.len() && lowered[j] == out[i];
            assert(!text::is_upper(lowered[j]));
        }
    }
}

/// No valid slug can leave the directory it names an entry of: it holds no
/// separator and is neither the directory itself nor its parent.
pub proof fn law_slug_stays_in_place(s: Seq<char>)
    requires
        is_slug(s),
    ensures
        !s.contains('/'),
        s != "."@,
        s != ".."@,
{
    reveal_strlit(".");
    reveal_strlit("..");
    assert(is_slug_char(s[0]));
    assert(!s.contains('/')) by {
        if s.contains('/') {
            let i = choose|i: int| 0 <= i < s.len() && s[i] == '/';
            assert(is_slug_char(s[i]));
        }
    }
}

// ---------------------------------------------------------------------
// Content hashes
// ---------------------------------------------------------------------

/// The 64-bit FNV-1a hash of the bytes: each byte is mixed in by exclusive or
/// and a multiplication modulo two to the sixty-fourth.
pub open spec fn fnv1a(bytes: Seq<u8>) -> u64
    decreases bytes.len(),
{
    if bytes.len() == 0 {
        0xcbf2_9ce4_8422_2325
    } else {
        (((fnv1a(bytes.drop_last()) ^ (bytes.last() as u64)) as int * 0x0000_0100_0000_01b3)
            % 0x1_0000_0000_0000_0000) as u64
    }
}

/// The FNV-1a hash of `bytes` as sixteen hexadecimal digits. Attribution, not
/// a signature.
pub fn fnv1a_hex(bytes: &[u8]) -> (r: String)
    ensures
        r@ == text::hex_digits(fnv1a(bytes@) as nat, 16),
{
    let mut hash: u64 = 0xcbf2_9ce4_8422_2325;
    let mut i: usize = 0;
    assert(bytes@.take(0) =~= Seq::<u8>::empty());
    while i < bytes.len()
        invariant
            i <= bytes@.len(),
            hash == fnv1a(bytes@.take(i as int)),
        decreases bytes@.len() - i,
    {
        assert(bytes@.take(i + 1).drop_last() =~= bytes@.take(i as int));
        let mixed: u64 = hash ^ (bytes[i] as u64);
        hash = mixed.wrapping_mul(0x0000_0100_0000_01b3);
        i = i + 1;
    }
    assert(bytes@.take(i as int) =~= bytes@);
    text::hex_of(hash, 16)
}

/// Words that something other than letters and digits stands between are told
/// apart by one dash, and what is no word leaves nothing.
pub proof fn law_words_are_told_apart(a: Seq<char>, c: char, b: Seq<char>)
    requires
        !text::is_alnum(c),
    ensures
        kebab(a).len() == 0 ==> kebab(a.push(c) + b) == kebab(b),
        kebab(b).len() == 0 ==> kebab(a.push(c) + b) == kebab(a),
        kebab(a).len() > 0 && kebab(b).len() > 0 ==> kebab(a.push(c) + b) == kebab(a).push('-')
            + kebab(b),
{
    lemma_kebab_words(a, c, b);
}

proof fn lemma_kebab_words(a: Seq<char>, c: char, b: Seq<char>)
    requires
        !text::is_alnum(c),
    ensures
        kebab_state(a.push(c) + b).0 == (if kebab(a).len() == 0 {
            kebab(b)
        } else if kebab(b).len() == 0 {
            kebab(a)
        } else {
            kebab(a).push('-') + kebab(b)
        }),
        kebab(b).len() > 0 ==> kebab_state(a.push(c) + b).1 == kebab_state(b).1,
        kebab(b).len() == 0 ==> kebab_state(a.push(c) + b).1,
    decreases b.len(),
{
    let whole = a.push(c) + b;
    if b.len() == 0 {
        assert(whole =~= a.push(c));
        assert(a.push(c).drop_last() =~= a);
        if kebab(a).len() == 0 {
            assert(kebab(a) =~= kebab(b));
        }
    } else {
        lemma_kebab_words(a, c, b.drop_last());
        assert(whole.drop_last() =~= a.push(c) + b.drop_last());
        assert(whole.last() == b.last());
        let x = b.last();
        let done = kebab(b.drop_last());
        let ka = kebab(a);
        if text::is_alnum(x) {
            if ka.len() == 0 {
            } else if done.len() == 0 {
                assert(ka.push('-').push(x) =~= ka.push('-') + done.push(x));
            } else {
                assert((ka.push('-') + done).push('-').push(x) =~= ka.push('-') + done.push(
                    '-',
                ).push(x));
                assert((ka.push('-') + done).push(x) =~= ka.push('-') + done.push(x));
            }
        }
    }
}

/// A slug is made of small letters, digits and dashes.
pub proof fn law_slug_characters(s: Seq<char>, i: int)
    requires
        is_slug(s),
        0 <= i < s.len(),
    ensures
        ('a' <= s[i] && s[i] <= 'z') || ('0' <= s[i] && s[i] <= '9') || s[i] == '-',
        s[0] != '-' && s.last() != '-',
        s.len() <= 64,
{
    assert(is_slug_char(s[i]));
}

/// What is made of small letters, digits and dashes alone, has no dash at
/// either end and is not too long is a slug.
pub proof fn law_slugs_are_accepted(s: Seq<char>)
    requires
        0 < s.len() <= 64,
        forall|i: int|
            0 <= i < s.len() ==> ('a' <= #[trigger] s[i] && s[i] <= 'z') || ('0' <= s[i] && s[i]
                <= '9') || s[i] == '-',
        s[0] != '-',
        s.last() != '-',
    ensures
        is_slug(s),
        slug_check(s) is Ok,
{
}

/// Mixing a byte in can be undone: two states that are mixed into one were one.
proof fn lemma_mixing_is_undone(x: u64, y: u64)
    requires
        (x as int * 0x0000_0100_0000_01b3) % 0x1_0000_0000_0000_0000 == (y as int
            * 0x0000_0100_0000_01b3) % 0x1_0000_0000_0000_0000,
    ensures
        x == y,
{
    let p: int = 0x0000_0100_0000_01b3;
    let m: int = 0x1_0000_0000_0000_0000;
    let q: int = 0xce96_5057_aff6_957b;
    let k: int = 887285111055;
    assert(p * q == 1 + k * m) by (nonlinear_arith)
        requires
            p == 0x0000_0100_0000_01b3,
            m == 0x1_0000_0000_0000_0000,
            q == 0xce96_5057_aff6_957b,
            k == 887285111055,
    ;
    lemma_back(x as int, p, q, k, m);
    lemma_back(y as int, p, q, k, m);
}

proof fn lemma_back(x: int, p: int, q: int, k: int, m: int)
    requires
        0 <= x < m,
        p * q == 1 + k * m,
    ensures
        ((x * p) % m) * q % m == x,
{
    vstd::arithmetic::div_mod::lemma_mul_mod_noop_left(x * p, q, m);
    assert(x * p * q == m * (k * x) + x) by (nonlinear_arith)
        requires
            p * q == 1 + k * m,
    ;
    vstd::arithmetic::div_mod::lemma_mod_multiples_vanish(k * x, x, m);
    vstd::arithmetic::div_mod::lemma_small_mod(x as nat, m as nat);
}

/// A content hash notices every change of one byte, wherever it stands.
pub proof fn law_one_changed_byte_changes_the_hash(
    before: Seq<u8>,
    a: u8,
    b: u8,
    after: Seq<u8>,
)
    requires
        a != b,
    ensures
        fnv1a(before.push(a) + after) != fnv1a(before.push(b) + after),
    decreases after.len(),
{
    let x = before.push(a) + after;
    let y = before.push(b) + after;
    if after.len() == 0 {
        assert(x =~= before.push(a));
        assert(y =~= before.push(b));
        assert(x.drop_last() =~= before);
        assert(y.drop_last() =~= before);
        let h = fnv1a(before);
        lemma_mixed_apart(h, h, a, b);
    } else {
        law_one_changed_byte_changes_the_hash(before, a, b, after.drop_last());
        assert(x.drop_last() =~= before.push(a) + after.drop_last());
        assert(y.drop_last() =~= before.push(b) + after.drop_last());
        lemma_mixed_apart(fnv1a(x.drop_last()), fnv1a(y.drop_last()), after.last(), after.last());
    }
}

proof fn lemma_mixed_apart(h: u64, g: u64, a: u8, b: u8)
    requires
        (h == g && a != b) || (h != g && a == b),
    ensures
        (((h ^ (a as u64)) as int * 0x0000_0100_0000_01b3) % 0x1_0000_0000_0000_0000) as u64 != (((g
            ^ (b as u64)) as int * 0x0000_0100_0000_01b3) % 0x1_0000_0000_0000_0000) as u64,
{
    let x = h ^ (a as u64);
    let y = g ^ (b as u64);
    assert(h == g && a != b ==> h ^ (a as u64) != g ^ (b as u64)) by (bit_vector);
    assert(h != g && a == b ==> h ^ (a as u64) != g ^ (b as u64)) by (bit_vector);
    let m: int = 0x1_0000_0000_0000_0000;
    let u = (x as int * 0x0000_0100_0000_01b3) % m;
    let v = (y as int * 0x0000_0100_0000_01b3) % m;
    assert(0 <= u < m && 0 <= v < m);
    if u as u64 == v as u64 {
        assert(u == v);
        lemma_mixing_is_undone(x, y);
    }
}

} // verus!
