//! Digests of bytes and of bundles of files.
use sha2::Digest;
use vstd::prelude::*;
use crate::table;
use crate::text;

verus! {

/// The SHA-256 digest that `sha2::Sha256::digest` computes.
pub uninterp spec fn sha256(bytes: Seq<u8>) -> Seq<u8>;

/// `sha2::Sha256::digest`: the thirty-two bytes named [`sha256`].
#[verifier::external_body]
pub(crate) fn sha256_of(bytes: &[u8]) -> (r: Vec<u8>)
    ensures
        r@ == sha256(bytes@),
        r@.len() == 32,
{
    sha2::Sha256::digest(bytes).to_vec()
}

/// The SHA-256 digest of `bytes` in hexadecimal notation.
pub fn sha256_hex(bytes: &[u8]) -> (r: String)
    ensures
        r@ == text::hex_bytes(sha256(bytes@)),
        is_sha256(r@),
{
    let digest = sha256_of(bytes);
    proof {
        text::lemma_hex_bytes(digest@);
    }
    text::hex_of_bytes(digest.as_slice())
}

/// A text is a SHA-256 digest in hexadecimal notation.
pub open spec fn is_sha256(s: Seq<char>) -> bool {
    s.len() == 64 && forall|i: int| 0 <= i < s.len() ==> text::is_hex(#[trigger] s[i])
}

/// Is `s` a SHA-256 digest in hexadecimal notation?
pub fn looks_like_sha256(s: &str) -> (r: bool)
    ensures
        r == is_sha256(s@),
{
    let v = text::chars_of(s);
    if v.len() != 64 {
        return false;
    }
    let mut i: usize = 0;
    while i < v.len()
        invariant
            i <= v@.len(),
            v@ == s@,
            forall|j: int| 0 <= j < i ==> text::is_hex(#[trigger] v@[j]),
        decreases v@.len() - i,
    {
        if !text::hex_char(v[i]) {
            return false;
        }
        i = i + 1;
    }
    true
}

// ---------------------------------------------------------------------
// Bundles
// ---------------------------------------------------------------------

/// One file of a bundle: its path below the bundle's root, and its bytes.
#[derive(Debug, PartialEq, Eq)]
pub struct BundleFile {
    pub path: String,
    pub bytes: Vec<u8>,
}

/// One file of a bundle, as plain values.
#[verifier::ext_equal]
pub struct BundleFileView {
    pub path: Seq<char>,
    pub bytes: Seq<u8>,
}

impl View for BundleFile {
    type V = BundleFileView;

    open spec fn view(&self) -> BundleFileView {
        BundleFileView { path: self.path@, bytes: self.bytes@ }
    }
}

/// The files of a bundle, as plain values.
pub open spec fn file_views(v: Seq<BundleFile>) -> Seq<BundleFileView> {
    Seq::new(v.len(), |i: int| v[i]@)
}

/// Paths are in order of their components, not of their characters: a
/// directory's files stay together.
pub open spec fn parts_precede(a: Seq<Seq<char>>, b: Seq<Seq<char>>) -> bool
    decreases a.len(),
{
    if b.len() == 0 {
        false
    } else if a.len() == 0 {
        true
    } else if a[0] != b[0] {
        table::precedes(a[0], b[0])
    } else {
        parts_precede(a.skip(1), b.skip(1))
    }
}

/// The path `a` comes before `b`.
pub open spec fn path_precedes(a: Seq<char>, b: Seq<char>) -> bool {
    parts_precede(text::pieces(a, '/'), text::pieces(b, '/'))
}

/// Does the path `a` come before `b`?
fn path_before(a: &str, b: &str) -> (r: bool)
    ensures
        r == path_precedes(a@, b@),
{
    let x = text::split(a, '/');
    let y = text::split(b, '/');
    let ghost vx = text::texts(x@);
    let ghost vy = text::texts(y@);
    let mut i: usize = 0;
    assert(vx.skip(0) =~= vx && vy.skip(0) =~= vy);
    while i < x.len() && i < y.len()
        invariant
            i <= x@.len(),
            i <= y@.len(),
            vx == text::texts(x@),
            vy == text::texts(y@),
            path_precedes(a@, b@) == parts_precede(vx, vy),
            parts_precede(vx, vy) == parts_precede(vx.skip(i as int), vy.skip(i as int)),
        decreases x@.len() - i,
    {
        assert(vx.skip(i as int)[0] == x@[i as int]@);
        assert(vy.skip(i as int)[0] == y@[i as int]@);
        if !text::same(x[i].as_str(), y[i].as_str()) {
            return table::before(x[i].as_str(), y[i].as_str());
        }
        assert(vx.skip(i as int).skip(1) =~= vx.skip(i + 1));
        assert(vy.skip(i as int).skip(1) =~= vy.skip(i + 1));
        i = i + 1;
    }
    i < y.len()
}

/// Where a file goes among files in order: before the first, from the `i`-th
/// on, whose path comes after its own.
pub open spec fn file_place(v: Seq<BundleFileView>, path: Seq<char>, i: nat) -> nat
    decreases v.len() - i,
{
    if i >= v.len() || path_precedes(path, v[i as int].path) {
        i
    } else {
        file_place(v, path, i + 1)
    }
}

/// The first `n` files in order of their paths.
pub open spec fn files_in_order(v: Seq<BundleFileView>, n: nat) -> Seq<BundleFileView>
    decreases n,
{
    if n == 0 {
        Seq::empty()
    } else {
        let before = files_in_order(v, (n - 1) as nat);
        before.insert(file_place(before, v[n - 1].path, 0) as int, v[n - 1])
    }
}

/// The bytes that a text is stored as.
pub open spec fn text_bytes(s: Seq<char>) -> Seq<u8> {
    vstd::utf8::encode_utf8(s)
}

/// A run of bytes after its length in eight bytes, low byte first.
pub open spec fn sized(bytes: Seq<u8>) -> Seq<u8> {
    vstd::bytes::spec_u64_to_le_bytes(bytes.len() as u64) + bytes
}

/// What the first `n` files are digested as: each one's path and bytes, each
/// after its length, so that no file runs into the next.
pub open spec fn framed(files: Seq<BundleFileView>, n: nat) -> Seq<u8>
    decreases n,
{
    if n == 0 {
        Seq::empty()
    } else {
        framed(files, (n - 1) as nat) + sized(text_bytes(files[n - 1].path)) + sized(
            files[n - 1].bytes,
        )
    }
}

/// The digest of a bundle: that of its files, in order.
pub open spec fn bundle_digest(files: Seq<BundleFileView>) -> Seq<char> {
    let listed = files_in_order(files, files.len());
    text::hex_bytes(sha256(framed(listed, listed.len())))
}

/// The files in order of their paths.
fn sort_files(files: &Vec<BundleFile>) -> (r: Vec<usize>)
    ensures
        r@.len() == files@.len(),
        forall|i: int| 0 <= i < r@.len() ==> (#[trigger] r@[i]) < files@.len(),
        Seq::new(r@.len(), |i: int| files@[r@[i] as int]@) == files_in_order(
            file_views(files@),
            files@.len(),
        ),
{
    let ghost all = file_views(files@);
    let mut out: Vec<usize> = Vec::new();
    let mut i: usize = 0;
    assert(Seq::new(out@.len(), |k: int| files@[out@[k] as int]@) =~= files_in_order(all, 0));
    while i < files.len()
        invariant
            i <= files@.len(),
            all == file_views(files@),
            out@.len() == i,
            forall|k: int| 0 <= k < out@.len() ==> (#[trigger] out@[k]) < files@.len(),
            Seq::new(out@.len(), |k: int| files@[out@[k] as int]@) == files_in_order(
                all,
                i as nat,
            ),
        decreases files@.len() - i,
    {
        let ghost was = Seq::new(out@.len(), |k: int| files@[out@[k] as int]@);
        let ghost path = files@[i as int].path@;
        let mut at: usize = 0;
        while at < out.len() && !path_before(files[i].path.as_str(), files[out[at]].path.as_str())
            invariant
                i < files@.len(),
                at <= out@.len(),
                path == files@[i as int].path@,
                was == Seq::new(out@.len(), |k: int| files@[out@[k] as int]@),
                forall|k: int| 0 <= k < out@.len() ==> (#[trigger] out@[k]) < files@.len(),
                file_place(was, path, 0) == file_place(was, path, at as nat),
            decreases out@.len() - at,
        {
            assert(was[at as int] == files@[out@[at as int] as int]@);
            at = at + 1;
        }
        proof {
            if at < out@.len() {
                assert(was[at as int] == files@[out@[at as int] as int]@);
            }
        }
        let ghost before = out@;
        out.insert(at, i);
        proof {
            assert(all[i as int] == files@[i as int]@);
            assert(Seq::new(out@.len(), |k: int| files@[out@[k] as int]@) =~= was.insert(
                at as int,
                all[i as int],
            ));
            assert forall|k: int| 0 <= k < out@.len() implies (#[trigger] out@[k]) < files@.len() by {
                if k < at {
                    assert(out@[k] == before[k]);
                } else if k > at {
                    assert(out@[k] == before[k - 1]);
                }
            }
        }
        i = i + 1;
    }
    out
}

/// Add a run of bytes after its length.
fn put_sized(out: &mut Vec<u8>, bytes: &[u8])
    ensures
        final(out)@ == old(out)@ + sized(bytes@),
{
    proof {
        vstd::bytes::lemma_auto_spec_u64_to_from_le_bytes();
    }
    let mut length = vstd::bytes::u64_to_le_bytes(bytes.len() as u64);
    let ghost was = out@;
    let ghost size = length@;
    out.append(&mut length);
    let mut copy = vstd::slice::slice_to_vec(bytes);
    out.append(&mut copy);
    assert(out@ =~= was + (size + bytes@));
}

/// The digest of a bundle of files: it identifies what a plugin runs.
pub fn plugin_bundle_digest(files: &Vec<BundleFile>) -> (r: String)
    ensures
        r@ == bundle_digest(file_views(files@)),
        is_sha256(r@),
{
    let order = sort_files(files);
    let ghost listed = files_in_order(file_views(files@), files@.len());
    assert(file_views(files@).len() == files@.len());
    let mut out: Vec<u8> = Vec::new();
    let mut i: usize = 0;
    while i < order.len()
        invariant
            i <= order@.len(),
            forall|k: int| 0 <= k < order@.len() ==> (#[trigger] order@[k]) < files@.len(),
            listed == Seq::new(order@.len(), |k: int| files@[order@[k] as int]@),
            out@ == framed(listed, i as nat),
        decreases order@.len() - i,
    {
        let file = &files[order[i]];
        assert(listed[i as int] == file@);
        put_sized(&mut out, file.path.as_str().as_bytes());
        put_sized(&mut out, file.bytes.as_slice());
        i = i + 1;
    }
    sha256_hex(out.as_slice())
}

// ---------------------------------------------------------------------
// Laws
// ---------------------------------------------------------------------

/// A length can be written in eight bytes.
pub open spec fn fits(file: BundleFileView) -> bool {
    text_bytes(file.path).len() <= u64::MAX && file.bytes.len() <= u64::MAX
}

/// What the files from the `i`-th on are digested as.
spec fn framed_from(files: Seq<BundleFileView>, i: nat) -> Seq<u8>
    decreases files.len() - i,
{
    if i >= files.len() {
        Seq::empty()
    } else {
        sized(text_bytes(files[i as int].path)) + (sized(files[i as int].bytes) + framed_from(
            files,
            i + 1,
        ))
    }
}

proof fn lemma_framed_from(files: Seq<BundleFileView>, i: nat)
    requires
        i <= files.len(),
    ensures
        framed(files, files.len()) == framed(files, i) + framed_from(files, i),
    decreases files.len() - i,
{
    if i < files.len() {
        lemma_framed_from(files, i + 1);
        let here = files[i as int];
        assert(framed(files, i + 1) =~= framed(files, i) + sized(text_bytes(here.path)) + sized(
            here.bytes,
        ));
        assert(framed(files, i) + framed_from(files, i) =~= framed(files, i + 1) + framed_from(
            files,
            i + 1,
        ));
    } else {
        assert(framed(files, i) + framed_from(files, i) =~= framed(files, i));
    }
}

/// A run after its length is told from what follows it.
proof fn lemma_sized_splits(a: Seq<u8>, x: Seq<u8>, b: Seq<u8>, y: Seq<u8>)
    requires
        sized(a) + x == sized(b) + y,
        a.len() <= u64::MAX,
        b.len() <= u64::MAX,
    ensures
        a == b,
        x == y,
{
    vstd::bytes::lemma_auto_spec_u64_to_from_le_bytes();
    let la = vstd::bytes::spec_u64_to_le_bytes(a.len() as u64);
    let lb = vstd::bytes::spec_u64_to_le_bytes(b.len() as u64);
    let l = sized(a) + x;
    let r = sized(b) + y;
    assert(la =~= l.take(8));
    assert(lb =~= r.take(8));
    assert(vstd::bytes::spec_u64_from_le_bytes(la) == a.len() as u64);
    assert(vstd::bytes::spec_u64_from_le_bytes(lb) == b.len() as u64);
    assert(a.len() == b.len());
    assert(a =~= l.subrange(8, 8 + a.len() as int));
    assert(b =~= r.subrange(8, 8 + b.len() as int));
    assert(x =~= l.skip(8 + a.len() as int));
    assert(y =~= r.skip(8 + b.len() as int));
}

proof fn lemma_sized_nonempty(a: Seq<u8>, x: Seq<u8>)
    ensures
        (sized(a) + x).len() > 0,
{
    vstd::bytes::lemma_auto_spec_u64_to_from_le_bytes();
}

proof fn lemma_framed_from_injective(a: Seq<BundleFileView>, b: Seq<BundleFileView>, i: nat)
    requires
        i <= a.len(),
        i <= b.len(),
        forall|k: int| 0 <= k < a.len() ==> fits(#[trigger] a[k]),
        forall|k: int| 0 <= k < b.len() ==> fits(#[trigger] b[k]),
        framed_from(a, i) == framed_from(b, i),
    ensures
        a.skip(i as int) == b.skip(i as int),
    decreases a.len() - i,
{
    if i < a.len() && i < b.len() {
        let fa = a[i as int];
        let fb = b[i as int];
        let ra = sized(fa.bytes) + framed_from(a, i + 1);
        let rb = sized(fb.bytes) + framed_from(b, i + 1);
        assert(fits(fa) && fits(fb));
        lemma_sized_splits(text_bytes(fa.path), ra, text_bytes(fb.path), rb);
        lemma_sized_splits(fa.bytes, framed_from(a, i + 1), fb.bytes, framed_from(b, i + 1));
        vstd::utf8::encode_utf8_decode_utf8(fa.path);
        vstd::utf8::encode_utf8_decode_utf8(fb.path);
        assert(fa == fb);
        lemma_framed_from_injective(a, b, i + 1);
        assert(a.skip(i as int) =~= seq![fa] + a.skip(i as int + 1));
        assert(b.skip(i as int) =~= seq![fb] + b.skip(i as int + 1));
    } else if i < a.len() {
        lemma_sized_nonempty(
            text_bytes(a[i as int].path),
            sized(a[i as int].bytes) + framed_from(a, i + 1),
        );
    } else if i < b.len() {
        lemma_sized_nonempty(
            text_bytes(b[i as int].path),
            sized(b[i as int].bytes) + framed_from(b, i + 1),
        );
    } else {
        assert(a.skip(i as int) =~= b.skip(i as int));
    }
}

/// Bundles that are digested as the same bytes hold the same files: neither a
/// renamed file nor a byte moved from one file to the next goes unnoticed.
pub proof fn law_framing_is_unambiguous(a: Seq<BundleFileView>, b: Seq<BundleFileView>)
    requires
        forall|k: int| 0 <= k < a.len() ==> fits(#[trigger] a[k]),
        forall|k: int| 0 <= k < b.len() ==> fits(#[trigger] b[k]),
        framed(a, a.len()) == framed(b, b.len()),
    ensures
        a == b,
{
    lemma_framed_from(a, 0);
    lemma_framed_from(b, 0);
    assert(framed(a, 0) + framed_from(a, 0) =~= framed_from(a, 0));
    assert(framed(b, 0) + framed_from(b, 0) =~= framed_from(b, 0));
    lemma_framed_from_injective(a, b, 0);
    assert(a.skip(0) =~= a);
    assert(b.skip(0) =~= b);
}

proof fn lemma_pieces_injective(a: Seq<char>, b: Seq<char>)
    requires
        text::pieces(a, '/') == text::pieces(b, '/'),
    ensures
        a == b,
    decreases a.len(),
{
    let pa = text::pieces(a, '/');
    let pb = text::pieces(b, '/');
    if a.len() == 0 || b.len() == 0 {
        assert(pa.last().len() == pb.last().len());
        text::lemma_pieces_nonempty(a.drop_last(), '/');
        text::lemma_pieces_nonempty(b.drop_last(), '/');
        assert(a =~= b);
    } else {
        let wa = text::pieces(a.drop_last(), '/');
        let wb = text::pieces(b.drop_last(), '/');
        text::lemma_pieces_nonempty(a.drop_last(), '/');
        text::lemma_pieces_nonempty(b.drop_last(), '/');
        assert(pa.last().len() == pb.last().len());
        if a.last() == '/' {
            assert(b.last() == '/');
            assert(wa =~= pa.drop_last());
            assert(wb =~= pb.drop_last());
        } else {
            assert(b.last() != '/');
            assert(pa.last() == wa.last().push(a.last()));
            assert(pb.last() == wb.last().push(b.last()));
            assert(pa.last().last() == a.last() && pb.last().last() == b.last());
            assert(wa.last() =~= pa.last().drop_last());
            assert(wb.last() =~= pb.last().drop_last());
            assert(wa =~= pa.drop_last().push(wa.last()));
            assert(wb =~= pb.drop_last().push(wb.last()));
        }
        lemma_pieces_injective(a.drop_last(), b.drop_last());
        assert(a =~= a.drop_last().push(a.last()));
        assert(b =~= b.drop_last().push(b.last()));
    }
}

proof fn lemma_parts_irreflexive(a: Seq<Seq<char>>)
    ensures
        !parts_precede(a, a),
    decreases a.len(),
{
    if a.len() > 0 {
        lemma_parts_irreflexive(a.skip(1));
    }
}

proof fn lemma_parts_transitive(a: Seq<Seq<char>>, b: Seq<Seq<char>>, c: Seq<Seq<char>>)
    requires
        parts_precede(a, b),
        parts_precede(b, c),
    ensures
        parts_precede(a, c),
    decreases a.len(),
{
    if a.len() > 0 {
        if a[0] == b[0] && b[0] == c[0] {
            lemma_parts_transitive(a.skip(1), b.skip(1), c.skip(1));
        } else if a[0] != b[0] && b[0] != c[0] {
            table::lemma_precedes_transitive(a[0], b[0], c[0]);
            table::lemma_precedes_irreflexive(a[0]);
        }
    }
}

proof fn lemma_parts_total(a: Seq<Seq<char>>, b: Seq<Seq<char>>)
    ensures
        a == b || parts_precede(a, b) || parts_precede(b, a),
    decreases a.len(),
{
    if a.len() > 0 && b.len() > 0 {
        if a[0] == b[0] {
            lemma_parts_total(a.skip(1), b.skip(1));
            assert(a =~= seq![a[0]] + a.skip(1));
            assert(b =~= seq![b[0]] + b.skip(1));
        } else {
            table::lemma_precedes_total(a[0], b[0]);
        }
    } else if a.len() == 0 && b.len() == 0 {
        assert(a =~= b);
    }
}

proof fn lemma_first_part_decides(a: Seq<Seq<char>>, b: Seq<Seq<char>>, n: nat)
    requires
        n <= a.len(),
        n < b.len(),
        a.take(n as int) == b.take(n as int),
        n < a.len() ==> a[n as int] != b[n as int] && table::precedes(a[n as int], b[n as int]),
    ensures
        parts_precede(a, b),
    decreases n,
{
    if n > 0 {
        assert(a[0] == a.take(n as int)[0]);
        assert(b[0] == b.take(n as int)[0]);
        assert(a.skip(1).take(n - 1) =~= a.take(n as int).skip(1));
        assert(b.skip(1).take(n - 1) =~= b.take(n as int).skip(1));
        lemma_first_part_decides(a.skip(1), b.skip(1), (n - 1) as nat);
    }
}

/// Paths that agree in their first `n` components are in order of the next
/// one, and a path that ends there comes first, whatever else they hold.
pub proof fn law_first_component_decides(a: Seq<char>, b: Seq<char>, n: nat)
    requires
        n <= text::pieces(a, '/').len(),
        n < text::pieces(b, '/').len(),
        text::pieces(a, '/').take(n as int) == text::pieces(b, '/').take(n as int),
        n < text::pieces(a, '/').len() ==> table::precedes(
            text::pieces(a, '/')[n as int],
            text::pieces(b, '/')[n as int],
        ),
    ensures
        path_precedes(a, b),
{
    let x = text::pieces(a, '/');
    let y = text::pieces(b, '/');
    if n < x.len() {
        table::lemma_precedes_irreflexive(x[n as int]);
    }
    lemma_first_part_decides(x, y, n);
}

/// Each file comes before all that follow it.
pub open spec fn listed_in_order(v: Seq<BundleFileView>) -> bool {
    forall|i: int, j: int|
        #![trigger v[i], v[j]]
        0 <= i < j < v.len() ==> path_precedes(v[i].path, v[j].path)
}

/// No two files are at the same place.
pub open spec fn places_differ(v: Seq<BundleFileView>) -> bool {
    forall|i: int, j: int|
        #![trigger v[i], v[j]]
        0 <= i < j < v.len() ==> v[i].path != v[j].path
}

proof fn lemma_file_place(v: Seq<BundleFileView>, path: Seq<char>, i: nat)
    requires
        i <= v.len(),
    ensures
        i <= file_place(v, path, i) <= v.len(),
        forall|j: int|
            i <= j < file_place(v, path, i) ==> !path_precedes(path, (#[trigger] v[j]).path),
        file_place(v, path, i) < v.len() ==> path_precedes(
            path,
            v[file_place(v, path, i) as int].path,
        ),
    decreases v.len() - i,
{
    if i < v.len() && !path_precedes(path, v[i as int].path) {
        lemma_file_place(v, path, i + 1);
    }
}

/// Listing the files of a bundle puts them in order, and neither loses nor
/// adds one.
pub proof fn law_files_are_listed_in_order(v: Seq<BundleFileView>, n: nat)
    requires
        n <= v.len(),
        places_differ(v),
    ensures
        listed_in_order(files_in_order(v, n)),
        files_in_order(v, n).to_multiset() == v.take(n as int).to_multiset(),
    decreases n,
{
    broadcast use vstd::seq_lib::group_to_multiset_ensures;

    if n > 0 {
        law_files_are_listed_in_order(v, (n - 1) as nat);
        let was = files_in_order(v, (n - 1) as nat);
        let x = v[n - 1];
        let fewer = v.take(n - 1);
        lemma_file_place(was, x.path, 0);
        let at = file_place(was, x.path, 0) as int;
        let now = was.insert(at, x);
        assert forall|i: int, j: int| 0 <= i < j < now.len() implies path_precedes(
            (#[trigger] now[i]).path,
            (#[trigger] now[j]).path,
        ) by {
            if j == at {
                assert(now[i] == was[i]);
                assert(was.to_multiset().contains(was[i]));
                assert(fewer.contains(was[i]));
                let k = choose|k: int| 0 <= k < fewer.len() && fewer[k] == was[i];
                assert(v[k] == was[i]);
                assert(v[k].path != v[n - 1].path);
                let pa = text::pieces(was[i].path, '/');
                let pb = text::pieces(x.path, '/');
                lemma_parts_total(pa, pb);
                if pa == pb {
                    lemma_pieces_injective(was[i].path, x.path);
                }
            } else if i == at {
                assert(now[j] == was[j - 1]);
                if j - 1 > at {
                    assert(path_precedes(was[at].path, was[j - 1].path));
                    lemma_parts_transitive(
                        text::pieces(x.path, '/'),
                        text::pieces(was[at].path, '/'),
                        text::pieces(was[j - 1].path, '/'),
                    );
                }
            } else {
                let pi = if i < at {
                    i
                } else {
                    i - 1
                };
                let pj = if j < at {
                    j
                } else {
                    j - 1
                };
                assert(now[i] == was[pi] && now[j] == was[pj]);
            }
        }
        let more = v.take(n as int);
        assert(more =~= fewer.push(x));
        assert(more.to_multiset() =~= fewer.to_multiset().insert(x));
        assert(now.to_multiset() =~= was.to_multiset().insert(x)) by {
            assert(now.remove(at) =~= was);
        }
    } else {
        assert(v.take(0) =~= Seq::empty());
    }
}

proof fn lemma_one_listing(a: Seq<BundleFileView>, b: Seq<BundleFileView>)
    requires
        listed_in_order(a),
        listed_in_order(b),
        a.to_multiset() == b.to_multiset(),
    ensures
        a == b,
    decreases a.len(),
{
    broadcast use vstd::seq_lib::group_to_multiset_ensures;

    assert(a.len() == a.to_multiset().len() && b.len() == b.to_multiset().len());
    if a.len() > 0 {
        assert(a.to_multiset().contains(a[0]) && b.to_multiset().contains(b[0]));
        let j = choose|j: int| 0 <= j < b.len() && b[j] == a[0];
        let i = choose|i: int| 0 <= i < a.len() && a[i] == b[0];
        assert(b.contains(a[0]) && a.contains(b[0]));
        if j > 0 {
            assert(path_precedes(b[0].path, b[j].path));
            let pa = text::pieces(a[0].path, '/');
            let pb = text::pieces(b[0].path, '/');
            lemma_parts_irreflexive(pa);
            if i > 0 {
                assert(path_precedes(a[0].path, a[i].path));
                lemma_parts_transitive(pa, pb, pa);
            }
        }
        assert(a[0] == b[0]);
        let ra = a.remove(0);
        let rb = b.remove(0);
        assert(ra.to_multiset() =~= a.to_multiset().remove(a[0]));
        assert(rb.to_multiset() =~= b.to_multiset().remove(b[0]));
        assert forall|k: int, l: int| 0 <= k < l < ra.len() implies path_precedes(
            (#[trigger] ra[k]).path,
            (#[trigger] ra[l]).path,
        ) by {
            assert(ra[k] == a[k + 1] && ra[l] == a[l + 1]);
        }
        assert forall|k: int, l: int| 0 <= k < l < rb.len() implies path_precedes(
            (#[trigger] rb[k]).path,
            (#[trigger] rb[l]).path,
        ) by {
            assert(rb[k] == b[k + 1] && rb[l] == b[l + 1]);
        }
        lemma_one_listing(ra, rb);
        assert(a =~= ra.insert(0, a[0]));
        assert(b =~= rb.insert(0, b[0]));
    } else {
        assert(a =~= b);
    }
}

/// The digest of a bundle is that of its files, in whatever order they were
/// found.
pub proof fn law_digest_ignores_order(a: Seq<BundleFileView>, b: Seq<BundleFileView>)
    requires
        places_differ(a),
        places_differ(b),
        a.to_multiset() == b.to_multiset(),
    ensures
        bundle_digest(a) == bundle_digest(b),
{
    law_files_are_listed_in_order(a, a.len());
    law_files_are_listed_in_order(b, b.len());
    assert(a.take(a.len() as int) =~= a);
    assert(b.take(b.len() as int) =~= b);
    lemma_one_listing(files_in_order(a, a.len()), files_in_order(b, b.len()));
}

proof fn lemma_listed_files_fit(v: Seq<BundleFileView>)
    requires
        places_differ(v),
        forall|k: int| 0 <= k < v.len() ==> fits(#[trigger] v[k]),
    ensures
        ({
            let listed = files_in_order(v, v.len());
            forall|k: int| 0 <= k < listed.len() ==> fits(#[trigger] listed[k])
        }),
{
    broadcast use vstd::seq_lib::group_to_multiset_ensures;

    let listed = files_in_order(v, v.len());
    law_files_are_listed_in_order(v, v.len());
    assert(v.take(v.len() as int) =~= v);
    assert forall|k: int| 0 <= k < listed.len() implies fits(#[trigger] listed[k]) by {
        assert(listed.to_multiset().contains(listed[k]));
        assert(v.contains(listed[k]));
    }
}

/// What a bundle is digested as tells which files it holds, and nothing else.
pub proof fn law_digested_bytes_tell_the_files(a: Seq<BundleFileView>, b: Seq<BundleFileView>)
    requires
        places_differ(a),
        places_differ(b),
        forall|k: int| 0 <= k < a.len() ==> fits(#[trigger] a[k]),
        forall|k: int| 0 <= k < b.len() ==> fits(#[trigger] b[k]),
    ensures
        ({
            let la = files_in_order(a, a.len());
            let lb = files_in_order(b, b.len());
            framed(la, la.len()) == framed(lb, lb.len()) <==> a.to_multiset() == b.to_multiset()
        }),
{
    let la = files_in_order(a, a.len());
    let lb = files_in_order(b, b.len());
    law_files_are_listed_in_order(a, a.len());
    law_files_are_listed_in_order(b, b.len());
    assert(a.take(a.len() as int) =~= a);
    assert(b.take(b.len() as int) =~= b);
    lemma_listed_files_fit(a);
    lemma_listed_files_fit(b);
    if a.to_multiset() == b.to_multiset() {
        lemma_one_listing(la, lb);
    }
    if framed(la, la.len()) == framed(lb, lb.len()) {
        law_framing_is_unambiguous(la, lb);
    }
}

} // verus!
