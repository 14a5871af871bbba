//! Frontmatter: the fenced block at the head of a markdown file.
use vstd::prelude::*;
use crate::error::{Error, ErrorView};
use crate::json;
use crate::text;

verus! {

/// A YAML mapping, entry by entry: the key and the value, each where it is a
/// text.
#[derive(Debug, PartialEq, Eq)]
pub struct Mapping {
    pub entries: Vec<(Option<String>, Option<String>)>,
}

/// What a mapping holds.
pub type MappingView = Seq<(Option<Seq<char>>, Option<Seq<char>>)>;

impl View for Mapping {
    type V = MappingView;

    open spec fn view(&self) -> MappingView {
        Seq::new(
            self.entries@.len(),
            |i: int| (text::opt_text(self.entries@[i].0), text::opt_text(self.entries@[i].1)),
        )
    }
}

/// The text under a key, looked for from the `i`-th entry on.
pub open spec fn text_under(m: MappingView, key: Seq<char>, i: nat) -> Option<Seq<char>>
    decreases m.len() - i,
{
    if i >= m.len() {
        None
    } else if m[i as int].0 == Some(key) {
        m[i as int].1
    } else {
        text_under(m, key, i + 1)
    }
}

impl Mapping {
    /// The text under a key, if it has one.
    pub fn get_str(&self, key: &str) -> (r: Option<&str>)
        ensures
            text::opt_str(r) == text_under(self@, key@, 0),
    {
        let mut i: usize = 0;
        while i < self.entries.len()
            invariant
                i <= self.entries@.len(),
                text_under(self@, key@, 0) == text_under(self@, key@, i as nat),
            decreases self.entries@.len() - i,
        {
            let found = match &self.entries[i].0 {
                Some(name) => text::same(name.as_str(), key),
                None => false,
            };
            assert(self@[i as int] == (
                text::opt_text(self.entries@[i as int].0),
                text::opt_text(self.entries@[i as int].1),
            ));
            if found {
                return match &self.entries[i].1 {
                    Some(value) => Some(value.as_str()),
                    None => None,
                };
            }
            i = i + 1;
        }
        None
    }
}

/// What a result of a mapping or message holds.
pub open spec fn mapping_result(r: Result<Mapping, String>) -> Result<MappingView, Seq<char>> {
    match r {
        Ok(m) => Ok(m@),
        Err(e) => Err(e@),
    }
}

/// What `serde_yaml::from_str` reads out of a text as a mapping, or the
/// message of its error.
pub uninterp spec fn yaml_mapping(text: Seq<char>) -> Result<
    Seq<(Option<Seq<char>>, Option<Seq<char>>)>,
    Seq<char>,
>;

/// What `serde_yaml::to_string` prints for a mapping of texts and nulls, in
/// the order given.
pub uninterp spec fn yaml_pairs(pairs: Seq<(Seq<char>, Option<Seq<char>>)>) -> Result<
    Seq<char>,
    Seq<char>,
>;

/// `serde_yaml::from_str` into a `serde_yaml::Mapping`, handed on entry by
/// entry in its order: a key where it is a string, a value as
/// `serde_yaml::Value::as_str` gives it. Named [`yaml_mapping`].
#[verifier::external_body]
pub(crate) fn parse_mapping(text: &str) -> (r: Result<Mapping, String>)
    ensures
        mapping_result(r) == yaml_mapping(text@),
{
    let mapping = serde_yaml::from_str::<serde_yaml::Mapping>(text).map_err(|e| e.to_string())?;
    let entries = mapping.into_iter().map(|(key, value)| {
        let name = match key {
            serde_yaml::Value::String(name) => Some(name),
            _ => None,
        };
        (name, value.as_str().map(|text| text.to_owned()))
    });
    Ok(Mapping { entries: entries.collect() })
}

/// The pairs that a row of optional texts holds.
pub open spec fn pair_views(v: Seq<(String, Option<String>)>) -> Seq<(Seq<char>, Option<Seq<char>>)> {
    Seq::new(v.len(), |i: int| (v[i].0@, text::opt_text(v[i].1)))
}

/// `serde_yaml::to_string` on a `serde_yaml::Mapping` that holds the pairs in
/// their order, a missing text as null; named [`yaml_pairs`].
#[verifier::external_body]
pub(crate) fn print_pairs(pairs: Vec<(String, Option<String>)>) -> (r: Result<String, String>)
    ensures
        json::text_result(r) == yaml_pairs(pair_views(pairs@)),
{
    let mut mapping = serde_yaml::Mapping::new();
    for (key, value) in pairs {
        mapping.insert(key.into(), value.map_or(serde_yaml::Value::Null, |v| v.into()));
    }
    serde_yaml::to_string(&mapping).map_err(|error| error.to_string())
}

/// A closing fence stands at position `i`: a line of its own that is the
/// fence.
pub open spec fn fence_at(s: Seq<char>, i: int) -> bool {
    &&& 0 <= i && i + 3 <= s.len()
    &&& s.subrange(i, i + 3) == "---"@
    &&& i == 0 || s[i - 1] == '\n'
    &&& i + 3 == s.len() || s[i + 3] == '\n'
}

/// The position of the first closing fence at or after `i`.
pub open spec fn next_fence(s: Seq<char>, i: nat) -> Option<nat>
    decreases s.len() + 1 - i,
{
    if i + 3 > s.len() {
        None
    } else if fence_at(s, i as int) {
        Some(i)
    } else {
        next_fence(s, i + 1)
    }
}

/// The two parts of a fenced file.
#[verifier::ext_equal]
pub struct SplitView {
    /// What stands between the fences; none in a file without frontmatter.
    pub head: Option<Seq<char>>,
    /// What follows the closing fence's line.
    pub body: Seq<char>,
}

/// The parts of a file.
pub open spec fn split_parts(raw: Seq<char>) -> Result<SplitView, ErrorView> {
    if !"---\n"@.is_prefix_of(raw) {
        Ok(SplitView { head: None, body: raw })
    } else {
        let rest = raw.skip(4);
        match next_fence(rest, 0) {
            None => Err(ErrorView::Store("frontmatter is never closed"@)),
            Some(i) => Ok(
                SplitView {
                    head: Some(rest.take(i as int)),
                    body: if i + 3 < rest.len() {
                        rest.skip((i + 4) as int)
                    } else {
                        Seq::empty()
                    },
                },
            ),
        }
    }
}

/// A split file.
#[derive(Debug, PartialEq, Eq)]
pub struct Split {
    pub head: Option<String>,
    pub body: String,
}

impl View for Split {
    type V = SplitView;

    open spec fn view(&self) -> SplitView {
        SplitView { head: text::opt_text(self.head), body: self.body@ }
    }
}

proof fn lemma_next_fence(s: Seq<char>, i: nat)
    ensures
        next_fence(s, i) matches Some(j) ==> i <= j && j + 3 <= s.len() && fence_at(s, j as int),
        next_fence(s, i) matches Some(j) ==> forall|k: int| i <= k < j ==> !fence_at(s, k),
        next_fence(s, i) is None ==> forall|k: int| i <= k ==> !fence_at(s, k),
    decreases s.len() + 1 - i,
{
    if i + 3 <= s.len() && !fence_at(s, i as int) {
        lemma_next_fence(s, i + 1);
    }
}

/// Does a closing fence stand at position `i`?
fn fence_here(s: &[char], i: usize) -> (r: bool)
    requires
        i + 3 <= s@.len(),
    ensures
        r == fence_at(s@, i as int),
{
    proof {
        reveal_strlit("---");
    }
    let total: usize = s.len();
    let dashes = s[i] == '-' && s[i + 1] == '-' && s[i + 2] == '-';
    proof {
        let sub = s@.subrange(i as int, i + 3);
        if dashes {
            assert(sub =~= "---"@);
        } else {
            assert(sub[0] == s@[i as int] && sub[1] == s@[i + 1] && sub[2] == s@[i + 2]);
        }
    }
    dashes && (i == 0 || s[i - 1] == '\n') && (i + 3 == total || s[i + 3] == '\n')
}

/// Split a file into its frontmatter and what follows.
pub fn split(raw: &str) -> (r: Result<Split, Error>)
    ensures
        crate::error::outcome(r) == split_parts(raw@),
{
    if !text::starts_with(raw, "---\n") {
        return Ok(Split { head: None, body: raw.to_owned() });
    }
    proof {
        reveal_strlit("---\n");
    }
    let all = text::chars_of(raw);
    let rest = text::chars_of(text::text_of(all.as_slice(), 4, all.len()).as_str());
    assert(rest@ =~= raw@.skip(4));
    let total: usize = rest.len();
    let mut i: usize = 0;
    while total - i > 2
        invariant
            total == rest@.len(),
            rest@ == raw@.skip(4),
            "---\n"@.is_prefix_of(raw@),
            i <= total,
            next_fence(rest@, 0) == next_fence(rest@, i as nat),
        decreases total - i,
    {
        if fence_here(rest.as_slice(), i) {
            let head = text::text_of(rest.as_slice(), 0, i);
            assert(head@ =~= rest@.take(i as int));
            let body = if i + 3 < total {
                let b = text::text_of(rest.as_slice(), i + 4, total);
                assert(b@ =~= rest@.skip((i + 4) as int));
                b
            } else {
                String::new()
            };
            return Ok(Split { head: Some(head), body });
        }
        i = i + 1;
    }
    Err(Error::Store("frontmatter is never closed".to_owned()))
}

/// A file with the given frontmatter and body.
pub open spec fn fenced(head: Seq<char>, body: Seq<char>) -> Seq<char> {
    "---\n"@ + head + "---\n"@ + body
}

/// A file with the frontmatter `head` and the body `body`.
pub fn fence(head: &str, body: &str) -> (r: String)
    ensures
        r@ == fenced(head@, body@),
{
    text::cat4("---\n", head, "---\n", body)
}

/// Splitting a file that was put together gives both parts back, where the
/// frontmatter is empty or ends its last line, and holds no fence itself.
pub proof fn law_split_undoes_fence(head: Seq<char>, body: Seq<char>)
    requires
        head.len() == 0 || head.last() == '\n',
        forall|i: int| 0 <= i <= head.len() - 3 ==> !fence_at(head, i),
    ensures
        split_parts(fenced(head, body)) == Ok::<SplitView, ErrorView>(
            SplitView { head: Some(head), body },
        ),
{
    reveal_strlit("---\n");
    reveal_strlit("---");
    let raw = fenced(head, body);
    let rest = raw.skip(4);
    let n = head.len() as int;
    assert("---\n"@ =~= raw.subrange(0, 4));
    assert(rest =~= head + "---\n"@ + body);
    assert(fence_at(rest, n)) by {
        assert(rest.subrange(n, n + 3) =~= "---"@);
    }
    lemma_next_fence(rest, 0);
    let j = next_fence(rest, 0)->Some_0;
    assert forall|k: int| 0 <= k < n implies !fence_at(rest, k) by {
        if fence_at(rest, k) {
            assert(rest.subrange(k, k + 3)[0] == '-');
            assert(rest.subrange(k, k + 3)[1] == '-');
            assert(rest.subrange(k, k + 3)[2] == '-');
            assert(rest[k] == '-' && rest[k + 1] == '-' && rest[k + 2] == '-');
            if k + 3 <= n {
                assert(head.subrange(k, k + 3) =~= rest.subrange(k, k + 3));
                if k > 0 {
                    assert(head[k - 1] == rest[k - 1]);
                }
                if k + 3 < n {
                    assert(head[k + 3] == rest[k + 3]);
                }
                assert(fence_at(head, k));
            } else {
                assert(head.last() == rest[n - 1]);
            }
        }
    }
    assert(j == n);
    assert(rest.take(n) =~= head);
    assert(rest.skip(n + 4) =~= body);
}

} // verus!
