//! What a project's corpus holds: files and bytes by category, and the mission
//! logs.
use vstd::prelude::*;
use crate::path;
use crate::path::{Component, Part};
use crate::store::entries;
use crate::store::layout::CATEGORIES;
use crate::table;
use crate::table::Table;
use crate::text;

verus! {

/// A regular file found under a corpus: its path from the corpus root, and its
/// size.
#[derive(Debug, PartialEq, Eq)]
pub struct CorpusFile {
    pub rel: String,
    pub bytes: u64,
}

/// What a found file holds.
#[verifier::ext_equal]
pub struct FileView {
    pub rel: Seq<char>,
    pub bytes: u64,
}

impl View for CorpusFile {
    type V = FileView;

    open spec fn view(&self) -> FileView {
        FileView { rel: self.rel@, bytes: self.bytes }
    }
}

/// What a row of found files holds.
pub open spec fn found(files: Seq<CorpusFile>) -> Seq<FileView> {
    Seq::new(files.len(), |i: int| files[i]@)
}

/// One category's share of the summary.
#[derive(Debug, PartialEq, Eq)]
pub struct CategoryStat {
    pub name: String,
    pub files: u64,
    pub bytes: u64,
}

/// What a category's share holds.
#[verifier::ext_equal]
pub struct StatView {
    pub name: Seq<char>,
    pub files: nat,
    pub bytes: nat,
}

impl View for CategoryStat {
    type V = StatView;

    open spec fn view(&self) -> StatView {
        StatView { name: self.name@, files: self.files as nat, bytes: self.bytes as nat }
    }
}

/// What a row of shares holds.
pub open spec fn stat_views(v: Seq<CategoryStat>) -> Seq<StatView> {
    Seq::new(v.len(), |i: int| v[i]@)
}

/// The summary of a corpus. The mission logs are kept out of the categories,
/// which they would swamp; `files` and `bytes` are the grand totals.
#[derive(Debug, PartialEq, Eq)]
pub struct CorpusStats {
    pub files: u64,
    pub bytes: u64,
    /// The shares of the categories in their fixed order, then of the files
    /// outside them; what is empty is left out.
    pub categories: Vec<CategoryStat>,
    /// The mission logs.
    pub logs: CategoryStat,
}

/// The category whose directory a file sits under; a file outside them all,
/// be it loose at the root or under another directory, is one of the others.
pub open spec fn category_of(rel: Seq<char>) -> Seq<char> {
    let p = path::parts(rel);
    if p.len() > 1 {
        match p[0] {
            Part::Normal(name) => if entries::categories().contains(name) {
                name
            } else {
                "other"@
            },
            _ => "other"@,
        }
    } else {
        "other"@
    }
}

/// The category whose directory the file at `rel` sits under.
fn file_category(rel: &str) -> (r: String)
    ensures
        r@ == category_of(rel@),
{
    let all = path::components(rel);
    assert(path::part_views(all@).len() == all@.len());
    if all.len() > 1 {
        assert(path::parts(rel@)[0] == all@[0]@);
        match &all[0] {
            Component::Normal(name) => {
                if entries::is_category(name.as_str()) {
                    return name.clone();
                }
            },
            _ => {},
        }
    }
    "other".to_owned()
}

/// How many of the first `n` files sit in a category.
pub open spec fn count_in(files: Seq<FileView>, name: Seq<char>, n: nat) -> nat
    decreases n,
{
    if n == 0 {
        0
    } else {
        count_in(files, name, (n - 1) as nat) + (if category_of(files[n - 1].rel) == name {
            1nat
        } else {
            0
        })
    }
}

/// How many bytes of the first `n` files sit in a category.
pub open spec fn bytes_in(files: Seq<FileView>, name: Seq<char>, n: nat) -> nat
    decreases n,
{
    if n == 0 {
        0
    } else {
        bytes_in(files, name, (n - 1) as nat) + (if category_of(files[n - 1].rel) == name {
            files[n - 1].bytes as nat
        } else {
            0
        })
    }
}

/// How many bytes the first `n` files hold.
pub open spec fn total_bytes(files: Seq<FileView>, n: nat) -> nat
    decreases n,
{
    if n == 0 {
        0
    } else {
        total_bytes(files, (n - 1) as nat) + files[n - 1].bytes as nat
    }
}

/// A category's share of all files.
pub open spec fn share(files: Seq<FileView>, name: Seq<char>) -> StatView {
    StatView {
        name,
        files: count_in(files, name, files.len()),
        bytes: bytes_in(files, name, files.len()),
    }
}

/// The shares of the first `n` names that hold a file.
pub open spec fn shares(files: Seq<FileView>, names: Seq<Seq<char>>, n: nat) -> Seq<StatView>
    decreases n,
{
    if n == 0 {
        Seq::empty()
    } else {
        let before = shares(files, names, (n - 1) as nat);
        let s = share(files, names[n - 1]);
        if s.files > 0 {
            before.push(s)
        } else {
            before
        }
    }
}

/// What the files but the mission logs are summed up under: the categories in
/// their fixed order, then the others.
pub open spec fn share_names() -> Seq<Seq<char>> {
    entries::categories().take(5).push("other"@)
}

/// The shares of a corpus.
pub open spec fn all_shares(files: Seq<FileView>) -> Seq<StatView> {
    shares(files, share_names(), 6)
}

/// A share is never larger than the whole.
proof fn lemma_share_bounded(files: Seq<FileView>, name: Seq<char>, n: nat)
    requires
        n <= files.len(),
    ensures
        count_in(files, name, n) <= n,
        bytes_in(files, name, n) <= total_bytes(files, n),
        count_in(files, name, n) == 0 ==> bytes_in(files, name, n) == 0,
    decreases n,
{
    if n > 0 {
        lemma_share_bounded(files, name, (n - 1) as nat);
    }
}

/// More files never hold less.
proof fn lemma_bytes_grow(files: Seq<FileView>, i: nat, n: nat)
    requires
        i <= n <= files.len(),
    ensures
        total_bytes(files, i) <= total_bytes(files, n),
    decreases n,
{
    if i < n {
        lemma_bytes_grow(files, i, (n - 1) as nat);
    }
}

/// The shares by name, of those that hold a file.
fn tally(files: &[CorpusFile]) -> (r: Table<(u64, u64)>)
    requires
        total_bytes(found(files@), files@.len()) <= u64::MAX,
    ensures
        forall|k: Seq<char>| #[trigger]
            r@.dom().contains(k) <==> count_in(found(files@), k, files@.len()) > 0,
        forall|k: Seq<char>| #[trigger]
            r@.dom().contains(k) ==> r@[k].0 == count_in(found(files@), k, files@.len()) && r@[k].1
                == bytes_in(found(files@), k, files@.len()),
{
    let ghost all = found(files@);
    let total: usize = files.len();
    let mut by_name: Table<(u64, u64)> = Table::new();
    let mut i: usize = 0;
    while i < files.len()
        invariant
            i <= files@.len(),
            total == files@.len(),
            all == found(files@),
            total_bytes(all, files@.len()) <= u64::MAX,
            forall|k: Seq<char>| #[trigger]
                by_name@.dom().contains(k) <==> count_in(all, k, i as nat) > 0,
            forall|k: Seq<char>| #[trigger]
                by_name@.dom().contains(k) ==> by_name@[k].0 == count_in(all, k, i as nat)
                    && by_name@[k].1 == bytes_in(all, k, i as nat),
        decreases files@.len() - i,
    {
        let name = file_category(files[i].rel.as_str());
        assert(all[i as int] == files@[i as int]@);
        proof {
            lemma_share_bounded(all, name@, i as nat);
            lemma_share_bounded(all, name@, (i + 1) as nat);
            lemma_bytes_grow(all, (i + 1) as nat, files@.len());
        }
        let slot: (u64, u64) = match by_name.get(name.as_str()) {
            Some(slot) => *slot,
            None => (0, 0),
        };
        assert(slot.0 == count_in(all, name@, i as nat));
        assert(slot.1 == bytes_in(all, name@, i as nat));
        assert(slot.0 <= i);
        let ghost was = by_name@;
        by_name.insert(name, (slot.0 + 1, slot.1 + files[i].bytes));
        i = i + 1;
        proof {
            assert forall|k: Seq<char>| #[trigger]
                by_name@.dom().contains(k) <==> count_in(all, k, i as nat) > 0 by {
                assert(was.dom().contains(k) <==> count_in(all, k, (i - 1) as nat) > 0);
            }
            assert forall|k: Seq<char>| #[trigger] by_name@.dom().contains(k) implies by_name@[k].0
                == count_in(all, k, i as nat) && by_name@[k].1 == bytes_in(all, k, i as nat) by {
                if k != name@ {
                    assert(was.dom().contains(k));
                }
            }
        }
    }
    by_name
}

/// The share of `name` in the tally.
fn share_in(by_name: &Table<(u64, u64)>, name: &str) -> (r: CategoryStat)
    ensures
        r@ == (if by_name@.dom().contains(name@) {
            StatView {
                name: name@,
                files: by_name@[name@].0 as nat,
                bytes: by_name@[name@].1 as nat,
            }
        } else {
            StatView { name: name@, files: 0, bytes: 0 }
        }),
{
    match by_name.get(name) {
        Some(slot) => CategoryStat { name: name.to_owned(), files: slot.0, bytes: slot.1 },
        None => CategoryStat { name: name.to_owned(), files: 0, bytes: 0 },
    }
}

/// Summarize the files found under a corpus.
pub fn corpus_stats(files: &[CorpusFile]) -> (r: CorpusStats)
    requires
        total_bytes(found(files@), files@.len()) <= u64::MAX,
    ensures
        r.files == files@.len(),
        r.bytes == total_bytes(found(files@), files@.len()),
        r.logs@ == share(found(files@), "runs"@),
        stat_views(r.categories@) == all_shares(found(files@)),
{
    let ghost all = found(files@);
    let total: usize = files.len();
    let mut bytes: u64 = 0;
    let mut i: usize = 0;
    while i < files.len()
        invariant
            i <= files@.len(),
            all == found(files@),
            total_bytes(all, files@.len()) <= u64::MAX,
            bytes == total_bytes(all, i as nat),
        decreases files@.len() - i,
    {
        assert(all[i as int] == files@[i as int]@);
        proof {
            lemma_bytes_grow(all, (i + 1) as nat, files@.len());
        }
        bytes = bytes + files[i].bytes;
        i = i + 1;
    }
    let by_name = tally(files);
    proof {
        assert forall|k: Seq<char>| !by_name@.dom().contains(k) implies #[trigger] share(all, k) == (
        StatView { name: k, files: 0, bytes: 0 }) by {
            lemma_share_bounded(all, k, all.len());
            assert(by_name@.dom().contains(k) <==> count_in(all, k, all.len()) > 0);
        }
        assert forall|k: Seq<char>| by_name@.dom().contains(k) implies #[trigger] share(all, k) == (
        StatView { name: k, files: by_name@[k].0 as nat, bytes: by_name@[k].1 as nat }) by {}
    }
    let logs = share_in(&by_name, "runs");
    let ghost names = share_names();
    let mut categories: Vec<CategoryStat> = Vec::new();
    let mut j: usize = 0;
    assert(stat_views(categories@) =~= shares(all, names, 0));
    while j < 6
        invariant
            j <= 6,
            names == share_names(),
            forall|k: Seq<char>|
                !by_name@.dom().contains(k) ==> #[trigger] share(all, k) == (StatView {
                    name: k,
                    files: 0,
                    bytes: 0,
                }),
            forall|k: Seq<char>|
                by_name@.dom().contains(k) ==> #[trigger] share(all, k) == (StatView {
                    name: k,
                    files: by_name@[k].0 as nat,
                    bytes: by_name@[k].1 as nat,
                }),
            stat_views(categories@) == shares(all, names, j as nat),
        decreases 6 - j,
    {
        let name = if j < 5 {
            CATEGORIES[j]
        } else {
            "other"
        };
        assert(name@ == names[j as int]);
        let s = share_in(&by_name, name);
        assert(s@ == share(all, name@));
        let ghost was = stat_views(categories@);
        if s.files > 0 {
            categories.push(s);
            assert(stat_views(categories@) =~= was.push(s@));
        }
        j = j + 1;
    }
    CorpusStats { files: total as u64, bytes, categories, logs }
}

/// No two of the names that files are summed up under are the same.
proof fn lemma_categories_apart()
    ensures
        forall|a: int, b: int|
            0 <= a < b < 6 ==> #[trigger] share_names()[a] != #[trigger] share_names()[b],
        forall|a: int| 0 <= a < 6 ==> #[trigger] share_names()[a] != "runs"@,
        forall|k: Seq<char>| #[trigger]
            entries::categories().contains(k) <==> k == "runs"@ || (exists|a: int|
                0 <= a < 5 && #[trigger] share_names()[a] == k),
{
    reveal_strlit("hypotheses");
    reveal_strlit("techniques");
    reveal_strlit("findings");
    reveal_strlit("attacks");
    reveal_strlit("retro");
    reveal_strlit("runs");
    reveal_strlit("other");
    let c = entries::categories();
    let n = share_names();
    assert(n[0].len() == 10 && n[0][0] == 'h');
    assert(n[1].len() == 10 && n[1][0] == 't');
    assert(n[2].len() == 8);
    assert(n[3].len() == 7);
    assert(n[4].len() == 5 && n[4][0] == 'r');
    assert(n[5].len() == 5 && n[5][0] == 'o');
    assert("runs"@.len() == 4);
    assert(c[5] == "runs"@ && c.len() == 6);
    assert forall|k: Seq<char>| #[trigger] c.contains(k) implies k == "runs"@ || (exists|a: int|
        0 <= a < 5 && #[trigger] n[a] == k) by {
        let a = choose|a: int| 0 <= a < c.len() && c[a] == k;
        if a < 5 {
            assert(n[a] == k);
        }
    }
    assert forall|k: Seq<char>|
        k == "runs"@ || (exists|a: int| 0 <= a < 5 && #[trigger] n[a] == k) implies #[trigger] c.contains(
        k,
    ) by {
        if k != "runs"@ {
            let a = choose|a: int| 0 <= a < 5 && #[trigger] n[a] == k;
            assert(c[a] == k);
        }
    }
}

/// How many files some shares hold.
pub open spec fn sum_files(v: Seq<StatView>) -> nat
    decreases v.len(),
{
    if v.len() == 0 {
        0
    } else {
        sum_files(v.drop_last()) + v.last().files
    }
}

/// How many bytes some shares hold.
pub open spec fn sum_bytes(v: Seq<StatView>) -> nat
    decreases v.len(),
{
    if v.len() == 0 {
        0
    } else {
        sum_bytes(v.drop_last()) + v.last().bytes
    }
}

/// How many of the first `n` files, and of their bytes, sit under the first
/// `m` names.
spec fn under_names(files: Seq<FileView>, m: nat, n: nat) -> (nat, nat)
    decreases m,
{
    if m == 0 {
        (0, 0)
    } else {
        let (count, bytes) = under_names(files, (m - 1) as nat, n);
        let name = share_names()[m - 1];
        (count + count_in(files, name, n), bytes + bytes_in(files, name, n))
    }
}

proof fn lemma_shares_sum(files: Seq<FileView>, m: nat)
    requires
        m <= 6,
    ensures
        sum_files(shares(files, share_names(), m)) == under_names(files, m, files.len()).0,
        sum_bytes(shares(files, share_names(), m)) == under_names(files, m, files.len()).1,
    decreases m,
{
    if m > 0 {
        lemma_shares_sum(files, (m - 1) as nat);
        let before = shares(files, share_names(), (m - 1) as nat);
        let s = share(files, share_names()[m - 1]);
        lemma_share_bounded(files, s.name, files.len());
        assert(before.push(s).drop_last() =~= before);
    }
}

/// One more file adds to the one name that it sits under.
proof fn lemma_under_names(files: Seq<FileView>, m: nat, n: nat)
    requires
        m <= 6,
        0 < n <= files.len(),
    ensures
        ({
            let name = category_of(files[n - 1].rel);
            let hit = exists|a: int| 0 <= a < m && #[trigger] share_names()[a] == name;
            let was = under_names(files, m, (n - 1) as nat);
            under_names(files, m, n) == (if hit {
                (was.0 + 1, was.1 + files[n - 1].bytes as nat)
            } else {
                was
            })
        }),
    decreases m,
{
    if m > 0 {
        lemma_under_names(files, (m - 1) as nat, n);
        lemma_categories_apart();
        let name = category_of(files[n - 1].rel);
        let here = share_names()[m - 1];
        if exists|a: int| 0 <= a < m - 1 && #[trigger] share_names()[a] == name {
            let a = choose|a: int| 0 <= a < m - 1 && #[trigger] share_names()[a] == name;
            assert(share_names()[a] != here);
        }
    }
}

proof fn lemma_every_file_is_summed_up(files: Seq<FileView>, n: nat)
    requires
        n <= files.len(),
    ensures
        under_names(files, 6, n).0 + count_in(files, "runs"@, n) == n,
        under_names(files, 6, n).1 + bytes_in(files, "runs"@, n) == total_bytes(files, n),
    decreases n,
{
    if n > 0 {
        lemma_every_file_is_summed_up(files, (n - 1) as nat);
        lemma_under_names(files, 6, n);
        lemma_categories_apart();
        let name = category_of(files[n - 1].rel);
        assert(share_names()[5] == "other"@);
        if name == "runs"@ {
            assert(forall|a: int| 0 <= a < 6 ==> #[trigger] share_names()[a] != name);
        } else {
            if name != "other"@ {
                assert(entries::categories().contains(name));
            }
            assert(exists|a: int| 0 <= a < 6 && #[trigger] share_names()[a] == name);
        }
    } else {
        assert(under_names(files, 6, 0) == (0nat, 0nat)) by {
            reveal_with_fuel(under_names, 7);
        }
    }
}

/// Every file is summed up once: the shares and the mission logs add up to the
/// totals, in files and in bytes.
pub proof fn law_shares_add_up(files: Seq<FileView>)
    ensures
        sum_files(all_shares(files)) + share(files, "runs"@).files == files.len(),
        sum_bytes(all_shares(files)) + share(files, "runs"@).bytes == total_bytes(
            files,
            files.len(),
        ),
{
    lemma_shares_sum(files, 6);
    lemma_every_file_is_summed_up(files, files.len());
}

proof fn lemma_shares_named(files: Seq<FileView>, m: nat)
    requires
        m <= 6,
    ensures
        forall|i: int|
            0 <= i < shares(files, share_names(), m).len() ==> {
                let s = #[trigger] shares(files, share_names(), m)[i];
                s.files > 0 && exists|a: int| 0 <= a < m && #[trigger] share_names()[a] == s.name
            },
    decreases m,
{
    if m > 0 {
        lemma_shares_named(files, (m - 1) as nat);
        let before = shares(files, share_names(), (m - 1) as nat);
        let now = shares(files, share_names(), m);
        assert forall|i: int| 0 <= i < now.len() implies {
            let s = #[trigger] now[i];
            s.files > 0 && exists|a: int| 0 <= a < m && #[trigger] share_names()[a] == s.name
        } by {
            if i < before.len() {
                assert(now[i] == before[i]);
                let a = choose|a: int| 0 <= a < m - 1 && #[trigger] share_names()[a] == before[i].name;
                assert(share_names()[a] == now[i].name);
            } else {
                assert(share_names()[m - 1] == now[i].name);
            }
        }
    }
}

/// Only what holds a file is reported, under a category but the logs or as one
/// of the others: no other directory is a bucket of its own.
pub proof fn law_only_categories_are_reported(files: Seq<FileView>, i: int)
    requires
        0 <= i < all_shares(files).len(),
    ensures
        all_shares(files)[i].files > 0,
        all_shares(files)[i].name == "other"@ || (entries::categories().contains(
            all_shares(files)[i].name,
        ) && all_shares(files)[i].name != "runs"@),
{
    lemma_shares_named(files, 6);
    lemma_categories_apart();
    let name = all_shares(files)[i].name;
    let a = choose|a: int| 0 <= a < 6 && #[trigger] share_names()[a] == name;
    if a < 5 {
        assert(share_names()[a] == name);
    }
}

impl CorpusStats {
    /// The number of files but the mission logs.
    pub fn knowledge_files(&self) -> (r: u64)
        ensures
            r == (if self.files >= self.logs.files {
                self.files - self.logs.files
            } else {
                0
            }),
    {
        self.files.saturating_sub(self.logs.files)
    }

    /// The bytes of the files but the mission logs.
    pub fn knowledge_bytes(&self) -> (r: u64)
        ensures
            r == (if self.bytes >= self.logs.bytes {
                self.bytes - self.logs.bytes
            } else {
                0
            }),
    {
        self.bytes.saturating_sub(self.logs.bytes)
    }
}

/// The number and the bytes of the first `n` files that are no mission logs.
pub open spec fn knowledge(files: Seq<FileView>, n: nat) -> (nat, nat)
    decreases n,
{
    if n == 0 {
        (0, 0)
    } else {
        let (count, bytes) = knowledge(files, (n - 1) as nat);
        if category_of(files[n - 1].rel) == "runs"@ {
            (count, bytes)
        } else {
            (count + 1, bytes + files[n - 1].bytes as nat)
        }
    }
}

/// The totals are the knowledge and the mission logs: what is left of them
/// without the logs is what every other file adds up to.
pub proof fn law_totals_are_knowledge_and_logs(files: Seq<FileView>, n: nat)
    requires
        n <= files.len(),
    ensures
        knowledge(files, n).0 + count_in(files, "runs"@, n) == n,
        knowledge(files, n).1 + bytes_in(files, "runs"@, n) == total_bytes(files, n),
    decreases n,
{
    if n > 0 {
        law_totals_are_knowledge_and_logs(files, (n - 1) as nat);
    }
}

// ---------------------------------------------------------------------
// Mission logs
// ---------------------------------------------------------------------

/// One mission transcript.
#[derive(Debug, PartialEq, Eq)]
pub struct MissionLog {
    /// File name as it sits among the logs.
    pub name: String,
    /// The mission out of `<epoch>-<mission>.<ext>`; the whole stem where the
    /// name is not of that form.
    pub mission: String,
    /// Epoch seconds of the start; zero where the name has none.
    pub started: u64,
    pub bytes: u64,
    /// The extension.
    pub kind: String,
}

/// What a mission log holds.
#[verifier::ext_equal]
pub struct LogView {
    pub name: Seq<char>,
    pub mission: Seq<char>,
    pub started: u64,
    pub bytes: u64,
    pub kind: Seq<char>,
}

impl View for MissionLog {
    type V = LogView;

    open spec fn view(&self) -> LogView {
        LogView {
            name: self.name@,
            mission: self.mission@,
            started: self.started,
            bytes: self.bytes,
            kind: self.kind@,
        }
    }
}

/// What a row of mission logs holds.
pub open spec fn log_views(v: Seq<MissionLog>) -> Seq<LogView> {
    Seq::new(v.len(), |i: int| v[i]@)
}

/// A file name without its extension.
pub open spec fn stem_of(name: Seq<char>) -> Seq<char> {
    match path::extension_of(name) {
        Some(ext) => name.take(name.len() - ext.len() - 1),
        None => name,
    }
}

/// The start and the mission that a log's stem names: a number before the
/// first dash and something after it.
pub open spec fn stem_parts(stem: Seq<char>) -> (u64, Seq<char>) {
    match text::index_from(stem, "-"@, 0) {
        Some(at) => if at + 1 < stem.len() {
            match text::parsed_u64(stem.take(at as int)) {
                Some(epoch) => (epoch, stem.skip((at + 1) as int)),
                None => (0, stem),
            }
        } else {
            (0, stem)
        },
        None => (0, stem),
    }
}

/// The log that a file is.
pub open spec fn log_of(name: Seq<char>, bytes: u64) -> LogView {
    let (started, mission) = stem_parts(stem_of(name));
    LogView {
        name,
        mission,
        started,
        bytes,
        kind: match path::extension_of(name) {
            Some(ext) => ext,
            None => Seq::empty(),
        },
    }
}

/// An extension is shorter than its name.
proof fn lemma_extension_shorter(name: Seq<char>)
    ensures
        path::extension_of(name) matches Some(ext) ==> ext.len() + 1 <= name.len(),
{
    lemma_last_piece(name);
}

proof fn lemma_last_piece(s: Seq<char>)
    ensures
        text::pieces(s, '.').len() > 0,
        text::pieces(s, '.').last().len() <= s.len(),
        text::pieces(s, '.').len() > 1 ==> text::pieces(s, '.').last().len() + 1 <= s.len(),
    decreases s.len(),
{
    if s.len() > 0 {
        lemma_last_piece(s.drop_last());
    }
}

/// The start and the mission that `stem` names.
fn parse_stem(stem: &str) -> (r: (u64, String))
    ensures
        (r.0, r.1@) == stem_parts(stem@),
{
    let s = text::chars_of(stem);
    proof {
        reveal_strlit("-");
        text::lemma_index_from(stem@, "-"@, 0);
    }
    match text::find(s.as_slice(), text::chars_of("-").as_slice(), 0) {
        Some(at) => {
            let total: usize = s.len();
            if at + 1 < total {
                let head = text::text_of(s.as_slice(), 0, at);
                assert(head@ =~= stem@.take(at as int));
                match text::parse_u64(head.as_str()) {
                    Some(epoch) => {
                        let rest = text::text_of(s.as_slice(), at + 1, s.len());
                        assert(rest@ =~= stem@.skip((at + 1) as int));
                        (epoch, rest)
                    },
                    None => (0, stem.to_owned()),
                }
            } else {
                (0, stem.to_owned())
            }
        },
        None => (0, stem.to_owned()),
    }
}

/// The log that the file `name` is.
pub fn parse_log(name: &str, bytes: u64) -> (r: MissionLog)
    ensures
        r@ == log_of(name@, bytes),
{
    proof {
        lemma_extension_shorter(name@);
    }
    let s = text::chars_of(name);
    let (stem, kind) = match path::extension(name) {
        Some(ext) => {
            let n: usize = text::chars_of(ext.as_str()).len();
            let stem = text::text_of(s.as_slice(), 0, s.len() - n - 1);
            assert(stem@ =~= stem_of(name@));
            (stem, ext)
        },
        None => (name.to_owned(), String::new()),
    };
    let (started, mission) = parse_stem(stem.as_str());
    MissionLog { name: name.to_owned(), mission, started, bytes, kind }
}

/// A log is listed before another: the newer first, by name where they
/// started together.
pub open spec fn listed_before(a: LogView, b: LogView) -> bool {
    a.started > b.started || (a.started == b.started && table::precedes(a.name, b.name))
}

/// Where a log belongs in a list: before the first that it is listed before.
pub open spec fn log_place(v: Seq<LogView>, x: LogView, i: nat) -> nat
    decreases v.len() - i,
{
    if i >= v.len() || listed_before(x, v[i as int]) {
        i
    } else {
        log_place(v, x, i + 1)
    }
}

/// The first `n` logs in the order they are listed in.
pub open spec fn listed(v: Seq<LogView>, n: nat) -> Seq<LogView>
    decreases n,
{
    if n == 0 {
        Seq::empty()
    } else {
        let before = listed(v, (n - 1) as nat);
        before.insert(log_place(before, v[n - 1], 0) as int, v[n - 1])
    }
}

/// The logs that found files are.
pub open spec fn logs_of(files: Seq<FileView>) -> Seq<LogView> {
    Seq::new(files.len(), |i: int| log_of(files[i].rel, files[i].bytes))
}

/// The place of a log in a list lies in the list.
proof fn lemma_log_place(v: Seq<LogView>, x: LogView, i: nat)
    requires
        i <= v.len(),
    ensures
        i <= log_place(v, x, i) <= v.len(),
        forall|j: int| i <= j < log_place(v, x, i) ==> !listed_before(x, #[trigger] v[j]),
        log_place(v, x, i) < v.len() ==> listed_before(x, v[log_place(v, x, i) as int]),
    decreases v.len() - i,
{
    if i < v.len() && !listed_before(x, v[i as int]) {
        lemma_log_place(v, x, i + 1);
    }
}

/// The mission logs among the files directly under the logs' directory, newest
/// first.
pub fn mission_logs(files: &[CorpusFile]) -> (r: Vec<MissionLog>)
    ensures
        log_views(r@) == listed(logs_of(found(files@)), files@.len()),
{
    let ghost all = logs_of(found(files@));
    let mut out: Vec<MissionLog> = Vec::new();
    let mut i: usize = 0;
    assert(log_views(out@) =~= Seq::<LogView>::empty());
    while i < files.len()
        invariant
            i <= files@.len(),
            all == logs_of(found(files@)),
            log_views(out@) == listed(all, i as nat),
        decreases files@.len() - i,
    {
        let log = parse_log(files[i].rel.as_str(), files[i].bytes);
        assert(found(files@)[i as int] == files@[i as int]@);
        assert(all[i as int] == log@);
        let ghost was = log_views(out@);
        let mut at: usize = 0;
        while at < out.len() && !(log.started > out[at].started || (log.started == out[at].started
            && table::before(log.name.as_str(), out[at].name.as_str())))
            invariant
                at <= out@.len(),
                was == log_views(out@),
                log_place(was, log@, 0) == log_place(was, log@, at as nat),
            decreases out@.len() - at,
        {
            assert(was[at as int] == out@[at as int]@);
            at = at + 1;
        }
        if at < out.len() {
            assert(was[at as int] == out@[at as int]@);
        }
        out.insert(at, log);
        assert(log_views(out@) =~= was.insert(at as int, log@));
        i = i + 1;
    }
    out
}

/// The list is in order: no log stands after one that it is listed before, so
/// none stands after an older one, and those that started together stand by
/// name. It holds the logs that were found, each as often.
pub proof fn law_logs_are_newest_first(v: Seq<LogView>, n: nat)
    requires
        n <= v.len(),
    ensures
        forall|i: int, j: int|
            0 <= i < j < n ==> !listed_before(
                #[trigger] listed(v, n)[j],
                #[trigger] listed(v, n)[i],
            ),
        forall|i: int, j: int|
            0 <= i < j < n ==> (#[trigger] listed(v, n)[i]).started >= (#[trigger] listed(
                v,
                n,
            )[j]).started,
        forall|i: int, j: int|
            0 <= i < j < n && (#[trigger] listed(v, n)[i]).started == (#[trigger] listed(
                v,
                n,
            )[j]).started ==> !table::precedes(listed(v, n)[j].name, listed(v, n)[i].name),
        listed(v, n).len() == n,
        listed(v, n).to_multiset() == v.take(n as int).to_multiset(),
    decreases n,
{
    broadcast use vstd::seq_lib::group_to_multiset_ensures;

    if n == 0 {
        assert(v.take(0) =~= Seq::<LogView>::empty());
    } else {
        law_logs_are_newest_first(v, (n - 1) as nat);
        let before = listed(v, (n - 1) as nat);
        let x = v[n - 1];
        let at = log_place(before, x, 0);
        lemma_log_place(before, x, 0);
        let now = listed(v, n);
        assert forall|i: int, j: int| 0 <= i < j < n implies !listed_before(
            #[trigger] now[j],
            #[trigger] now[i],
        ) by {
            let a = if i < at { i } else { i - 1 };
            let b = if j < at { j } else { j - 1 };
            if i != at && j != at {
                assert(now[i] == before[a]);
                assert(now[j] == before[b]);
                assert(!listed_before(before[b], before[a]));
            } else if j == at {
                assert(now[i] == before[i]);
            } else {
                assert(now[j] == before[j - 1]);
                lemma_listed_order(x, before[at as int]);
                if j - 1 > at {
                    assert(!listed_before(before[j - 1], before[at as int]));
                    if listed_before(before[j - 1], x) {
                        lemma_listed_transitive(before[j - 1], x, before[at as int]);
                    }
                }
            }
        }
        assert(v.take(n as int) =~= v.take(n - 1).push(x));
        assert(now.to_multiset() =~= before.to_multiset().insert(x)) by {
            assert(now[at as int] == x);
            assert(now.contains(x));
            assert(now.remove(at as int) =~= before);
        }
    }
}

proof fn lemma_listed_order(a: LogView, b: LogView)
    ensures
        listed_before(a, b) ==> !listed_before(b, a),
{
    if a.started == b.started && table::precedes(a.name, b.name) && table::precedes(b.name, a.name) {
        table::lemma_precedes_transitive(a.name, b.name, a.name);
        table::lemma_precedes_irreflexive(a.name);
    }
}

proof fn lemma_listed_transitive(a: LogView, b: LogView, c: LogView)
    requires
        listed_before(a, b),
        listed_before(b, c),
    ensures
        listed_before(a, c),
{
    if a.started == b.started && b.started == c.started {
        table::lemma_precedes_transitive(a.name, b.name, c.name);
    }
}

} // verus!
