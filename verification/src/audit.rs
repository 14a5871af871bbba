//! The audit log: an append-only record of who changed a project, kept out of
//! the reach of those it records.
use vstd::prelude::*;
use crate::path;
use crate::store::layout;
use crate::store::layout::Store;
use crate::store::naming;
use crate::text;

verus! {

/// Where a record sits in the lifecycle of one call.
#[derive(Debug, Clone, Copy, PartialEq, Eq, Structural)]
pub enum Outcome {
    /// About to be attempted; written before the call.
    Intent,
    /// Completed.
    Done,
    /// Refused, or failed.
    Refused,
}

/// One line of the log.
#[derive(Debug, PartialEq, Eq)]
pub struct AuditRecord {
    /// Epoch seconds.
    pub ts: u64,
    /// Who acted.
    pub actor: String,
    /// The tool name.
    pub op: String,
    /// What it acted on, in the project's own terms.
    pub target: String,
    pub outcome: Outcome,
    /// The dry-run summary, the result, or the error.
    pub detail: String,
}

impl AuditRecord {
    /// A record of what happened at `ts`.
    pub fn new(
        ts: u64,
        actor: String,
        op: String,
        target: String,
        outcome: Outcome,
        detail: String,
    ) -> (r: AuditRecord)
        ensures
            r == (AuditRecord { ts, actor, op, target, outcome, detail }),
    {
        AuditRecord { ts, actor, op, target, outcome, detail }
    }
}

/// The log file of a project.
pub open spec fn log_file(root: Seq<char>, project: Seq<char>) -> Seq<char> {
    path::joined(path::joined(layout::var_path(root), "audit"@), project + ".jsonl"@)
}

/// The log file of `project`.
pub fn log_path(store: &Store, project: &str) -> (r: String)
    ensures
        r@ == log_file(store@.root, project@),
{
    path::join(
        path::join(store.var_dir().as_str(), "audit").as_str(),
        text::cat2(project, ".jsonl").as_str(),
    )
}

/// The lines of a log that hold a record: those that are not blank.
pub open spec fn record_lines(lines: Seq<Seq<char>>, n: nat) -> Seq<Seq<char>>
    decreases n,
{
    if n == 0 {
        Seq::empty()
    } else {
        let before = record_lines(lines, (n - 1) as nat);
        if text::trimmed(lines[n - 1]).len() == 0 {
            before
        } else {
            before.push(lines[n - 1])
        }
    }
}

/// The lines of the log text that hold a record.
pub fn log_lines(raw: &str) -> (r: Vec<String>)
    ensures
        text::texts(r@) == record_lines(text::lines(raw@), text::lines(raw@).len()),
{
    let lines = text::split_lines(raw);
    assert(text::texts(lines@).len() == lines@.len());
    let mut out: Vec<String> = Vec::new();
    let mut i: usize = 0;
    assert(text::texts(out@) =~= Seq::<Seq<char>>::empty());
    while i < lines.len()
        invariant
            i <= lines@.len(),
            text::texts(lines@) == text::lines(raw@),
            text::texts(out@) == record_lines(text::lines(raw@), i as nat),
        decreases lines@.len() - i,
    {
        let ghost was = text::texts(out@);
        assert(text::texts(lines@)[i as int] == lines@[i as int]@);
        if !text::trim(lines[i].as_str()).as_str().is_empty() {
            out.push(lines[i].clone());
            assert(text::texts(out@) =~= was.push(lines@[i as int]@));
        }
        i = i + 1;
    }
    out
}

/// The last `n` records, oldest first.
pub fn tail(records: Vec<AuditRecord>, n: usize) -> (r: Vec<AuditRecord>)
    ensures
        r@ == (if records@.len() > n {
            records@.skip(records@.len() - n)
        } else {
            records@
        }),
{
    let mut records = records;
    if records.len() > n {
        let at: usize = records.len() - n;
        let out = records.split_off(at);
        out
    } else {
        records
    }
}

/// The log lies in the store's side tree and outside the project it
/// describes, whose agents can write their own project.
pub proof fn law_log_is_outside_its_project(root: Seq<char>, project: Seq<char>)
    requires
        naming::is_slug(project),
    ensures
        !path::is_within(log_file(root, project), layout::project_path(root, project)),
        path::is_within(log_file(root, project), layout::var_path(root)),
{
    reveal_strlit("audit");
    reveal_strlit("projects");
    reveal_strlit(".jsonl");
    reveal_strlit(".");
    reveal_strlit("..");
    layout::lemma_slug_is_plain(project);
    let name = project + ".jsonl"@;
    assert(!name.contains('/')) by {
        if name.contains('/') {
            let i = choose|i: int| 0 <= i < name.len() && name[i] == '/';
            if i < project.len() {
                assert(project[i] == '/');
            } else {
                assert(".jsonl"@[i - project.len()] == '/');
            }
        }
    }
    assert(name.len() > 2);
    assert("audit"@.len() != "projects"@.len());
    layout::lemma_side_tree_is_apart(root, "audit"@, name, project);
}

/// The log only ever grows: of two logs, one of which continues the other, the
/// records of the first are the first records of the second.
pub proof fn law_records_are_never_rewritten(lines: Seq<Seq<char>>, more: Seq<Seq<char>>, n: nat)
    requires
        n <= more.len(),
    ensures
        record_lines(lines + more, lines.len() + n) == record_lines(lines, lines.len())
            + record_lines(more, n),
    decreases n,
{
    if n == 0 {
        lemma_record_lines_prefix(lines + more, lines, lines.len());
        assert(record_lines(lines, lines.len()) + record_lines(more, 0) =~= record_lines(
            lines,
            lines.len(),
        ));
    } else {
        law_records_are_never_rewritten(lines, more, (n - 1) as nat);
        assert((lines + more)[lines.len() + n - 1] == more[n - 1]);
        assert((lines.len() + n - 1) as nat == lines.len() + (n - 1) as nat);
        let a = record_lines(lines, lines.len());
        let b = record_lines(more, (n - 1) as nat);
        assert((a + b).push(more[n - 1]) =~= a + b.push(more[n - 1]));
    }
}

proof fn lemma_record_lines_prefix(z: Seq<Seq<char>>, x: Seq<Seq<char>>, n: nat)
    requires
        n <= x.len() <= z.len(),
        forall|i: int| 0 <= i < n ==> z[i] == x[i],
    ensures
        record_lines(z, n) == record_lines(x, n),
    decreases n,
{
    if n > 0 {
        lemma_record_lines_prefix(z, x, (n - 1) as nat);
    }
}

} // verus!
