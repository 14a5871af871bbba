//! Where the programs that a run needs are looked for, and which versions of
//! them will do.
use vstd::prelude::*;
use crate::error;
use crate::error::{Error, ErrorView};
use crate::path;
use crate::text;
use crate::text::Runs;

verus! {

// ---------------------------------------------------------------------
// Candidates
// ---------------------------------------------------------------------

/// A file called `name` in each of the first `n` directories.
pub open spec fn in_dirs(dirs: Seq<Seq<char>>, name: Seq<char>, n: nat) -> Seq<Seq<char>>
    decreases n,
{
    if n == 0 {
        Seq::empty()
    } else {
        in_dirs(dirs, name, (n - 1) as nat).push(path::joined(dirs[n - 1], name))
    }
}

/// The files called `name` that a search path speaks of, in its order.
pub open spec fn on_path(search: Option<Seq<char>>, name: Seq<char>) -> Seq<Seq<char>> {
    match search {
        Some(search) => in_dirs(
            text::pieces(search, ':'),
            name,
            text::pieces(search, ':').len(),
        ),
        None => Seq::empty(),
    }
}

/// A file below a directory, where there is one.
pub open spec fn below(dir: Option<Seq<char>>, file: Seq<char>) -> Seq<Seq<char>> {
    match dir {
        Some(dir) => seq![path::joined(dir, file)],
        None => Seq::empty(),
    }
}

/// Where OpenCode is looked for, best first: the search path, the user's own
/// installation, the application's resources.
pub open spec fn opencode_places(
    search: Option<Seq<char>>,
    home: Option<Seq<char>>,
    resources: Option<Seq<char>>,
) -> Seq<Seq<char>> {
    on_path(search, "opencode"@) + below(home, ".opencode/bin/opencode"@) + below(
        resources,
        ".opencode/node_modules/.bin/opencode"@,
    )
}

/// Where tmux is looked for, best first: the search path, then the usual
/// places.
pub open spec fn tmux_places(search: Option<Seq<char>>) -> Seq<Seq<char>> {
    on_path(search, "tmux"@) + seq![
        "/opt/homebrew/bin/tmux"@,
        "/usr/local/bin/tmux"@,
        "/opt/local/bin/tmux"@,
        "/usr/bin/tmux"@,
    ]
}

/// The files called `name` that a search path speaks of.
fn path_files(search: Option<&str>, name: &str) -> (r: Vec<String>)
    ensures
        text::texts(r@) == on_path(text::opt_str(search), name@),
{
    let mut out: Vec<String> = Vec::new();
    assert(text::texts(out@) =~= Seq::empty());
    match search {
        Some(search) => {
            let dirs = text::split(search, ':');
            let ghost all = text::pieces(search@, ':');
            let mut i: usize = 0;
            while i < dirs.len()
                invariant
                    i <= dirs@.len(),
                    text::texts(dirs@) == all,
                    text::texts(out@) == in_dirs(all, name@, i as nat),
                decreases dirs@.len() - i,
            {
                let ghost was = text::texts(out@);
                assert(all[i as int] == dirs@[i as int]@);
                out.push(path::join(dirs[i].as_str(), name));
                assert(text::texts(out@) =~= was.push(path::joined(all[i as int], name@)));
                i = i + 1;
            }
            assert(all.len() == dirs@.len());
        },
        None => {},
    }
    out
}

/// Add the file below a directory, where there is one.
fn put_below(out: &mut Vec<String>, dir: Option<&str>, file: &str)
    ensures
        text::texts(final(out)@) == text::texts(old(out)@) + below(text::opt_str(dir), file@),
{
    let ghost was = text::texts(out@);
    match dir {
        Some(dir) => {
            out.push(path::join(dir, file));
            assert(text::texts(out@) =~= was + seq![path::joined(dir@, file@)]);
        },
        None => {
            assert(text::texts(out@) =~= was + Seq::<Seq<char>>::empty());
        },
    }
}

/// Where OpenCode is looked for, best first.
pub fn opencode_candidates(
    search: Option<&str>,
    home: Option<&str>,
    resources: Option<&str>,
) -> (r: Vec<String>)
    ensures
        text::texts(r@) == opencode_places(
            text::opt_str(search),
            text::opt_str(home),
            text::opt_str(resources),
        ),
{
    let mut out = path_files(search, "opencode");
    put_below(&mut out, home, ".opencode/bin/opencode");
    put_below(&mut out, resources, ".opencode/node_modules/.bin/opencode");
    out
}

/// Where tmux is looked for, best first.
pub fn tmux_candidates(search: Option<&str>) -> (r: Vec<String>)
    ensures
        text::texts(r@) == tmux_places(text::opt_str(search)),
{
    let mut out = path_files(search, "tmux");
    let ghost was = text::texts(out@);
    out.push("/opt/homebrew/bin/tmux".to_owned());
    out.push("/usr/local/bin/tmux".to_owned());
    out.push("/opt/local/bin/tmux".to_owned());
    out.push("/usr/bin/tmux".to_owned());
    assert(text::texts(out@) =~= was + seq![
        "/opt/homebrew/bin/tmux"@,
        "/usr/local/bin/tmux"@,
        "/opt/local/bin/tmux"@,
        "/usr/bin/tmux"@,
    ]);
    out
}

/// The first candidate from the `i`-th on that can be run.
pub open spec fn first_runnable(
    candidates: Seq<Seq<char>>,
    runnable: Seq<bool>,
    i: nat,
) -> Option<Seq<char>>
    decreases candidates.len() - i,
{
    if i >= candidates.len() {
        None
    } else if runnable[i as int] {
        Some(candidates[i as int])
    } else {
        first_runnable(candidates, runnable, i + 1)
    }
}

/// The first of the candidates that can be run; `runnable` says it of each.
pub fn resolve(candidates: &Vec<String>, runnable: &Vec<bool>) -> (r: Option<String>)
    requires
        candidates@.len() == runnable@.len(),
    ensures
        text::opt_text(r) == first_runnable(text::texts(candidates@), runnable@, 0),
{
    let ghost all = text::texts(candidates@);
    let mut i: usize = 0;
    while i < candidates.len()
        invariant
            i <= candidates@.len(),
            all == text::texts(candidates@),
            candidates@.len() == runnable@.len(),
            first_runnable(all, runnable@, 0) == first_runnable(all, runnable@, i as nat),
        decreases candidates@.len() - i,
    {
        if runnable[i] {
            return Some(candidates[i].clone());
        }
        i = i + 1;
    }
    None
}

/// OpenCode where it was found, or that it was not.
pub open spec fn opencode_or_error(found: Option<Seq<char>>) -> Result<Seq<char>, ErrorView> {
    match found {
        Some(found) => Ok(found),
        None => Err(
            ErrorView::Store(
                "opencode binary not found — tried PATH, ~/.opencode/bin/opencode, .opencode/node_modules/.bin/opencode. Install it or put it on PATH."@,
            ),
        ),
    }
}

/// The first OpenCode that can be run.
pub fn resolve_opencode(candidates: &Vec<String>, runnable: &Vec<bool>) -> (r: Result<
    String,
    Error,
>)
    requires
        candidates@.len() == runnable@.len(),
    ensures
        error::outcome(r) == opencode_or_error(
            first_runnable(text::texts(candidates@), runnable@, 0),
        ),
{
    match resolve(candidates, runnable) {
        Some(found) => Ok(found),
        None => Err(
            Error::Store(
                "opencode binary not found — tried PATH, ~/.opencode/bin/opencode, .opencode/node_modules/.bin/opencode. Install it or put it on PATH.".to_owned(),
            ),
        ),
    }
}

// ---------------------------------------------------------------------
// Versions
// ---------------------------------------------------------------------

/// A text without a prefix, however often it begins with it.
pub open spec fn without_prefixes(s: Seq<char>, p: Seq<char>) -> Seq<char>
    decreases s.len(),
{
    if p.len() > 0 && s.len() >= p.len() && s.take(p.len() as int) == p {
        without_prefixes(s.skip(p.len() as int), p)
    } else {
        s
    }
}

/// The version that tmux reports: the second word, less that it is a
/// development one.
pub open spec fn version_field(output: Seq<char>) -> Option<Seq<char>> {
    let words = text::runs(output, Runs::Words);
    if words.len() > 1 {
        Some(without_prefixes(words[1], "next-"@))
    } else {
        None
    }
}

/// The minor number of a version: the digits that its second part begins
/// with; zero where there are none.
pub open spec fn minor_of(parts: Seq<Seq<char>>) -> u32 {
    if parts.len() > 1 {
        match text::parsed_u32(leading_digits(parts[1])) {
            Some(n) => n,
            None => 0,
        }
    } else {
        0
    }
}

/// The digits that a text begins with.
pub open spec fn leading_digits(s: Seq<char>) -> Seq<char>
    decreases s.len(),
{
    if s.len() == 0 || !text::is_digit(s[0]) {
        Seq::empty()
    } else {
        seq![s[0]] + leading_digits(s.skip(1))
    }
}

/// A tmux that reports this will do: it is of version 3.2 at least.
pub open spec fn is_supported(output: Seq<char>) -> bool {
    match version_field(output) {
        None => false,
        Some(field) => {
            let parts = text::pieces(field, '.');
            match text::parsed_u32(parts[0]) {
                None => false,
                Some(major) => major > 3 || (major == 3 && minor_of(parts) >= 2),
            }
        },
    }
}

/// `s` without a prefix, however often it begins with it.
fn strip_prefixes(s: &str, p: &str) -> (r: String)
    requires
        p@.len() > 0,
    ensures
        r@ == without_prefixes(s@, p@),
{
    let mut out = s.to_owned();
    loop
        invariant
            p@.len() > 0,
            without_prefixes(out@, p@) == without_prefixes(s@, p@),
        decreases out@.len(),
    {
        match text::strip_prefix(out.as_str(), p) {
            Some(rest) => {
                out = rest;
            },
            None => {
                return out;
            },
        }
    }
}

/// The digits that `s` begins with.
fn digits_of(s: &str) -> (r: String)
    ensures
        r@ == leading_digits(s@),
{
    let v = text::chars_of(s);
    let mut out = String::new();
    let mut i: usize = 0;
    assert(v@.skip(0) =~= s@);
    assert(out@ + leading_digits(v@.skip(0)) =~= leading_digits(s@));
    while i < v.len() && text::digit(v[i])
        invariant
            i <= v@.len(),
            out@ + leading_digits(v@.skip(i as int)) == leading_digits(s@),
        decreases v@.len() - i,
    {
        let ghost was = out@;
        let ghost rest = v@.skip(i as int);
        assert(rest.skip(1) =~= v@.skip(i + 1));
        out.push(v[i]);
        assert(was + (seq![rest[0]] + leading_digits(rest.skip(1))) =~= out@ + leading_digits(
            rest.skip(1),
        ));
        i = i + 1;
    }
    assert(leading_digits(v@.skip(i as int)) =~= Seq::empty());
    assert(out@ + Seq::<char>::empty() =~= out@);
    out
}

/// Will a tmux that reports this do?
pub fn tmux_version_supported(output: &str) -> (r: bool)
    ensures
        r == is_supported(output@),
{
    proof {
        reveal_strlit("next-");
    }
    let words = text::split_runs(output, Runs::Words);
    let ghost all = text::runs(output@, Runs::Words);
    assert(all.len() == words@.len());
    if words.len() < 2 {
        return false;
    }
    assert(all[1] == words@[1]@);
    let field = strip_prefixes(words[1].as_str(), "next-");
    let parts = text::split(field.as_str(), '.');
    let ghost pieces = text::pieces(field@, '.');
    proof {
        text::lemma_pieces_nonempty(field@, '.');
    }
    assert(pieces.len() == parts@.len());
    assert(pieces[0] == parts@[0]@);
    match text::parse_u32(parts[0].as_str()) {
        None => false,
        Some(major) => {
            let mut minor: u32 = 0;
            if parts.len() > 1 {
                assert(pieces[1] == parts@[1]@);
                match text::parse_u32(digits_of(parts[1].as_str()).as_str()) {
                    Some(n) => {
                        minor = n;
                    },
                    None => {},
                }
            }
            major > 3 || (major == 3 && minor >= 2)
        },
    }
}

/// May detached terminals be used? `opt_out` is what the environment says to
/// that, `version` what tmux reported, where it ran and succeeded.
pub fn tmux_available(opt_out: Option<&str>, version: Option<&str>) -> (r: bool)
    ensures
        r == (text::opt_str(opt_out) != Some("1"@) && match text::opt_str(version) {
            Some(output) => is_supported(output),
            None => false,
        }),
{
    match opt_out {
        Some(value) => {
            if text::same(value, "1") {
                return false;
            }
        },
        None => {},
    }
    match version {
        Some(output) => tmux_version_supported(output),
        None => false,
    }
}

// ---------------------------------------------------------------------
// Laws
// ---------------------------------------------------------------------

/// The order of the places is kept: the program that is taken is the first
/// that can be run, and none before it could be.
pub proof fn law_first_place_wins(candidates: Seq<Seq<char>>, runnable: Seq<bool>, i: nat)
    requires
        candidates.len() == runnable.len(),
        i < candidates.len(),
        runnable[i as int],
        forall|j: int| 0 <= j < i ==> !runnable[j],
    ensures
        first_runnable(candidates, runnable, 0) == Some(candidates[i as int]),
{
    lemma_skip_unrunnable(candidates, runnable, 0, i);
}

/// Candidates that cannot be run are passed over.
proof fn lemma_skip_unrunnable(
    candidates: Seq<Seq<char>>,
    runnable: Seq<bool>,
    from: nat,
    to: nat,
)
    requires
        from <= to < candidates.len(),
        forall|j: int| from <= j < to ==> !runnable[j],
    ensures
        first_runnable(candidates, runnable, from) == first_runnable(candidates, runnable, to),
    decreases to - from,
{
    if from < to {
        lemma_skip_unrunnable(candidates, runnable, from + 1, to);
    }
}

} // verus!
