//! The environment, the arguments and the script that a run is started with.
use vstd::prelude::*;
use crate::launch::plan::{LaunchPlan, PlanView};
use crate::store::layout;
use crate::store::layout::Store;
use crate::text;

verus! {

// ---------------------------------------------------------------------
// Quoting
// ---------------------------------------------------------------------

/// The characters of a value inside single quotes: a quote ends them, stands
/// for itself behind a backslash, and begins them again.
pub open spec fn quoted_chars(value: Seq<char>) -> Seq<char>
    decreases value.len(),
{
    if value.len() == 0 {
        Seq::empty()
    } else {
        let before = quoted_chars(value.drop_last());
        if value.last() == '\'' {
            before + seq!['\'', '\\', '\'', '\'']
        } else {
            before.push(value.last())
        }
    }
}

/// A value as the shell reads it back: in single quotes.
pub open spec fn shell_quoted(value: Seq<char>) -> Seq<char> {
    seq!['\''] + quoted_chars(value) + seq!['\'']
}

/// The value `value` in single quotes, so that it is inert in a script.
pub fn shell_quote(value: &str) -> (r: String)
    ensures
        r@ == shell_quoted(value@),
{
    let v = text::chars_of(value);
    let mut out = String::new();
    out.push('\'');
    let mut i: usize = 0;
    assert(v@.take(0) =~= Seq::empty());
    assert(out@ =~= seq!['\''] + quoted_chars(v@.take(0)));
    while i < v.len()
        invariant
            i <= v@.len(),
            out@ == seq!['\''] + quoted_chars(v@.take(i as int)),
        decreases v@.len() - i,
    {
        let ghost more = v@.take(i + 1);
        assert(more.drop_last() =~= v@.take(i as int));
        let c = v[i];
        if c == '\'' {
            out.push('\'');
            out.push('\\');
            out.push('\'');
            out.push('\'');
            assert(out@ =~= seq!['\''] + quoted_chars(more));
        } else {
            out.push(c);
            assert(out@ =~= seq!['\''] + quoted_chars(more));
        }
        i = i + 1;
    }
    out.push('\'');
    assert(v@.take(i as int) =~= value@);
    assert(out@ =~= shell_quoted(value@));
    out
}

/// What the shell reads as one word, where it is made of single quotes and of
/// characters behind backslashes alone: `inside` says that a quote is open.
/// None where the shell would see any other character outside of quotes, or
/// where a quote stays open.
pub open spec fn shell_reads(s: Seq<char>, inside: bool) -> Option<Seq<char>>
    decreases s.len(),
{
    if s.len() == 0 {
        if inside {
            None
        } else {
            Some(Seq::empty())
        }
    } else if inside {
        if s[0] == '\'' {
            shell_reads(s.skip(1), false)
        } else {
            match shell_reads(s.skip(1), true) {
                Some(rest) => Some(seq![s[0]] + rest),
                None => None,
            }
        }
    } else if s[0] == '\'' {
        shell_reads(s.skip(1), true)
    } else if s[0] == '\\' && s.len() > 1 {
        match shell_reads(s.skip(2), false) {
            Some(rest) => Some(seq![s[1]] + rest),
            None => None,
        }
    } else {
        None
    }
}

/// Inside quotes, the quoted characters of a value are read as the value, and
/// then whatever follows.
proof fn lemma_reads_quoted(value: Seq<char>, rest: Seq<char>)
    ensures
        shell_reads(quoted_chars(value) + rest, true) == (match shell_reads(rest, true) {
            Some(tail) => Some(value + tail),
            None => None,
        }),
    decreases value.len(),
{
    if value.len() == 0 {
        assert(quoted_chars(value) + rest =~= rest);
        match shell_reads(rest, true) {
            Some(tail) => {
                assert(value + tail =~= tail);
            },
            None => {},
        }
    } else {
        let before = value.drop_last();
        let c = value.last();
        if c == '\'' {
            let mid = seq!['\'', '\\', '\'', '\''] + rest;
            assert(quoted_chars(value) + rest =~= quoted_chars(before) + mid);
            lemma_reads_quoted(before, mid);
            let m1 = mid.skip(1);
            let m3 = m1.skip(2);
            let m4 = m3.skip(1);
            assert(m4 =~= rest);
            assert(m1[0] == '\\' && m1[1] == '\'');
            assert(m3[0] == '\'');
            assert(shell_reads(mid, true) == shell_reads(m1, false));
            assert(shell_reads(m3, false) == shell_reads(rest, true));
        } else {
            let mid = seq![c] + rest;
            assert(quoted_chars(value) + rest =~= quoted_chars(before) + mid);
            lemma_reads_quoted(before, mid);
            assert(mid.skip(1) =~= rest);
        }
        match shell_reads(rest, true) {
            Some(tail) => {
                assert(before + (seq![c] + tail) =~= value + tail);
            },
            None => {},
        }
    }
}

/// A quoted value is inert: the shell reads exactly the value back, as one
/// word, and interprets no character of it.
pub proof fn law_quoted_value_is_inert(value: Seq<char>)
    ensures
        shell_reads(shell_quoted(value), false) == Some(value),
{
    let end = seq!['\''];
    let whole = shell_quoted(value);
    assert(whole.skip(1) =~= quoted_chars(value) + end);
    lemma_reads_quoted(value, end);
    assert(end.skip(1) =~= Seq::empty());
    assert(shell_reads(Seq::empty(), false) == Some(Seq::<char>::empty()));
    assert(shell_reads(end, true) == Some(Seq::<char>::empty()));
    assert(value + Seq::<char>::empty() =~= value);
}

// ---------------------------------------------------------------------
// The environment
// ---------------------------------------------------------------------

/// What a backend settled before a run is started.
#[derive(Debug, PartialEq, Eq)]
pub struct BackendIdentity {
    pub opencode: String,
    /// The slug that the run is launched as: its identity.
    pub agent_stem: String,
    /// The name that the operator sees.
    pub handle: String,
    pub run_log: Option<String>,
    pub run_identity: Option<String>,
    pub control_password: Option<String>,
}

/// The environment of a run.
#[derive(Debug, PartialEq, Eq)]
pub struct LaunchEnvironment {
    pub entries: Vec<(String, String)>,
}

/// Names and values.
pub open spec fn entry_views(v: Seq<(String, String)>) -> Seq<(Seq<char>, Seq<char>)> {
    Seq::new(v.len(), |i: int| (v[i].0@, v[i].1@))
}

/// Entries with one more, where there is a value.
pub open spec fn with_entry(
    v: Seq<(Seq<char>, Seq<char>)>,
    key: Seq<char>,
    value: Option<Seq<char>>,
) -> Seq<(Seq<char>, Seq<char>)> {
    match value {
        Some(value) => v.push((key, value)),
        None => v,
    }
}

/// The environment that a plan comes to, with what its backend settled.
pub open spec fn plan_entries(
    root: Seq<char>,
    plan: PlanView,
    opencode: Seq<char>,
    agent_stem: Seq<char>,
    handle: Seq<char>,
    run_log: Option<Seq<char>>,
    run_identity: Option<Seq<char>>,
    control_password: Option<Seq<char>>,
) -> Seq<(Seq<char>, Seq<char>)> {
    let base = seq![
        ("CORPUS_OPENCODE_BIN"@, opencode),
        ("CORPUS_OPENCODE_AGENT"@, agent_stem),
        ("CORPUS_OPENCODE_HANDLE"@, handle),
        ("CORPUS_PROJECT"@, plan.project),
        ("CORPUS_STORE"@, root),
    ];
    let modelled = with_entry(base, "CORPUS_OPENCODE_MODEL"@, plan.model);
    let pinned = with_entry(modelled, "CORPUS_SOURCE_PINS"@, plan.source_pins_json);
    let housed = with_entry(pinned, "CORPUS_ENVIRONMENT_SESSION"@, plan.environment_session);
    let logged = with_entry(housed, "CORPUS_RUN_LOG"@, run_log);
    let identified = match plan.run_id {
        Some(id) => with_entry(
            logged.push(("CORPUS_MISSION"@, id.mission)),
            "CORPUS_RUN_ID"@,
            run_identity,
        ),
        None => logged,
    };
    with_entry(identified, "OPENCODE_SERVER_PASSWORD"@, control_password)
}

/// Add an entry.
fn put(entries: &mut Vec<(String, String)>, key: &str, value: &str)
    ensures
        entry_views(final(entries)@) == entry_views(old(entries)@).push((key@, value@)),
{
    let ghost was = entry_views(entries@);
    entries.push((key.to_owned(), value.to_owned()));
    assert(entry_views(entries@) =~= was.push((key@, value@)));
}

/// Add an entry where there is a value.
fn put_some(entries: &mut Vec<(String, String)>, key: &str, value: Option<&str>)
    ensures
        entry_views(final(entries)@) == with_entry(
            entry_views(old(entries)@),
            key@,
            text::opt_str(value),
        ),
{
    match value {
        Some(value) => put(entries, key, value),
        None => {},
    }
}

impl LaunchEnvironment {
    /// The environment of the run that `plan` is for.
    pub fn from_plan(store: &Store, plan: &LaunchPlan, backend: &BackendIdentity) -> (r:
        LaunchEnvironment)
        ensures
            entry_views(r.entries@) == plan_entries(
                store@.root,
                plan@,
                backend.opencode@,
                backend.agent_stem@,
                backend.handle@,
                text::opt_text(backend.run_log),
                text::opt_text(backend.run_identity),
                text::opt_text(backend.control_password),
            ),
    {
        let mut entries: Vec<(String, String)> = Vec::new();
        assert(entry_views(entries@) =~= Seq::empty());
        put(&mut entries, "CORPUS_OPENCODE_BIN", backend.opencode.as_str());
        put(&mut entries, layout::AGENT_ENV, backend.agent_stem.as_str());
        put(&mut entries, layout::HANDLE_ENV, backend.handle.as_str());
        put(&mut entries, layout::PROJECT_ENV, plan.project());
        put(&mut entries, layout::STORE_ENV, store.root());
        assert(entry_views(entries@) =~= seq![
            ("CORPUS_OPENCODE_BIN"@, backend.opencode@),
            ("CORPUS_OPENCODE_AGENT"@, backend.agent_stem@),
            ("CORPUS_OPENCODE_HANDLE"@, backend.handle@),
            ("CORPUS_PROJECT"@, plan@.project),
            ("CORPUS_STORE"@, store@.root),
        ]);
        put_some(&mut entries, "CORPUS_OPENCODE_MODEL", plan.model());
        put_some(&mut entries, layout::SOURCE_PINS_ENV, plan.source_pins_json());
        put_some(&mut entries, layout::ENVIRONMENT_SESSION_ENV, plan.environment_session());
        put_some(&mut entries, layout::RUN_LOG_ENV, text::borrowed(&backend.run_log));
        match plan.run_id() {
            Some(id) => {
                put(&mut entries, layout::MISSION_ENV, id.mission.as_str());
                put_some(&mut entries, layout::RUN_ID_ENV, text::borrowed(&backend.run_identity));
            },
            None => {},
        }
        put_some(&mut entries, "OPENCODE_SERVER_PASSWORD", text::borrowed(&backend.control_password));
        LaunchEnvironment { entries }
    }
}

// ---------------------------------------------------------------------
// Arguments
// ---------------------------------------------------------------------

/// The arguments of a piped run.
pub open spec fn run_args(handle: Seq<char>, plan: PlanView) -> Seq<Seq<char>> {
    let base = seq!["run"@, "--agent"@, handle];
    let modelled = match plan.model {
        Some(m) => base.push("-m"@).push(m),
        None => base,
    };
    if text::trimmed(plan.mission).len() == 0 {
        modelled
    } else {
        modelled.push(plan.mission)
    }
}

/// The arguments of a piped run of the agent known as `handle`.
pub fn opencode_args(handle: &str, plan: &LaunchPlan) -> (r: Vec<String>)
    ensures
        text::texts(r@) == run_args(handle@, plan@),
{
    let mut out: Vec<String> = Vec::new();
    out.push("run".to_owned());
    out.push("--agent".to_owned());
    out.push(handle.to_owned());
    assert(text::texts(out@) =~= seq!["run"@, "--agent"@, handle@]);
    match plan.model() {
        Some(m) => {
            let ghost was = text::texts(out@);
            out.push("-m".to_owned());
            out.push(m.to_owned());
            assert(text::texts(out@) =~= was.push("-m"@).push(m@));
        },
        None => {},
    }
    if !text::trim(plan.mission()).as_str().is_empty() {
        let ghost was = text::texts(out@);
        out.push(plan.mission().to_owned());
        assert(text::texts(out@) =~= was.push(plan@.mission));
    }
    out
}

// ---------------------------------------------------------------------
// The script
// ---------------------------------------------------------------------

/// The lines that export the first `n` entries.
pub open spec fn exports(v: Seq<(Seq<char>, Seq<char>)>, n: nat) -> Seq<char>
    decreases n,
{
    if n == 0 {
        Seq::empty()
    } else {
        exports(v, (n - 1) as nat) + "export "@ + v[n - 1].0 + "="@ + shell_quoted(v[n - 1].1)
            + "\n"@
    }
}

/// The command line that the script ends with.
pub open spec fn exec_line(
    prompt: Option<Seq<char>>,
    resume: Option<Seq<char>>,
    control_port: Option<u16>,
) -> Seq<char> {
    let base =
        "\"$CORPUS_OPENCODE_BIN\" --agent \"$CORPUS_OPENCODE_HANDLE\" --model \"$CORPUS_OPENCODE_MODEL\""@;
    let ported = match control_port {
        Some(port) => base + " --hostname 127.0.0.1 --port "@ + text::decimal(port as nat),
        None => base,
    };
    let resumed = match resume {
        Some(id) => ported + " --session "@ + shell_quoted(id),
        None => ported,
    };
    match prompt {
        Some(prompt) => resumed + " --prompt "@ + shell_quoted(prompt),
        None => resumed,
    }
}

/// The script that a detached terminal runs. Every value that is not fixed is
/// quoted.
pub open spec fn script_text(
    params: Seq<(Seq<char>, Seq<char>)>,
    prompt: Option<Seq<char>>,
    resume: Option<Seq<char>>,
    control_port: Option<u16>,
) -> Seq<char> {
    "#!/bin/sh\n"@ + exports(params, params.len()) + "exec "@ + exec_line(
        prompt,
        resume,
        control_port,
    ) + "\n"@
}

/// The command line that the script ends with.
fn build_exec_line(prompt: Option<&str>, resume: Option<&str>, control_port: Option<u16>) -> (r:
    String)
    ensures
        r@ == exec_line(text::opt_str(prompt), text::opt_str(resume), control_port),
{
    let mut out =
        "\"$CORPUS_OPENCODE_BIN\" --agent \"$CORPUS_OPENCODE_HANDLE\" --model \"$CORPUS_OPENCODE_MODEL\"".to_owned();
    match control_port {
        Some(port) => {
            out.append(" --hostname 127.0.0.1 --port ");
            out.append(text::decimal_of(port as u64).as_str());
        },
        None => {},
    }
    match resume {
        Some(id) => {
            out.append(" --session ");
            out.append(shell_quote(id).as_str());
        },
        None => {},
    }
    match prompt {
        Some(prompt) => {
            out.append(" --prompt ");
            out.append(shell_quote(prompt).as_str());
        },
        None => {},
    }
    out
}

/// The script that a detached terminal runs, with the environment `params`.
pub fn tui_script(
    params: &Vec<(String, String)>,
    prompt: Option<&str>,
    resume: Option<&str>,
    control_port: Option<u16>,
) -> (r: String)
    ensures
        r@ == script_text(
            entry_views(params@),
            text::opt_str(prompt),
            text::opt_str(resume),
            control_port,
        ),
{
    let ghost views = entry_views(params@);
    let mut lines = String::new();
    let mut i: usize = 0;
    assert(lines@ =~= exports(views, 0));
    while i < params.len()
        invariant
            i <= params@.len(),
            views == entry_views(params@),
            lines@ == exports(views, i as nat),
        decreases params@.len() - i,
    {
        assert(views[i as int] == (params@[i as int].0@, params@[i as int].1@));
        lines.append("export ");
        lines.append(params[i].0.as_str());
        lines.append("=");
        lines.append(shell_quote(params[i].1.as_str()).as_str());
        lines.append("\n");
        i = i + 1;
    }
    assert(views.len() == params@.len());
    text::cat5(
        "#!/bin/sh\n",
        lines.as_str(),
        "exec ",
        build_exec_line(prompt, resume, control_port).as_str(),
        "\n",
    )
}

// ---------------------------------------------------------------------
// Laws
// ---------------------------------------------------------------------

/// Every run, however it is started, carries who it was launched as: the tool
/// server resolves its role from that.
pub proof fn law_environment_carries_identity(
    root: Seq<char>,
    plan: PlanView,
    opencode: Seq<char>,
    agent_stem: Seq<char>,
    handle: Seq<char>,
    run_log: Option<Seq<char>>,
    run_identity: Option<Seq<char>>,
    control_password: Option<Seq<char>>,
)
    ensures
        ({
            let entries = plan_entries(
                root,
                plan,
                opencode,
                agent_stem,
                handle,
                run_log,
                run_identity,
                control_password,
            );
            &&& entries.contains(("CORPUS_OPENCODE_AGENT"@, agent_stem))
            &&& entries.contains(("CORPUS_PROJECT"@, plan.project))
            &&& entries.contains(("CORPUS_STORE"@, root))
            &&& plan.run_id matches Some(id) ==> entries.contains(
                ("CORPUS_MISSION"@, id.mission),
            )
        }),
{
    let entries = plan_entries(
        root,
        plan,
        opencode,
        agent_stem,
        handle,
        run_log,
        run_identity,
        control_password,
    );
    assert(entries[1] == ("CORPUS_OPENCODE_AGENT"@, agent_stem));
    assert(entries[3] == ("CORPUS_PROJECT"@, plan.project));
    assert(entries[4] == ("CORPUS_STORE"@, root));
    match plan.run_id {
        Some(id) => {
            let n = 5 + present(plan.model) + present(plan.source_pins_json) + present(
                plan.environment_session,
            ) + present(run_log);
            assert(entries[n] == ("CORPUS_MISSION"@, id.mission));
        },
        None => {},
    }
}

/// How many entries an optional value makes.
spec fn present(value: Option<Seq<char>>) -> int {
    if value is Some {
        1
    } else {
        0
    }
}

} // verus!
