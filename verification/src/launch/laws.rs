//! What a launch is for: that what was planned is what is started, watched and
//! kept.
use vstd::prelude::*;
use crate::agents::document;
use crate::agents::handles;
use crate::agents::sidecar::AgentView;
use crate::environment_session::SessionIdView;
use crate::error;
use crate::error::ErrorView;
use crate::json;
use crate::json::JsonView;
use crate::launch::activity;
use crate::launch::activity::{MissionActivity, MissionRunState};
use crate::launch::command;
use crate::launch::executables;
use crate::launch::plan;
use crate::launch::plan::{ModeView, PlanView};
use crate::launch::policy;
use crate::launch::process;
use crate::launch::process::CleanupStep;
use crate::launch::session;
use crate::launch::session::{BackendView, LookupView, NeedView, RunView};
use crate::launch::start;
use crate::launch::start::{NamesView, PipedLogView, Route, TuiInputs};
use crate::launch::tmux;
use crate::launch::tmux::Started;
use crate::launch::transcript;
use crate::launch::transcript::{ExportActionView, ExportEventView, RecordView};
use crate::models;
use crate::models::{ModelEntry, ModelRegistry};
use crate::path;
use crate::store::layout;
use crate::store::naming;
use crate::table;
use crate::text;
use crate::text::Runs;

verus! {

// ---------------------------------------------------------------------
// The environment
// ---------------------------------------------------------------------

/// Entries hold one value under a name, just that one, or none.
pub open spec fn holds_only(
    entries: Seq<(Seq<char>, Seq<char>)>,
    key: Seq<char>,
    value: Option<Seq<char>>,
) -> bool {
    &&& forall|i: int|
        0 <= i < entries.len() && (#[trigger] entries[i]).0 == key ==> value == Some(entries[i].1)
    &&& forall|i: int, j: int|
        0 <= i < j < entries.len() && (#[trigger] entries[i]).0 == key ==> (#[trigger] entries[j]).0
            != key
    &&& value is Some ==> exists|i: int|
        0 <= i < entries.len() && (#[trigger] entries[i]) == (key, value->Some_0)
}

proof fn lemma_with_entry(
    v: Seq<(Seq<char>, Seq<char>)>,
    name: Seq<char>,
    given: Option<Seq<char>>,
    key: Seq<char>,
    value: Option<Seq<char>>,
)
    requires
        holds_only(v, key, value),
        name == key ==> value is None,
    ensures
        holds_only(
            command::with_entry(v, name, given),
            key,
            if name == key {
                given
            } else {
                value
            },
        ),
{
    let w = command::with_entry(v, name, given);
    let after = if name == key {
        given
    } else {
        value
    };
    match given {
        Some(x) => {
            assert forall|i: int| 0 <= i < w.len() && (#[trigger] w[i]).0 == key implies after == Some(
                w[i].1,
            ) by {
                if i < v.len() {
                    assert(w[i] == v[i]);
                }
            }
            assert forall|i: int, j: int|
                0 <= i < j < w.len() && (#[trigger] w[i]).0 == key implies (#[trigger] w[j]).0 != key by {
                assert(w[i] == v[i]);
                if j < v.len() {
                    assert(w[j] == v[j]);
                }
            }
            if name == key {
                assert(w[v.len() as int] == (key, x));
            } else if value is Some {
                let i = choose|i: int| 0 <= i < v.len() && (#[trigger] v[i]) == (key, value->Some_0);
                assert(w[i] == (key, value->Some_0));
            }
        },
        None => {},
    }
}

/// The names that a run's environment uses are all different.
proof fn lemma_names_differ()
    ensures
        "CORPUS_OPENCODE_BIN"@.len() == 19,
        "CORPUS_OPENCODE_AGENT"@.len() == 21,
        "CORPUS_OPENCODE_HANDLE"@.len() == 22,
        "CORPUS_PROJECT"@.len() == 14,
        "CORPUS_STORE"@.len() == 12,
        "CORPUS_OPENCODE_MODEL"@.len() == 21,
        "CORPUS_SOURCE_PINS"@.len() == 18,
        "CORPUS_ENVIRONMENT_SESSION"@.len() == 26,
        "CORPUS_RUN_LOG"@.len() == 14,
        "CORPUS_MISSION"@.len() == 14,
        "CORPUS_RUN_ID"@.len() == 13,
        "OPENCODE_SERVER_PASSWORD"@.len() == 24,
        "CORPUS_OPENCODE_AGENT"@ != "CORPUS_OPENCODE_MODEL"@,
        "CORPUS_PROJECT"@ != "CORPUS_RUN_LOG"@,
        "CORPUS_PROJECT"@ != "CORPUS_MISSION"@,
        "CORPUS_RUN_LOG"@ != "CORPUS_MISSION"@,
{
    reveal_strlit("CORPUS_OPENCODE_BIN");
    reveal_strlit("CORPUS_OPENCODE_AGENT");
    reveal_strlit("CORPUS_OPENCODE_HANDLE");
    reveal_strlit("CORPUS_PROJECT");
    reveal_strlit("CORPUS_STORE");
    reveal_strlit("CORPUS_OPENCODE_MODEL");
    reveal_strlit("CORPUS_SOURCE_PINS");
    reveal_strlit("CORPUS_ENVIRONMENT_SESSION");
    reveal_strlit("CORPUS_RUN_LOG");
    reveal_strlit("CORPUS_MISSION");
    reveal_strlit("CORPUS_RUN_ID");
    reveal_strlit("OPENCODE_SERVER_PASSWORD");
    assert("CORPUS_OPENCODE_AGENT"@[16] == 'A' && "CORPUS_OPENCODE_MODEL"@[16] == 'M');
    assert("CORPUS_PROJECT"@[7] == 'P' && "CORPUS_RUN_LOG"@[7] == 'R' && "CORPUS_MISSION"@[7]
        == 'M');
}

/// What the environment of a run holds under one name, followed through.
proof fn lemma_environment(
    root: Seq<char>,
    plan: PlanView,
    opencode: Seq<char>,
    agent_stem: Seq<char>,
    handle: Seq<char>,
    run_log: Option<Seq<char>>,
    run_identity: Option<Seq<char>>,
    control_password: Option<Seq<char>>,
    key: Seq<char>,
) -> (value: Option<Seq<char>>)
    ensures
        holds_only(
            command::plan_entries(
                root,
                plan,
                opencode,
                agent_stem,
                handle,
                run_log,
                run_identity,
                control_password,
            ),
            key,
            value,
        ),
        key == "CORPUS_OPENCODE_BIN"@ ==> value == Some(opencode),
        key == "CORPUS_OPENCODE_AGENT"@ ==> value == Some(agent_stem),
        key == "CORPUS_OPENCODE_HANDLE"@ ==> value == Some(handle),
        key == "CORPUS_PROJECT"@ ==> value == Some(plan.project),
        key == "CORPUS_STORE"@ ==> value == Some(root),
        key == "CORPUS_OPENCODE_MODEL"@ ==> value == plan.model,
        key == "CORPUS_SOURCE_PINS"@ ==> value == plan.source_pins_json,
        key == "CORPUS_ENVIRONMENT_SESSION"@ ==> value == plan.environment_session,
        key == "CORPUS_RUN_LOG"@ ==> value == run_log,
        key == "CORPUS_MISSION"@ && plan.run_id is Some ==> value == Some(
            plan.run_id->Some_0.mission,
        ),
        key == "CORPUS_MISSION"@ && plan.run_id is None ==> value is None,
        key == "CORPUS_RUN_ID"@ && plan.run_id is Some ==> value == run_identity,
        key == "CORPUS_RUN_ID"@ && plan.run_id is None ==> value is None,
        key == "OPENCODE_SERVER_PASSWORD"@ ==> value == control_password,
{
    lemma_names_differ();
    let none = Seq::<(Seq<char>, Seq<char>)>::empty();
    let b1 = command::with_entry(none, "CORPUS_OPENCODE_BIN"@, Some(opencode));
    let b2 = command::with_entry(b1, "CORPUS_OPENCODE_AGENT"@, Some(agent_stem));
    let b3 = command::with_entry(b2, "CORPUS_OPENCODE_HANDLE"@, Some(handle));
    let b4 = command::with_entry(b3, "CORPUS_PROJECT"@, Some(plan.project));
    let b5 = command::with_entry(b4, "CORPUS_STORE"@, Some(root));
    let v0: Option<Seq<char>> = None;
    lemma_with_entry(none, "CORPUS_OPENCODE_BIN"@, Some(opencode), key, v0);
    let v1 = if key == "CORPUS_OPENCODE_BIN"@ { Some(opencode) } else { v0 };
    lemma_with_entry(b1, "CORPUS_OPENCODE_AGENT"@, Some(agent_stem), key, v1);
    let v2 = if key == "CORPUS_OPENCODE_AGENT"@ { Some(agent_stem) } else { v1 };
    lemma_with_entry(b2, "CORPUS_OPENCODE_HANDLE"@, Some(handle), key, v2);
    let v3 = if key == "CORPUS_OPENCODE_HANDLE"@ { Some(handle) } else { v2 };
    lemma_with_entry(b3, "CORPUS_PROJECT"@, Some(plan.project), key, v3);
    let v4 = if key == "CORPUS_PROJECT"@ { Some(plan.project) } else { v3 };
    lemma_with_entry(b4, "CORPUS_STORE"@, Some(root), key, v4);
    let v5 = if key == "CORPUS_STORE"@ { Some(root) } else { v4 };
    assert(b5 =~= seq![
        ("CORPUS_OPENCODE_BIN"@, opencode),
        ("CORPUS_OPENCODE_AGENT"@, agent_stem),
        ("CORPUS_OPENCODE_HANDLE"@, handle),
        ("CORPUS_PROJECT"@, plan.project),
        ("CORPUS_STORE"@, root),
    ]);
    let b6 = command::with_entry(b5, "CORPUS_OPENCODE_MODEL"@, plan.model);
    lemma_with_entry(b5, "CORPUS_OPENCODE_MODEL"@, plan.model, key, v5);
    let v6 = if key == "CORPUS_OPENCODE_MODEL"@ { plan.model } else { v5 };
    let b7 = command::with_entry(b6, "CORPUS_SOURCE_PINS"@, plan.source_pins_json);
    lemma_with_entry(b6, "CORPUS_SOURCE_PINS"@, plan.source_pins_json, key, v6);
    let v7 = if key == "CORPUS_SOURCE_PINS"@ { plan.source_pins_json } else { v6 };
    let b8 = command::with_entry(b7, "CORPUS_ENVIRONMENT_SESSION"@, plan.environment_session);
    lemma_with_entry(b7, "CORPUS_ENVIRONMENT_SESSION"@, plan.environment_session, key, v7);
    let v8 = if key == "CORPUS_ENVIRONMENT_SESSION"@ { plan.environment_session } else { v7 };
    let b9 = command::with_entry(b8, "CORPUS_RUN_LOG"@, run_log);
    lemma_with_entry(b8, "CORPUS_RUN_LOG"@, run_log, key, v8);
    let v9 = if key == "CORPUS_RUN_LOG"@ { run_log } else { v8 };
    match plan.run_id {
        Some(id) => {
            let b10 = command::with_entry(b9, "CORPUS_MISSION"@, Some(id.mission));
            lemma_with_entry(b9, "CORPUS_MISSION"@, Some(id.mission), key, v9);
            let v10 = if key == "CORPUS_MISSION"@ { Some(id.mission) } else { v9 };
            let b11 = command::with_entry(b10, "CORPUS_RUN_ID"@, run_identity);
            lemma_with_entry(b10, "CORPUS_RUN_ID"@, run_identity, key, v10);
            let v11 = if key == "CORPUS_RUN_ID"@ { run_identity } else { v10 };
            lemma_with_entry(b11, "OPENCODE_SERVER_PASSWORD"@, control_password, key, v11);
            if key == "OPENCODE_SERVER_PASSWORD"@ { control_password } else { v11 }
        },
        None => {
            lemma_with_entry(b9, "OPENCODE_SERVER_PASSWORD"@, control_password, key, v9);
            if key == "OPENCODE_SERVER_PASSWORD"@ { control_password } else { v9 }
        },
    }
}

/// The environment of a run says what was planned, and says it once: the
/// program, the agent, its handle, the project, the store, the model, the
/// pins, the environment session, the log, the mission, the run and the
/// secret, each under its own name; what there is none of is not mentioned.
pub proof fn law_environment_says_what_was_planned(
    root: Seq<char>,
    plan: PlanView,
    opencode: Seq<char>,
    agent_stem: Seq<char>,
    handle: Seq<char>,
    run_log: Option<Seq<char>>,
    run_identity: Option<Seq<char>>,
    control_password: Option<Seq<char>>,
)
    ensures
        ({
            let entries = command::plan_entries(
                root,
                plan,
                opencode,
                agent_stem,
                handle,
                run_log,
                run_identity,
                control_password,
            );
            &&& holds_only(entries, "CORPUS_OPENCODE_BIN"@, Some(opencode))
            &&& holds_only(entries, "CORPUS_OPENCODE_AGENT"@, Some(agent_stem))
            &&& holds_only(entries, "CORPUS_OPENCODE_HANDLE"@, Some(handle))
            &&& holds_only(entries, "CORPUS_PROJECT"@, Some(plan.project))
            &&& holds_only(entries, "CORPUS_STORE"@, Some(root))
            &&& holds_only(entries, "CORPUS_OPENCODE_MODEL"@, plan.model)
            &&& holds_only(entries, "CORPUS_SOURCE_PINS"@, plan.source_pins_json)
            &&& holds_only(entries, "CORPUS_ENVIRONMENT_SESSION"@, plan.environment_session)
            &&& holds_only(entries, "CORPUS_RUN_LOG"@, run_log)
            &&& plan.run_id matches Some(id) ==> holds_only(
                entries,
                "CORPUS_MISSION"@,
                Some(id.mission),
            ) && holds_only(entries, "CORPUS_RUN_ID"@, run_identity)
            &&& plan.run_id is None ==> holds_only(entries, "CORPUS_MISSION"@, None) && holds_only(
                entries,
                "CORPUS_RUN_ID"@,
                None,
            )
            &&& holds_only(entries, "OPENCODE_SERVER_PASSWORD"@, control_password)
        }),
{
    let a = lemma_environment(root, plan, opencode, agent_stem, handle, run_log, run_identity, control_password, "CORPUS_OPENCODE_BIN"@);
    let b = lemma_environment(root, plan, opencode, agent_stem, handle, run_log, run_identity, control_password, "CORPUS_OPENCODE_AGENT"@);
    let c = lemma_environment(root, plan, opencode, agent_stem, handle, run_log, run_identity, control_password, "CORPUS_OPENCODE_HANDLE"@);
    let d = lemma_environment(root, plan, opencode, agent_stem, handle, run_log, run_identity, control_password, "CORPUS_PROJECT"@);
    let e = lemma_environment(root, plan, opencode, agent_stem, handle, run_log, run_identity, control_password, "CORPUS_STORE"@);
    let f = lemma_environment(root, plan, opencode, agent_stem, handle, run_log, run_identity, control_password, "CORPUS_OPENCODE_MODEL"@);
    let g = lemma_environment(root, plan, opencode, agent_stem, handle, run_log, run_identity, control_password, "CORPUS_SOURCE_PINS"@);
    let h = lemma_environment(root, plan, opencode, agent_stem, handle, run_log, run_identity, control_password, "CORPUS_ENVIRONMENT_SESSION"@);
    let i = lemma_environment(root, plan, opencode, agent_stem, handle, run_log, run_identity, control_password, "CORPUS_RUN_LOG"@);
    let j = lemma_environment(root, plan, opencode, agent_stem, handle, run_log, run_identity, control_password, "CORPUS_MISSION"@);
    let k = lemma_environment(root, plan, opencode, agent_stem, handle, run_log, run_identity, control_password, "CORPUS_RUN_ID"@);
    let l = lemma_environment(root, plan, opencode, agent_stem, handle, run_log, run_identity, control_password, "OPENCODE_SERVER_PASSWORD"@);
}

/// A run in a terminal is known by its session and writes to its capture; the
/// environment says so.
pub proof fn law_terminal_runs_know_themselves(
    root: Seq<char>,
    plan: PlanView,
    names: NamesView,
    opencode: Seq<char>,
    handle: Seq<char>,
    password: Option<Seq<char>>,
)
    ensures
        ({
            let entries = start::tui_entries(root, plan, names, opencode, handle, password);
            &&& holds_only(entries, "CORPUS_OPENCODE_BIN"@, Some(opencode))
            &&& holds_only(entries, "CORPUS_OPENCODE_AGENT"@, Some(names.agent_stem))
            &&& holds_only(entries, "CORPUS_OPENCODE_HANDLE"@, Some(handle))
            &&& holds_only(entries, "CORPUS_OPENCODE_MODEL"@, plan.model)
            &&& holds_only(entries, "OPENCODE_SERVER_PASSWORD"@, password)
            &&& path::file_name_of(names.raw) is Some ==> holds_only(
                entries,
                "CORPUS_RUN_LOG"@,
                path::file_name_of(names.raw),
            )
            &&& plan.run_id is Some ==> holds_only(
                entries,
                "CORPUS_RUN_ID"@,
                Some(names.session),
            )
        }),
{
    law_environment_says_what_was_planned(
        root,
        plan,
        opencode,
        names.agent_stem,
        handle,
        Some(start::name_or_empty(names.raw)),
        Some(names.session),
        password,
    );
}

// ---------------------------------------------------------------------
// Arguments and scripts
// ---------------------------------------------------------------------

/// A word stands directly behind another among arguments.
pub open spec fn follows(args: Seq<Seq<char>>, flag: Seq<char>, value: Seq<char>) -> bool {
    exists|i: int| 0 <= i < args.len() - 1 && #[trigger] args[i] == flag && args[i + 1] == value
}

/// A piped run names its agent by its handle, its model where it has one, and
/// its mission last, where that says anything.
pub proof fn law_arguments_say_what_was_planned(handle: Seq<char>, plan: PlanView)
    ensures
        ({
            let args = command::run_args(handle, plan);
            &&& args.len() >= 3
            &&& args[0] == "run"@
            &&& args[1] == "--agent"@ && args[2] == handle
            &&& plan.model matches Some(m) ==> args.len() >= 5 && args[3] == "-m"@ && args[4] == m
            &&& !text::all_white(plan.mission) ==> args.last() == plan.mission
            &&& args.len() == 3 + (if plan.model is Some {
                2int
            } else {
                0
            }) + (if text::all_white(plan.mission) {
                0int
            } else {
                1
            })
        }),
{
    text::law_trimming_takes_only_white_space(plan.mission);
}

/// A line that is put together behind a text is behind it as a whole.
proof fn lemma_line(
    before: Seq<char>,
    a: Seq<char>,
    b: Seq<char>,
    c: Seq<char>,
    d: Seq<char>,
    e: Seq<char>,
)
    ensures
        before + a + b + c + d + e == before + (a + b + c + d + e),
{
    assert(before + a + b + c + d + e =~= before + (a + b + c + d + e));
}

/// The line that exports one entry.
pub open spec fn export_line(entry: (Seq<char>, Seq<char>)) -> Seq<char> {
    "export "@ + entry.0 + "="@ + command::shell_quoted(entry.1) + "\n"@
}

proof fn lemma_exports(v: Seq<(Seq<char>, Seq<char>)>, n: nat, i: int)
    requires
        0 <= i < n <= v.len(),
    ensures
        text::contains(command::exports(v, n), export_line(v[i])),
    decreases n,
{
    let before = command::exports(v, (n - 1) as nat);
    let none = Seq::<char>::empty();
    let more = export_line(v[n - 1]);
    lemma_line(
        before,
        "export "@,
        v[n - 1].0,
        "="@,
        command::shell_quoted(v[n - 1].1),
        "\n"@,
    );
    assert(command::exports(v, n) == before + more);
    if i == n - 1 {
        text::lemma_contains_middle(before, more, none);
        assert(before + more + none =~= before + more);
    } else {
        lemma_exports(v, (n - 1) as nat, i);
        text::lemma_contains_wider(none, before, more, export_line(v[i]));
        assert(none + before + more =~= before + more);
    }
}

/// The script of a run exports every entry of its environment, and the shell
/// reads each value back as it is.
pub proof fn law_script_exports_the_environment(
    params: Seq<(Seq<char>, Seq<char>)>,
    prompt: Option<Seq<char>>,
    resume: Option<Seq<char>>,
    control_port: Option<u16>,
    i: int,
)
    requires
        0 <= i < params.len(),
    ensures
        text::contains(
            command::script_text(params, prompt, resume, control_port),
            export_line(params[i]),
        ),
        command::shell_reads(command::shell_quoted(params[i].1), false) == Some(params[i].1),
{
    lemma_exports(params, params.len(), i);
    command::law_quoted_value_is_inert(params[i].1);
    let all = command::exports(params, params.len());
    let line = export_line(params[i]);
    let end = command::exec_line(prompt, resume, control_port);
    text::lemma_contains_wider("#!/bin/sh\n"@, all, "exec "@ + end + "\n"@, line);
    lemma_tail("#!/bin/sh\n"@ + all, "exec "@, end, "\n"@);
}

proof fn lemma_tail(before: Seq<char>, a: Seq<char>, b: Seq<char>, c: Seq<char>)
    ensures
        before + a + b + c == before + (a + b + c),
{
    assert(before + a + b + c =~= before + (a + b + c));
}

/// The command that a script ends with passes on the handle and the model of
/// the environment, the port, the conversation that is resumed and the prompt,
/// each as the shell reads it back.
pub proof fn law_script_passes_what_was_planned(
    params: Seq<(Seq<char>, Seq<char>)>,
    prompt: Option<Seq<char>>,
    resume: Option<Seq<char>>,
    control_port: Option<u16>,
)
    ensures
        ({
            let script = command::script_text(params, prompt, resume, control_port);
            &&& "#!/bin/sh\n"@.is_prefix_of(script)
            &&& text::contains(script, " --agent \"$CORPUS_OPENCODE_HANDLE\""@)
            &&& text::contains(script, " --model \"$CORPUS_OPENCODE_MODEL\""@)
            &&& text::contains(script, "exec \"$CORPUS_OPENCODE_BIN\""@)
            &&& prompt matches Some(p) ==> text::contains(
                script,
                " --prompt "@ + command::shell_quoted(p),
            )
            &&& resume matches Some(id) ==> text::contains(
                script,
                " --session "@ + command::shell_quoted(id),
            )
            &&& control_port matches Some(port) ==> text::contains(
                script,
                " --hostname 127.0.0.1 --port "@ + text::decimal(port as nat),
            )
        }),
{
    let script = command::script_text(params, prompt, resume, control_port);
    let all = command::exports(params, params.len());
    let begin = "#!/bin/sh\n"@;
    let line = command::exec_line(prompt, resume, control_port);
    let base =
        "\"$CORPUS_OPENCODE_BIN\" --agent \"$CORPUS_OPENCODE_HANDLE\" --model \"$CORPUS_OPENCODE_MODEL\""@;
    let port_part = match control_port {
        Some(port) => " --hostname 127.0.0.1 --port "@ + text::decimal(port as nat),
        None => Seq::empty(),
    };
    let session_part = match resume {
        Some(id) => " --session "@ + command::shell_quoted(id),
        None => Seq::empty(),
    };
    let prompt_part = match prompt {
        Some(p) => " --prompt "@ + command::shell_quoted(p),
        None => Seq::empty(),
    };
    assert(line == base + port_part + session_part + prompt_part) by {
        let ported = base + port_part;
        assert(base + Seq::<char>::empty() =~= base);
        match control_port {
            Some(port) => {
                assert(base + " --hostname 127.0.0.1 --port "@ + text::decimal(port as nat) =~= ported);
            },
            None => {},
        }
        let resumed = ported + session_part;
        assert(ported + Seq::<char>::empty() =~= ported);
        match resume {
            Some(id) => {
                assert(ported + " --session "@ + command::shell_quoted(id) =~= resumed);
            },
            None => {},
        }
        assert(resumed + Seq::<char>::empty() =~= resumed);
        match prompt {
            Some(p) => {
                assert(resumed + " --prompt "@ + command::shell_quoted(p) =~= resumed + prompt_part);
            },
            None => {},
        }
    }
    lemma_script_parts(begin, all, "exec "@, base, port_part, session_part, prompt_part, "\n"@);
    lemma_base_parts();
    let bin = "exec \"$CORPUS_OPENCODE_BIN\""@;
    let agent = " --agent \"$CORPUS_OPENCODE_HANDLE\""@;
    let model = " --model \"$CORPUS_OPENCODE_MODEL\""@;
    let rest = port_part + session_part + prompt_part + "\n"@;
    text::lemma_contains_wider(begin + all, "exec "@ + base, rest, bin);
    text::lemma_contains_wider(begin + all, "exec "@ + base, rest, agent);
    text::lemma_contains_wider(begin + all, "exec "@ + base, rest, model);
}

/// Where the parts of a script stand in it.
proof fn lemma_script_parts(
    begin: Seq<char>,
    all: Seq<char>,
    word: Seq<char>,
    base: Seq<char>,
    port: Seq<char>,
    session: Seq<char>,
    prompt: Seq<char>,
    end: Seq<char>,
)
    ensures
        ({
            let script = begin + all + word + (base + port + session + prompt) + end;
            &&& begin.is_prefix_of(script)
            &&& script == begin + all + (word + base) + (port + session + prompt + end)
            &&& text::contains(script, port)
            &&& text::contains(script, session)
            &&& text::contains(script, prompt)
        }),
{
    let script = begin + all + word + (base + port + session + prompt) + end;
    assert(begin =~= script.subrange(0, begin.len() as int));
    assert(script =~= begin + all + (word + base) + (port + session + prompt + end));
    let front = begin + all + word + base;
    assert(script =~= front + port + (session + prompt + end));
    text::lemma_contains_middle(front, port, session + prompt + end);
    assert(script =~= (front + port) + session + (prompt + end));
    text::lemma_contains_middle(front + port, session, prompt + end);
    assert(script =~= (front + port + session) + prompt + end);
    text::lemma_contains_middle(front + port + session, prompt, end);
}

/// The fixed part of the command names the program, the agent and the model.
proof fn lemma_base_parts()
    ensures
        ({
            let start = "exec "@
                + "\"$CORPUS_OPENCODE_BIN\" --agent \"$CORPUS_OPENCODE_HANDLE\" --model \"$CORPUS_OPENCODE_MODEL\""@;
            &&& text::contains(start, "exec \"$CORPUS_OPENCODE_BIN\""@)
            &&& text::contains(start, " --agent \"$CORPUS_OPENCODE_HANDLE\""@)
            &&& text::contains(start, " --model \"$CORPUS_OPENCODE_MODEL\""@)
        }),
{
    reveal_strlit("\"$CORPUS_OPENCODE_BIN\" --agent \"$CORPUS_OPENCODE_HANDLE\" --model \"$CORPUS_OPENCODE_MODEL\"");
    reveal_strlit(" --agent \"$CORPUS_OPENCODE_HANDLE\"");
    reveal_strlit(" --model \"$CORPUS_OPENCODE_MODEL\"");
    reveal_strlit("exec \"$CORPUS_OPENCODE_BIN\"");
    reveal_strlit("exec ");
    let start = "exec "@
        + "\"$CORPUS_OPENCODE_BIN\" --agent \"$CORPUS_OPENCODE_HANDLE\" --model \"$CORPUS_OPENCODE_MODEL\""@;
    let bin = "exec \"$CORPUS_OPENCODE_BIN\""@;
    let agent = " --agent \"$CORPUS_OPENCODE_HANDLE\""@;
    let model = " --model \"$CORPUS_OPENCODE_MODEL\""@;
    assert(bin.len() == 27 && agent.len() == 34 && model.len() == 33 && start.len() == 94);
    assert(start.subrange(0, 27) =~= bin);
    assert(start.subrange(27, 61) =~= agent);
    assert(start.subrange(61, 94) =~= model);
    assert(text::occurs_at(start, bin, 0));
    assert(text::occurs_at(start, agent, 27));
    assert(text::occurs_at(start, model, 61));
}

/// Quoted values differ where the values do.
proof fn lemma_quoted_differ(a: Seq<char>, b: Seq<char>)
    requires
        a != b,
    ensures
        command::shell_quoted(a) != command::shell_quoted(b),
{
    command::law_quoted_value_is_inert(a);
    command::law_quoted_value_is_inert(b);
}

/// Scripts differ where their prompts do, and where the conversations do that
/// they resume; a script without a prompt, or that resumes nothing, is another
/// than one with.
pub proof fn law_scripts_differ(
    params: Seq<(Seq<char>, Seq<char>)>,
    a: Seq<char>,
    b: Seq<char>,
    resume: Option<Seq<char>>,
    port: Option<u16>,
)
    ensures
        a != b ==> command::script_text(params, Some(a), resume, port) != command::script_text(
            params,
            Some(b),
            resume,
            port,
        ),
        a != b ==> command::script_text(params, None, Some(a), port) != command::script_text(
            params,
            None,
            Some(b),
            port,
        ),
        command::script_text(params, Some(a), resume, port) != command::script_text(
            params,
            None,
            resume,
            port,
        ),
        command::script_text(params, None, Some(a), port) != command::script_text(
            params,
            None,
            None,
            port,
        ),
{
    let head = "#!/bin/sh\n"@ + command::exports(params, params.len()) + "exec "@;
    if a != b {
        lemma_quoted_differ(a, b);
        let with = command::exec_line(None, resume, port) + " --prompt "@;
        text::lemma_middles_differ(
            head + with,
            command::shell_quoted(a),
            command::shell_quoted(b),
            "\n"@,
        );
        assert(head + with + command::shell_quoted(a) + "\n"@ =~= command::script_text(
            params,
            Some(a),
            resume,
            port,
        ));
        assert(head + with + command::shell_quoted(b) + "\n"@ =~= command::script_text(
            params,
            Some(b),
            resume,
            port,
        ));
        let taking = command::exec_line(None, None, port) + " --session "@;
        text::lemma_middles_differ(
            head + taking,
            command::shell_quoted(a),
            command::shell_quoted(b),
            "\n"@,
        );
        assert(head + taking + command::shell_quoted(a) + "\n"@ =~= command::script_text(
            params,
            None,
            Some(a),
            port,
        ));
        assert(head + taking + command::shell_quoted(b) + "\n"@ =~= command::script_text(
            params,
            None,
            Some(b),
            port,
        ));
    }
    assert(command::script_text(params, Some(a), resume, port).len() > command::script_text(
        params,
        None,
        resume,
        port,
    ).len());
    assert(command::script_text(params, None, Some(a), port).len() > command::script_text(
        params,
        None,
        None,
        port,
    ).len());
}

// ---------------------------------------------------------------------
// Names and routes
// ---------------------------------------------------------------------

/// A launch goes to a terminal where there is one and it is asked for, and is
/// piped otherwise; what cannot be resumed is refused.
pub proof fn law_launches_go_where_they_belong(session_id: Seq<char>, append_to: Option<Seq<char>>)
    ensures
        start::route_of(ModeView::Interactive, true) == Ok::<Route, ErrorView>(Route::Tui),
        start::route_of(ModeView::Interactive, false) == Ok::<Route, ErrorView>(Route::Piped),
        start::route_of(ModeView::Resume { session_id }, true) == Ok::<Route, ErrorView>(
            Route::Tui,
        ),
        start::route_of(ModeView::Resume { session_id }, false) is Err,
        start::route_of(ModeView::Headless { append_to }, true) == Ok::<Route, ErrorView>(
            Route::Piped,
        ),
        start::resume_check(true) is Ok,
        start::resume_check(false) is Err,
        plan::resumed(ModeView::Resume { session_id }) == Some(session_id),
        plan::appended(ModeView::Headless { append_to }) == append_to,
        plan::resumed(ModeView::Interactive) is None,
        plan::appended(ModeView::Interactive) is None,
{
}

/// A run in a terminal needs a model; it is called after its agent and the
/// moment of its launch, and everything that it leaves is called after that.
pub proof fn law_terminal_runs_are_named(
    root: Seq<char>,
    plan: PlanView,
    stamp: u64,
    temp: Seq<char>,
)
    ensures
        start::tui_names(root, plan, stamp, temp) is Ok <==> plan.model is Some,
        start::tui_names(root, plan, stamp, temp) matches Ok(names) ==> {
            &&& names.agent_stem == naming::slug_of(plan.agent)
            &&& names.session == "corpus-"@ + transcript::stem_of(names.agent_stem, plan.run_id)
                + "-"@ + text::decimal(stamp as nat)
            &&& ("-"@ + text::decimal(stamp as nat)).is_suffix_of(names.session)
            &&& names.script == path::joined(temp, names.session + ".sh"@)
            &&& names.export_json != names.raw
            &&& ".json"@.is_suffix_of(names.export_json)
            &&& ".raw"@.is_suffix_of(names.raw)
        },
{
    if plan.model is Some {
        let names = start::tui_names(root, plan, stamp, temp)->Ok_0;
        let stem = start::tui_stem(plan);
        let at = text::decimal(stamp as nat);
        let end = "-"@ + at;
        assert(end =~= names.session.subrange(
            names.session.len() - end.len(),
            names.session.len() as int,
        ));
        lemma_artifact_ends(root, plan.project, stem, at, "json"@);
        lemma_artifact_ends(root, plan.project, stem, at, "raw"@);
        reveal_strlit(".");
        reveal_strlit("json");
        reveal_strlit("raw");
        reveal_strlit(".json");
        reveal_strlit(".raw");
        assert("."@ + "json"@ =~= ".json"@);
        assert("."@ + "raw"@ =~= ".raw"@);
        assert(names.export_json.last() == 'n') by {
            let t = names.export_json;
            assert(t.subrange(t.len() - 5, t.len() as int)[4] == 'n');
        }
        assert(names.raw.last() == 'w') by {
            let t = names.raw;
            assert(t.subrange(t.len() - 4, t.len() as int)[3] == 'w');
        }
    }
}

/// What a run leaves is called after its agent, and after its mission and the
/// generation of its environment where it has one: other missions and other
/// generations of one mission are called otherwise.
pub proof fn law_stems_name_the_run(agent: Seq<char>, id: SessionIdView, other: SessionIdView)
    ensures
        transcript::stem_of(agent, None) == naming::slug_of(agent),
        (naming::slug_of(agent) + "-"@ + naming::slug_of(id.mission)).is_prefix_of(
            transcript::stem_of(agent, Some(id)),
        ),
        ("-g"@ + text::decimal(id.generation as nat)).is_suffix_of(
            transcript::stem_of(agent, Some(id)),
        ),
        id.mission == other.mission && id.generation != other.generation ==> transcript::stem_of(
            agent,
            Some(id),
        ) != transcript::stem_of(agent, Some(other)),
        id.generation == other.generation && naming::slug_of(id.mission) != naming::slug_of(
            other.mission,
        ) ==> transcript::stem_of(agent, Some(id)) != transcript::stem_of(agent, Some(other)),
{
    let stem = transcript::stem_of(agent, Some(id));
    let begin = naming::slug_of(agent) + "-"@ + naming::slug_of(id.mission);
    let end = "-g"@ + text::decimal(id.generation as nat);
    assert(stem =~= begin + end);
    assert(begin =~= stem.subrange(0, begin.len() as int));
    assert(end =~= stem.subrange(stem.len() - end.len(), stem.len() as int));
    let none = Seq::<char>::empty();
    if id.mission == other.mission && id.generation != other.generation {
        let front = begin + "-g"@;
        let x = text::decimal(id.generation as nat);
        let y = text::decimal(other.generation as nat);
        if x == y {
            text::law_decimals_differ(id.generation as nat, other.generation as nat);
        }
        text::lemma_middles_differ(front, x, y, none);
        assert(front + x + none =~= stem);
        assert(front + y + none =~= transcript::stem_of(agent, Some(other)));
    }
    if id.generation == other.generation && naming::slug_of(id.mission) != naming::slug_of(
        other.mission,
    ) {
        let front = naming::slug_of(agent) + "-"@;
        text::lemma_middles_differ(
            front,
            naming::slug_of(id.mission),
            naming::slug_of(other.mission),
            end,
        );
        assert(front + naming::slug_of(id.mission) + end =~= stem);
        assert(front + naming::slug_of(other.mission) + end =~= transcript::stem_of(
            agent,
            Some(other),
        ));
    }
}

proof fn lemma_artifact_ends(
    root: Seq<char>,
    project: Seq<char>,
    stem: Seq<char>,
    stamp: Seq<char>,
    extension: Seq<char>,
)
    ensures
        ("."@ + extension).is_suffix_of(
            transcript::artifact_path(root, project, stem, stamp, extension),
        ),
{
    let whole = transcript::artifact_path(root, project, stem, stamp, extension);
    let end = "."@ + extension;
    assert(end =~= whole.subrange(whole.len() - end.len(), whole.len() as int));
}

/// A run that resumes a conversation knows it from the start; every run in a
/// terminal keeps what it was started with, and its record is its transcript.
pub proof fn law_terminal_runs_keep_their_start(plan: PlanView, names: NamesView, inputs: TuiInputs)
    ensures
        ({
            let run = start::tui_run(plan, names, inputs);
            &&& run.transcript == names.export_json
            &&& run.backend matches BackendView::Tui(tui) && {
                &&& tui.session == names.session
                &&& tui.raw == names.raw
                &&& tui.script == names.script
                &&& tui.export_json == names.export_json
                &&& tui.workspace_id == inputs.workspace_id@
                &&& tui.control_port == inputs.control_port
                &&& tui.launched_at_ms == inputs.launched_at_ms
                &&& tui.repo == inputs.repo@
                &&& !tui.stopped && !tui.exported
                &&& plan.mode matches ModeView::Resume { session_id } ==> tui.tui_session_id == Some(
                    session_id,
                )
                &&& !(plan.mode is Resume) ==> tui.tui_session_id is None
            }
        }),
{
}

/// A mission is handed to a run as it is written, unless it is blank.
pub proof fn law_missions_are_prompts(mission: Seq<char>)
    ensures
        text::all_white(mission) ==> start::prompt_of(mission) is None,
        !text::all_white(mission) ==> start::prompt_of(mission) == Some(mission),
{
    text::law_trimming_takes_only_white_space(mission);
}

/// A piped run appends to the transcript it was given, and else begins one that
/// says which agent it is, which model it was started with, and its mission.
pub proof fn law_piped_runs_have_a_log(root: Seq<char>, plan: PlanView, stamp: u64)
    ensures
        plan.mode matches ModeView::Headless { append_to: Some(p) } ==> start::piped_transcript(
            root,
            plan,
            stamp,
        ) == PipedLogView::Append(p),
        plan::appended(plan.mode) is None ==> (start::piped_transcript(root, plan, stamp) matches
            PipedLogView::Create(file) && {
            &&& text::contains(file.1, "# agent: "@ + plan.agent + "\n"@)
            &&& plan.model matches Some(m) ==> text::contains(file.1, "# model: "@ + m + "\n"@)
            &&& text::contains(file.1, "# started: "@ + text::decimal(stamp as nat) + "\n"@)
            &&& text::contains(file.1, "# mission: "@ + plan.mission + "\n"@)
        }),
{
    if plan::appended(plan.mode) is None {
        let stem = transcript::stem_of(plan.agent, plan.run_id);
        let runs = transcript::runs_path(root, plan.project);
        lemma_piped_head(runs, stamp, stem, plan.agent, plan.model, plan.mission);
    }
}

proof fn lemma_piped_head(
    runs: Seq<char>,
    stamp: u64,
    stem: Seq<char>,
    agent: Seq<char>,
    model: Option<Seq<char>>,
    mission: Seq<char>,
)
    ensures
        ({
            let head = transcript::piped_log(runs, stamp, stem, agent, model, mission).1;
            &&& text::contains(head, "# agent: "@ + agent + "\n"@)
            &&& model matches Some(m) ==> text::contains(head, "# model: "@ + m + "\n"@)
            &&& text::contains(head, "# started: "@ + text::decimal(stamp as nat) + "\n"@)
            &&& text::contains(head, "# mission: "@ + mission + "\n"@)
        }),
{
    let head = transcript::piped_log(runs, stamp, stem, agent, model, mission).1;
    let used = match model {
        Some(m) => m,
        None => "(default)"@,
    };
    let at = text::decimal(stamp as nat);
    reveal_strlit("# corpus run\n# agent: ");
    reveal_strlit("# corpus run\n");
    reveal_strlit("# agent: ");
    reveal_strlit("\n# model: ");
    reveal_strlit("# model: ");
    reveal_strlit("\n# started: ");
    reveal_strlit("# started: ");
    reveal_strlit("\n# mission: ");
    reveal_strlit("# mission: ");
    reveal_strlit("\n\n");
    reveal_strlit("\n");
    let a = "# corpus run\n"@;
    let l1 = "# agent: "@ + agent + "\n"@;
    let l2 = "# model: "@ + used + "\n"@;
    let l3 = "# started: "@ + at + "\n"@;
    let l4 = "# mission: "@ + mission + "\n"@;
    let end = "\n"@;
    assert(head =~= a + l1 + (l2 + l3 + l4 + end));
    text::lemma_contains_middle(a, l1, l2 + l3 + l4 + end);
    assert(head =~= (a + l1) + l2 + (l3 + l4 + end));
    text::lemma_contains_middle(a + l1, l2, l3 + l4 + end);
    assert(head =~= (a + l1 + l2) + l3 + (l4 + end));
    text::lemma_contains_middle(a + l1 + l2, l3, l4 + end);
    assert(head =~= (a + l1 + l2 + l3) + l4 + end);
    text::lemma_contains_middle(a + l1 + l2 + l3, l4, end);
}

// ---------------------------------------------------------------------
// The model and the handle
// ---------------------------------------------------------------------

proof fn lemma_first_primary(m: Map<Seq<char>, JsonView>, i: nat, at: nat)
    requires
        i <= at < document::names(m).len(),
        document::is_primary(m[document::names(m)[at as int]]),
        forall|j: int| i <= j < at ==> !document::is_primary(m[#[trigger] document::names(m)[j]]),
    ensures
        policy::first_primary(m, i) == Some(m[document::names(m)[at as int]]),
    decreases at - i,
{
    if i < at {
        assert(!document::is_primary(m[document::names(m)[i as int]]));
        lemma_first_primary(m, i + 1, at);
    }
}

/// The model of a document is the one that its primary states: what any other
/// entry states does not matter.
pub proof fn law_model_is_the_primarys(doc: JsonView, k: Seq<char>)
    requires
        json::member_fields(doc, "agent"@) is Some,
        ({
            let m = json::member_fields(doc, "agent"@)->Some_0;
            &&& m.dom().finite()
            &&& m.dom().contains(k)
            &&& forall|j: Seq<char>| #[trigger]
                m.dom().contains(j) ==> (document::is_primary(m[j]) <==> j == k)
        }),
    ensures
        policy::primary_model(doc) == json::member_text(
            json::member_fields(doc, "agent"@)->Some_0[k],
            "model"@,
        ),
{
    let m = json::member_fields(doc, "agent"@)->Some_0;
    let ks = document::names(m);
    table::lemma_finite_in_order(m.dom());
    assert(ks.contains(k));
    let at = choose|i: int| 0 <= i < ks.len() && ks[i] == k;
    assert forall|j: int| 0 <= j < at implies !document::is_primary(m[#[trigger] ks[j]]) by {
        assert(ks.contains(ks[j]));
        assert(m.dom().contains(ks[j]));
        assert(table::precedes(ks[j], ks[at]));
        table::lemma_precedes_irreflexive(k);
    }
    lemma_first_primary(m, 0, at as nat);
}

/// A model says something where it is not blank, and is taken without the white
/// space around it.
pub proof fn law_models_are_taken_as_stated(model: Seq<char>)
    ensures
        text::all_white(model) <==> policy::stated(Some(model)) is None,
        policy::stated(Some(model)) matches Some(m) ==> text::is_padded(m, model) && m.len() > 0
            && !text::is_white(m[0]) && !text::is_white(m.last()),
        policy::stated(None) is None,
{
    text::law_trimming_takes_only_white_space(model);
}

/// The registry's model is the last resort of a launch, and an agent that
/// cannot be loaded is not launched.
pub proof fn law_registry_is_the_last_resort(
    project: Seq<char>,
    agent: Seq<char>,
    doc: JsonView,
    asked: Option<Seq<char>>,
    registry: Seq<char>,
    e: ErrorView,
)
    ensures
        policy::stated(policy::primary_model(doc)) is None && policy::stated(asked) is None
            ==> policy::launch_model(project, agent, Ok(doc), asked, Some(registry)) == Ok::<
            Seq<char>,
            ErrorView,
        >(registry),
        policy::launch_model(project, agent, Err(e), asked, Some(registry)) is Err,
        policy::prefilled(Ok(doc), Some(registry)) == (if policy::primary_model(doc) is Some {
            policy::primary_model(doc)
        } else {
            Some(registry)
        }),
        policy::prefilled(Err(e), Some(registry)) is None,
{
}

proof fn lemma_first_with_tools(models: Seq<ModelEntry>, i: nat)
    ensures
        match models::first_with_tools(models, i) {
            Some(m) => exists|k: int|
                #![trigger models[k]]
                i <= k < models.len() && m == models[k] && models::uses_tools(models[k]) && forall|
                    j: int,
                |
                    i <= j < k ==> !models::uses_tools(#[trigger] models[j]),
            None => forall|j: int| i <= j < models.len() ==> !models::uses_tools(#[trigger] models[j]),
        },
    decreases models.len() - i,
{
    if i < models.len() {
        if models::uses_tools(models[i as int]) {
            assert(models[i as int] == models::first_with_tools(models, i)->Some_0);
        } else {
            lemma_first_with_tools(models, i + 1);
            match models::first_with_tools(models, i + 1) {
                Some(m) => {
                    let k = choose|k: int|
                        #![trigger models[k]]
                        i + 1 <= k < models.len() && m == models[k] && models::uses_tools(models[k])
                            && forall|j: int|
                            i + 1 <= j < k ==> !models::uses_tools(#[trigger] models[j]);
                    assert(models[k] == m);
                },
                None => {},
            }
        }
    }
}

/// A launch starts from the first model that can use tools; where none can, from
/// the first there is.
pub proof fn law_default_model_can_use_tools(models: Seq<ModelEntry>, k: int)
    requires
        0 <= k < models.len(),
    ensures
        models::uses_tools(models[k]) && (forall|j: int|
            0 <= j < k ==> !models::uses_tools(#[trigger] models[j])) ==> models::default_entry(
            models,
        ) == Some(models[k]),
        (forall|j: int| 0 <= j < models.len() ==> !models::uses_tools(#[trigger] models[j]))
            ==> models::default_entry(models) == Some(models[0]),
        models::default_entry(models) is Some,
        models::uses_tools(models[k]) ==> models::uses_tools(models::default_entry(models)->Some_0),
{
    lemma_first_with_tools(models, 0);
}

/// A model uses tools where its capabilities say so.
pub proof fn law_tools_are_declared(m: ModelEntry, i: int)
    requires
        0 <= i < m.capabilities@.len(),
    ensures
        m.capabilities@[i]@ == "tool-use"@ ==> models::uses_tools(m),
        models::uses_tools(m) ==> exists|j: int|
            0 <= j < m.capabilities@.len() && (#[trigger] m.capabilities@[j])@ == "tool-use"@,
{
    let all = text::texts(m.capabilities@);
    assert(all[i] == m.capabilities@[i]@);
    if models::uses_tools(m) {
        let j = choose|j: int| 0 <= j < all.len() && all[j] == "tool-use"@;
        assert(m.capabilities@[j]@ == "tool-use"@);
    }
}

/// An agent is launched by the handle that its file was rendered under; one
/// that is not listed, by its slug.
pub proof fn law_agents_are_launched_by_their_handle(agents: Seq<AgentView>, slug: Seq<char>)
    ensures
        handles::handles(agents).dom().contains(slug) ==> policy::launch_handle(Some(agents), slug)
            == handles::handles(agents)[slug],
        !handles::handles(agents).dom().contains(slug) ==> policy::launch_handle(
            Some(agents),
            slug,
        ) == slug,
        policy::launch_handle(None, slug) == slug,
{
}

proof fn lemma_digit_chars(a: nat, b: nat)
    requires
        a < 16,
        b < 16,
        text::digit_char(a) == text::digit_char(b),
    ensures
        a == b,
{
}

/// Different bytes are written differently.
pub proof fn law_bytes_are_told_apart(a: Seq<u8>, b: Seq<u8>)
    requires
        text::hex_bytes(a) == text::hex_bytes(b),
    ensures
        a == b,
    decreases a.len(),
{
    text::lemma_hex_bytes(a);
    text::lemma_hex_bytes(b);
    assert(a.len() == b.len());
    if a.len() > 0 {
        let x = a.last() as nat;
        let y = b.last() as nat;
        let ha = text::hex_bytes(a.drop_last());
        let hb = text::hex_bytes(b.drop_last());
        text::lemma_hex_bytes(a.drop_last());
        text::lemma_hex_bytes(b.drop_last());
        reveal_with_fuel(text::hex_digits, 3);
        assert(text::hex_digits(x, 2) =~= seq![
            text::digit_char((x / 16) % 16),
            text::digit_char(x % 16),
        ]);
        assert(text::hex_digits(y, 2) =~= seq![
            text::digit_char((y / 16) % 16),
            text::digit_char(y % 16),
        ]);
        let whole = text::hex_bytes(a);
        let n = ha.len() as int;
        assert(whole[n] == text::digit_char((x / 16) % 16));
        assert(whole[n + 1] == text::digit_char(x % 16));
        assert(text::hex_bytes(b)[n] == text::digit_char((y / 16) % 16));
        assert(text::hex_bytes(b)[n + 1] == text::digit_char(y % 16));
        lemma_digit_chars((x / 16) % 16, (y / 16) % 16);
        lemma_digit_chars(x % 16, y % 16);
        assert(x < 256 && y < 256);
        assert(x == y);
        assert(ha =~= whole.take(n));
        assert(hb =~= text::hex_bytes(b).take(n));
        law_bytes_are_told_apart(a.drop_last(), b.drop_last());
        assert(a =~= a.drop_last().push(a.last()));
        assert(b =~= b.drop_last().push(b.last()));
    }
}

/// A new secret is made of all the bytes that were drawn: no two draws make the
/// same one. Where nothing could be drawn there is no secret.
pub proof fn law_secrets_are_what_was_drawn(a: Seq<u8>, b: Seq<u8>, why: Seq<char>)
    ensures
        policy::drawn_secret(Ok(a)) is Ok,
        policy::drawn_secret(Ok(a)) == policy::drawn_secret(Ok(b)) ==> a == b,
        policy::drawn_secret(Err(why)) is Err,
        policy::drawn_secret(Ok(a))->Ok_0.len() == 2 * a.len(),
{
    text::lemma_hex_bytes(a);
    if policy::drawn_secret(Ok(a)) == policy::drawn_secret(Ok(b)) {
        law_bytes_are_told_apart(a, b);
    }
}

/// A stored secret is taken as it is written, less the white space around it,
/// and nothing that is no secret is taken.
pub proof fn law_stored_secrets_are_taken_as_they_are(file: Seq<char>, stored: Seq<char>)
    ensures
        policy::stored_secret(file, stored) matches Ok(s) ==> policy::is_secret(s)
            && text::is_padded(s, stored),
        policy::is_secret(stored) && !text::is_white(stored[0]) && !text::is_white(stored.last())
            ==> policy::stored_secret(file, stored) == Ok::<Seq<char>, ErrorView>(stored),
{
    text::law_trimming_takes_only_white_space(stored);
    if policy::is_secret(stored) && !text::is_white(stored[0]) && !text::is_white(stored.last()) {
        assert(text::trimmed(stored) == stored);
    }
}

// ---------------------------------------------------------------------
// Terminals
// ---------------------------------------------------------------------

/// A terminal session is started under its name, in the directory and with the
/// script that it was given, and detached.
pub proof fn law_sessions_are_started_as_named(
    name: Seq<char>,
    cwd: Seq<char>,
    script: Seq<char>,
)
    ensures
        ({
            let args = tmux::start_args(name, cwd, script);
            &&& args[0] == "new-session"@
            &&& args.contains("-d"@)
            &&& follows(args, "-s"@, name)
            &&& follows(args, "-c"@, cwd)
            &&& args.last() == script
        }),
{
    let args = tmux::start_args(name, cwd, script);
    assert(args[1] == "-d"@);
    assert(args[2] == "-s"@ && args[3] == name);
    assert(args[4] == "-c"@ && args[5] == cwd);
}

proof fn lemma_environment_calls(name: Seq<char>, entries: Seq<(Seq<char>, Seq<char>)>, n: nat)
    requires
        n <= entries.len(),
    ensures
        tmux::environment_calls(name, entries, n).len() == n,
        forall|i: int|
            0 <= i < n ==> #[trigger] tmux::environment_calls(name, entries, n)[i] == seq![
                "set-environment"@,
                "-t"@,
                name,
                entries[i].0,
                entries[i].1,
            ],
    decreases n,
{
    if n > 0 {
        lemma_environment_calls(name, entries, (n - 1) as nat);
    }
}

/// A session is set up with every entry of the run's environment, and is
/// captured into the run's file; every call is for that session.
pub proof fn law_sessions_get_their_environment(
    name: Seq<char>,
    entries: Seq<(Seq<char>, Seq<char>)>,
    raw: Seq<char>,
)
    ensures
        ({
            let calls = tmux::setup_calls(name, entries, raw);
            &&& forall|i: int|
                0 <= i < entries.len() ==> (#[trigger] calls[i])[0] == "set-environment"@
                    && calls[i][3] == entries[i].0 && calls[i][4] == entries[i].1
            &&& forall|i: int|
                0 <= i < calls.len() ==> (#[trigger] calls[i])[1] == "-t"@ && calls[i][2] == name
            &&& calls.last()[0] == "pipe-pane"@
            &&& calls.last().last() == tmux::capture_line(raw)
            &&& calls.len() >= entries.len() + 1
        }),
{
    lemma_environment_calls(name, entries, entries.len());
    let calls = tmux::setup_calls(name, entries, raw);
    let sets = tmux::environment_calls(name, entries, entries.len());
    assert forall|i: int| 0 <= i < entries.len() implies (#[trigger] calls[i])[0]
        == "set-environment"@ && calls[i][3] == entries[i].0 && calls[i][4] == entries[i].1 by {
        assert(calls[i] == sets[i]);
    }
    assert forall|i: int| 0 <= i < calls.len() implies (#[trigger] calls[i])[1] == "-t"@ && calls[i][2]
        == name by {
        if i < entries.len() {
            assert(calls[i] == sets[i]);
        }
    }
}

/// A session is there just where tmux ran and succeeded.
pub proof fn law_sessions_are_there_where_tmux_says_so(started: Started)
    ensures
        tmux::start_check(started) is Ok <==> (started matches Started::Exited { success, .. }
            && success),
{
}

/// Attaching goes to the session that is meant, as one argument.
pub proof fn law_attaching_goes_to_the_session(
    program: Seq<char>,
    session: Seq<char>,
    app: Seq<char>,
)
    ensures
        tmux::attach_words(program, session)[0] == program,
        follows(tmux::attach_words(program, session), "-t"@, session),
        text::contains(
            tmux::desktop_words(program, session, app).last(),
            program + " attach -t "@ + session + "\""@,
        ),
        text::contains(
            tmux::desktop_words(program, session, app).last(),
            "tell application \""@ + app + "\""@,
        ),
        tmux::desktop_words(program, session, app)[0] == "osascript"@,
{
    let words = tmux::attach_words(program, session);
    assert(words[2] == "-t"@ && words[3] == session);
    let last = tmux::desktop_words(program, session, app).last();
    let head = "tell application \""@ + app + "\" to do script \""@;
    let body = program + " attach -t "@ + session + "\""@;
    let none = Seq::<char>::empty();
    assert(last =~= head + body + none);
    text::lemma_contains_middle(head, body, none);
    reveal_strlit("\" to do script \"");
    reveal_strlit("\"");
    reveal_strlit(" to do script \"");
    let front = "tell application \""@ + app + "\""@;
    let rest = " to do script \""@ + body;
    assert(last =~= none + front + rest);
    text::lemma_contains_middle(none, front, rest);
}

/// The terminal that was asked for is opened; else the one in use, where it is
/// known; else the system's.
pub proof fn law_asked_terminal_wins(app: Seq<char>, in_use: Option<Seq<char>>)
    ensures
        tmux::terminal_app(Some(app), in_use) == app,
        tmux::terminal_app(None, Some("iTerm2"@)) == "iTerm"@,
        tmux::terminal_app(None, Some("WezTerm"@)) == "WezTerm"@,
        in_use != Some("iTerm2"@) && in_use != Some("WezTerm"@) ==> tmux::terminal_app(None, in_use)
            == "Terminal"@,
{
    reveal_strlit("iTerm2");
    reveal_strlit("WezTerm");
    assert("iTerm2"@.len() != "WezTerm"@.len());
}

// ---------------------------------------------------------------------
// Runs
// ---------------------------------------------------------------------

/// What is known of a run is handed out, and nothing else: its conversation
/// once it is known, and else where and from when on to look for it, unless
/// that was done a moment ago.
pub proof fn law_conversations_are_looked_for(run: RunView, elapsed: u64)
    ensures
        run.backend matches BackendView::Tui(tui) ==> {
            &&& tui.tui_session_id matches Some(id) ==> session::lookup_of(run, elapsed)
                == LookupView::Known(id)
            &&& tui.tui_session_id is None && elapsed >= session::DISCOVERY_INTERVAL
                ==> session::lookup_of(run, elapsed) == (LookupView::Search {
                directory: tui.repo,
                since: tui.launched_at_ms,
            })
            &&& tui.tui_session_id is None && elapsed < session::DISCOVERY_INTERVAL
                ==> session::lookup_of(run, elapsed) is Wait
        },
        run.backend is Piped ==> session::lookup_of(run, elapsed) is Wait,
{
}

/// The transcript of a run is its record where it was exported; else its
/// conversation is exported, or is looked for first, and where there is none
/// the raw capture stands in.
pub proof fn law_transcripts_come_from_the_run(run: RunView, id: Seq<char>)
    ensures
        run.backend is Piped ==> session::export_need(run) == Ok::<NeedView, ErrorView>(
            NeedView::Ready(run.transcript),
        ),
        run.backend matches BackendView::Tui(tui) ==> {
            &&& tui.exported ==> session::export_need(run) == Ok::<NeedView, ErrorView>(
                NeedView::Ready(tui.export_json),
            )
            &&& !tui.exported && tui.tui_session_id is None ==> session::export_need(run) == Ok::<
                NeedView,
                ErrorView,
            >(NeedView::Search { directory: tui.repo, since: tui.launched_at_ms })
            &&& session::need_after_search(run, None) == Ok::<NeedView, ErrorView>(
                NeedView::Ready(tui.raw),
            )
            &&& path::parent_of(tui.export_json) is Some ==> session::need_after_search(
                run,
                Some(id),
            ) == Ok::<NeedView, ErrorView>(
                NeedView::Export {
                    session: id,
                    directory: tui.repo,
                    runs: path::parent_of(tui.export_json)->Some_0,
                },
            )
            &&& !tui.exported && tui.tui_session_id is Some ==> session::export_need(run)
                == session::need_after_search(run, tui.tui_session_id)
        },
{
}

/// A run that learns its conversation, or where its record is, is the same run
/// otherwise.
pub proof fn law_runs_stay_themselves(run: RunView, id: Seq<char>, at: Seq<char>)
    ensures
        session::with_conversation(run, None) == run,
        session::with_conversation(run, Some(id)).transcript == run.transcript,
        session::with_record(run, at).transcript == run.transcript,
        session::once_stopped(run).transcript == run.transcript,
        run.backend is Piped ==> session::with_conversation(run, Some(id)) == run
            && session::with_record(run, at) == run && session::once_stopped(run) == run,
        run.backend matches BackendView::Tui(tui) ==> {
            &&& session::with_conversation(run, Some(id)).backend matches BackendView::Tui(a) && {
                &&& a.tui_session_id == Some(id)
                &&& a.session == tui.session && a.raw == tui.raw && a.export_json == tui.export_json
                &&& a.script == tui.script && a.repo == tui.repo && a.stopped == tui.stopped
                &&& a.exported == tui.exported && a.control_port == tui.control_port
            }
            &&& session::with_record(run, at).backend matches BackendView::Tui(b) && {
                &&& b.export_json == at && b.exported
                &&& b.session == tui.session && b.raw == tui.raw && b.script == tui.script
                &&& b.tui_session_id == tui.tui_session_id && b.stopped == tui.stopped
            }
            &&& session::once_stopped(run).backend matches BackendView::Tui(c) && {
                &&& c.stopped
                &&& c.session == tui.session && c.exported == tui.exported && c.script == tui.script
            }
        },
{
}

/// A run is over where it was stopped or its terminal is gone, and not before;
/// a stop is told from an end.
pub proof fn law_runs_end_once(stopped: bool, live: bool)
    ensures
        session::exit_code(stopped, live) is None <==> !stopped && live,
        session::exit_code(false, false) == Some(0i32),
        stopped ==> session::exit_code(stopped, live) != session::exit_code(false, false),
{
}

/// Stopping a run hands out its record where it was exported, and says why
/// where it was not.
pub proof fn law_stops_say_what_happened(
    run: RunView,
    cleanup: Seq<Seq<char>>,
    at: Seq<char>,
    e: ErrorView,
)
    requires
        run.backend is Tui,
    ensures
        session::stop_outcome(run, cleanup, Ok(at)).transcript == at,
        session::stop_outcome(run, cleanup, Ok(at)).export_error is None,
        session::stop_outcome(run, cleanup, Err(e)).export_error matches Some(why)
            && error::shown(e).is_suffix_of(why),
{
    let why = "transcript export failed: "@ + error::shown(e);
    assert(error::shown(e) =~= why.subrange(why.len() - error::shown(e).len(), why.len() as int));
}

/// What was left behind is reported: the session that stayed, and the script;
/// nothing is where both went.
pub proof fn law_leftovers_are_reported(
    killed: Result<(), ErrorView>,
    script: Seq<char>,
    removed: Option<Seq<char>>,
)
    ensures
        ({
            let report = session::close_report(killed, script, removed);
            &&& report.len() == (if killed is Err {
                1int
            } else {
                0
            }) + (if removed is Some {
                1int
            } else {
                0
            })
            &&& killed matches Err(e) ==> report[0] == error::shown(e)
            &&& removed matches Some(why) ==> text::contains(report.last(), script)
                && why.is_suffix_of(report.last())
        }),
{
    match removed {
        Some(why) => {
            let last = "remove run script "@ + script + ": "@ + why;
            text::lemma_contains_middle("remove run script "@, script, ": "@ + why);
            assert("remove run script "@ + script + (": "@ + why) =~= last);
            assert(why =~= last.subrange(last.len() - why.len(), last.len() as int));
        },
        None => {},
    }
}

/// A child is collected where it exited, waited for while it has time, and done
/// away with where it has none; what is left behind is all reported.
pub proof fn law_leftovers_are_all_named(cleanup: Seq<Seq<char>>, i: int)
    requires
        0 <= i < cleanup.len(),
    ensures
        text::contains(process::cleanup_suffix(cleanup), cleanup[i]),
        process::cleanup_suffix(Seq::empty()).len() == 0,
{
    lemma_joined_contains(cleanup, "; "@, i);
    let none = Seq::<char>::empty();
    let all = text::joined(cleanup, "; "@);
    text::lemma_contains_wider("; cleanup: "@, all, none, cleanup[i]);
    assert("; cleanup: "@ + all + none =~= process::cleanup_suffix(cleanup));
}

/// A joined text holds each of its parts.
pub proof fn lemma_joined_contains(parts: Seq<Seq<char>>, sep: Seq<char>, i: int)
    requires
        0 <= i < parts.len(),
    ensures
        text::contains(text::joined(parts, sep), parts[i]),
    decreases parts.len(),
{
    let none = Seq::<char>::empty();
    if parts.len() == 1 {
        text::lemma_contains_middle(none, parts[0], none);
        assert(none + parts[0] + none =~= parts[0]);
    } else {
        let before = text::joined(parts.drop_last(), sep);
        if i == parts.len() - 1 {
            text::lemma_contains_middle(before + sep, parts[i], none);
            assert(before + sep + parts[i] + none =~= text::joined(parts, sep));
        } else {
            lemma_joined_contains(parts.drop_last(), sep, i);
            text::lemma_contains_wider(none, before, sep + parts.last(), parts[i]);
            assert(none + before + (sep + parts.last()) =~= text::joined(parts, sep));
        }
    }
}

// ---------------------------------------------------------------------
// Transcripts
// ---------------------------------------------------------------------

/// What a run leaves lies in its project's directory for it, under a name that
/// ends in what it is.
pub proof fn law_records_are_named_after_their_conversation(
    runs: Seq<char>,
    a: Seq<char>,
    b: Seq<char>,
)
    requires
        a.len() > 0 && a[0] != '/',
        b.len() > 0 && b[0] != '/',
    ensures
        a != b ==> transcript::record_path(runs, a) != transcript::record_path(runs, b),
        (a + ".json"@).is_suffix_of(transcript::record_path(runs, a)),
        runs.is_prefix_of(transcript::record_path(runs, a)),
{
    let none = Seq::<char>::empty();
    let ra = transcript::record_path(runs, a);
    let name = a + ".json"@;
    assert(name =~= ra.subrange(ra.len() - name.len(), ra.len() as int));
    assert(name[0] == a[0]);
    assert(runs =~= ra.subrange(0, runs.len() as int));
    if a != b {
        text::lemma_middles_differ(runs, a, b, ".json"@);
        text::lemma_middles_differ(runs + "/"@, a, b, ".json"@);
        text::lemma_middles_differ(none, a, b, ".json"@);
        assert(none + a + ".json"@ =~= a + ".json"@);
        assert(none + b + ".json"@ =~= b + ".json"@);
        assert(runs + a + ".json"@ =~= runs + (a + ".json"@));
        assert(runs + b + ".json"@ =~= runs + (b + ".json"@));
        assert(runs + "/"@ + a + ".json"@ =~= runs + "/"@ + (a + ".json"@));
        assert(runs + "/"@ + b + ".json"@ =~= runs + "/"@ + (b + ".json"@));
    }
}

/// A conversation may be a run's just where it is in the run's directory, began
/// no earlier, and is claimed by no other; it is taken for what it is.
pub proof fn law_eligible_conversations(
    entry: JsonView,
    directory: Seq<char>,
    since: u64,
    claimed: Seq<Seq<char>>,
)
    ensures
        transcript::eligible(entry, directory, since, claimed) matches Some(one) ==> {
            &&& json::member_text(entry, "id"@) == Some(one.1)
            &&& json::member_text(entry, "directory"@) == Some(directory)
            &&& json::member(entry, "created"@) matches Some(c) && json::as_whole(c) == Some(one.0)
            &&& one.0 >= since
            &&& !claimed.contains(one.1)
        },
        transcript::eligible(entry, directory, since, claimed) is None <== (json::member_text(
            entry,
            "directory"@,
        ) != Some(directory) || json::member_text(entry, "id"@) is None),
        (json::member_text(entry, "directory"@) == Some(directory) && json::member_text(
            entry,
            "id"@,
        ) is Some && !claimed.contains(json::member_text(entry, "id"@)->Some_0) && json::member(
            entry,
            "created"@,
        ) is Some && json::as_whole(json::member(entry, "created"@)->Some_0) is Some
            && json::as_whole(json::member(entry, "created"@)->Some_0)->Some_0 >= since)
            ==> transcript::eligible(entry, directory, since, claimed) is Some,
{
}

/// An export that succeeded is written where the record belongs, and one that
/// failed leaves the record alone or is reported.
pub proof fn law_exports_are_recorded(
    file: Seq<char>,
    document: Seq<char>,
    e: ErrorView,
    existing: Option<Seq<u8>>,
)
    ensures
        transcript::recorded(file, Ok(document), existing) == Ok::<RecordView, ErrorView>(
            RecordView::Write((file, document)),
        ),
        !transcript::is_record(existing) ==> transcript::recorded(file, Err(e), existing) == Err::<
            RecordView,
            ErrorView,
        >(e),
        existing is None ==> !transcript::is_record(existing),
{
}

/// Only a document with a list of messages is a record that is kept.
pub proof fn law_records_have_messages(bytes: Seq<u8>)
    ensures
        transcript::is_record(Some(bytes)) <==> (json::parsed_bytes(bytes) is Ok && json::member(
            json::parsed_bytes(bytes)->Ok_0,
            "messages"@,
        ) is Some && json::member(json::parsed_bytes(bytes)->Ok_0, "messages"@)->Some_0 is Array),
{
}

/// A whole document that was printed is exported; a command that failed, or
/// printed too much, is not tried again.
pub proof fn law_whole_documents_are_exported(
    done: nat,
    output: process::OutputView,
    seconds: Seq<char>,
)
    ensures
        output.success && !output.stdout_truncated && json::parsed_bytes(output.stdout) is Ok
            && json::pretty(json::parsed_bytes(output.stdout)->Ok_0) is Ok
            ==> transcript::export_next(done, ExportEventView::Output(output))
            == ExportActionView::Finish(
            Ok(json::pretty(json::parsed_bytes(output.stdout)->Ok_0)->Ok_0),
        ),
        !output.success || output.stdout_truncated ==> (transcript::export_next(
            done,
            ExportEventView::Output(output),
        ) matches ExportActionView::Finish(r) && r is Err),
        transcript::export_next(done, ExportEventView::OutOfTime { seconds }) matches
            ExportActionView::Finish(r) && r is Err,
{
}

/// A document that broke off is asked for again, later each time, until the
/// third attempt.
pub proof fn law_broken_exports_are_tried_again(output: process::OutputView)
    requires
        output.success,
        !output.stdout_truncated,
        json::parsed_bytes(output.stdout) is Err,
        json::parsed_bytes(output.stdout)->Err_0.0,
        output.stdout.len() != transcript::EXPORT_LIMIT,
    ensures
        transcript::export_next(0, ExportEventView::Output(output)) is Run,
        transcript::export_next(1, ExportEventView::Output(output)) is Run,
        transcript::export_next(0, ExportEventView::Output(output))->delay_ms
            < transcript::export_next(1, ExportEventView::Output(output))->delay_ms,
        transcript::export_next(2, ExportEventView::Output(output)) matches ExportActionView::Finish(
            r,
        ) && r is Err,
{
}

/// The conversation of a terminal session began no earlier than the session,
/// which is told by its name.
pub proof fn law_conversations_follow_their_session(stem: Seq<char>, stamp: u64)
    requires
        stem.len() > 0,
        stamp * 1000 <= u64::MAX,
    ensures
        transcript::begun_since("corpus-"@ + stem + "-"@ + text::decimal(stamp as nat)) == Some(
            (stamp * 1000) as u64,
        ),
{
    transcript::law_session_names_its_run(stem, stamp);
}

/// A listing that failed, or of which something is missing, leads to no
/// conversation; one that is whole leads to the one that is selected.
pub proof fn law_listings_lead_to_conversations(
    output: process::OutputView,
    directory: Seq<char>,
    since: u64,
    claimed: Seq<Seq<char>>,
)
    ensures
        transcript::discovered(output, directory, since, claimed) is Ok <==> output.success
            && !output.stdout_truncated && json::parsed_bytes(output.stdout) is Ok,
        transcript::discovered(output, directory, since, claimed) matches Ok(Some(id)) ==> {
            &&& !claimed.contains(id)
            &&& json::parsed_bytes(output.stdout)->Ok_0 matches JsonView::Array(entries) && exists|
                i: int,
            |
                0 <= i < entries.len() && json::member_text(#[trigger] entries[i], "id"@) == Some(id)
                    && json::member_text(entries[i], "directory"@) == Some(directory)
        },
{
    match transcript::discovered(output, directory, since, claimed) {
        Ok(Some(id)) => {
            match json::parsed_bytes(output.stdout)->Ok_0 {
                JsonView::Array(entries) => {
                    transcript::law_oldest_eligible_is_taken(
                        entries,
                        entries.len(),
                        directory,
                        since,
                        claimed,
                    );
                    let best = transcript::oldest(
                        entries,
                        entries.len(),
                        directory,
                        since,
                        claimed,
                    )->Some_0;
                    let i = choose|i: int|
                        0 <= i < entries.len() && transcript::eligible(
                            #[trigger] entries[i],
                            directory,
                            since,
                            claimed,
                        ) == Some(best);
                    assert(json::member_text(entries[i], "id"@) == Some(id));
                },
                _ => {},
            }
        },
        _ => {},
    }
}

// ---------------------------------------------------------------------
// Activity and programs
// ---------------------------------------------------------------------

proof fn lemma_run_names(lines: Seq<Seq<char>>, n: nat, x: Seq<char>)
    requires
        n <= lines.len(),
    ensures
        activity::run_names(lines, n).contains(x) <==> lines.take(n as int).contains(x)
            && "corpus-"@.is_prefix_of(x),
    decreases n,
{
    if n > 0 {
        lemma_run_names(lines, (n - 1) as nat, x);
        let fewer = lines.take(n - 1);
        assert(lines.take(n as int) =~= fewer.push(lines[n - 1]));
        document::lemma_push_contains(fewer, lines[n - 1], x);
        document::lemma_push_contains(
            activity::run_names(lines, (n - 1) as nat),
            lines[n - 1],
            x,
        );
    } else {
        assert(lines.take(0) =~= Seq::empty());
    }
}

/// The runs that are live are the sessions that are listed and called like
/// runs; where nothing could be listed, none is.
pub proof fn law_live_runs_are_the_listed_ones(listing: Seq<char>, x: Seq<char>)
    ensures
        activity::live_runs(Some(listing)).contains(x) <==> text::lines(listing).contains(x)
            && "corpus-"@.is_prefix_of(x),
        activity::live_runs(None).len() == 0,
{
    let lines = text::lines(listing);
    lemma_run_names(lines, lines.len(), x);
    assert(lines.take(lines.len() as int) =~= lines);
}

/// A mission whose terminal is live is what its capture says, and any other is
/// idle.
pub proof fn law_missions_are_what_their_terminal_says(
    session: Seq<char>,
    live: Seq<Seq<char>>,
    idle: Option<u64>,
)
    ensures
        live.contains(session) ==> activity::run_state(Some(session), live, idle) == (
        MissionRunState { activity: activity::activity(true, idle), idle_secs: idle }),
        !live.contains(session) ==> activity::run_state(Some(session), live, idle).activity
            == MissionActivity::Idle,
        activity::run_state(None, live, idle).activity == MissionActivity::Idle,
{
}

proof fn lemma_in_dirs(dirs: Seq<Seq<char>>, name: Seq<char>, n: nat)
    requires
        n <= dirs.len(),
    ensures
        executables::in_dirs(dirs, name, n).len() == n,
        forall|i: int|
            0 <= i < n ==> #[trigger] executables::in_dirs(dirs, name, n)[i] == path::joined(
                dirs[i],
                name,
            ),
    decreases n,
{
    if n > 0 {
        lemma_in_dirs(dirs, name, (n - 1) as nat);
    }
}

/// Programs are looked for in the directories of the search path first, in its
/// order, and then in the usual places.
pub proof fn law_search_path_comes_first(
    search: Seq<char>,
    home: Option<Seq<char>>,
    resources: Option<Seq<char>>,
    i: int,
)
    requires
        0 <= i < text::pieces(search, ':').len(),
    ensures
        executables::opencode_places(Some(search), home, resources)[i] == path::joined(
            text::pieces(search, ':')[i],
            "opencode"@,
        ),
        executables::tmux_places(Some(search))[i] == path::joined(
            text::pieces(search, ':')[i],
            "tmux"@,
        ),
        home matches Some(h) ==> executables::opencode_places(
            Some(search),
            home,
            resources,
        )[text::pieces(search, ':').len() as int] == path::joined(h, ".opencode/bin/opencode"@),
        resources matches Some(r) ==> executables::opencode_places(
            Some(search),
            home,
            resources,
        ).last() == path::joined(r, ".opencode/node_modules/.bin/opencode"@),
        executables::tmux_places(None).contains("/usr/bin/tmux"@),
{
    let dirs = text::pieces(search, ':');
    lemma_in_dirs(dirs, "opencode"@, dirs.len());
    lemma_in_dirs(dirs, "tmux"@, dirs.len());
    assert(executables::tmux_places(None)[3] == "/usr/bin/tmux"@);
}

/// OpenCode is where it was found; that it was not is an error.
pub proof fn law_missing_program_is_an_error(found: Seq<char>)
    ensures
        executables::opencode_or_error(Some(found)) == Ok::<Seq<char>, ErrorView>(found),
        executables::opencode_or_error(None) is Err,
{
}

proof fn lemma_leading_digits(d: Seq<char>, tail: Seq<char>)
    requires
        text::all_digits(d),
        tail.len() == 0 || !text::is_digit(tail[0]),
    ensures
        executables::leading_digits(d + tail) == d,
    decreases d.len(),
{
    let s = d + tail;
    if d.len() == 0 {
        assert(s =~= tail);
    } else {
        assert(text::is_digit(d[0]));
        assert(s[0] == d[0]);
        assert(s.skip(1) =~= d.skip(1) + tail);
        assert(text::all_digits(d.skip(1))) by {
            assert forall|i: int| 0 <= i < d.skip(1).len() implies text::is_digit(
                #[trigger] d.skip(1)[i],
            ) by {
                assert(d.skip(1)[i] == d[i + 1]);
            }
        }
        lemma_leading_digits(d.skip(1), tail);
        assert(seq![d[0]] + d.skip(1) =~= d);
    }
}

/// What follows the number of a version: no number, no dot and no space.
pub open spec fn is_version_tail(tail: Seq<char>) -> bool {
    (tail.len() == 0 || !text::is_digit(tail[0])) && !tail.contains('.') && forall|i: int|
        0 <= i < tail.len() ==> !text::is_white(#[trigger] tail[i])
}

/// A tmux will do from version 3.2 on, whatever letter follows.
pub proof fn law_supported_versions(major: u32, minor: u32, tail: Seq<char>)
    requires
        is_version_tail(tail),
    ensures
        executables::is_supported(
            "tmux"@.push(' ') + (text::decimal(major as nat).push('.') + (text::decimal(
                minor as nat,
            ) + tail)),
        ) <==> major > 3 || (major == 3 && minor >= 2),
        executables::version_field(
            "tmux"@.push(' ') + (text::decimal(major as nat).push('.') + (text::decimal(
                minor as nat,
            ) + tail)),
        ) == Some(
            text::decimal(major as nat).push('.') + (text::decimal(minor as nat) + tail),
        ),
{
    let a = text::decimal(major as nat);
    let b = text::decimal(minor as nat);
    let rest = b + tail;
    let field = a.push('.') + rest;
    let output = "tmux"@.push(' ') + field;
    text::lemma_decimal_value(major as nat);
    text::lemma_decimal_value(minor as nat);
    reveal_strlit("tmux");
    reveal_strlit("next-");
    assert forall|i: int| 0 <= i < field.len() implies !text::separates(
        Runs::Words,
        #[trigger] field[i],
    ) by {
        if i < a.len() {
            assert(field[i] == a[i]);
            assert(text::is_digit(a[i]));
        } else if i == a.len() {
            assert(field[i] == '.');
        } else if i < a.len() + 1 + b.len() {
            assert(field[i] == b[i - a.len() - 1]);
            assert(text::is_digit(b[i - a.len() - 1]));
        } else {
            assert(field[i] == tail[i - a.len() - 1 - b.len()]);
            assert(!text::is_white(tail[i - a.len() - 1 - b.len()]));
        }
    }
    assert forall|i: int| 0 <= i < "tmux"@.len() implies !text::separates(
        Runs::Words,
        #[trigger] "tmux"@[i],
    ) by {}
    text::law_runs_of_two_texts("tmux"@, ' ', field, Runs::Words);
    text::law_text_without_separators_is_one_run("tmux"@, Runs::Words);
    text::law_text_without_separators_is_one_run(field, Runs::Words);
    let words = text::runs(output, Runs::Words);
    assert(words =~= seq!["tmux"@, field]);
    assert(text::is_digit(a[0]));
    assert(field[0] == a[0]);
    assert(executables::without_prefixes(field, "next-"@) == field) by {
        if field.len() >= 5 && field.take(5) == "next-"@ {
            assert(field.take(5)[0] == 'n');
        }
    }
    text::law_pieces_of_two_texts(a, '.', rest);
    assert(!a.contains('.')) by {
        if a.contains('.') {
            let i = choose|i: int| 0 <= i < a.len() && a[i] == '.';
            assert(text::is_digit(a[i]));
        }
    }
    assert(!rest.contains('.')) by {
        if rest.contains('.') {
            let i = choose|i: int| 0 <= i < rest.len() && rest[i] == '.';
            if i < b.len() {
                assert(text::is_digit(b[i]));
            } else {
                assert(tail[i - b.len()] == '.');
            }
        }
    }
    text::law_text_without_separator_is_one_piece(a, '.');
    text::law_text_without_separator_is_one_piece(rest, '.');
    let parts = text::pieces(field, '.');
    assert(parts =~= seq![a, rest]);
    lemma_leading_digits(b, tail);
    assert(text::is_digit(b[0]));
    assert(a[0] != '+' && b[0] != '+');
    assert(text::parsed_u32(a) == Some(major));
    assert(text::parsed_u32(b) == Some(minor));
}

/// The registry's model is that of the entry that a launch starts from, under
/// its provider.
pub proof fn law_registry_names_its_default(registry: ModelRegistry, k: int)
    requires
        0 <= k < registry.models@.len(),
        models::uses_tools(registry.models@[k]),
        forall|j: int| 0 <= j < k ==> !models::uses_tools(#[trigger] registry.models@[j]),
    ensures
        policy::registry_model(Some(registry)) == Some(
            registry.models@[k].provider@ + "/"@ + registry.models@[k].tag@,
        ),
        policy::registry_model(None) is None,
{
    law_default_model_can_use_tools(registry.models@, k);
}

/// What went wrong while a process was done away with is told, with the
/// process and the reason.
pub proof fn law_failed_cleanups_are_told(step: CleanupStep, pid: u32, why: Seq<char>)
    ensures
        why.is_suffix_of(process::cleanup_report(step, pid, why)),
        text::contains(process::cleanup_report(step, pid, why), text::decimal(pid as nat)),
{
    let id = text::decimal(pid as nat);
    lemma_told("poll child "@, id, " before process-group cleanup: "@, why);
    lemma_told("signal process group "@, id, ": "@, why);
    lemma_told("poll child "@, id, " during cleanup: "@, why);
    lemma_told("kill process group "@, id, ": "@, why);
    lemma_told("kill child "@, id, ": "@, why);
    lemma_told("reap child "@, id, ": "@, why);
}

proof fn lemma_told(a: Seq<char>, id: Seq<char>, b: Seq<char>, why: Seq<char>)
    ensures
        why.is_suffix_of(a + id + b + why),
        text::contains(a + id + b + why, id),
{
    let s = a + id + b + why;
    assert(why =~= s.subrange(s.len() - why.len(), s.len() as int));
    text::lemma_contains_middle(a, id, b + why);
    assert(a + id + (b + why) =~= s);
}

/// A run is its project's where its identity says so, or where it has none.
pub proof fn law_runs_belong_to_their_project(id: SessionIdView, project: Seq<char>)
    ensures
        plan::is_of_project(Some(id), project) <==> id.project == project,
        plan::is_of_project(None, project),
{
}

/// The conversation of a terminal session is one that the listing holds: in its
/// directory, and claimed by nobody else; a session whose name tells no start
/// has none.
pub proof fn law_sessions_lead_to_their_conversation(
    output: process::OutputView,
    directory: Seq<char>,
    session: Seq<char>,
    claimed: Seq<Seq<char>>,
)
    ensures
        transcript::begun_since(session) is None ==> transcript::session_talk(
            Some(output),
            directory,
            session,
            claimed,
        ) is None,
        transcript::session_talk(None, directory, session, claimed) is None,
        transcript::begun_since(session) matches Some(since) ==> {
            transcript::discovered(output, directory, since, claimed) matches Ok(found)
                ==> transcript::session_talk(Some(output), directory, session, claimed) == found
        },
{
}

proof fn lemma_pieces_of_joined(parts: Seq<Seq<char>>)
    requires
        parts.len() > 0,
        forall|i: int| 0 <= i < parts.len() ==> !(#[trigger] parts[i]).contains('-'),
    ensures
        text::pieces(text::joined(parts, "-"@), '-') == parts,
    decreases parts.len(),
{
    reveal_strlit("-");
    text::law_text_without_separator_is_one_piece(parts.last(), '-');
    if parts.len() == 1 {
        assert(seq![parts[0]] =~= parts);
    } else {
        let front = parts.drop_last();
        assert forall|i: int| 0 <= i < front.len() implies !(#[trigger] front[i]).contains('-') by {
            assert(front[i] == parts[i]);
        }
        lemma_pieces_of_joined(front);
        let before = text::joined(front, "-"@);
        text::law_pieces_of_two_texts(before, '-', parts.last());
        assert(before + "-"@ + parts.last() =~= before.push('-') + parts.last());
        assert(front + seq![parts.last()] =~= parts);
    }
}

/// No run of letters and digits holds a dash.
proof fn lemma_runs_have_no_dash(s: Seq<char>)
    ensures
        forall|i: int|
            0 <= i < text::runs(s, Runs::Alnum).len() ==> !(#[trigger] text::runs(
                s,
                Runs::Alnum,
            )[i]).contains('-'),
    decreases s.len(),
{
    if s.len() > 0 {
        if text::separates(Runs::Alnum, s[0]) {
            lemma_runs_have_no_dash(s.skip(1));
            assert(text::runs(s, Runs::Alnum) == text::runs(s.skip(1), Runs::Alnum));
        } else {
            let n = text::run_len(s, Runs::Alnum) as int;
            lemma_run_is_plain(s);
            if 0 < n <= s.len() {
                lemma_runs_have_no_dash(s.skip(n));
                let all = text::runs(s, Runs::Alnum);
                let later = text::runs(s.skip(n), Runs::Alnum);
                assert(all =~= seq![s.take(n)] + later);
                assert forall|i: int| 0 <= i < all.len() implies !(#[trigger] all[i]).contains(
                    '-',
                ) by {
                    if i > 0 {
                        assert(all[i] == later[i - 1]);
                    } else if all[0].contains('-') {
                        let k = choose|k: int| 0 <= k < all[0].len() && all[0][k] == '-';
                        assert(s[k] == '-');
                        assert(!text::separates(Runs::Alnum, s[k]));
                    }
                }
            } else {
                assert(text::runs(s, Runs::Alnum).len() == 0);
            }
        }
    } else {
        assert(text::runs(s, Runs::Alnum).len() == 0);
    }
}

proof fn lemma_run_is_plain(s: Seq<char>)
    ensures
        text::run_len(s, Runs::Alnum) <= s.len(),
        forall|k: int|
            0 <= k < text::run_len(s, Runs::Alnum) ==> !text::separates(
                Runs::Alnum,
                #[trigger] s[k],
            ),
    decreases s.len(),
{
    if s.len() > 0 && !text::separates(Runs::Alnum, s[0]) {
        lemma_run_is_plain(s.skip(1));
        assert forall|k: int| 0 <= k < text::run_len(s, Runs::Alnum) implies !text::separates(
            Runs::Alnum,
            #[trigger] s[k],
        ) by {
            if k > 0 {
                assert(s.skip(1)[k - 1] == s[k]);
            }
        }
    }
}

/// A log is named after the first words of its mission, six at most, in their
/// order, with a dash between each two.
pub proof fn law_logs_are_named_after_their_mission(mission: Seq<char>)
    ensures
        ({
            let words = text::runs(text::lowercased(mission), Runs::Alnum);
            &&& words.len() == 0 ==> transcript::mission_words(mission).len() == 0
            &&& 0 < words.len() <= 6 ==> text::pieces(transcript::mission_words(mission), '-')
                == words
            &&& words.len() > 6 ==> text::pieces(transcript::mission_words(mission), '-')
                == words.take(6)
        }),
{
    let lowered = text::lowercased(mission);
    let words = text::runs(lowered, Runs::Alnum);
    lemma_runs_have_no_dash(lowered);
    if 0 < words.len() <= 6 {
        lemma_pieces_of_joined(words);
    }
    if words.len() > 6 {
        let first = words.take(6);
        assert forall|i: int| 0 <= i < first.len() implies !(#[trigger] first[i]).contains('-') by {
            assert(first[i] == words[i]);
        }
        lemma_pieces_of_joined(first);
    }
}

/// What a run leaves lies among its project's runs, under a name that tells
/// when it was launched and what it was; two launches leave different files.
pub proof fn law_artifacts_tell_their_launch(
    root: Seq<char>,
    project: Seq<char>,
    stem: Seq<char>,
    a: u64,
    b: u64,
    extension: Seq<char>,
)
    ensures
        (text::decimal(a as nat) + "-"@ + stem + "."@ + extension).is_suffix_of(
            transcript::artifact_path(root, project, stem, text::decimal(a as nat), extension),
        ),
        transcript::runs_path(root, project).is_prefix_of(
            transcript::artifact_path(root, project, stem, text::decimal(a as nat), extension),
        ),
        a != b ==> transcript::artifact_path(
            root,
            project,
            stem,
            text::decimal(a as nat),
            extension,
        ) != transcript::artifact_path(root, project, stem, text::decimal(b as nat), extension),
        transcript::runs_path(root, project) == path::joined(
            layout::corpus_path(root, project),
            "runs"@,
        ),
{
    let da = text::decimal(a as nat);
    let db = text::decimal(b as nat);
    text::lemma_decimal_value(a as nat);
    text::lemma_decimal_value(b as nat);
    assert(text::is_digit(da[0]) && text::is_digit(db[0]));
    let rest = "-"@ + stem + "."@ + extension;
    let na = da + "-"@ + stem + "."@ + extension;
    let nb = db + "-"@ + stem + "."@ + extension;
    assert(na =~= da + rest);
    assert(nb =~= db + rest);
    let whole = transcript::artifact_path(root, project, stem, da, extension);
    assert(na =~= whole.subrange(whole.len() - na.len(), whole.len() as int));
    assert(na[0] == da[0]);
    let all = transcript::runs_path(root, project);
    assert(all =~= whole.subrange(0, all.len() as int));
    if a != b {
        if da == db {
            text::law_decimals_differ(a as nat, b as nat);
        }
        let none = Seq::<char>::empty();
        text::lemma_middles_differ(none, da, db, rest);
        assert(none + da + rest =~= na);
        assert(none + db + rest =~= nb);
        assert(na[0] == da[0] && nb[0] == db[0]);
        let runs = transcript::runs_path(root, project);
        text::lemma_middles_differ(runs, na, nb, none);
        text::lemma_middles_differ(runs + "/"@, na, nb, none);
        assert(runs + na + none =~= runs + na);
        assert(runs + nb + none =~= runs + nb);
        assert(runs + "/"@ + na + none =~= runs + "/"@ + na);
        assert(runs + "/"@ + nb + none =~= runs + "/"@ + nb);
    }
}

/// The log of a piped run lies among the runs, and is named after its start,
/// what it was and its mission.
pub proof fn law_piped_logs_are_named(
    runs: Seq<char>,
    stamp: u64,
    stem: Seq<char>,
    agent: Seq<char>,
    model: Option<Seq<char>>,
    mission: Seq<char>,
)
    ensures
        (text::decimal(stamp as nat) + "-"@ + stem + "-"@ + transcript::mission_words(mission)
            + ".log"@).is_suffix_of(
            transcript::piped_log(runs, stamp, stem, agent, model, mission).0,
        ),
        runs.is_prefix_of(transcript::piped_log(runs, stamp, stem, agent, model, mission).0),
{
    let at = text::decimal(stamp as nat);
    text::lemma_decimal_value(stamp as nat);
    assert(text::is_digit(at[0]));
    let name = at + "-"@ + stem + "-"@ + transcript::mission_words(mission) + ".log"@;
    assert(name[0] == at[0]);
    let whole = transcript::piped_log(runs, stamp, stem, agent, model, mission).0;
    assert(name =~= whole.subrange(whole.len() - name.len(), whole.len() as int));
    assert(runs =~= whole.subrange(0, runs.len() as int));
}

/// A log's head tells agents, models and missions apart.
pub proof fn law_logs_tell_missions_apart(
    runs: Seq<char>,
    stamp: u64,
    stem: Seq<char>,
    agent: Seq<char>,
    model: Option<Seq<char>>,
    a: Seq<char>,
    b: Seq<char>,
)
    requires
        a != b,
    ensures
        transcript::piped_log(runs, stamp, stem, agent, model, a).1 != transcript::piped_log(
            runs,
            stamp,
            stem,
            agent,
            model,
            b,
        ).1,
        transcript::piped_log(runs, stamp, stem, a, model, b).1 != transcript::piped_log(
            runs,
            stamp,
            stem,
            b,
            model,
            b,
        ).1,
{
    let used = match model {
        Some(m) => m,
        None => "(default)"@,
    };
    let at = text::decimal(stamp as nat);
    let front = "# corpus run\n# agent: "@ + agent + "\n# model: "@ + used + "\n# started: "@ + at
        + "\n# mission: "@;
    text::lemma_middles_differ(front, a, b, "\n\n"@);
    let rest = "\n# model: "@ + used + "\n# started: "@ + at + "\n# mission: "@ + b + "\n\n"@;
    text::lemma_middles_differ("# corpus run\n# agent: "@, a, b, rest);
    assert("# corpus run\n# agent: "@ + a + rest =~= transcript::piped_log(
        runs,
        stamp,
        stem,
        a,
        model,
        b,
    ).1);
    assert("# corpus run\n# agent: "@ + b + rest =~= transcript::piped_log(
        runs,
        stamp,
        stem,
        b,
        model,
        b,
    ).1);
}

} // verus!
