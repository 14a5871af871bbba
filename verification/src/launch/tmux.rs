//! What is asked of tmux, and what its answers come to.
use vstd::prelude::*;
use crate::error;
use crate::error::{Error, ErrorView};
use crate::launch::command;
use crate::text;

verus! {

/// The arguments that start a detached session.
pub open spec fn start_args(name: Seq<char>, cwd: Seq<char>, script: Seq<char>) -> Seq<Seq<char>> {
    seq!["new-session"@, "-d"@, "-s"@, name, "-c"@, cwd, script]
}

/// The arguments that start a detached session in `cwd`.
pub fn new_session_args(name: &str, cwd: &str, script: &str) -> (r: Vec<String>)
    ensures
        text::texts(r@) == start_args(name@, cwd@, script@),
{
    let mut out: Vec<String> = Vec::new();
    out.push("new-session".to_owned());
    out.push("-d".to_owned());
    out.push("-s".to_owned());
    out.push(name.to_owned());
    out.push("-c".to_owned());
    out.push(cwd.to_owned());
    out.push(script.to_owned());
    assert(text::texts(out@) =~= start_args(name@, cwd@, script@));
    out
}

/// What a pane is captured with.
pub open spec fn capture_line(raw: Seq<char>) -> Seq<char> {
    "cat >> "@ + command::shell_quoted(raw)
}

/// The command that a pane is captured with, appending to `raw`.
pub fn capture_command(raw: &str) -> (r: String)
    ensures
        r@ == capture_line(raw@),
{
    text::cat2("cat >> ", command::shell_quote(raw).as_str())
}

/// One call of tmux.
pub open spec fn call_views(v: Seq<Vec<String>>) -> Seq<Seq<Seq<char>>> {
    Seq::new(v.len(), |i: int| text::texts(v[i]@))
}

/// The calls that put the first `n` entries into a session's environment.
pub open spec fn environment_calls(
    name: Seq<char>,
    entries: Seq<(Seq<char>, Seq<char>)>,
    n: nat,
) -> Seq<Seq<Seq<char>>>
    decreases n,
{
    if n == 0 {
        Seq::empty()
    } else {
        environment_calls(name, entries, (n - 1) as nat).push(
            seq!["set-environment"@, "-t"@, name, entries[n - 1].0, entries[n - 1].1],
        )
    }
}

/// The calls that set up a session once it is there.
pub open spec fn setup_calls(
    name: Seq<char>,
    entries: Seq<(Seq<char>, Seq<char>)>,
    raw: Seq<char>,
) -> Seq<Seq<Seq<char>>> {
    environment_calls(name, entries, entries.len()).push(
        seq!["set-option"@, "-t"@, name, "mouse"@, "on"@],
    ).push(seq!["pipe-pane"@, "-t"@, name, capture_line(raw)])
}

/// The arguments of a call.
fn call5(a: &str, b: &str, c: &str, d: &str, e: &str) -> (r: Vec<String>)
    ensures
        text::texts(r@) == seq![a@, b@, c@, d@, e@],
{
    let mut out: Vec<String> = Vec::new();
    out.push(a.to_owned());
    out.push(b.to_owned());
    out.push(c.to_owned());
    out.push(d.to_owned());
    out.push(e.to_owned());
    assert(text::texts(out@) =~= seq![a@, b@, c@, d@, e@]);
    out
}

/// The calls that set up the session `name` once it is there. Each is a
/// convenience: the session stands whether or not they succeed.
pub fn session_setup(name: &str, environment: &command::LaunchEnvironment, raw: &str) -> (r: Vec<
    Vec<String>,
>)
    ensures
        call_views(r@) == setup_calls(
            name@,
            command::entry_views(environment.entries@),
            raw@,
        ),
{
    let entries = &environment.entries;
    let ghost views = command::entry_views(entries@);
    let mut out: Vec<Vec<String>> = Vec::new();
    let mut i: usize = 0;
    assert(call_views(out@) =~= environment_calls(name@, views, 0));
    while i < entries.len()
        invariant
            i <= entries@.len(),
            views == command::entry_views(entries@),
            call_views(out@) == environment_calls(name@, views, i as nat),
        decreases entries@.len() - i,
    {
        let ghost was = call_views(out@);
        assert(views[i as int] == (entries@[i as int].0@, entries@[i as int].1@));
        out.push(
            call5("set-environment", "-t", name, entries[i].0.as_str(), entries[i].1.as_str()),
        );
        assert(call_views(out@) =~= was.push(
            seq!["set-environment"@, "-t"@, name@, views[i as int].0, views[i as int].1],
        ));
        i = i + 1;
    }
    assert(views.len() == entries@.len());
    let ghost was = call_views(out@);
    out.push(call5("set-option", "-t", name, "mouse", "on"));
    let mut pipe: Vec<String> = Vec::new();
    pipe.push("pipe-pane".to_owned());
    pipe.push("-t".to_owned());
    pipe.push(name.to_owned());
    pipe.push(capture_command(raw));
    assert(text::texts(pipe@) =~= seq!["pipe-pane"@, "-t"@, name@, capture_line(raw@)]);
    out.push(pipe);
    assert(call_views(out@) =~= was.push(
        seq!["set-option"@, "-t"@, name@, "mouse"@, "on"@],
    ).push(seq!["pipe-pane"@, "-t"@, name@, capture_line(raw@)]));
    out
}

/// What asking tmux for a session came to.
#[derive(Debug, PartialEq, Eq)]
pub enum Started {
    /// There is no tmux any more.
    Missing,
    /// It could not be run.
    Failed(String),
    /// It ran and exited so.
    Exited { success: bool, status: String },
}

/// Whether a session is there.
pub open spec fn start_check(started: Started) -> Result<(), ErrorView> {
    match started {
        Started::Missing => Err(ErrorView::Store("tmux vanished"@)),
        Started::Failed(e) => Err(ErrorView::Store("failed to spawn tmux: "@ + e@)),
        Started::Exited { success, status } => if success {
            Ok(())
        } else {
            Err(ErrorView::Store("tmux refused the session: "@ + status@))
        },
    }
}

/// Whether a session that was asked for is there.
pub fn check_started(started: Started) -> (r: Result<(), Error>)
    ensures
        error::verdict(r) == start_check(started),
{
    match started {
        Started::Missing => Err(Error::Store("tmux vanished".to_owned())),
        Started::Failed(e) => Err(Error::Store(text::cat2("failed to spawn tmux: ", e.as_str()))),
        Started::Exited { success, status } => if success {
            Ok(())
        } else {
            Err(Error::Store(text::cat2("tmux refused the session: ", status.as_str())))
        },
    }
}

/// The command that attaches to a session.
pub open spec fn attach_words(tmux: Seq<char>, session: Seq<char>) -> Seq<Seq<char>> {
    seq![tmux, "attach"@, "-t"@, session]
}

/// The command that attaches to a session; the session is one argument.
pub fn attach_argv(tmux: &str, session: &str) -> (r: Vec<String>)
    ensures
        text::texts(r@) == attach_words(tmux@, session@),
{
    let mut out: Vec<String> = Vec::new();
    out.push(tmux.to_owned());
    out.push("attach".to_owned());
    out.push("-t".to_owned());
    out.push(session.to_owned());
    assert(text::texts(out@) =~= attach_words(tmux@, session@));
    out
}

/// What a command is, where there is one.
pub open spec fn opt_words(r: Option<Vec<String>>) -> Option<Seq<Seq<char>>> {
    match r {
        Some(words) => Some(text::texts(words@)),
        None => None,
    }
}

/// The command that attaches to a session, where there is a tmux.
pub fn tui_attach_command(tmux: Option<&str>, session: &str) -> (r: Option<Vec<String>>)
    ensures
        opt_words(r) == (match text::opt_str(tmux) {
            Some(tmux) => Some(attach_words(tmux, session@)),
            None => None,
        }),
{
    match tmux {
        Some(tmux) => Some(attach_argv(tmux, session)),
        None => None,
    }
}

/// The terminal application that a desktop opens: the one that is asked for,
/// else the one that is in use where it is known, else the system's own.
pub open spec fn terminal_app(asked: Option<Seq<char>>, in_use: Option<Seq<char>>) -> Seq<char> {
    match asked {
        Some(app) => app,
        None => if in_use == Some("iTerm2"@) {
            "iTerm"@
        } else if in_use == Some("WezTerm"@) {
            "WezTerm"@
        } else {
            "Terminal"@
        },
    }
}

/// The command that opens a desktop terminal on a session.
pub open spec fn desktop_words(tmux: Seq<char>, session: Seq<char>, app: Seq<char>) -> Seq<
    Seq<char>,
> {
    seq![
        "osascript"@,
        "-e"@,
        "tell application \""@ + app + "\" to activate"@,
        "-e"@,
        "tell application \""@ + app + "\" to do script \""@ + (tmux + " attach -t "@ + session)
            + "\""@,
    ]
}

/// The command that opens a desktop terminal on a session.
pub fn external_attach_argv(
    tmux: &str,
    session: &str,
    asked: Option<&str>,
    in_use: Option<&str>,
) -> (r: Vec<String>)
    ensures
        text::texts(r@) == desktop_words(
            tmux@,
            session@,
            terminal_app(text::opt_str(asked), text::opt_str(in_use)),
        ),
{
    let app = match asked {
        Some(app) => app,
        None => match in_use {
            Some(program) => if text::same(program, "iTerm2") {
                "iTerm"
            } else if text::same(program, "WezTerm") {
                "WezTerm"
            } else {
                "Terminal"
            },
            None => "Terminal",
        },
    };
    let attach = text::cat3(tmux, " attach -t ", session);
    call5(
        "osascript",
        "-e",
        text::cat3("tell application \"", app, "\" to activate").as_str(),
        "-e",
        text::cat5(
            "tell application \"",
            app,
            "\" to do script \"",
            attach.as_str(),
            "\"",
        ).as_str(),
    )
}

/// What asking tmux to end a session came to.
#[derive(Debug, PartialEq, Eq)]
pub enum Killed {
    /// There is no tmux.
    Unavailable,
    /// It could not be run.
    Failed(Error),
    /// It ended the session.
    Done,
    /// It exited with this status, and this is what asking for the session
    /// then came to.
    Refused { status: String, alive: Result<bool, Error> },
}

/// Whether a session is gone.
pub open spec fn kill_check(session: Seq<char>, killed: Killed) -> Result<(), ErrorView> {
    match killed {
        Killed::Unavailable => Err(
            ErrorView::Store("cannot stop tmux session: tmux is unavailable"@),
        ),
        Killed::Failed(e) => Err(e@),
        Killed::Done => Ok(()),
        Killed::Refused { status, alive } => match alive {
            Err(e) => Err(e@),
            Ok(false) => Ok(()),
            Ok(true) => Err(
                ErrorView::Store(
                    "tmux kill-session failed for "@ + session + " with "@ + status@
                        + "; session is still alive"@,
                ),
            ),
        },
    }
}

/// Whether a session that was to end is gone. It may have ended by itself: a
/// refusal is no failure where the session is not there.
pub fn kill_tmux_session_checked(session: &str, killed: Killed) -> (r: Result<(), Error>)
    ensures
        error::verdict(r) == kill_check(session@, killed),
{
    match killed {
        Killed::Unavailable => Err(
            Error::Store("cannot stop tmux session: tmux is unavailable".to_owned()),
        ),
        Killed::Failed(e) => Err(e),
        Killed::Done => Ok(()),
        Killed::Refused { status, alive } => match alive {
            Err(e) => Err(e),
            Ok(alive) => if alive {
                Err(
                    Error::Store(
                        text::cat5(
                            "tmux kill-session failed for ",
                            session,
                            " with ",
                            status.as_str(),
                            "; session is still alive",
                        ),
                    ),
                )
            } else {
                Ok(())
            },
        },
    }
}

/// What is known of a session's liveness.
#[derive(Debug, Clone, Copy, PartialEq, Eq, Structural)]
pub struct Liveness {
    /// When it was asked for, in milliseconds.
    pub asked_at: u64,
    pub live: bool,
}

/// How long an answer stands, in milliseconds.
pub const PROBE_INTERVAL: u64 = 1000;

impl Liveness {
    /// Is the answer too old to stand?
    pub fn is_stale(&self, now: u64) -> (r: bool)
        ensures
            r == (now - self.asked_at >= PROBE_INTERVAL),
    {
        now >= self.asked_at && now - self.asked_at >= PROBE_INTERVAL
    }

    /// The answer after a probe. One that could not be made leaves the session
    /// live: no trouble with the tools ever ends a run.
    pub fn probed(&mut self, now: u64, probe: Option<bool>) -> (r: bool)
        ensures
            r == (match probe {
                Some(live) => live,
                None => true,
            }),
            *final(self) == (Liveness { asked_at: now, live: r }),
    {
        let live = match probe {
            Some(live) => live,
            None => true,
        };
        self.asked_at = now;
        self.live = live;
        live
    }
}

// ---------------------------------------------------------------------
// Laws
// ---------------------------------------------------------------------

/// Ending a session succeeds only where it is gone: it was ended, or it was
/// asked for afterwards and was not there.
pub proof fn law_killed_sessions_are_gone(session: Seq<char>, killed: Killed)
    ensures
        kill_check(session, killed) is Ok <==> killed is Done || (killed matches Killed::Refused {
            alive,
            ..
        } && alive == Ok::<bool, Error>(false)),
{
}

/// A pane is captured into exactly the file that is meant, whatever its path
/// holds.
pub proof fn law_capture_names_its_file(raw: Seq<char>)
    ensures
        capture_line(raw).take(7) == "cat >> "@,
        command::shell_reads(capture_line(raw).skip(7), false) == Some(raw),
{
    reveal_strlit("cat >> ");
    assert(capture_line(raw).take(7) =~= "cat >> "@);
    assert(capture_line(raw).skip(7) =~= command::shell_quoted(raw));
    command::law_quoted_value_is_inert(raw);
}

} // verus!
