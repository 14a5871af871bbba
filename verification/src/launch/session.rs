//! A run that is under way: what is known of it, and how it ends.
use vstd::prelude::*;
use crate::error;
use crate::error::{Error, ErrorView};
use crate::launch::tmux;
use crate::path;
use crate::text;

verus! {

/// What stopping a run came to. Whatever failed, the transcript is there.
#[derive(Debug, PartialEq, Eq)]
pub struct StopOutcome {
    pub transcript: String,
    pub export_error: Option<String>,
    pub cleanup_errors: Vec<String>,
}

/// What stopping a run came to, as plain values.
#[verifier::ext_equal]
pub struct StopView {
    pub transcript: Seq<char>,
    pub export_error: Option<Seq<char>>,
    pub cleanup_errors: Seq<Seq<char>>,
}

impl View for StopOutcome {
    type V = StopView;

    open spec fn view(&self) -> StopView {
        StopView {
            transcript: self.transcript@,
            export_error: text::opt_text(self.export_error),
            cleanup_errors: text::texts(self.cleanup_errors@),
        }
    }
}

/// A run in a detached terminal.
#[derive(Debug, PartialEq, Eq)]
pub struct TuiBackend {
    /// The terminal session.
    pub session: String,
    /// The workspace that the conversation belongs to.
    pub workspace_id: String,
    pub control_port: Option<u16>,
    /// The conversation, once it is known.
    pub tui_session_id: Option<String>,
    pub launched_at_ms: u64,
    pub stopped: bool,
    pub exported: bool,
    pub export_json: String,
    pub raw: String,
    pub script: String,
    pub repo: String,
}

/// A run in a detached terminal, as plain values.
#[verifier::ext_equal]
pub struct TuiView {
    pub session: Seq<char>,
    pub workspace_id: Seq<char>,
    pub control_port: Option<u16>,
    pub tui_session_id: Option<Seq<char>>,
    pub launched_at_ms: u64,
    pub stopped: bool,
    pub exported: bool,
    pub export_json: Seq<char>,
    pub raw: Seq<char>,
    pub script: Seq<char>,
    pub repo: Seq<char>,
}

impl View for TuiBackend {
    type V = TuiView;

    open spec fn view(&self) -> TuiView {
        TuiView {
            session: self.session@,
            workspace_id: self.workspace_id@,
            control_port: self.control_port,
            tui_session_id: text::opt_text(self.tui_session_id),
            launched_at_ms: self.launched_at_ms,
            stopped: self.stopped,
            exported: self.exported,
            export_json: self.export_json@,
            raw: self.raw@,
            script: self.script@,
            repo: self.repo@,
        }
    }
}

/// What carries a run.
#[derive(Debug, PartialEq, Eq)]
pub enum Backend {
    Tui(TuiBackend),
    Piped,
}

/// What carries a run, as plain values.
pub enum BackendView {
    Tui(TuiView),
    Piped,
}

impl View for Backend {
    type V = BackendView;

    open spec fn view(&self) -> BackendView {
        match *self {
            Backend::Tui(tui) => BackendView::Tui(tui@),
            Backend::Piped => BackendView::Piped,
        }
    }
}

/// A run that is under way.
#[derive(Debug, PartialEq, Eq)]
pub struct RunSession {
    /// The record of a run in a terminal, or the log of a piped one.
    pub transcript: String,
    pub backend: Backend,
}

/// A run that is under way, as plain values.
pub struct RunView {
    pub transcript: Seq<char>,
    pub backend: BackendView,
}

impl View for RunSession {
    type V = RunView;

    open spec fn view(&self) -> RunView {
        RunView { transcript: self.transcript@, backend: self.backend@ }
    }
}

/// How often a conversation is looked for, in milliseconds.
pub const DISCOVERY_INTERVAL: u64 = 1000;

/// What is to be done to know a run's conversation.
#[derive(Debug, PartialEq, Eq)]
pub enum Lookup {
    /// It is known.
    Known(String),
    /// It is to be looked for in this directory, from this moment on.
    Search { directory: String, since: u64 },
    /// Nothing, for now or ever.
    Wait,
}

/// What is to be done to know a run's conversation, as plain values.
pub enum LookupView {
    Known(Seq<char>),
    Search { directory: Seq<char>, since: u64 },
    Wait,
}

impl View for Lookup {
    type V = LookupView;

    open spec fn view(&self) -> LookupView {
        match *self {
            Lookup::Known(id) => LookupView::Known(id@),
            Lookup::Search { directory, since } => LookupView::Search {
                directory: directory@,
                since,
            },
            Lookup::Wait => LookupView::Wait,
        }
    }
}

/// What is to be done to know a conversation that was last looked for `elapsed`
/// milliseconds ago.
pub open spec fn lookup_of(run: RunView, elapsed: u64) -> LookupView {
    match run.backend {
        BackendView::Piped => LookupView::Wait,
        BackendView::Tui(tui) => match tui.tui_session_id {
            Some(id) => LookupView::Known(id),
            None => if elapsed < DISCOVERY_INTERVAL {
                LookupView::Wait
            } else {
                LookupView::Search { directory: tui.repo, since: tui.launched_at_ms }
            },
        },
    }
}

/// The run once its conversation is known.
pub open spec fn with_conversation(run: RunView, found: Option<Seq<char>>) -> RunView {
    match (run.backend, found) {
        (BackendView::Tui(tui), Some(id)) => RunView {
            transcript: run.transcript,
            backend: BackendView::Tui(TuiView { tui_session_id: Some(id), ..tui }),
        },
        _ => run,
    }
}

/// What is to be done for the transcript of a run.
#[derive(Debug, PartialEq, Eq)]
pub enum ExportNeed {
    /// It is this file.
    Ready(String),
    /// The conversation is to be exported, from this directory into that of
    /// the run logs.
    Export { session: String, directory: String, runs: String },
    /// The conversation is to be looked for first.
    Search { directory: String, since: u64 },
}

/// What is to be done for the transcript of a run, as plain values.
pub enum NeedView {
    Ready(Seq<char>),
    Export { session: Seq<char>, directory: Seq<char>, runs: Seq<char> },
    Search { directory: Seq<char>, since: u64 },
}

impl View for ExportNeed {
    type V = NeedView;

    open spec fn view(&self) -> NeedView {
        match *self {
            ExportNeed::Ready(path) => NeedView::Ready(path@),
            ExportNeed::Export { session, directory, runs } => NeedView::Export {
                session: session@,
                directory: directory@,
                runs: runs@,
            },
            ExportNeed::Search { directory, since } => NeedView::Search {
                directory: directory@,
                since,
            },
        }
    }
}

/// What exporting a conversation needs.
pub open spec fn export_of(tui: TuiView, session: Seq<char>) -> Result<NeedView, ErrorView> {
    match path::parent_of(tui.export_json) {
        Some(runs) => Ok(NeedView::Export { session, directory: tui.repo, runs }),
        None => Err(ErrorView::Store("export path has no runs dir"@)),
    }
}

/// What is to be done for the transcript of a run.
pub open spec fn export_need(run: RunView) -> Result<NeedView, ErrorView> {
    match run.backend {
        BackendView::Piped => Ok(NeedView::Ready(run.transcript)),
        BackendView::Tui(tui) => if tui.exported {
            Ok(NeedView::Ready(tui.export_json))
        } else {
            match tui.tui_session_id {
                Some(id) => export_of(tui, id),
                None => Ok(
                    NeedView::Search { directory: tui.repo, since: tui.launched_at_ms },
                ),
            }
        },
    }
}

/// What is to be done for the transcript of a run whose conversation was looked
/// for.
pub open spec fn need_after_search(run: RunView, found: Option<Seq<char>>) -> Result<
    NeedView,
    ErrorView,
> {
    match (run.backend, found) {
        (BackendView::Piped, _) => Ok(NeedView::Ready(run.transcript)),
        (BackendView::Tui(tui), None) => Ok(NeedView::Ready(tui.raw)),
        (BackendView::Tui(tui), Some(id)) => export_of(tui, id),
    }
}

/// The run once its record is at `path`.
pub open spec fn with_record(run: RunView, path: Seq<char>) -> RunView {
    match run.backend {
        BackendView::Tui(tui) => RunView {
            transcript: run.transcript,
            backend: BackendView::Tui(TuiView { export_json: path, exported: true, ..tui }),
        },
        BackendView::Piped => run,
    }
}

/// What stopping a run came to.
pub open spec fn stop_outcome(
    run: RunView,
    cleanup: Seq<Seq<char>>,
    exported: Result<Seq<char>, ErrorView>,
) -> StopView {
    match run.backend {
        BackendView::Piped => StopView {
            transcript: run.transcript,
            export_error: None,
            cleanup_errors: cleanup,
        },
        BackendView::Tui(tui) => match exported {
            Ok(path) => StopView {
                transcript: path,
                export_error: None,
                cleanup_errors: cleanup,
            },
            Err(e) => StopView {
                transcript: tui.raw,
                export_error: Some("transcript export failed: "@ + error::shown(e)),
                cleanup_errors: cleanup,
            },
        },
    }
}

/// The run once it was stopped.
pub open spec fn once_stopped(run: RunView) -> RunView {
    match run.backend {
        BackendView::Tui(tui) => RunView {
            transcript: run.transcript,
            backend: BackendView::Tui(TuiView { stopped: true, ..tui }),
        },
        BackendView::Piped => run,
    }
}

/// The code that a run in a terminal exited with, if it is over.
pub open spec fn exit_code(stopped: bool, live: bool) -> Option<i32> {
    if stopped {
        Some(130)
    } else if !live {
        Some(0)
    } else {
        None
    }
}

/// What exporting a conversation needs.
fn need_export(tui: &TuiBackend, session: &str) -> (r: Result<ExportNeed, Error>)
    ensures
        error::outcome(r) == export_of(tui@, session@),
{
    match path::parent(tui.export_json.as_str()) {
        Some(runs) => Ok(
            ExportNeed::Export { session: session.to_owned(), directory: tui.repo.clone(), runs },
        ),
        None => Err(Error::Store("export path has no runs dir".to_owned())),
    }
}

impl RunSession {
    /// What the run is known by: its terminal session, or the name of its log.
    pub fn launch_identity(&self) -> (r: Option<String>)
        ensures
            text::opt_text(r) == (match self@.backend {
                BackendView::Tui(tui) => Some(tui.session),
                BackendView::Piped => path::file_name_of(self@.transcript),
            }),
    {
        match &self.backend {
            Backend::Tui(tui) => Some(tui.session.clone()),
            Backend::Piped => path::file_name(self.transcript.as_str()),
        }
    }

    /// The port of the run's control endpoint.
    pub fn control_port(&self) -> (r: Option<u16>)
        ensures
            r == (match self@.backend {
                BackendView::Tui(tui) => tui.control_port,
                BackendView::Piped => None,
            }),
    {
        match &self.backend {
            Backend::Tui(tui) => tui.control_port,
            Backend::Piped => None,
        }
    }

    /// The workspace that the run's conversation belongs to.
    pub fn workspace_id(&self) -> (r: Option<String>)
        ensures
            text::opt_text(r) == (match self@.backend {
                BackendView::Tui(tui) => Some(tui.workspace_id),
                BackendView::Piped => None,
            }),
    {
        match &self.backend {
            Backend::Tui(tui) => Some(tui.workspace_id.clone()),
            Backend::Piped => None,
        }
    }

    /// What is to be done to know the run's conversation, which was last looked
    /// for `elapsed` milliseconds ago.
    pub fn lookup(&self, elapsed: u64) -> (r: Lookup)
        ensures
            r@ == lookup_of(self@, elapsed),
    {
        match &self.backend {
            Backend::Piped => Lookup::Wait,
            Backend::Tui(tui) => match &tui.tui_session_id {
                Some(id) => Lookup::Known(id.clone()),
                None => if elapsed < DISCOVERY_INTERVAL {
                    Lookup::Wait
                } else {
                    Lookup::Search { directory: tui.repo.clone(), since: tui.launched_at_ms }
                },
            },
        }
    }

    /// The run's conversation, after it was looked for; what was found is kept.
    pub fn opencode_session_id(&mut self, found: Option<String>) -> (r: Option<String>)
        ensures
            final(self)@ == with_conversation(old(self)@, text::opt_text(found)),
            text::opt_text(r) == (match old(self)@.backend {
                BackendView::Tui(_) => text::opt_text(found),
                BackendView::Piped => None,
            }),
    {
        match &mut self.backend {
            Backend::Piped => None,
            Backend::Tui(tui) => match found {
                Some(id) => {
                    tui.tui_session_id = Some(id.clone());
                    Some(id)
                },
                None => None,
            },
        }
    }

    /// The code that the run exited with, if it is over: `live` says whether
    /// its terminal is there, `exited` what its process exited with.
    pub fn try_exit(&self, live: bool, exited: Option<i32>) -> (r: Option<i32>)
        ensures
            r == (match self@.backend {
                BackendView::Piped => exited,
                BackendView::Tui(tui) => exit_code(tui.stopped, live),
            }),
    {
        match &self.backend {
            Backend::Piped => exited,
            Backend::Tui(tui) => if tui.stopped {
                Some(130)
            } else if !live {
                Some(0)
            } else {
                None
            },
        }
    }

    /// The command that attaches an embedded terminal to the run.
    pub fn pty_attach_command(&self, tmux: Option<&str>) -> (r: Option<Vec<String>>)
        ensures
            tmux::opt_words(r) == (match (self@.backend, text::opt_str(tmux)) {
                (BackendView::Tui(tui), Some(tmux)) => Some(
                    tmux::attach_words(tmux, tui.session),
                ),
                _ => None,
            }),
    {
        match &self.backend {
            Backend::Piped => None,
            Backend::Tui(tui) => tmux::tui_attach_command(tmux, tui.session.as_str()),
        }
    }

    /// The command that opens a terminal of its own on the run: a desktop's
    /// where `desktop` says that there is one.
    pub fn attach_command(
        &self,
        tmux: Option<&str>,
        desktop: bool,
        asked: Option<&str>,
        in_use: Option<&str>,
    ) -> (r: Option<Vec<String>>)
        ensures
            tmux::opt_words(r) == (match (self@.backend, text::opt_str(tmux)) {
                (BackendView::Tui(tui), Some(tmux)) => Some(
                    if desktop {
                        tmux::desktop_words(
                            tmux,
                            tui.session,
                            tmux::terminal_app(text::opt_str(asked), text::opt_str(in_use)),
                        )
                    } else {
                        tmux::attach_words(tmux, tui.session)
                    },
                ),
                _ => None,
            }),
    {
        match (&self.backend, tmux) {
            (Backend::Tui(tui), Some(tmux)) => Some(
                if desktop {
                    tmux::external_attach_argv(tmux, tui.session.as_str(), asked, in_use)
                } else {
                    tmux::attach_argv(tmux, tui.session.as_str())
                },
            ),
            _ => None,
        }
    }

    /// What is to be done for the run's transcript.
    pub fn export_transcript(&self) -> (r: Result<ExportNeed, Error>)
        ensures
            error::outcome(r) == export_need(self@),
    {
        match &self.backend {
            Backend::Piped => Ok(ExportNeed::Ready(self.transcript.clone())),
            Backend::Tui(tui) => if tui.exported {
                Ok(ExportNeed::Ready(tui.export_json.clone()))
            } else {
                match &tui.tui_session_id {
                    Some(id) => need_export(tui, id.as_str()),
                    None => Ok(
                        ExportNeed::Search {
                            directory: tui.repo.clone(),
                            since: tui.launched_at_ms,
                        },
                    ),
                }
            },
        }
    }

    /// What is to be done for the run's transcript after its conversation was
    /// looked for; what was found is kept. Where none was, the raw capture is
    /// the transcript.
    pub fn searched(&mut self, found: Option<String>) -> (r: Result<ExportNeed, Error>)
        ensures
            final(self)@ == with_conversation(old(self)@, text::opt_text(found)),
            error::outcome(r) == need_after_search(old(self)@, text::opt_text(found)),
    {
        match &mut self.backend {
            Backend::Piped => Ok(ExportNeed::Ready(self.transcript.clone())),
            Backend::Tui(tui) => match found {
                None => Ok(ExportNeed::Ready(tui.raw.clone())),
                Some(id) => {
                    let need = need_export(tui, id.as_str());
                    tui.tui_session_id = Some(id);
                    need
                },
            },
        }
    }

    /// The run's record is at `path`.
    pub fn record_at(&mut self, path: &str)
        ensures
            final(self)@ == with_record(old(self)@, path@),
    {
        match &mut self.backend {
            Backend::Piped => {},
            Backend::Tui(tui) => {
                tui.export_json = path.to_owned();
                tui.exported = true;
            },
        }
    }

    /// What stopping the run came to, once its writer is stopped and its
    /// transcript was asked for. A failed export leaves the raw capture.
    pub fn stop_detailed(
        &mut self,
        cleanup_errors: Vec<String>,
        exported: Result<String, Error>,
    ) -> (r: StopOutcome)
        ensures
            r@ == stop_outcome(
                old(self)@,
                text::texts(cleanup_errors@),
                error::outcome(exported),
            ),
            final(self)@ == once_stopped(old(self)@),
    {
        match &mut self.backend {
            Backend::Piped => StopOutcome {
                transcript: self.transcript.clone(),
                export_error: None,
                cleanup_errors,
            },
            Backend::Tui(tui) => {
                tui.stopped = true;
                match exported {
                    Ok(path) => StopOutcome {
                        transcript: path,
                        export_error: None,
                        cleanup_errors,
                    },
                    Err(e) => StopOutcome {
                        transcript: tui.raw.clone(),
                        export_error: Some(
                            text::cat2("transcript export failed: ", e.message().as_str()),
                        ),
                        cleanup_errors,
                    },
                }
            },
        }
    }
}

/// What ending a run's terminal left behind: the session that stayed, and the
/// script that could not be removed. A script that is not there is no failure.
pub open spec fn close_report(
    killed: Result<(), ErrorView>,
    script: Seq<char>,
    removed: Option<Seq<char>>,
) -> Seq<Seq<char>> {
    (match killed {
        Ok(_) => Seq::empty(),
        Err(e) => seq![error::shown(e)],
    }) + (match removed {
        None => Seq::empty(),
        Some(e) => seq!["remove run script "@ + script + ": "@ + e],
    })
}

/// What ending a run's terminal left behind; `removed` is why its script could
/// not be removed, where that is not that it was gone.
pub fn close_tui_checked(killed: &Result<(), Error>, script: &str, removed: Option<&str>) -> (r: Vec<
    String,
>)
    ensures
        text::texts(r@) == close_report(
            error::verdict(*killed),
            script@,
            text::opt_str(removed),
        ),
{
    let mut out: Vec<String> = Vec::new();
    match killed {
        Ok(_) => {},
        Err(e) => {
            out.push(e.message());
        },
    }
    let ghost first = text::texts(out@);
    assert(first =~= (match error::verdict(*killed) {
        Ok(_) => Seq::empty(),
        Err(e) => seq![error::shown(e)],
    }));
    match removed {
        None => {
            assert(text::texts(out@) =~= first + Seq::<Seq<char>>::empty());
        },
        Some(e) => {
            out.push(text::cat4("remove run script ", script, ": ", e));
            assert(text::texts(out@) =~= first + seq![
                "remove run script "@ + script@ + ": "@ + e@,
            ]);
        },
    }
    out
}

// ---------------------------------------------------------------------
// Laws
// ---------------------------------------------------------------------

/// A run that was stopped is over, whatever its terminal does, and what is
/// known of its conversation and its files is kept.
pub proof fn law_stopped_runs_are_over(run: RunView, live: bool)
    ensures
        match (run.backend, once_stopped(run).backend) {
            (BackendView::Tui(before), BackendView::Tui(after)) => exit_code(after.stopped, live)
                == Some(130i32) && after.tui_session_id == before.tui_session_id && after.raw
                == before.raw && after.export_json == before.export_json,
            (BackendView::Piped, BackendView::Piped) => true,
            _ => false,
        },
{
}

/// Stopping a run always leaves a transcript: the record, or what the run wrote
/// by itself.
pub proof fn law_stop_keeps_a_transcript(
    run: RunView,
    cleanup: Seq<Seq<char>>,
    exported: Result<Seq<char>, ErrorView>,
)
    ensures
        match run.backend {
            BackendView::Piped => stop_outcome(run, cleanup, exported).transcript
                == run.transcript,
            BackendView::Tui(tui) => exported is Err ==> stop_outcome(
                run,
                cleanup,
                exported,
            ).transcript == tui.raw,
        },
        stop_outcome(run, cleanup, exported).cleanup_errors == cleanup,
{
}

/// A record is exported once: afterwards the transcript is ready.
pub proof fn law_record_is_exported_once(run: RunView, path: Seq<char>)
    requires
        run.backend is Tui,
    ensures
        export_need(with_record(run, path)) == Ok::<NeedView, ErrorView>(NeedView::Ready(path)),
{
}

/// A conversation that is known is not looked for again.
pub proof fn law_known_conversation_stays(run: RunView, id: Seq<char>, elapsed: u64)
    requires
        run.backend is Tui,
    ensures
        lookup_of(with_conversation(run, Some(id)), elapsed) == LookupView::Known(id),
        with_conversation(with_conversation(run, Some(id)), None) == with_conversation(
            run,
            Some(id),
        ),
{
}

} // verus!
