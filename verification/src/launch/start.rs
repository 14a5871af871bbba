//! From a plan to a run: which backend carries it, what it is called, and what
//! it is started with.
use vstd::prelude::*;
use crate::error;
use crate::error::{Error, ErrorView};
use crate::launch::command;
use crate::launch::command::{BackendIdentity, LaunchEnvironment};
use crate::launch::plan;
use crate::launch::plan::{LaunchMode, LaunchPlan, ModeView, PlanView};
use crate::launch::session::{Backend, BackendView, RunSession, RunView, TuiBackend, TuiView};
use crate::launch::transcript;
use crate::path;
use crate::store::layout::Store;
use crate::store::missions::FileWrite;
use crate::store::naming;
use crate::text;

verus! {

// ---------------------------------------------------------------------
// Routing
// ---------------------------------------------------------------------

/// What carries a run.
#[derive(Debug, Clone, Copy, PartialEq, Eq, Structural)]
pub enum Route {
    Tui,
    Piped,
}

/// Whether a conversation can be opened again: only in a detached terminal.
pub open spec fn resume_check(tmux: bool) -> Result<(), ErrorView> {
    if tmux {
        Ok(())
    } else {
        Err(
            ErrorView::Store(
                "resume needs tmux — the piped backend has no session to re-open"@,
            ),
        )
    }
}

/// Can a conversation be opened again?
pub fn check_resume(tmux: bool) -> (r: Result<(), Error>)
    ensures
        error::verdict(r) == resume_check(tmux),
{
    if tmux {
        Ok(())
    } else {
        Err(
            Error::Store(
                "resume needs tmux — the piped backend has no session to re-open".to_owned(),
            ),
        )
    }
}

/// What carries a run of a mode, given whether detached terminals may be used.
pub open spec fn route_of(mode: ModeView, tmux: bool) -> Result<Route, ErrorView> {
    match mode {
        ModeView::Interactive => Ok(
            if tmux {
                Route::Tui
            } else {
                Route::Piped
            },
        ),
        ModeView::Resume { session_id } => match resume_check(tmux) {
            Ok(_) => Ok(Route::Tui),
            Err(e) => Err(e),
        },
        ModeView::Headless { append_to } => Ok(Route::Piped),
    }
}

/// What a choice of a route came to.
pub open spec fn route_outcome(r: Result<Route, Error>) -> Result<Route, ErrorView> {
    match r {
        Ok(route) => Ok(route),
        Err(e) => Err(e@),
    }
}

/// What carries the run that `plan` is for.
pub fn execute_plan(plan: &LaunchPlan, tmux: bool) -> (r: Result<Route, Error>)
    ensures
        route_outcome(r) == route_of(plan@.mode, tmux),
{
    match plan.mode() {
        LaunchMode::Interactive => Ok(
            if tmux {
                Route::Tui
            } else {
                Route::Piped
            },
        ),
        LaunchMode::Resume { .. } => match check_resume(tmux) {
            Ok(_) => Ok(Route::Tui),
            Err(e) => Err(e),
        },
        LaunchMode::Headless { .. } => Ok(Route::Piped),
    }
}

// ---------------------------------------------------------------------
// Detached terminals
// ---------------------------------------------------------------------

/// What a run in a detached terminal is called. The slug of its agent is its
/// identity; the name that the operator sees is another.
#[derive(Debug, PartialEq, Eq)]
pub struct TuiNames {
    pub agent_stem: String,
    pub session: String,
    pub export_json: String,
    pub raw: String,
    pub script: String,
}

/// What a run in a detached terminal is called, as plain values.
#[verifier::ext_equal]
pub struct NamesView {
    pub agent_stem: Seq<char>,
    pub session: Seq<char>,
    pub export_json: Seq<char>,
    pub raw: Seq<char>,
    pub script: Seq<char>,
}

impl View for TuiNames {
    type V = NamesView;

    open spec fn view(&self) -> NamesView {
        NamesView {
            agent_stem: self.agent_stem@,
            session: self.session@,
            export_json: self.export_json@,
            raw: self.raw@,
            script: self.script@,
        }
    }
}

/// The stem of the artifacts of a run in a terminal.
pub open spec fn tui_stem(plan: PlanView) -> Seq<char> {
    transcript::stem_of(naming::slug_of(plan.agent), plan.run_id)
}

/// The terminal session of a run that is launched at `stamp`.
pub open spec fn session_name(stem: Seq<char>, stamp: u64) -> Seq<char> {
    "corpus-"@ + stem + "-"@ + text::decimal(stamp as nat)
}

/// What a run in a detached terminal is called; scripts lie in `temp`.
pub open spec fn tui_names(root: Seq<char>, plan: PlanView, stamp: u64, temp: Seq<char>) -> Result<
    NamesView,
    ErrorView,
> {
    if plan.model is None {
        Err(ErrorView::Store("interactive launch plan has no model"@))
    } else {
        let stem = tui_stem(plan);
        let at = text::decimal(stamp as nat);
        Ok(
            NamesView {
                agent_stem: naming::slug_of(plan.agent),
                session: session_name(stem, stamp),
                export_json: transcript::artifact_path(root, plan.project, stem, at, "json"@),
                raw: transcript::artifact_path(root, plan.project, stem, at, "raw"@),
                script: path::joined(temp, session_name(stem, stamp) + ".sh"@),
            },
        )
    }
}

/// What the run that `plan` is for is called in a detached terminal, launched
/// at `stamp`. A run without a model is refused.
pub fn name_tui(store: &Store, plan: &LaunchPlan, stamp: u64, temp: &str) -> (r: Result<
    TuiNames,
    Error,
>)
    ensures
        error::outcome(r) == tui_names(store@.root, plan@, stamp, temp@),
{
    if plan.model().is_none() {
        return Err(Error::Store("interactive launch plan has no model".to_owned()));
    }
    let agent_stem = naming::slugify(plan.agent());
    let stem = transcript::artifact_stem(agent_stem.as_str(), plan.run_id());
    let at = text::decimal_of(stamp);
    let session = text::cat4("corpus-", stem.as_str(), "-", at.as_str());
    let script = path::join(temp, text::cat2(session.as_str(), ".sh").as_str());
    Ok(
        TuiNames {
            agent_stem,
            session,
            export_json: transcript::artifact_file(
                store,
                plan.project(),
                stem.as_str(),
                at.as_str(),
                "json",
            ),
            raw: transcript::artifact_file(
                store,
                plan.project(),
                stem.as_str(),
                at.as_str(),
                "raw",
            ),
            script,
        },
    )
}

/// What is settled before a run in a detached terminal is started.
#[derive(Debug, PartialEq, Eq)]
pub struct TuiInputs {
    pub opencode: String,
    pub handle: String,
    pub control_port: Option<u16>,
    pub control_password: Option<String>,
    pub workspace_id: String,
    pub repo: String,
    /// Taken before the start, so that no conversation of the run is older.
    pub launched_at_ms: u64,
}

/// What a run in a detached terminal is started with.
#[derive(Debug, PartialEq, Eq)]
pub struct TuiLaunch {
    pub environment: LaunchEnvironment,
    pub script: FileWrite,
    pub session: RunSession,
}

/// Does a run have a control endpoint? It does where it has an identity to
/// answer to.
pub fn wants_control(plan: &LaunchPlan) -> (r: bool)
    ensures
        r == (plan@.run_id is Some),
{
    plan.run_id().is_some()
}

/// A mission, where it says anything.
pub open spec fn prompt_of(mission: Seq<char>) -> Option<Seq<char>> {
    if text::trimmed(mission).len() == 0 {
        None
    } else {
        Some(mission)
    }
}

/// The name of a file at a path; empty where it has none.
pub open spec fn name_or_empty(file: Seq<char>) -> Seq<char> {
    match path::file_name_of(file) {
        Some(name) => name,
        None => Seq::empty(),
    }
}

/// The environment of a run in a detached terminal.
pub open spec fn tui_entries(
    root: Seq<char>,
    plan: PlanView,
    names: NamesView,
    opencode: Seq<char>,
    handle: Seq<char>,
    control_password: Option<Seq<char>>,
) -> Seq<(Seq<char>, Seq<char>)> {
    command::plan_entries(
        root,
        plan,
        opencode,
        names.agent_stem,
        handle,
        Some(name_or_empty(names.raw)),
        Some(names.session),
        control_password,
    )
}

/// The run that a launch in a detached terminal becomes.
pub open spec fn tui_run(plan: PlanView, names: NamesView, inputs: TuiInputs) -> RunView {
    RunView {
        transcript: names.export_json,
        backend: BackendView::Tui(
            TuiView {
                session: names.session,
                workspace_id: inputs.workspace_id@,
                control_port: inputs.control_port,
                tui_session_id: plan::resumed(plan.mode),
                launched_at_ms: inputs.launched_at_ms,
                stopped: false,
                exported: false,
                export_json: names.export_json,
                raw: names.raw,
                script: names.script,
                repo: inputs.repo@,
            },
        ),
    }
}

/// What the run that `plan` is for is started with in a detached terminal. A
/// run that resumes a conversation knows it from the start.
pub fn start_tui(store: &Store, plan: &LaunchPlan, names: TuiNames, inputs: TuiInputs) -> (r:
    TuiLaunch)
    ensures
        command::entry_views(r.environment.entries@) == tui_entries(
            store@.root,
            plan@,
            names@,
            inputs.opencode@,
            inputs.handle@,
            text::opt_text(inputs.control_password),
        ),
        r.script@ == (
            names@.script,
            command::script_text(
                command::entry_views(r.environment.entries@),
                prompt_of(plan@.mission),
                plan::resumed(plan@.mode),
                inputs.control_port,
            ),
        ),
        r.session@ == tui_run(plan@, names@, inputs),
{
    let ghost given = inputs;
    let ghost called = names@;
    let mission = plan.mission();
    let prompt = if text::trim(mission).as_str().is_empty() {
        None
    } else {
        Some(mission)
    };
    let log = match path::file_name(names.raw.as_str()) {
        Some(name) => name,
        None => String::new(),
    };
    let identity = BackendIdentity {
        opencode: inputs.opencode,
        agent_stem: names.agent_stem,
        handle: inputs.handle,
        run_log: Some(log),
        run_identity: Some(names.session.clone()),
        control_password: inputs.control_password,
    };
    let environment = LaunchEnvironment::from_plan(store, plan, &identity);
    let resume = plan.resume_session();
    let body = command::tui_script(&environment.entries, prompt, resume, inputs.control_port);
    let known = match resume {
        Some(id) => Some(id.to_owned()),
        None => None,
    };
    let backend = TuiBackend {
        session: names.session,
        workspace_id: inputs.workspace_id,
        control_port: inputs.control_port,
        tui_session_id: known,
        launched_at_ms: inputs.launched_at_ms,
        stopped: false,
        exported: false,
        export_json: names.export_json.clone(),
        raw: names.raw,
        script: names.script.clone(),
        repo: inputs.repo,
    };
    assert(backend@ == tui_run(plan@, called, given).backend->Tui_0);
    TuiLaunch {
        environment,
        script: FileWrite { path: names.script, text: body },
        session: RunSession { transcript: names.export_json, backend: Backend::Tui(backend) },
    }
}

// ---------------------------------------------------------------------
// Piped runs
// ---------------------------------------------------------------------

/// The transcript of a piped run.
#[derive(Debug, PartialEq, Eq)]
pub enum PipedLog {
    /// It is there already and is appended to.
    Append(String),
    /// It is begun.
    Create(FileWrite),
}

/// The transcript of a piped run, as plain values.
pub enum PipedLogView {
    Append(Seq<char>),
    Create((Seq<char>, Seq<char>)),
}

impl View for PipedLog {
    type V = PipedLogView;

    open spec fn view(&self) -> PipedLogView {
        match *self {
            PipedLog::Append(path) => PipedLogView::Append(path@),
            PipedLog::Create(file) => PipedLogView::Create(file@),
        }
    }
}

/// The transcript of a piped run that is launched at `stamp`.
pub open spec fn piped_transcript(root: Seq<char>, plan: PlanView, stamp: u64) -> PipedLogView {
    match plan::appended(plan.mode) {
        Some(path) => PipedLogView::Append(path),
        None => PipedLogView::Create(
            transcript::piped_log(
                transcript::runs_path(root, plan.project),
                stamp,
                transcript::stem_of(plan.agent, plan.run_id),
                plan.agent,
                plan.model,
                plan.mission,
            ),
        ),
    }
}

/// The transcript of the piped run that `plan` is for.
pub fn piped_log(store: &Store, plan: &LaunchPlan, stamp: u64) -> (r: PipedLog)
    ensures
        r@ == piped_transcript(store@.root, plan@, stamp),
{
    match plan.append_to() {
        Some(path) => PipedLog::Append(path.to_owned()),
        None => PipedLog::Create(
            transcript::create_piped(
                transcript::runs_dir(store, plan.project()).as_str(),
                stamp,
                transcript::artifact_stem(plan.agent(), plan.run_id()).as_str(),
                plan.agent(),
                plan.model(),
                plan.mission(),
            ),
        ),
    }
}

/// What a piped run is started with.
#[derive(Debug, PartialEq, Eq)]
pub struct PipedLaunch {
    pub environment: LaunchEnvironment,
    pub args: Vec<String>,
    pub session: RunSession,
}

/// What the piped run that `plan` is for is started with; `transcript` is its
/// log, whose name is also what the run is known by.
pub fn start_piped(
    store: &Store,
    plan: &LaunchPlan,
    opencode: &str,
    handle: &str,
    transcript: &str,
) -> (r: PipedLaunch)
    ensures
        command::entry_views(r.environment.entries@) == command::plan_entries(
            store@.root,
            plan@,
            opencode@,
            naming::slug_of(plan@.agent),
            handle@,
            path::file_name_of(transcript@),
            path::file_name_of(transcript@),
            None,
        ),
        text::texts(r.args@) == command::run_args(handle@, plan@),
        r.session@ == (RunView { transcript: transcript@, backend: BackendView::Piped }),
{
    let identity = BackendIdentity {
        opencode: opencode.to_owned(),
        agent_stem: naming::slugify(plan.agent()),
        handle: handle.to_owned(),
        run_log: path::file_name(transcript),
        run_identity: path::file_name(transcript),
        control_password: None,
    };
    PipedLaunch {
        environment: LaunchEnvironment::from_plan(store, plan, &identity),
        args: command::opencode_args(handle, plan),
        session: RunSession { transcript: transcript.to_owned(), backend: Backend::Piped },
    }
}

// ---------------------------------------------------------------------
// Laws
// ---------------------------------------------------------------------

/// A run that is to be resumed is never started without a terminal, and one
/// that is headless never in one.
pub proof fn law_routes_fit_their_modes(mode: ModeView, tmux: bool)
    ensures
        mode is Resume ==> (route_of(mode, tmux) == Ok::<Route, ErrorView>(Route::Tui)) == tmux
            && route_of(mode, tmux) != Ok::<Route, ErrorView>(Route::Piped),
        mode is Headless ==> route_of(mode, tmux) == Ok::<Route, ErrorView>(Route::Piped),
        mode is Interactive ==> route_of(mode, tmux) is Ok,
{
}

/// The terminal session of a run leads back to the run's raw capture and to
/// the moment of its launch.
pub proof fn law_session_leads_to_its_capture(
    root: Seq<char>,
    plan: PlanView,
    stamp: u64,
    temp: Seq<char>,
)
    requires
        plan.model is Some,
        tui_stem(plan).len() > 0,
    ensures
        ({
            let names = tui_names(root, plan, stamp, temp)->Ok_0;
            transcript::session_parts(names.session) matches Some(parts) && {
                &&& names.raw == transcript::artifact_path(
                    root,
                    plan.project,
                    parts.0,
                    parts.1,
                    "raw"@,
                )
                &&& text::parsed_u64(parts.1) == Some(stamp)
            }
        }),
{
    transcript::law_session_names_its_run(tui_stem(plan), stamp);
}

/// However a run is started, it carries the identity of its agent, which its
/// role is resolved from: both backends export the same slug.
pub proof fn law_both_backends_carry_the_agent(
    root: Seq<char>,
    plan: PlanView,
    stamp: u64,
    temp: Seq<char>,
    opencode: Seq<char>,
    handle: Seq<char>,
    password: Option<Seq<char>>,
    transcript: Seq<char>,
)
    requires
        plan.model is Some,
    ensures
        tui_entries(
            root,
            plan,
            tui_names(root, plan, stamp, temp)->Ok_0,
            opencode,
            handle,
            password,
        ).contains(("CORPUS_OPENCODE_AGENT"@, naming::slug_of(plan.agent))),
        command::plan_entries(
            root,
            plan,
            opencode,
            naming::slug_of(plan.agent),
            handle,
            path::file_name_of(transcript),
            path::file_name_of(transcript),
            None,
        ).contains(("CORPUS_OPENCODE_AGENT"@, naming::slug_of(plan.agent))),
{
    let names = tui_names(root, plan, stamp, temp)->Ok_0;
    command::law_environment_carries_identity(
        root,
        plan,
        opencode,
        names.agent_stem,
        handle,
        Some(name_or_empty(names.raw)),
        Some(names.session),
        password,
    );
    command::law_environment_carries_identity(
        root,
        plan,
        opencode,
        naming::slug_of(plan.agent),
        handle,
        path::file_name_of(transcript),
        path::file_name_of(transcript),
        None,
    );
}

} // verus!
