//! What one launch is: its identity and inputs, fixed before anything is
//! started.
use vstd::prelude::*;
use crate::environment_session::{EnvironmentSessionId, SessionIdView};
use crate::text;

verus! {

/// How a launch is carried out.
#[derive(Debug, PartialEq, Eq)]
pub enum LaunchMode {
    /// In a detached terminal, or piped where there is none.
    Interactive,
    /// An existing conversation, in a detached terminal.
    Resume { session_id: String },
    /// Piped, appending to a transcript where one is given.
    Headless { append_to: Option<String> },
}

/// How a launch is carried out, as plain values.
pub enum ModeView {
    Interactive,
    Resume { session_id: Seq<char> },
    Headless { append_to: Option<Seq<char>> },
}

impl View for LaunchMode {
    type V = ModeView;

    open spec fn view(&self) -> ModeView {
        match *self {
            LaunchMode::Interactive => ModeView::Interactive,
            LaunchMode::Resume { session_id } => ModeView::Resume { session_id: session_id@ },
            LaunchMode::Headless { append_to } => ModeView::Headless {
                append_to: text::opt_text(append_to),
            },
        }
    }
}

/// The intent of one launch. Its fields are its own: nothing that starts it
/// can rewrite its identity midway.
#[derive(Debug, PartialEq, Eq)]
pub struct LaunchPlan {
    project: String,
    agent: String,
    model: Option<String>,
    mission: String,
    source_pins_json: Option<String>,
    environment_session: Option<String>,
    run_id: Option<EnvironmentSessionId>,
    mode: LaunchMode,
}

/// The intent of one launch, as plain values.
pub struct PlanView {
    pub project: Seq<char>,
    pub agent: Seq<char>,
    pub model: Option<Seq<char>>,
    pub mission: Seq<char>,
    pub source_pins_json: Option<Seq<char>>,
    pub environment_session: Option<Seq<char>>,
    pub run_id: Option<SessionIdView>,
    pub mode: ModeView,
}

/// What an optional id holds.
pub open spec fn opt_id(id: Option<EnvironmentSessionId>) -> Option<SessionIdView> {
    match id {
        Some(id) => Some(id@),
        None => None,
    }
}

/// What an optional reference to an id holds.
pub open spec fn opt_id_ref(id: Option<&EnvironmentSessionId>) -> Option<SessionIdView> {
    match id {
        Some(id) => Some(id@),
        None => None,
    }
}

impl View for LaunchPlan {
    type V = PlanView;

    closed spec fn view(&self) -> PlanView {
        PlanView {
            project: self.project@,
            agent: self.agent@,
            model: text::opt_text(self.model),
            mission: self.mission@,
            source_pins_json: text::opt_text(self.source_pins_json),
            environment_session: text::opt_text(self.environment_session),
            run_id: opt_id(self.run_id),
            mode: self.mode@,
        }
    }
}

/// A run's identity belongs to the project that it is launched in.
pub open spec fn is_of_project(run_id: Option<SessionIdView>, project: Seq<char>) -> bool {
    match run_id {
        Some(id) => id.project == project,
        None => true,
    }
}

/// An owned copy of an optional text.
fn owned(s: Option<&str>) -> (r: Option<String>)
    ensures
        text::opt_text(r) == text::opt_str(s),
{
    match s {
        Some(s) => Some(s.to_owned()),
        None => None,
    }
}

impl LaunchPlan {
    /// A launch with a fresh conversation.
    pub fn interactive(
        project: &str,
        agent: &str,
        model: String,
        mission: &str,
        source_pins_json: Option<&str>,
        environment_session: Option<&str>,
        run_id: Option<&EnvironmentSessionId>,
    ) -> (r: LaunchPlan)
        requires
            is_of_project(opt_id_ref(run_id), project@),
        ensures
            r@ == (PlanView {
                project: project@,
                agent: agent@,
                model: Some(model@),
                mission: mission@,
                source_pins_json: text::opt_str(source_pins_json),
                environment_session: text::opt_str(environment_session),
                run_id: opt_id_ref(run_id),
                mode: ModeView::Interactive,
            }),
    {
        Self::new(
            project,
            agent,
            Some(model),
            mission,
            source_pins_json,
            environment_session,
            run_id,
            LaunchMode::Interactive,
        )
    }

    /// A launch of an existing conversation.
    pub fn resume(
        project: &str,
        agent: &str,
        model: String,
        session_id: &str,
        source_pins_json: Option<&str>,
        environment_session: Option<&str>,
        run_id: Option<&EnvironmentSessionId>,
    ) -> (r: LaunchPlan)
        requires
            is_of_project(opt_id_ref(run_id), project@),
        ensures
            r@ == (PlanView {
                project: project@,
                agent: agent@,
                model: Some(model@),
                mission: Seq::empty(),
                source_pins_json: text::opt_str(source_pins_json),
                environment_session: text::opt_str(environment_session),
                run_id: opt_id_ref(run_id),
                mode: ModeView::Resume { session_id: session_id@ },
            }),
    {
        Self::new(
            project,
            agent,
            Some(model),
            String::new().as_str(),
            source_pins_json,
            environment_session,
            run_id,
            LaunchMode::Resume { session_id: session_id.to_owned() },
        )
    }

    /// A piped launch; it has no identity to answer to.
    pub fn headless(
        project: &str,
        agent: &str,
        model: Option<&str>,
        mission: &str,
        append_to: Option<&str>,
        source_pins_json: Option<&str>,
        environment_session: Option<&str>,
    ) -> (r: LaunchPlan)
        ensures
            r@ == (PlanView {
                project: project@,
                agent: agent@,
                model: text::opt_str(model),
                mission: mission@,
                source_pins_json: text::opt_str(source_pins_json),
                environment_session: text::opt_str(environment_session),
                run_id: None,
                mode: ModeView::Headless { append_to: text::opt_str(append_to) },
            }),
    {
        Self::new(
            project,
            agent,
            owned(model),
            mission,
            source_pins_json,
            environment_session,
            None,
            LaunchMode::Headless { append_to: owned(append_to) },
        )
    }

    fn new(
        project: &str,
        agent: &str,
        model: Option<String>,
        mission: &str,
        source_pins_json: Option<&str>,
        environment_session: Option<&str>,
        run_id: Option<&EnvironmentSessionId>,
        mode: LaunchMode,
    ) -> (r: LaunchPlan)
        ensures
            r@ == (PlanView {
                project: project@,
                agent: agent@,
                model: text::opt_text(model),
                mission: mission@,
                source_pins_json: text::opt_str(source_pins_json),
                environment_session: text::opt_str(environment_session),
                run_id: opt_id_ref(run_id),
                mode: mode@,
            }),
    {
        LaunchPlan {
            project: project.to_owned(),
            agent: agent.to_owned(),
            model,
            mission: mission.to_owned(),
            source_pins_json: owned(source_pins_json),
            environment_session: owned(environment_session),
            run_id: match run_id {
                Some(id) => Some(id.copy()),
                None => None,
            },
            mode,
        }
    }

    /// The project.
    pub fn project(&self) -> (r: &str)
        ensures
            r@ == self@.project,
    {
        self.project.as_str()
    }

    /// The slug of the agent.
    pub fn agent(&self) -> (r: &str)
        ensures
            r@ == self@.agent,
    {
        self.agent.as_str()
    }

    /// The model.
    pub fn model(&self) -> (r: Option<&str>)
        ensures
            text::opt_str(r) == self@.model,
    {
        text::borrowed(&self.model)
    }

    /// The mission.
    pub fn mission(&self) -> (r: &str)
        ensures
            r@ == self@.mission,
    {
        self.mission.as_str()
    }

    /// The commits of the sources, as JSON.
    pub fn source_pins_json(&self) -> (r: Option<&str>)
        ensures
            text::opt_str(r) == self@.source_pins_json,
    {
        text::borrowed(&self.source_pins_json)
    }

    /// The environment session.
    pub fn environment_session(&self) -> (r: Option<&str>)
        ensures
            text::opt_str(r) == self@.environment_session,
    {
        text::borrowed(&self.environment_session)
    }

    /// The run's identity.
    pub fn run_id(&self) -> (r: Option<&EnvironmentSessionId>)
        ensures
            opt_id_ref(r) == self@.run_id,
    {
        match &self.run_id {
            Some(id) => Some(id),
            None => None,
        }
    }

    /// How it is carried out.
    pub fn mode(&self) -> (r: &LaunchMode)
        ensures
            r@ == self@.mode,
    {
        &self.mode
    }

    /// The conversation to resume.
    pub fn resume_session(&self) -> (r: Option<&str>)
        ensures
            text::opt_str(r) == resumed(self@.mode),
    {
        match &self.mode {
            LaunchMode::Resume { session_id } => Some(session_id.as_str()),
            _ => None,
        }
    }

    /// The transcript to append to.
    pub fn append_to(&self) -> (r: Option<&str>)
        ensures
            text::opt_str(r) == appended(self@.mode),
    {
        match &self.mode {
            LaunchMode::Headless { append_to } => text::borrowed(append_to),
            _ => None,
        }
    }
}

/// The conversation that a mode resumes.
pub open spec fn resumed(mode: ModeView) -> Option<Seq<char>> {
    match mode {
        ModeView::Resume { session_id } => Some(session_id),
        _ => None,
    }
}

/// The transcript that a mode appends to.
pub open spec fn appended(mode: ModeView) -> Option<Seq<char>> {
    match mode {
        ModeView::Headless { append_to } => append_to,
        _ => None,
    }
}

/// The inputs of one way of launching never reach another: no launch both
/// resumes a conversation and appends to a transcript.
pub proof fn law_modes_do_not_overlap(mode: ModeView)
    ensures
        !(resumed(mode) is Some && appended(mode) is Some),
        resumed(mode) is Some <==> mode is Resume,
        appended(mode) is Some ==> mode is Headless,
{
}

} // verus!
