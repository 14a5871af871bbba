//! Environment sessions: what opening and closing one asks of its plugin, and
//! what its record says while and after that.
use vstd::prelude::*;
use crate::error;
use crate::error::{Error, ErrorView};
use crate::json;
use crate::json::{Json, JsonView};
use crate::path;
use crate::plugin::manifest;
use crate::plugin::manifest::PluginDir;
use crate::plugin::operation;
use crate::plugin::operation::{Decision, DecisionView, OperationStatus};
use crate::plugin::params;
use crate::table;
use crate::table::Table;
use crate::text;

verus! {

/// Whose session it is: a project's mission, in one generation.
#[derive(Debug, PartialEq, Eq)]
pub struct EnvironmentSessionId {
    pub project: String,
    pub mission: String,
    pub generation: u64,
}

/// Whose session it is, as plain values.
#[verifier::ext_equal]
pub struct SessionIdView {
    pub project: Seq<char>,
    pub mission: Seq<char>,
    pub generation: u64,
}

impl View for EnvironmentSessionId {
    type V = SessionIdView;

    open spec fn view(&self) -> SessionIdView {
        SessionIdView {
            project: self.project@,
            mission: self.mission@,
            generation: self.generation,
        }
    }
}

/// The name that a session is stored under. The lengths tell the parts apart.
pub open spec fn key_of(id: SessionIdView) -> Seq<char> {
    "p"@ + text::decimal(id.project.len()) + "-"@ + id.project + "-m"@ + text::decimal(
        id.mission.len(),
    ) + "-"@ + id.mission + "-g"@ + text::decimal(id.generation as nat)
}

impl EnvironmentSessionId {
    /// A copy of the id.
    pub fn copy(&self) -> (r: EnvironmentSessionId)
        ensures
            r@ == self@,
    {
        EnvironmentSessionId {
            project: self.project.clone(),
            mission: self.mission.clone(),
            generation: self.generation,
        }
    }

    /// The name that the session is stored under.
    pub fn storage_key(&self) -> (r: String)
        ensures
            r@ == key_of(self@),
    {
        let p: usize = text::chars_of(self.project.as_str()).len();
        let m: usize = text::chars_of(self.mission.as_str()).len();
        let start = text::cat5(
            "p",
            text::decimal_of(p as u64).as_str(),
            "-",
            self.project.as_str(),
            "-m",
        );
        text::cat6(
            start.as_str(),
            text::decimal_of(m as u64).as_str(),
            "-",
            self.mission.as_str(),
            "-g",
            text::decimal_of(self.generation).as_str(),
        )
    }
}

/// Where a session stands.
#[derive(Debug, Clone, Copy, PartialEq, Eq, Structural)]
pub enum EnvironmentSessionState {
    Opening,
    Ready,
    Failed,
    Closing,
    Closed,
}

/// The durable record of a session.
#[derive(Debug, PartialEq)]
pub struct EnvironmentSessionRecord {
    pub id: EnvironmentSessionId,
    pub plugin_id: String,
    pub plugin_version: String,
    pub plugin_digest: String,
    pub state: EnvironmentSessionState,
    pub source_shas: Table<String>,
    pub environment_lock: Option<String>,
    pub image_digest: Option<String>,
    pub created: u64,
    pub updated: u64,
    pub error: Option<String>,
    /// When the plugin last said that nothing is left of the session.
    pub cleanup_verified_at: Option<u64>,
}

/// What the record of a session holds.
#[verifier::ext_equal]
pub struct RecordView {
    pub id: SessionIdView,
    pub plugin_id: Seq<char>,
    pub plugin_version: Seq<char>,
    pub plugin_digest: Seq<char>,
    pub state: EnvironmentSessionState,
    pub source_shas: Map<Seq<char>, Seq<char>>,
    pub environment_lock: Option<Seq<char>>,
    pub image_digest: Option<Seq<char>>,
    pub created: u64,
    pub updated: u64,
    pub error: Option<Seq<char>>,
    pub cleanup_verified_at: Option<u64>,
}

impl View for EnvironmentSessionRecord {
    type V = RecordView;

    open spec fn view(&self) -> RecordView {
        RecordView {
            id: self.id@,
            plugin_id: self.plugin_id@,
            plugin_version: self.plugin_version@,
            plugin_digest: self.plugin_digest@,
            state: self.state,
            source_shas: table::text_values(self.source_shas@),
            environment_lock: text::opt_text(self.environment_lock),
            image_digest: text::opt_text(self.image_digest),
            created: self.created,
            updated: self.updated,
            error: text::opt_text(self.error),
            cleanup_verified_at: self.cleanup_verified_at,
        }
    }
}

// ---------------------------------------------------------------------
// Opening
// ---------------------------------------------------------------------

/// What a result of an optional record holds.
pub open spec fn record_outcome(r: Result<Option<EnvironmentSessionRecord>, Error>) -> Result<
    Option<RecordView>,
    ErrorView,
> {
    match r {
        Err(e) => Err(e@),
        Ok(None) => Ok(None),
        Ok(Some(record)) => Ok(Some(record@)),
    }
}

/// What beginning to open a session comes to: none for a plugin that has no
/// sessions.
pub open spec fn opening(
    id: SessionIdView,
    plugin_name: Seq<char>,
    plugin: Option<&PluginDir>,
    digest: Seq<char>,
    source_shas: Map<Seq<char>, Seq<char>>,
    now: u64,
) -> Result<Option<RecordView>, ErrorView> {
    match plugin {
        None => Err(ErrorView::Store("plugin not found: "@ + plugin_name)),
        Some(plugin) => if !manifest::has_sessions(plugin.manifest) {
            Ok(None)
        } else {
            match plugin.manifest.version {
                None => Err(ErrorView::Store("session plugin has no version"@)),
                Some(version) => Ok(
                    Some(
                        RecordView {
                            id,
                            plugin_id: plugin.manifest.name@,
                            plugin_version: version@,
                            plugin_digest: digest,
                            state: EnvironmentSessionState::Opening,
                            source_shas,
                            environment_lock: None,
                            image_digest: None,
                            created: now,
                            updated: now,
                            error: None,
                            cleanup_verified_at: None,
                        },
                    ),
                ),
            }
        },
    }
}

/// Begin to open a session: the record to keep before the plugin is asked for
/// anything. `digest` is that of the plugin's bundle.
pub fn begin_open(
    id: EnvironmentSessionId,
    plugin_name: &str,
    plugin: Option<&PluginDir>,
    digest: String,
    source_shas: Table<String>,
    now: u64,
) -> (r: Result<Option<EnvironmentSessionRecord>, Error>)
    ensures
        record_outcome(r) == opening(
            id@,
            plugin_name@,
            plugin,
            digest@,
            table::text_values(source_shas@),
            now,
        ),
{
    let plugin = match plugin {
        None => {
            return Err(Error::Store(text::cat2("plugin not found: ", plugin_name)));
        },
        Some(plugin) => plugin,
    };
    if !plugin.manifest.sessions() {
        return Ok(None);
    }
    match &plugin.manifest.version {
        None => Err(Error::Store("session plugin has no version".to_owned())),
        Some(version) => Ok(
            Some(
                EnvironmentSessionRecord {
                    id,
                    plugin_id: plugin.manifest.name.clone(),
                    plugin_version: version.clone(),
                    plugin_digest: digest,
                    state: EnvironmentSessionState::Opening,
                    source_shas,
                    environment_lock: None,
                    image_digest: None,
                    created: now,
                    updated: now,
                    error: None,
                    cleanup_verified_at: None,
                },
            ),
        ),
    }
}

/// The key of the operation that opens or closes a session.
pub open spec fn operation_key(method: Seq<char>, id: SessionIdView) -> Seq<char> {
    method + ":"@ + key_of(id)
}

/// Where a plugin keeps the state of a session.
pub open spec fn state_dir(runtime: Seq<char>, id: SessionIdView) -> Seq<char> {
    path::joined(path::joined(runtime, "state"@), key_of(id))
}

/// Where a plugin whose runtime directory is `runtime` keeps the state of the
/// session `id`.
pub fn session_state_dir(runtime: &str, id: &EnvironmentSessionId) -> (r: String)
    ensures
        r@ == state_dir(runtime@, id@),
{
    path::join(path::join(runtime, "state").as_str(), id.storage_key().as_str())
}

/// What opening a session asks of its plugin.
pub open spec fn open_request(
    plugin: PluginDir,
    record: RecordView,
    runtime: Seq<char>,
    cache: Seq<char>,
) -> JsonView {
    JsonView::Object(
        Map::empty().insert("plugin_dir"@, JsonView::Text(plugin.dir@)).insert(
            "state_dir"@,
            JsonView::Text(state_dir(runtime, record.id)),
        ).insert("source_cache"@, JsonView::Text(cache)).insert(
            "project"@,
            JsonView::Text(record.id.project),
        ).insert("mission"@, JsonView::Text(record.id.mission)).insert(
            "run"@,
            JsonView::Number(text::decimal(record.id.generation as nat)),
        ).insert("session_id"@, JsonView::Text(key_of(record.id))).insert(
            "sources"@,
            JsonView::Array(
                params::chosen_sources(
                    plugin.manifest.sources@,
                    record.source_shas,
                    cache,
                    plugin.manifest.sources@.len(),
                ),
            ),
        ).insert(
            "idempotency_key"@,
            JsonView::Text(operation_key("session_open"@, record.id)),
        ),
    )
}

/// The parameters of opening a session; `runtime` is the plugin's runtime
/// directory and `cache` that of the source trees.
pub fn open_params(
    plugin: &PluginDir,
    record: &EnvironmentSessionRecord,
    runtime: &str,
    cache: &str,
) -> (r: Json)
    ensures
        r@ == open_request(*plugin, record@, runtime@, cache@),
{
    let key = record.id.storage_key();
    let mut out = json::no_fields();
    json::put_text(&mut out, "plugin_dir", plugin.dir.as_str());
    json::put_text(&mut out, "state_dir", session_state_dir(runtime, &record.id).as_str());
    json::put_text(&mut out, "source_cache", cache);
    json::put_text(&mut out, "project", record.id.project.as_str());
    json::put_text(&mut out, "mission", record.id.mission.as_str());
    json::put(&mut out, "run", Json::Number(text::decimal_of(record.id.generation)));
    json::put_text(&mut out, "session_id", key.as_str());
    json::put(
        &mut out,
        "sources",
        Json::Array(params::source_params(&plugin.manifest.sources, &record.source_shas, cache)),
    );
    json::put_text(
        &mut out,
        "idempotency_key",
        text::cat3("session_open", ":", key.as_str()).as_str(),
    );
    Json::Object(out)
}

/// What to do to open a session, given the record of that operation.
#[derive(Debug, PartialEq)]
pub enum OpenAction {
    /// It is open: this is what opening it gave.
    Opened(Json),
    /// It is being opened: probe it.
    Probe,
    /// Open it.
    Call,
    /// It cannot be opened.
    Refuse(Error),
}

/// What to do to open a session, as plain values.
pub enum OpenView {
    Opened(JsonView),
    Probe,
    Call,
    Refuse(ErrorView),
}

impl View for OpenAction {
    type V = OpenView;

    open spec fn view(&self) -> OpenView {
        match *self {
            OpenAction::Opened(v) => OpenView::Opened(v@),
            OpenAction::Probe => OpenView::Probe,
            OpenAction::Call => OpenView::Call,
            OpenAction::Refuse(e) => OpenView::Refuse(e@),
        }
    }
}

/// What to do to open a session of a plugin.
pub open spec fn open_action(plugin: Seq<char>, status: OperationStatus) -> OpenView {
    match operation::decision(plugin, "session_open previously failed"@, status) {
        DecisionView::Use(v) => OpenView::Opened(v),
        DecisionView::Running => OpenView::Probe,
        DecisionView::Refuse(e) => OpenView::Refuse(e),
        DecisionView::Perform => OpenView::Call,
    }
}

/// Decide how to open a session, given the record of that operation.
pub fn decide_open(plugin: &str, status: OperationStatus) -> (r: OpenAction)
    ensures
        r@ == open_action(plugin@, status),
{
    match operation::decide(plugin, "session_open previously failed", status) {
        Decision::Use(v) => OpenAction::Opened(v),
        Decision::Running => OpenAction::Probe,
        Decision::Refuse(e) => OpenAction::Refuse(e),
        Decision::Perform => OpenAction::Call,
    }
}

/// A probe says that the session is ready.
pub open spec fn says_ready(probe: JsonView) -> bool {
    json::member(probe, "ready"@) == Some(JsonView::Bool(true))
}

/// What the probe of a session that is being opened comes to.
pub fn judge_probe(plugin: &str, probe: Json) -> (r: Result<Json, Error>)
    ensures
        error::outcome(r) == (if says_ready(probe@) {
            Ok(probe@)
        } else {
            Err(
                manifest::plugin_error(
                    plugin@,
                    "session_open is still running and the session is not ready"@,
                ),
            )
        }),
{
    let ready = match probe.get("ready") {
        Some(Json::Bool(b)) => *b,
        _ => false,
    };
    if ready {
        Ok(probe)
    } else {
        Err(
            manifest::failed(
                plugin,
                "session_open is still running and the session is not ready".to_owned(),
            ),
        )
    }
}

/// The record of a session once opening it came to something.
pub open spec fn opened(record: RecordView, result: Result<JsonView, ErrorView>, now: u64) -> RecordView {
    match result {
        Ok(v) => RecordView {
            state: EnvironmentSessionState::Ready,
            environment_lock: json::member_text(v, "environment_lock"@),
            image_digest: json::member_text(v, "image_digest"@),
            updated: now,
            ..record
        },
        Err(e) => RecordView {
            state: EnvironmentSessionState::Failed,
            error: Some(error::shown(e)),
            updated: now,
            ..record
        },
    }
}

/// The text of a field, if it has one.
fn string_field(v: &Json, key: &str) -> (r: Option<String>)
    ensures
        text::opt_text(r) == json::member_text(v@, key@),
{
    match v.get_text(key) {
        Some(s) => Some(s.to_owned()),
        None => None,
    }
}

/// Note in the record what opening the session came to.
pub fn settle_open(
    record: &mut EnvironmentSessionRecord,
    result: &Result<Json, Error>,
    now: u64,
)
    ensures
        final(record)@ == opened(old(record)@, error::outcome(*result), now),
{
    match result {
        Ok(v) => {
            record.state = EnvironmentSessionState::Ready;
            record.environment_lock = string_field(v, "environment_lock");
            record.image_digest = string_field(v, "image_digest");
        },
        Err(e) => {
            record.state = EnvironmentSessionState::Failed;
            record.error = Some(e.message());
        },
    }
    record.updated = now;
}

// ---------------------------------------------------------------------
// Closing
// ---------------------------------------------------------------------

/// The record to keep before the plugin is asked to close the session.
pub fn begin_close(record: EnvironmentSessionRecord, plugin_found: bool, now: u64) -> (r: Result<
    EnvironmentSessionRecord,
    Error,
>)
    ensures
        error::outcome(r) == (if plugin_found {
            Ok(
                (RecordView {
                    state: EnvironmentSessionState::Closing,
                    updated: now,
                    ..record@
                }),
            )
        } else {
            Err(ErrorView::Store("plugin not found: "@ + record@.plugin_id))
        }),
{
    if !plugin_found {
        return Err(
            Error::Store(text::cat2("plugin not found: ", record.plugin_id.as_str())),
        );
    }
    let mut record = record;
    record.state = EnvironmentSessionState::Closing;
    record.updated = now;
    Ok(record)
}

/// What closing a session asks of its plugin.
pub open spec fn close_request(record: RecordView, runtime: Seq<char>) -> JsonView {
    JsonView::Object(
        Map::empty().insert("session_id"@, JsonView::Text(key_of(record.id))).insert(
            "project"@,
            JsonView::Text(record.id.project),
        ).insert("mission"@, JsonView::Text(record.id.mission)).insert(
            "run"@,
            JsonView::Number(text::decimal(record.id.generation as nat)),
        ).insert("state_dir"@, JsonView::Text(state_dir(runtime, record.id))).insert(
            "idempotency_key"@,
            JsonView::Text(operation_key("session_close"@, record.id)),
        ),
    )
}

/// The parameters of closing a session.
pub fn close_params(record: &EnvironmentSessionRecord, runtime: &str) -> (r: Json)
    ensures
        r@ == close_request(record@, runtime@),
{
    let key = record.id.storage_key();
    let mut out = json::no_fields();
    json::put_text(&mut out, "session_id", key.as_str());
    json::put_text(&mut out, "project", record.id.project.as_str());
    json::put_text(&mut out, "mission", record.id.mission.as_str());
    json::put(&mut out, "run", Json::Number(text::decimal_of(record.id.generation)));
    json::put_text(&mut out, "state_dir", session_state_dir(runtime, &record.id).as_str());
    json::put_text(
        &mut out,
        "idempotency_key",
        text::cat3("session_close", ":", key.as_str()).as_str(),
    );
    Json::Object(out)
}

/// What to do to close a session, given the record of that operation.
#[derive(Debug, PartialEq, Eq)]
pub enum CloseAction {
    /// Close it.
    Call,
    /// It cannot be closed.
    Refuse(Error),
}

/// What to do to close a session, as plain values.
pub enum CloseView {
    Call,
    Refuse(ErrorView),
}

impl View for CloseAction {
    type V = CloseView;

    open spec fn view(&self) -> CloseView {
        match *self {
            CloseAction::Call => CloseView::Call,
            CloseAction::Refuse(e) => CloseView::Refuse(e@),
        }
    }
}

/// What to do to close a session of a plugin. That it was closed before says
/// nothing of what is there now: the plugin, which cleans up as often as it is
/// asked to, is asked again.
pub open spec fn close_action(plugin: Seq<char>, status: OperationStatus) -> CloseView {
    match operation::decision(plugin, "session_close previously failed"@, status) {
        DecisionView::Use(_) => CloseView::Call,
        DecisionView::Running => CloseView::Refuse(
            manifest::plugin_error(plugin, "session_close is already running"@),
        ),
        DecisionView::Refuse(e) => CloseView::Refuse(e),
        DecisionView::Perform => CloseView::Call,
    }
}

/// Decide how to close a session, given the record of that operation.
pub fn decide_close(plugin: &str, status: OperationStatus) -> (r: CloseAction)
    ensures
        r@ == close_action(plugin@, status),
{
    match operation::decide(plugin, "session_close previously failed", status) {
        Decision::Use(_) => CloseAction::Call,
        Decision::Running => CloseAction::Refuse(
            manifest::failed(plugin, "session_close is already running".to_owned()),
        ),
        Decision::Refuse(e) => CloseAction::Refuse(e),
        Decision::Perform => CloseAction::Call,
    }
}

/// The record of a session once closing it came to something.
pub open spec fn closed(record: RecordView, result: Result<(), ErrorView>, now: u64) -> RecordView {
    match result {
        Ok(_) => RecordView {
            state: EnvironmentSessionState::Closed,
            error: None,
            updated: now,
            cleanup_verified_at: Some(now),
            ..record
        },
        Err(e) => RecordView {
            state: EnvironmentSessionState::Failed,
            error: Some(error::shown(e)),
            updated: now,
            cleanup_verified_at: None,
            ..record
        },
    }
}

/// Note in the record what closing the session came to.
pub fn settle_close(
    record: &mut EnvironmentSessionRecord,
    result: &Result<(), Error>,
    now: u64,
)
    ensures
        final(record)@ == closed(old(record)@, error::verdict(*result), now),
{
    match result {
        Ok(_) => {
            record.state = EnvironmentSessionState::Closed;
            record.error = None;
            record.cleanup_verified_at = Some(now);
        },
        Err(e) => {
            record.state = EnvironmentSessionState::Failed;
            record.error = Some(e.message());
            record.cleanup_verified_at = None;
        },
    }
    record.updated = now;
}

// ---------------------------------------------------------------------
// The course of opening and closing
// ---------------------------------------------------------------------

/// How far opening or closing a session has come.
#[derive(Debug, Clone, Copy, PartialEq, Eq, Structural)]
pub enum Stage {
    /// The record that it begins is being saved.
    Recording,
    /// The plugin is being started and greeted.
    Greeting,
    /// The plugin is being asked what became of the operation.
    Asking,
    /// The session is being probed.
    Probing,
    /// The operation is being performed.
    Calling,
    /// The record of what it came to is being saved.
    Settling,
    /// It is over.
    Over,
}

/// What is to be done next.
#[derive(Debug, Clone, Copy, PartialEq, Eq, Structural)]
pub enum NextStep {
    /// Save the record.
    Save,
    /// Start the plugin and greet it.
    Greet,
    /// Ask the plugin what became of the operation, with the parameters.
    Ask,
    /// Probe the session.
    Probe,
    /// Perform the operation, with the parameters.
    Call,
    /// Nothing: take the result.
    Finish,
}

/// What came of what was done.
#[derive(Debug, PartialEq)]
pub enum SessionEvent {
    Saved(Result<(), Error>),
    Greeted(Result<(), Error>),
    Status(Result<OperationStatus, Error>),
    Probed(Result<Json, Error>),
    Called(Result<Json, Error>),
}

/// What came answers what was done.
pub open spec fn fits(stage: Stage, event: SessionEvent) -> bool {
    match event {
        SessionEvent::Saved(_) => stage == Stage::Recording || stage == Stage::Settling,
        SessionEvent::Greeted(_) => stage == Stage::Greeting,
        SessionEvent::Status(_) => stage == Stage::Asking,
        SessionEvent::Probed(_) => stage == Stage::Probing,
        SessionEvent::Called(_) => stage == Stage::Calling,
    }
}

/// The course of opening or closing a session.
#[derive(Debug, PartialEq)]
pub struct SessionCourse {
    pub record: EnvironmentSessionRecord,
    /// The parameters of the operation.
    pub params: Json,
    pub stage: Stage,
    /// Why it failed, once it did.
    pub failure: Option<Error>,
}

/// The course of opening or closing a session, as plain values.
#[verifier::ext_equal]
pub struct CourseView {
    pub record: RecordView,
    pub params: JsonView,
    pub stage: Stage,
    pub failure: Option<ErrorView>,
}

/// What an optional error holds.
pub open spec fn opt_error(e: Option<Error>) -> Option<ErrorView> {
    match e {
        Some(e) => Some(e@),
        None => None,
    }
}

impl View for SessionCourse {
    type V = CourseView;

    open spec fn view(&self) -> CourseView {
        CourseView {
            record: self.record@,
            params: self.params@,
            stage: self.stage,
            failure: opt_error(self.failure),
        }
    }
}

/// What beginning to open a session comes to: its course, with the record to be
/// saved first.
pub open spec fn open_begun(
    record: Result<Option<RecordView>, ErrorView>,
    plugin: Option<&PluginDir>,
    runtime: Seq<char>,
    cache: Seq<char>,
) -> Result<Option<CourseView>, ErrorView> {
    match record {
        Err(e) => Err(e),
        Ok(None) => Ok(None),
        Ok(Some(record)) => Ok(
            Some(
                CourseView {
                    record,
                    params: open_request(*plugin->Some_0, record, runtime, cache),
                    stage: Stage::Recording,
                    failure: None,
                },
            ),
        ),
    }
}

/// What a result of an optional course holds.
pub open spec fn course_outcome(r: Result<Option<SessionCourse>, Error>) -> Result<
    Option<CourseView>,
    ErrorView,
> {
    match r {
        Err(e) => Err(e@),
        Ok(None) => Ok(None),
        Ok(Some(course)) => Ok(Some(course@)),
    }
}

/// Begin to open a session; none for a plugin that has no sessions. Nothing is
/// asked of the plugin before the record is saved.
pub fn open_environment_session(
    id: EnvironmentSessionId,
    plugin_name: &str,
    plugin: Option<&PluginDir>,
    digest: String,
    source_shas: Table<String>,
    runtime: &str,
    cache: &str,
    now: u64,
) -> (r: Result<Option<SessionCourse>, Error>)
    ensures
        course_outcome(r) == open_begun(
            opening(
                id@,
                plugin_name@,
                plugin,
                digest@,
                table::text_values(source_shas@),
                now,
            ),
            plugin,
            runtime@,
            cache@,
        ),
{
    match begin_open(id, plugin_name, plugin, digest, source_shas, now) {
        Err(e) => Err(e),
        Ok(None) => Ok(None),
        Ok(Some(record)) => match plugin {
            None => Ok(None),
            Some(plugin) => {
                let params = open_params(plugin, &record, runtime, cache);
                Ok(
                    Some(
                        SessionCourse { record, params, stage: Stage::Recording, failure: None },
                    ),
                )
            },
        },
    }
}

/// What beginning to close a session comes to.
pub open spec fn close_begun(
    record: RecordView,
    plugin_found: bool,
    runtime: Seq<char>,
    now: u64,
) -> Result<CourseView, ErrorView> {
    if plugin_found {
        let closing = RecordView {
            state: EnvironmentSessionState::Closing,
            updated: now,
            ..record
        };
        Ok(
            CourseView {
                record: closing,
                params: close_request(closing, runtime),
                stage: Stage::Recording,
                failure: None,
            },
        )
    } else {
        Err(ErrorView::Store("plugin not found: "@ + record.plugin_id))
    }
}

/// Begin to close a session. Nothing is asked of the plugin before the record
/// is saved.
pub fn close_environment_session(
    record: EnvironmentSessionRecord,
    plugin_found: bool,
    runtime: &str,
    now: u64,
) -> (r: Result<SessionCourse, Error>)
    ensures
        error::outcome(r) == close_begun(record@, plugin_found, runtime@, now),
{
    match begin_close(record, plugin_found, now) {
        Err(e) => Err(e),
        Ok(record) => {
            let params = close_params(&record, runtime);
            Ok(SessionCourse { record, params, stage: Stage::Recording, failure: None })
        },
    }
}

/// The course once opening the session came to something.
pub open spec fn open_settled(c: CourseView, result: Result<JsonView, ErrorView>, now: u64) -> (
    CourseView,
    NextStep,
) {
    (
        CourseView {
            record: opened(c.record, result, now),
            stage: Stage::Settling,
            failure: match result {
                Ok(_) => None,
                Err(e) => Some(e),
            },
            ..c
        },
        NextStep::Save,
    )
}

/// The course once closing the session came to something.
pub open spec fn close_settled(c: CourseView, result: Result<(), ErrorView>, now: u64) -> (
    CourseView,
    NextStep,
) {
    (
        CourseView {
            record: closed(c.record, result, now),
            stage: Stage::Settling,
            failure: match result {
                Ok(_) => None,
                Err(e) => Some(e),
            },
            ..c
        },
        NextStep::Save,
    )
}

/// The course after its record was to be saved.
pub open spec fn after_save(c: CourseView, saved: Result<(), ErrorView>) -> (
    CourseView,
    NextStep,
) {
    match saved {
        Err(e) => (
            CourseView { stage: Stage::Over, failure: Some(e), ..c },
            NextStep::Finish,
        ),
        Ok(_) => if c.stage == Stage::Recording {
            (CourseView { stage: Stage::Greeting, ..c }, NextStep::Greet)
        } else {
            (CourseView { stage: Stage::Over, ..c }, NextStep::Finish)
        },
    }
}

/// What a probe of a session that is being opened comes to.
pub open spec fn probed(plugin: Seq<char>, probe: Result<JsonView, ErrorView>) -> Result<
    JsonView,
    ErrorView,
> {
    match probe {
        Err(e) => Err(e),
        Ok(probe) => if says_ready(probe) {
            Ok(probe)
        } else {
            Err(
                manifest::plugin_error(
                    plugin,
                    "session_open is still running and the session is not ready"@,
                ),
            )
        },
    }
}

/// The course of opening a session after something came.
pub open spec fn open_next(c: CourseView, event: SessionEvent, now: u64) -> (CourseView, NextStep) {
    match event {
        SessionEvent::Saved(saved) => after_save(c, error::verdict(saved)),
        SessionEvent::Greeted(Err(e)) => open_settled(c, Err(e@), now),
        SessionEvent::Greeted(Ok(_)) => (
            CourseView { stage: Stage::Asking, ..c },
            NextStep::Ask,
        ),
        SessionEvent::Status(Err(e)) => open_settled(c, Err(e@), now),
        SessionEvent::Status(Ok(status)) => match open_action(c.record.plugin_id, status) {
            OpenView::Opened(v) => open_settled(c, Ok(v), now),
            OpenView::Probe => (CourseView { stage: Stage::Probing, ..c }, NextStep::Probe),
            OpenView::Call => (CourseView { stage: Stage::Calling, ..c }, NextStep::Call),
            OpenView::Refuse(e) => open_settled(c, Err(e), now),
        },
        SessionEvent::Probed(probe) => open_settled(
            c,
            probed(c.record.plugin_id, error::outcome(probe)),
            now,
        ),
        SessionEvent::Called(result) => open_settled(c, error::outcome(result), now),
    }
}

/// The course of closing a session after something came.
pub open spec fn close_next(c: CourseView, event: SessionEvent, now: u64) -> (
    CourseView,
    NextStep,
) {
    match event {
        SessionEvent::Saved(saved) => after_save(c, error::verdict(saved)),
        SessionEvent::Greeted(Err(e)) => close_settled(c, Err(e@), now),
        SessionEvent::Greeted(Ok(_)) => (
            CourseView { stage: Stage::Asking, ..c },
            NextStep::Ask,
        ),
        SessionEvent::Status(Err(e)) => close_settled(c, Err(e@), now),
        SessionEvent::Status(Ok(status)) => match close_action(c.record.plugin_id, status) {
            CloseView::Call => (CourseView { stage: Stage::Calling, ..c }, NextStep::Call),
            CloseView::Refuse(e) => close_settled(c, Err(e), now),
        },
        SessionEvent::Probed(Err(e)) => close_settled(c, Err(e@), now),
        SessionEvent::Probed(Ok(_)) => close_settled(c, Ok(()), now),
        SessionEvent::Called(Err(e)) => close_settled(c, Err(e@), now),
        SessionEvent::Called(Ok(_)) => close_settled(c, Ok(()), now),
    }
}

impl SessionCourse {
    /// The course goes on to `stage`.
    fn go(&mut self, stage: Stage, step: NextStep) -> (r: NextStep)
        ensures
            final(self)@ == (CourseView { stage, ..old(self)@ }),
            r == step,
    {
        self.stage = stage;
        step
    }

    /// The record was saved, or was not.
    fn note_saved(&mut self, saved: Result<(), Error>) -> (r: NextStep)
        ensures
            (final(self)@, r) == after_save(old(self)@, error::verdict(saved)),
    {
        match saved {
            Err(e) => {
                self.failure = Some(e);
                self.go(Stage::Over, NextStep::Finish)
            },
            Ok(_) => match self.stage {
                Stage::Recording => self.go(Stage::Greeting, NextStep::Greet),
                _ => self.go(Stage::Over, NextStep::Finish),
            },
        }
    }

    /// Opening the session came to something.
    fn note_opened(&mut self, result: Result<Json, Error>, now: u64) -> (r: NextStep)
        ensures
            (final(self)@, r) == open_settled(old(self)@, error::outcome(result), now),
    {
        settle_open(&mut self.record, &result, now);
        self.failure = match result {
            Ok(_) => None,
            Err(e) => Some(e),
        };
        self.go(Stage::Settling, NextStep::Save)
    }

    /// Closing the session came to something.
    fn note_closed(&mut self, result: Result<(), Error>, now: u64) -> (r: NextStep)
        ensures
            (final(self)@, r) == close_settled(old(self)@, error::verdict(result), now),
    {
        settle_close(&mut self.record, &result, now);
        self.failure = match result {
            Ok(_) => None,
            Err(e) => Some(e),
        };
        self.go(Stage::Settling, NextStep::Save)
    }

    /// What is next in opening the session.
    pub fn step_open(&mut self, event: SessionEvent, now: u64) -> (r: NextStep)
        requires
            fits(old(self).stage, event),
        ensures
            (final(self)@, r) == open_next(old(self)@, event, now),
    {
        match event {
            SessionEvent::Saved(saved) => self.note_saved(saved),
            SessionEvent::Greeted(Err(e)) => self.note_opened(Err(e), now),
            SessionEvent::Greeted(Ok(_)) => self.go(Stage::Asking, NextStep::Ask),
            SessionEvent::Status(Err(e)) => self.note_opened(Err(e), now),
            SessionEvent::Status(Ok(status)) => {
                match decide_open(self.record.plugin_id.as_str(), status) {
                    OpenAction::Opened(v) => self.note_opened(Ok(v), now),
                    OpenAction::Probe => self.go(Stage::Probing, NextStep::Probe),
                    OpenAction::Call => self.go(Stage::Calling, NextStep::Call),
                    OpenAction::Refuse(e) => self.note_opened(Err(e), now),
                }
            },
            SessionEvent::Probed(probe) => {
                let result = match probe {
                    Err(e) => Err(e),
                    Ok(probe) => judge_probe(self.record.plugin_id.as_str(), probe),
                };
                self.note_opened(result, now)
            },
            SessionEvent::Called(result) => self.note_opened(result, now),
        }
    }

    /// What is next in closing the session, which is never probed.
    pub fn step_close(&mut self, event: SessionEvent, now: u64) -> (r: NextStep)
        requires
            fits(old(self).stage, event),
        ensures
            (final(self)@, r) == close_next(old(self)@, event, now),
    {
        match event {
            SessionEvent::Saved(saved) => self.note_saved(saved),
            SessionEvent::Greeted(Err(e)) => self.note_closed(Err(e), now),
            SessionEvent::Greeted(Ok(_)) => self.go(Stage::Asking, NextStep::Ask),
            SessionEvent::Status(Err(e)) => self.note_closed(Err(e), now),
            SessionEvent::Status(Ok(status)) => {
                match decide_close(self.record.plugin_id.as_str(), status) {
                    CloseAction::Call => self.go(Stage::Calling, NextStep::Call),
                    CloseAction::Refuse(e) => self.note_closed(Err(e), now),
                }
            },
            SessionEvent::Probed(Err(e)) => self.note_closed(Err(e), now),
            SessionEvent::Probed(Ok(_)) => self.note_closed(Ok(()), now),
            SessionEvent::Called(Err(e)) => self.note_closed(Err(e), now),
            SessionEvent::Called(Ok(_)) => self.note_closed(Ok(()), now),
        }
    }

    /// What the course came to.
    pub fn finish(self) -> (r: Result<EnvironmentSessionRecord, Error>)
        ensures
            error::outcome(r) == (match self@.failure {
                Some(e) => Err(e),
                None => Ok(self@.record),
            }),
    {
        match self.failure {
            Some(e) => Err(e),
            None => Ok(self.record),
        }
    }
}

// ---------------------------------------------------------------------
// Laws
// ---------------------------------------------------------------------

/// What tells a session apart: who it is for, and the plugin that serves it.
pub open spec fn identity(r: RecordView) -> (
    SessionIdView,
    Seq<char>,
    Seq<char>,
    Seq<char>,
    Map<Seq<char>, Seq<char>>,
    u64,
) {
    (r.id, r.plugin_id, r.plugin_version, r.plugin_digest, r.source_shas, r.created)
}

/// Whatever becomes of a session, its record keeps saying whose it is, which
/// bundle serves it and which commits it reads.
pub proof fn law_identity_is_kept(
    record: RecordView,
    result: Result<JsonView, ErrorView>,
    closing: Result<(), ErrorView>,
    now: u64,
)
    ensures
        identity(opened(record, result, now)) == identity(record),
        identity(closed(record, closing, now)) == identity(record),
{
}

/// A record never hides a failure: one that failed says why, and one that was
/// opened or closed without failing does not.
pub proof fn law_failures_are_recorded(
    record: RecordView,
    result: Result<JsonView, ErrorView>,
    closing: Result<(), ErrorView>,
    now: u64,
)
    ensures
        opened(record, result, now).state == (if result is Ok {
            EnvironmentSessionState::Ready
        } else {
            EnvironmentSessionState::Failed
        }),
        result is Err ==> opened(record, result, now).error is Some,
        closed(record, closing, now).state == (if closing is Ok {
            EnvironmentSessionState::Closed
        } else {
            EnvironmentSessionState::Failed
        }),
        closed(record, closing, now).error is Some <==> closing is Err,
        closed(record, closing, now).cleanup_verified_at == (if closing is Ok {
            Some(now)
        } else {
            None
        }),
{
}

/// A session that is open, or is being opened, is not opened again.
pub proof fn law_sessions_open_once(plugin: Seq<char>, status: OperationStatus)
    ensures
        status.state == operation::OperationState::Succeeded || status.state
            == operation::OperationState::Running ==> !(open_action(plugin, status) is Call),
        status.state == operation::OperationState::Unknown ==> open_action(plugin, status) is Call,
{
}

/// A session ends up closed only where its plugin was asked to close it and
/// did so. An earlier success is no proof of what is there now: it leads to
/// another request, and while the plugin is at work there is none.
pub proof fn law_closing_always_cleans_up(
    c: CourseView,
    event: SessionEvent,
    status: OperationStatus,
    now: u64,
)
    requires
        fits(c.stage, event),
        c.stage != Stage::Probing,
        c.record.state == EnvironmentSessionState::Closing,
    ensures
        close_next(c, event, now).0.record.state == EnvironmentSessionState::Closed ==> c.stage
            == Stage::Calling && (event matches SessionEvent::Called(result) && result is Ok),
        status.state == operation::OperationState::Succeeded || status.state
            == operation::OperationState::Unknown ==> close_action(c.record.plugin_id, status)
            is Call && (c.stage == Stage::Asking ==> close_next(
            c,
            SessionEvent::Status(Ok(status)),
            now,
        ).1 == NextStep::Call),
        status.state == operation::OperationState::Running ==> close_action(
            c.record.plugin_id,
            status,
        ) is Refuse,
{
}

/// A number that is followed by a dash is told from what follows it.
proof fn lemma_number_then_dash(a: nat, x: Seq<char>, b: nat, y: Seq<char>)
    requires
        text::decimal(a) + "-"@ + x == text::decimal(b) + "-"@ + y,
    ensures
        a == b,
        x == y,
{
    reveal_strlit("-");
    let da = text::decimal(a);
    let db = text::decimal(b);
    text::lemma_decimal_value(a);
    text::lemma_decimal_value(b);
    let l = da + "-"@ + x;
    let r = db + "-"@ + y;
    if da.len() < db.len() {
        assert(l[da.len() as int] == '-');
        assert(r[da.len() as int] == db[da.len() as int]);
        assert(text::is_digit(db[da.len() as int]));
    } else if db.len() < da.len() {
        assert(r[db.len() as int] == '-');
        assert(l[db.len() as int] == da[db.len() as int]);
        assert(text::is_digit(da[db.len() as int]));
    }
    assert(da =~= l.take(da.len() as int));
    assert(db =~= r.take(db.len() as int));
    assert(x =~= l.skip(da.len() as int + 1));
    assert(y =~= r.skip(db.len() as int + 1));
}

/// A text after its length and a dash, and what follows it.
spec fn sized(part: Seq<char>, rest: Seq<char>) -> Seq<char> {
    text::decimal(part.len()) + "-"@ + (part + rest)
}

proof fn lemma_sized(a: Seq<char>, x: Seq<char>, b: Seq<char>, y: Seq<char>)
    requires
        sized(a, x) == sized(b, y),
    ensures
        a == b,
        x == y,
{
    lemma_number_then_dash(a.len(), a + x, b.len(), b + y);
    assert(a =~= (a + x).take(a.len() as int));
    assert(b =~= (b + y).take(b.len() as int));
    assert(x =~= (a + x).skip(a.len() as int));
    assert(y =~= (b + y).skip(b.len() as int));
}

proof fn lemma_same_tail(head: Seq<char>, x: Seq<char>, y: Seq<char>)
    requires
        head + x == head + y,
    ensures
        x == y,
{
    assert(x =~= (head + x).skip(head.len() as int));
    assert(y =~= (head + y).skip(head.len() as int));
}

proof fn lemma_key_parts(id: SessionIdView)
    ensures
        key_of(id) == "p"@ + sized(
            id.project,
            "-m"@ + sized(id.mission, "-g"@ + text::decimal(id.generation as nat)),
        ),
{
    let tail = "-g"@ + text::decimal(id.generation as nat);
    let start = "p"@ + text::decimal(id.project.len()) + "-"@ + id.project + "-m"@;
    let end = text::decimal(id.mission.len()) + "-"@ + id.mission + tail;
    assert(sized(id.mission, tail) =~= end);
    assert(key_of(id) =~= start + end);
    assert("p"@ + sized(id.project, "-m"@ + end) =~= start + end);
}

/// Two sessions are never stored under one name.
pub proof fn law_sessions_are_stored_apart(a: SessionIdView, b: SessionIdView)
    requires
        key_of(a) == key_of(b),
    ensures
        a == b,
{
    lemma_key_parts(a);
    lemma_key_parts(b);
    let number_a = text::decimal(a.generation as nat);
    let number_b = text::decimal(b.generation as nat);
    let mission_a = sized(a.mission, "-g"@ + number_a);
    let mission_b = sized(b.mission, "-g"@ + number_b);
    lemma_same_tail("p"@, sized(a.project, "-m"@ + mission_a), sized(b.project, "-m"@ + mission_b));
    lemma_sized(a.project, "-m"@ + mission_a, b.project, "-m"@ + mission_b);
    lemma_same_tail("-m"@, mission_a, mission_b);
    lemma_sized(a.mission, "-g"@ + number_a, b.mission, "-g"@ + number_b);
    lemma_same_tail("-g"@, number_a, number_b);
    text::lemma_decimal_value(a.generation as nat);
    text::lemma_decimal_value(b.generation as nat);
}

/// The plugin is asked for nothing before the record that it begins is saved,
/// and the course is over only once its record is saved as it ended, or could
/// not be saved.
pub proof fn law_courses_are_recorded(c: CourseView, event: SessionEvent, now: u64)
    requires
        fits(c.stage, event),
    ensures
        c.stage == Stage::Recording ==> (open_next(c, event, now).1 == NextStep::Greet || open_next(
            c,
            event,
            now,
        ).1 == NextStep::Finish) && open_next(c, event, now).0.record == c.record,
        open_next(c, event, now).1 == NextStep::Greet ==> event is Saved && event->Saved_0 is Ok,
        open_next(c, event, now).1 == NextStep::Finish ==> event is Saved && open_next(
            c,
            event,
            now,
        ).0.record == c.record,
        close_next(c, event, now).1 == NextStep::Greet ==> event is Saved && event->Saved_0 is Ok,
        close_next(c, event, now).1 == NextStep::Finish ==> event is Saved && close_next(
            c,
            event,
            now,
        ).0.record == c.record,
{
}

/// How many steps are left at most before a course is over.
pub open spec fn steps_left(stage: Stage) -> nat {
    match stage {
        Stage::Recording => 5,
        Stage::Greeting => 4,
        Stage::Asking => 3,
        Stage::Probing => 2,
        Stage::Calling => 2,
        Stage::Settling => 1,
        Stage::Over => 0,
    }
}

/// A course comes to its end: every step brings it nearer.
pub proof fn law_courses_end(c: CourseView, event: SessionEvent, now: u64)
    requires
        fits(c.stage, event),
    ensures
        steps_left(open_next(c, event, now).0.stage) < steps_left(c.stage),
        steps_left(close_next(c, event, now).0.stage) < steps_left(c.stage),
        open_next(c, event, now).1 == NextStep::Finish <==> open_next(c, event, now).0.stage
            == Stage::Over,
        close_next(c, event, now).1 == NextStep::Finish <==> close_next(c, event, now).0.stage
            == Stage::Over,
{
}

/// A course of opening that ends without a failure has a session that is
/// ready, and one of closing a session that is closed; where there was a
/// failure, the record says why.
pub proof fn law_ends_match_their_records(
    c: CourseView,
    result: Result<JsonView, ErrorView>,
    closing: Result<(), ErrorView>,
    now: u64,
)
    ensures
        ({
            let settled = open_settled(c, result, now).0;
            &&& settled.failure is None <==> settled.record.state
                == EnvironmentSessionState::Ready
            &&& settled.failure matches Some(e) ==> settled.record.error == Some(error::shown(e))
        }),
        ({
            let settled = close_settled(c, closing, now).0;
            &&& settled.failure is None <==> settled.record.state
                == EnvironmentSessionState::Closed
            &&& settled.failure matches Some(e) ==> settled.record.error == Some(error::shown(e))
        }),
{
}

/// Parameters name a session: whose it is, under which name, and where its
/// state is kept.
pub open spec fn names_session(params: JsonView, id: SessionIdView, runtime: Seq<char>) -> bool {
    &&& json::member_text(params, "project"@) == Some(id.project)
    &&& json::member_text(params, "mission"@) == Some(id.mission)
    &&& json::member(params, "run"@) matches Some(n) && json::as_whole(n) == Some(id.generation)
    &&& json::member_text(params, "session_id"@) == Some(key_of(id))
    &&& json::member_text(params, "state_dir"@) == Some(
        path::joined(path::joined(runtime, "state"@), key_of(id)),
    )
}

/// The names of the parameters differ.
proof fn lemma_parameter_names()
    ensures
        "project"@ != "mission"@ && "project"@ != "sources"@ && "mission"@ != "sources"@,
        "plugin_dir"@ != "session_id"@,
        "plugin_dir"@.len() == 10 && "session_id"@.len() == 10 && "state_dir"@.len() == 9,
        "source_cache"@.len() == 12 && "project"@.len() == 7 && "mission"@.len() == 7,
        "run"@.len() == 3 && "sources"@.len() == 7 && "idempotency_key"@.len() == 15,
{
    reveal_strlit("plugin_dir");
    reveal_strlit("state_dir");
    reveal_strlit("source_cache");
    reveal_strlit("project");
    reveal_strlit("mission");
    reveal_strlit("run");
    reveal_strlit("session_id");
    reveal_strlit("sources");
    reveal_strlit("idempotency_key");
    assert("project"@[0] == 'p' && "mission"@[0] == 'm' && "sources"@[0] == 's');
    assert("plugin_dir"@[0] == 'p' && "session_id"@[0] == 's');
}

/// Opening a session tells the plugin whose session it is and where everything
/// is, and mounts every source that a commit was chosen for at that commit.
pub proof fn law_opening_asks_for_the_mission(
    plugin: PluginDir,
    record: RecordView,
    runtime: Seq<char>,
    cache: Seq<char>,
)
    ensures
        names_session(open_request(plugin, record, runtime, cache), record.id, runtime),
        json::member_text(open_request(plugin, record, runtime, cache), "plugin_dir"@) == Some(
            plugin.dir@,
        ),
        json::member_text(open_request(plugin, record, runtime, cache), "source_cache"@) == Some(
            cache,
        ),
        json::member(open_request(plugin, record, runtime, cache), "sources"@) is Some,
        json::member(open_request(plugin, record, runtime, cache), "sources"@)->Some_0 is Array,
        params::tells_all(
            json::member(
                open_request(plugin, record, runtime, cache),
                "sources"@,
            )->Some_0->Array_0,
            plugin.manifest.sources@,
            record.source_shas,
            cache,
        ),
{
    lemma_parameter_names();
    text::law_decimal_is_read_back(record.id.generation as nat);
    let sources = plugin.manifest.sources@;
    params::law_sources_are_told_at_their_commits(
        sources,
        record.source_shas,
        cache,
        sources.len(),
    );
    let all = params::chosen_sources(sources, record.source_shas, cache, sources.len());
    assert(json::member(open_request(plugin, record, runtime, cache), "sources"@) == Some(
        JsonView::Array(all),
    ));
}

/// Closing a session names the very session that was opened, under a key of
/// its own.
pub proof fn law_closing_names_the_opened_session(
    plugin: PluginDir,
    record: RecordView,
    runtime: Seq<char>,
    cache: Seq<char>,
)
    ensures
        names_session(close_request(record, runtime), record.id, runtime),
        json::member(close_request(record, runtime), "session_id"@) == json::member(
            open_request(plugin, record, runtime, cache),
            "session_id"@,
        ),
        json::member(close_request(record, runtime), "state_dir"@) == json::member(
            open_request(plugin, record, runtime, cache),
            "state_dir"@,
        ),
        json::member_text(close_request(record, runtime), "idempotency_key"@) is Some,
        json::member_text(open_request(plugin, record, runtime, cache), "idempotency_key"@) is Some,
        json::member_text(close_request(record, runtime), "idempotency_key"@) != json::member_text(
            open_request(plugin, record, runtime, cache),
            "idempotency_key"@,
        ),
        json::member_text(
            open_request(plugin, record, runtime, cache),
            "idempotency_key"@,
        ) == Some("session_open:"@ + key_of(record.id)),
        json::member_text(close_request(record, runtime), "idempotency_key"@) == Some(
            "session_close:"@ + key_of(record.id),
        ),
{
    lemma_parameter_names();
    text::law_decimal_is_read_back(record.id.generation as nat);
    reveal_strlit("session_open");
    reveal_strlit("session_close");
    reveal_strlit("session_open:");
    reveal_strlit("session_close:");
    reveal_strlit(":");
    let open = operation_key("session_open"@, record.id);
    let close = operation_key("session_close"@, record.id);
    assert(open =~= "session_open:"@ + key_of(record.id));
    assert(close =~= "session_close:"@ + key_of(record.id));
    assert(open.len() != close.len());
}

/// No two sessions share the directory of their state, or a key.
pub proof fn law_sessions_share_nothing(
    runtime: Seq<char>,
    method: Seq<char>,
    a: SessionIdView,
    b: SessionIdView,
)
    requires
        a != b,
    ensures
        key_of(a) != key_of(b),
        state_dir(runtime, a) != state_dir(runtime, b),
        operation_key(method, a) != operation_key(method, b),
{
    if key_of(a) == key_of(b) {
        law_sessions_are_stored_apart(a, b);
    }
    let none = Seq::<char>::empty();
    text::lemma_middles_differ(method + ":"@, key_of(a), key_of(b), none);
    assert(method + ":"@ + key_of(a) + none =~= operation_key(method, a));
    assert(method + ":"@ + key_of(b) + none =~= operation_key(method, b));
    let base = path::joined(runtime, "state"@);
    reveal_strlit("state");
    reveal_strlit("p");
    reveal_strlit("/");
    assert(key_of(a)[0] == 'p' && key_of(b)[0] == 'p');
    text::lemma_middles_differ(base, key_of(a), key_of(b), none);
    text::lemma_middles_differ(base + "/"@, key_of(a), key_of(b), none);
    assert(base + key_of(a) + none =~= base + key_of(a));
    assert(base + key_of(b) + none =~= base + key_of(b));
    assert(base + "/"@ + key_of(a) + none =~= base + "/"@ + key_of(a));
    assert(base + "/"@ + key_of(b) + none =~= base + "/"@ + key_of(b));
}

/// A session is opened for the mission that asked for it, with the bundle that
/// is there and the commits that were chosen, and the record says so before
/// anything is asked; a plugin without sessions opens none, and one that is
/// not there is an error.
pub proof fn law_opening_records_the_mission(
    id: SessionIdView,
    plugin_name: Seq<char>,
    plugin: Option<&PluginDir>,
    digest: Seq<char>,
    source_shas: Map<Seq<char>, Seq<char>>,
    runtime: Seq<char>,
    cache: Seq<char>,
    now: u64,
)
    ensures
        ({
            let begun = open_begun(
                opening(id, plugin_name, plugin, digest, source_shas, now),
                plugin,
                runtime,
                cache,
            );
            &&& plugin is None ==> begun is Err
            &&& plugin matches Some(p) ==> {
                &&& !manifest::has_sessions(p.manifest) ==> begun == Ok::<
                    Option<CourseView>,
                    ErrorView,
                >(None)
                &&& manifest::has_sessions(p.manifest) && p.manifest.version is None
                    ==> begun is Err
                &&& manifest::has_sessions(p.manifest) && p.manifest.version is Some ==> {
                    &&& begun is Ok && begun->Ok_0 is Some
                    &&& begun->Ok_0->Some_0.record.id == id
                    &&& begun->Ok_0->Some_0.record.plugin_id == p.manifest.name@
                    &&& begun->Ok_0->Some_0.record.plugin_version == p.manifest.version->Some_0@
                    &&& begun->Ok_0->Some_0.record.plugin_digest == digest
                    &&& begun->Ok_0->Some_0.record.source_shas == source_shas
                    &&& begun->Ok_0->Some_0.record.state == EnvironmentSessionState::Opening
                    &&& begun->Ok_0->Some_0.record.created == now
                    &&& begun->Ok_0->Some_0.record.updated == now
                    &&& begun->Ok_0->Some_0.record.error is None
                    &&& begun->Ok_0->Some_0.record.cleanup_verified_at is None
                    &&& begun->Ok_0->Some_0.failure is None
                    &&& begun->Ok_0->Some_0.stage == Stage::Recording
                    &&& names_session(begun->Ok_0->Some_0.params, id, runtime)
                }
            }
        }),
{
    match plugin {
        Some(p) => {
            match opening(id, plugin_name, plugin, digest, source_shas, now) {
                Ok(Some(record)) => {
                    law_opening_asks_for_the_mission(*p, record, runtime, cache);
                },
                _ => {},
            }
        },
        None => {},
    }
}

/// Closing begins with the record that says so, of the same session; a session
/// whose plugin is gone is not closed.
pub proof fn law_closing_records_itself(
    record: RecordView,
    runtime: Seq<char>,
    now: u64,
)
    ensures
        close_begun(record, false, runtime, now) is Err,
        close_begun(record, true, runtime, now) is Ok,
        ({
            let c = close_begun(record, true, runtime, now)->Ok_0;
            &&& identity(c.record) == identity(record)
            &&& c.record.state == EnvironmentSessionState::Closing
            &&& c.record.updated == now
            &&& c.record.environment_lock == record.environment_lock
            &&& c.record.image_digest == record.image_digest
            &&& c.failure is None
            &&& c.stage == Stage::Recording
            &&& names_session(c.params, record.id, runtime)
        }),
{
    lemma_parameter_names();
    text::law_decimal_is_read_back(record.id.generation as nat);
}

/// A session that came up records the lock and the image that the plugin gave
/// it, and when; one that did not keeps what was recorded before.
pub proof fn law_opening_records_what_came_up(record: RecordView, v: JsonView, e: ErrorView, now: u64)
    ensures
        opened(record, Ok(v), now).environment_lock == json::member_text(v, "environment_lock"@),
        opened(record, Ok(v), now).image_digest == json::member_text(v, "image_digest"@),
        opened(record, Ok(v), now).updated == now,
        opened(record, Err(e), now).updated == now,
        opened(record, Err(e), now).error == Some(error::shown(e)),
        opened(record, Err(e), now).environment_lock == record.environment_lock,
        opened(record, Err(e), now).image_digest == record.image_digest,
        closed(record, Err(e), now).error == Some(error::shown(e)),
        closed(record, Err(e), now).updated == now,
        closed(record, Ok(()), now).updated == now,
        closed(record, Ok(()), now).environment_lock == record.environment_lock,
        closed(record, Ok(()), now).image_digest == record.image_digest,
{
}

/// Opening goes by what the plugin says: what it opened before is taken over,
/// what it is opening is probed, and what it opens now is what the record
/// ends up saying.
pub proof fn law_opening_goes_by_the_plugin(
    c: CourseView,
    status: OperationStatus,
    probe: Json,
    result: Json,
    now: u64,
)
    ensures
        status.state == operation::OperationState::Succeeded && status.result is Some ==> {
            let (next, step) = open_next(c, SessionEvent::Status(Ok(status)), now);
            &&& step == NextStep::Save
            &&& next.failure is None
            &&& next.record.state == EnvironmentSessionState::Ready
            &&& next.record.environment_lock == json::member_text(
                status.result->Some_0@,
                "environment_lock"@,
            )
        },
        status.state == operation::OperationState::Running ==> open_next(
            c,
            SessionEvent::Status(Ok(status)),
            now,
        ).1 == NextStep::Probe,
        status.state == operation::OperationState::Unknown ==> open_next(
            c,
            SessionEvent::Status(Ok(status)),
            now,
        ).1 == NextStep::Call,
        status.state == operation::OperationState::Failed && status.error is Some
            && !status.error->Some_0.retryable ==> open_next(
            c,
            SessionEvent::Status(Ok(status)),
            now,
        ).0.record.state == EnvironmentSessionState::Failed,
        json::member(probe@, "ready"@) == Some(JsonView::Bool(true)) <==> open_next(
            c,
            SessionEvent::Probed(Ok(probe)),
            now,
        ).0.record.state == EnvironmentSessionState::Ready,
        ({
            let (next, step) = open_next(c, SessionEvent::Called(Ok(result)), now);
            &&& step == NextStep::Save
            &&& next.failure is None
            &&& next.record.state == EnvironmentSessionState::Ready
            &&& next.record.environment_lock == json::member_text(result@, "environment_lock"@)
            &&& next.record.image_digest == json::member_text(result@, "image_digest"@)
            &&& next.params == c.params
        }),
        open_next(c, SessionEvent::Greeted(Ok(())), now).1 == NextStep::Ask,
        close_next(c, SessionEvent::Greeted(Ok(())), now).1 == NextStep::Ask,
        close_next(c, SessionEvent::Called(Ok(result)), now).0.record.state
            == EnvironmentSessionState::Closed,
{
}

/// What fails on the way fails the course: the record says that it failed and
/// why, and the session is left as what it is.
pub proof fn law_failures_fail_the_course(c: CourseView, e: Error, now: u64)
    ensures
        forall|event: SessionEvent|
            event == SessionEvent::Greeted(Err(e)) || event == SessionEvent::Status(Err(e)) || event
                == SessionEvent::Probed(Err(e)) || event == SessionEvent::Called(Err(e)) ==> {
                let (opening, step) = #[trigger] open_next(c, event, now);
                &&& step == NextStep::Save
                &&& opening.failure == Some(e@)
                &&& opening.record.state == EnvironmentSessionState::Failed
                &&& opening.record.error == Some(error::shown(e@))
                &&& opening.record.id == c.record.id
            },
        forall|event: SessionEvent|
            event == SessionEvent::Greeted(Err(e)) || event == SessionEvent::Status(Err(e)) || event
                == SessionEvent::Called(Err(e)) ==> {
                let (closing, step) = #[trigger] close_next(c, event, now);
                &&& step == NextStep::Save
                &&& closing.failure == Some(e@)
                &&& closing.record.state == EnvironmentSessionState::Failed
                &&& closing.record.error == Some(error::shown(e@))
                &&& closing.record.id == c.record.id
            },
        open_next(c, SessionEvent::Saved(Err(e)), now).0.failure == Some(e@),
        open_next(c, SessionEvent::Saved(Err(e)), now).1 == NextStep::Finish,
        close_next(c, SessionEvent::Saved(Err(e)), now).0.failure == Some(e@),
{
}

} // verus!
