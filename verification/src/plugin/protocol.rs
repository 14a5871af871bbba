//! The plugin protocol: one JSON line for a request, and one or more for its
//! reply. What a reply must be, and what each way of getting none comes to.
use vstd::prelude::*;
use crate::error;
use crate::error::{Error, ErrorView};
use crate::json;
use crate::json::{Json, JsonView};
use crate::order;
use crate::plugin::manifest;
use crate::plugin::manifest::PluginManifest;
use crate::text;

verus! {

// ---------------------------------------------------------------------
// Records
// ---------------------------------------------------------------------

/// Is the environment usable right now?
#[derive(Debug, PartialEq, Eq)]
pub struct ProbeResult {
    pub ready: bool,
    /// What is missing, versions, and the like.
    pub notes: String,
    /// The version that the target runs right now, if it can be told.
    pub running_version: Option<String>,
    /// The revision that the manifest expects to be running.
    pub expected_tag: Option<String>,
}

/// What a probe result holds.
#[verifier::ext_equal]
pub struct ProbeView {
    pub ready: bool,
    pub notes: Seq<char>,
    pub running_version: Option<Seq<char>>,
    pub expected_tag: Option<Seq<char>>,
}

impl View for ProbeResult {
    type V = ProbeView;

    open spec fn view(&self) -> ProbeView {
        ProbeView {
            ready: self.ready,
            notes: self.notes@,
            running_version: text::opt_text(self.running_version),
            expected_tag: text::opt_text(self.expected_tag),
        }
    }
}

/// One invariant check that a plugin offers.
#[derive(Debug, PartialEq, Eq)]
pub struct OracleInfo {
    pub name: String,
    pub description: String,
}

/// The verdict of a check, and its log as it was written.
#[derive(Debug, PartialEq, Eq)]
pub struct OracleResult {
    /// `hold`, `violated` or `inconclusive`.
    pub verdict: String,
    pub log: String,
}

/// What a command in the sandbox gave.
#[derive(Debug, PartialEq, Eq)]
pub struct SandboxExecResult {
    /// Both output streams.
    pub output: String,
    pub exit_code: i32,
}

/// One pinned source tree that is mounted into the sandbox.
#[derive(Debug, PartialEq, Eq)]
pub struct SourceInfo {
    pub name: String,
    pub repo: String,
    pub tag: String,
    /// The pinned commit.
    pub sha: String,
    pub mount: String,
}

/// What a faucet operation gave.
#[derive(Debug, PartialEq, Eq)]
pub struct FaucetResult {
    pub text: String,
    /// The satoshis that were paid, if any were.
    pub paid_sats: Option<u64>,
}

/// The arguments of a faucet operation, each for the operation that has it.
#[derive(Debug, PartialEq, Eq)]
pub struct FaucetCall {
    pub invoice: Option<String>,
    pub amount_sat: Option<u64>,
    pub memo: Option<String>,
}

/// What an executable says of itself when it is greeted.
#[derive(Debug, PartialEq, Eq)]
pub struct HelloResult {
    pub protocol: String,
    pub capabilities: Vec<String>,
}

/// A target of an environment.
#[derive(Debug, PartialEq, Eq)]
pub struct TargetRecord {
    pub id: String,
    pub kind: String,
    pub url: String,
    pub source_id: String,
    pub source_sha: String,
    pub reported_version: Option<String>,
    pub image_digest: Option<String>,
}

/// A tool of an environment.
#[derive(Debug, PartialEq, Eq)]
pub struct ToolRecord {
    pub id: String,
    pub description: String,
    pub path: Option<String>,
}

/// What an environment offers.
#[derive(Debug, PartialEq)]
pub struct EnvironmentDescription {
    pub targets: Vec<TargetRecord>,
    pub tools: Vec<ToolRecord>,
    pub limits: Json,
    pub provenance: Json,
}

/// An error that a plugin reports.
#[derive(Debug, PartialEq)]
pub struct ProtocolError {
    pub code: String,
    pub message: String,
    pub retryable: bool,
    pub details: Option<Json>,
}

/// A line that reports progress and ends nothing.
#[derive(Debug, PartialEq, Eq)]
pub struct LifecycleProgress {
    pub id: u64,
    pub event: String,
    pub phase: String,
    pub message: String,
    pub completed: Option<u64>,
    pub total: Option<u64>,
}

/// A reply of the legacy protocol.
#[derive(Debug, PartialEq)]
pub struct Reply {
    pub id: u64,
    pub ok: bool,
    pub result: Option<Json>,
    pub error: Option<String>,
}

/// A reply of the first protocol version.
#[derive(Debug, PartialEq)]
pub struct ProtocolV1Reply {
    pub id: u64,
    pub ok: bool,
    pub result: Option<Json>,
    pub error: Option<ProtocolError>,
}

/// A line of a lifecycle call: progress, or the reply that ends it.
#[derive(Debug, PartialEq)]
pub enum LifecycleLine {
    Progress(LifecycleProgress),
    Reply(ProtocolV1Reply),
}

// ---------------------------------------------------------------------
// Requests
// ---------------------------------------------------------------------

/// A request.
pub open spec fn request(id: u64, method: Seq<char>, params: Option<JsonView>) -> JsonView {
    JsonView::Object(
        Map::empty().insert("id"@, JsonView::Number(text::decimal(id as nat))).insert(
            "method"@,
            JsonView::Text(method),
        ).insert(
            "params"@,
            match params {
                Some(p) => p,
                None => JsonView::Null,
            },
        ),
    )
}

/// The request `id` for a method.
pub fn build_request(id: u64, method: &str, params: Option<Json>) -> (r: Json)
    ensures
        r@ == request(
            id,
            method@,
            match params {
                Some(p) => Some(p@),
                None => None,
            },
        ),
{
    let mut out = json::no_fields();
    json::put(&mut out, "id", Json::Number(text::decimal_of(id)));
    json::put_text(&mut out, "method", method);
    match params {
        Some(p) => {
            json::put(&mut out, "params", p);
        },
        None => {
            json::put(&mut out, "params", Json::Null);
        },
    }
    Json::Object(out)
}

/// The line that a request is sent as.
pub fn request_line(id: u64, method: &str, params: Option<Json>) -> (r: String)
    ensures
        r@ == json::compact(
            request(
                id,
                method@,
                match params {
                    Some(p) => Some(p@),
                    None => None,
                },
            ),
        ) + "\n"@,
{
    let request = build_request(id, method, params);
    text::cat2(json::to_compact(&request).as_str(), "\n")
}

/// How long a reply is waited for, in milliseconds: what the setting says, if
/// it is a number, else two minutes.
pub fn call_timeout_ms(setting: Option<&str>) -> (r: u64)
    ensures
        r == (match text::opt_str(setting) {
            None => 120000,
            Some(s) => match text::parsed_u64(s) {
                Some(ms) => ms,
                None => 120000,
            },
        }),
{
    match setting {
        None => 120000,
        Some(s) => match text::parse_u64(s) {
            Some(ms) => ms,
            None => 120000,
        },
    }
}

// ---------------------------------------------------------------------
// Single replies
// ---------------------------------------------------------------------

/// What came of waiting for a reply.
#[derive(Debug, PartialEq, Eq)]
pub enum ReplyEvent {
    /// A line.
    Line(String),
    /// Nothing in time.
    Timeout,
    /// The end of the stream.
    Closed,
}

/// A reply line without the white space at its ends, or why there is none,
/// and whether the plugin's processes are to be killed.
#[derive(Debug, PartialEq, Eq)]
pub enum Received {
    Line(String),
    Failed { error: Error, kill: bool },
}

/// What was received, as plain values.
pub enum ReceivedView {
    Line(Seq<char>),
    Failed { error: ErrorView, kill: bool },
}

impl View for Received {
    type V = ReceivedView;

    open spec fn view(&self) -> ReceivedView {
        match self {
            Received::Line(l) => ReceivedView::Line(l@),
            Received::Failed { error, kill } => ReceivedView::Failed { error: error@, kill: *kill },
        }
    }
}

/// What waiting for the reply to a method comes to. A plugin that does not
/// answer in time is killed, and what it spawned with it.
pub open spec fn received(
    plugin: Seq<char>,
    method: Seq<char>,
    timeout_secs: u64,
    event: ReplyEvent,
) -> ReceivedView {
    match event {
        ReplyEvent::Line(line) => ReceivedView::Line(text::trimmed(line@)),
        ReplyEvent::Timeout => ReceivedView::Failed {
            error: manifest::plugin_error(
                plugin,
                "call "@ + method + " timed out after "@ + text::decimal(timeout_secs as nat)
                    + "s — plugin process tree killed"@,
            ),
            kill: true,
        },
        ReplyEvent::Closed => ReceivedView::Failed {
            error: ErrorView::PluginClosed(plugin),
            kill: false,
        },
    }
}

/// The reply line to a method, or why there is none.
pub fn receive(plugin: &str, method: &str, timeout_secs: u64, event: ReplyEvent) -> (r: Received)
    ensures
        r@ == received(plugin@, method@, timeout_secs, event),
{
    match event {
        ReplyEvent::Line(line) => Received::Line(text::trim(line.as_str())),
        ReplyEvent::Timeout => Received::Failed {
            error: manifest::failed(
                plugin,
                text::cat5(
                    "call ",
                    method,
                    " timed out after ",
                    text::decimal_of(timeout_secs).as_str(),
                    "s — plugin process tree killed",
                ),
            ),
            kill: true,
        },
        ReplyEvent::Closed => Received::Failed {
            error: Error::PluginClosed(plugin.to_owned()),
            kill: false,
        },
    }
}

/// The error of a reply to another request.
pub open spec fn wrong_id(plugin: Seq<char>, got: u64, id: u64) -> ErrorView {
    manifest::plugin_error(
        plugin,
        "reply id "@ + text::decimal(got as nat) + " does not match request id "@ + text::decimal(
            id as nat,
        ),
    )
}

/// The error of a reply to another request.
fn other_id(plugin: &str, got: u64, id: u64) -> (r: Error)
    ensures
        r@ == wrong_id(plugin@, got, id),
{
    manifest::failed(
        plugin,
        text::cat4(
            "reply id ",
            text::decimal_of(got).as_str(),
            " does not match request id ",
            text::decimal_of(id).as_str(),
        ),
    )
}

/// What a result value holds; none is null.
pub open spec fn result_value(v: Option<Json>) -> JsonView {
    match v {
        Some(v) => v@,
        None => JsonView::Null,
    }
}

/// What a legacy reply line comes to, given what parsing it gave.
pub open spec fn reply_outcome(
    plugin: Seq<char>,
    id: u64,
    line: Seq<char>,
    parsed: Result<Reply, String>,
) -> Result<JsonView, ErrorView> {
    if line.len() == 0 {
        Err(ErrorView::PluginClosed(plugin))
    } else {
        match parsed {
            Err(e) => Err(
                manifest::plugin_error(
                    plugin,
                    "malformed reply "@ + text::quoted(line) + ": "@ + e@,
                ),
            ),
            Ok(reply) => if reply.id != id {
                Err(wrong_id(plugin, reply.id, id))
            } else if !reply.ok {
                Err(
                    manifest::plugin_error(
                        plugin,
                        match reply.error {
                            Some(m) => m@,
                            None => "unknown plugin error"@,
                        },
                    ),
                )
            } else {
                Ok(result_value(reply.result))
            },
        }
    }
}

/// The result of a legacy reply line, or its error.
pub fn finish_reply(plugin: &str, id: u64, line: &str, parsed: Result<Reply, String>) -> (r: Result<
    Json,
    Error,
>)
    ensures
        error::outcome(r) == reply_outcome(plugin@, id, line@, parsed),
{
    if line.is_empty() {
        return Err(Error::PluginClosed(plugin.to_owned()));
    }
    match parsed {
        Err(e) => Err(
            manifest::failed(
                plugin,
                text::cat4("malformed reply ", text::quote(line).as_str(), ": ", e.as_str()),
            ),
        ),
        Ok(reply) => if reply.id != id {
            Err(other_id(plugin, reply.id, id))
        } else if !reply.ok {
            Err(
                manifest::failed(
                    plugin,
                    match reply.error {
                        Some(m) => m,
                        None => "unknown plugin error".to_owned(),
                    },
                ),
            )
        } else {
            match reply.result {
                Some(v) => Ok(v),
                None => Ok(Json::Null),
            }
        },
    }
}

/// How a reported error is told.
pub open spec fn told(error: Option<ProtocolError>) -> Seq<char> {
    match error {
        Some(e) => e.code@ + ": "@ + e.message@ + " (retryable: "@ + (if e.retryable {
            "true"@
        } else {
            "false"@
        }) + ")"@,
        None => "unknown"@ + ": "@ + "unknown plugin error"@ + " (retryable: "@ + "false"@ + ")"@,
    }
}

/// What a reply of the first version comes to; `kind` is the kind of call. A
/// reply carries a result or an error, never both.
pub open spec fn v1_outcome(
    plugin: Seq<char>,
    kind: Seq<char>,
    id: u64,
    reply: ProtocolV1Reply,
) -> Result<JsonView, ErrorView> {
    if reply.id != id {
        Err(wrong_id(plugin, reply.id, id))
    } else if reply.ok {
        if reply.error is Some {
            Err(
                manifest::plugin_error(
                    plugin,
                    "successful "@ + kind + " reply carried an error"@,
                ),
            )
        } else {
            Ok(result_value(reply.result))
        }
    } else if reply.result is Some {
        Err(manifest::plugin_error(plugin, "failed "@ + kind + " reply carried a result"@))
    } else {
        Err(manifest::plugin_error(plugin, told(reply.error)))
    }
}

/// The result of a reply of the first version, or its error.
pub fn finish_v1_reply(plugin: &str, kind: &str, id: u64, reply: ProtocolV1Reply) -> (r: Result<
    Json,
    Error,
>)
    ensures
        error::outcome(r) == v1_outcome(plugin@, kind@, id, reply),
{
    if reply.id != id {
        return Err(other_id(plugin, reply.id, id));
    }
    if reply.ok {
        if reply.error.is_some() {
            return Err(
                manifest::failed(
                    plugin,
                    text::cat3("successful ", kind, " reply carried an error"),
                ),
            );
        }
        return match reply.result {
            Some(v) => Ok(v),
            None => Ok(Json::Null),
        };
    }
    if reply.result.is_some() {
        return Err(
            manifest::failed(plugin, text::cat3("failed ", kind, " reply carried a result")),
        );
    }
    let message = match reply.error {
        Some(e) => {
            let retryable = if e.retryable {
                "true"
            } else {
                "false"
            };
            text::cat6(
                e.code.as_str(),
                ": ",
                e.message.as_str(),
                " (retryable: ",
                retryable,
                ")",
            )
        },
        None => text::cat6(
            "unknown",
            ": ",
            "unknown plugin error",
            " (retryable: ",
            "false",
            ")",
        ),
    };
    Err(manifest::failed(plugin, message))
}

/// What a reply line of the first version comes to, given what parsing it
/// gave.
pub fn finish_v1_line(plugin: &str, id: u64, line: &str, parsed: Result<ProtocolV1Reply, String>) -> (r:
    Result<Json, Error>)
    ensures
        error::outcome(r) == (match parsed {
            Err(e) => Err(
                manifest::plugin_error(
                    plugin@,
                    "malformed v1 reply "@ + text::quoted(line@) + ": "@ + e@,
                ),
            ),
            Ok(reply) => v1_outcome(plugin@, "v1"@, id, reply),
        }),
{
    match parsed {
        Err(e) => Err(
            manifest::failed(
                plugin,
                text::cat4("malformed v1 reply ", text::quote(line).as_str(), ": ", e.as_str()),
            ),
        ),
        Ok(reply) => finish_v1_reply(plugin, "v1", id, reply),
    }
}

// ---------------------------------------------------------------------
// Lifecycle calls
// ---------------------------------------------------------------------

/// A method is one of the lifecycle.
pub open spec fn is_lifecycle(method: Seq<char>) -> bool {
    method == "setup"@ || method == "doctor"@ || method == "status"@ || method == "stop"@
}

/// Check that `method` is one of the lifecycle.
pub fn check_lifecycle(plugin: &str, method: &str) -> (r: Result<(), Error>)
    ensures
        error::verdict(r) == (if is_lifecycle(method@) {
            Ok(())
        } else {
            Err(manifest::plugin_error(plugin@, method@ + " is not a lifecycle method"@))
        }),
{
    if text::same(method, "setup") || text::same(method, "doctor") || text::same(method, "status")
        || text::same(method, "stop") {
        Ok(())
    } else {
        Err(manifest::failed(plugin, text::cat2(method, " is not a lifecycle method")))
    }
}

/// How long a lifecycle call waits at a time, in nanoseconds, so that it can
/// be cancelled.
pub const POLL_NANOS: u128 = 100000000;

/// How long to wait for the next line, and whether that is all the time that
/// is left; none where the deadline has passed. Times are in nanoseconds.
pub fn poll_time(deadline: u128, elapsed: u128) -> (r: Option<(u128, bool)>)
    ensures
        match r {
            None => elapsed > deadline,
            Some((wait, last)) => {
                &&& elapsed <= deadline
                &&& wait == (if deadline - elapsed < POLL_NANOS {
                    deadline - elapsed
                } else {
                    POLL_NANOS as int
                })
                &&& last == (wait == deadline - elapsed)
            },
        },
{
    if elapsed > deadline {
        return None;
    }
    let remaining: u128 = deadline - elapsed;
    if remaining <= POLL_NANOS {
        Some((remaining, true))
    } else {
        Some((POLL_NANOS, false))
    }
}

/// What happens while a lifecycle call is waited for.
#[derive(Debug, PartialEq)]
pub enum LifecycleEvent {
    /// The caller cancelled it.
    Cancelled,
    /// The deadline has passed.
    Expired,
    /// No line came; `last` says that no time is left.
    Quiet { last: bool },
    /// The end of the stream.
    Closed,
    /// A line, without the white space at its ends, and what parsing it gave.
    Line { line: String, parsed: Result<LifecycleLine, String> },
}

/// What to do then.
#[derive(Debug, PartialEq)]
pub enum LifecycleAction {
    /// Wait on.
    Wait,
    /// Report the progress and wait on.
    Report(LifecycleProgress),
    /// Return the result.
    Done(Json),
    /// Return the error; `kill` says whether to kill the plugin's processes.
    Fail { error: Error, kill: bool },
}

/// What to do, as plain values.
pub enum LifecycleView {
    Wait,
    Report(LifecycleProgress),
    Done(JsonView),
    Fail { error: ErrorView, kill: bool },
}

impl View for LifecycleAction {
    type V = LifecycleView;

    open spec fn view(&self) -> LifecycleView {
        match *self {
            LifecycleAction::Wait => LifecycleView::Wait,
            LifecycleAction::Report(p) => LifecycleView::Report(p),
            LifecycleAction::Done(v) => LifecycleView::Done(v@),
            LifecycleAction::Fail { error, kill } => LifecycleView::Fail { error: error@, kill },
        }
    }
}

/// A call ran out of time.
pub open spec fn timed_out(plugin: Seq<char>, method: Seq<char>, deadline_secs: u64) -> LifecycleView {
    LifecycleView::Fail {
        error: manifest::plugin_error(
            plugin,
            "lifecycle call "@ + method + " timed out after "@ + text::decimal(
                deadline_secs as nat,
            ) + "s — plugin process tree killed"@,
        ),
        kill: true,
    }
}

/// What a lifecycle line comes to.
pub open spec fn line_action(
    plugin: Seq<char>,
    id: u64,
    line: Seq<char>,
    parsed: Result<LifecycleLine, String>,
) -> LifecycleView {
    match parsed {
        Err(e) => LifecycleView::Fail {
            error: manifest::plugin_error(
                plugin,
                "malformed lifecycle reply "@ + text::quoted(line) + ": "@ + e@,
            ),
            kill: false,
        },
        Ok(LifecycleLine::Progress(p)) => if p.id != id || p.event@ != "progress"@ {
            LifecycleView::Fail {
                error: manifest::plugin_error(
                    plugin,
                    "invalid lifecycle progress id/event: expected id "@ + text::decimal(id as nat)
                        + " and event progress"@,
                ),
                kill: false,
            }
        } else {
            LifecycleView::Report(p)
        },
        Ok(LifecycleLine::Reply(reply)) => match v1_outcome(plugin, "lifecycle"@, id, reply) {
            Ok(v) => LifecycleView::Done(v),
            Err(error) => LifecycleView::Fail { error, kill: false },
        },
    }
}

/// What an event of a lifecycle call comes to. Progress does not extend the
/// deadline.
pub open spec fn lifecycle_action(
    plugin: Seq<char>,
    method: Seq<char>,
    id: u64,
    deadline_secs: u64,
    event: LifecycleEvent,
) -> LifecycleView {
    match event {
        LifecycleEvent::Cancelled => LifecycleView::Fail {
            error: manifest::plugin_error(
                plugin,
                "lifecycle call "@ + method + " cancelled — plugin process tree killed"@,
            ),
            kill: true,
        },
        LifecycleEvent::Expired => timed_out(plugin, method, deadline_secs),
        LifecycleEvent::Quiet { last } => if last {
            timed_out(plugin, method, deadline_secs)
        } else {
            LifecycleView::Wait
        },
        LifecycleEvent::Closed => LifecycleView::Fail {
            error: ErrorView::PluginClosed(plugin),
            kill: false,
        },
        LifecycleEvent::Line { line, parsed } => line_action(plugin, id, line@, parsed),
    }
}

/// The failure of a call that ran out of time.
fn time_out(plugin: &str, method: &str, deadline_secs: u64) -> (r: LifecycleAction)
    ensures
        r@ == timed_out(plugin@, method@, deadline_secs),
{
    LifecycleAction::Fail {
        error: manifest::failed(
            plugin,
            text::cat5(
                "lifecycle call ",
                method,
                " timed out after ",
                text::decimal_of(deadline_secs).as_str(),
                "s — plugin process tree killed",
            ),
        ),
        kill: true,
    }
}

/// What to do about an event of the lifecycle call `method`, whose request
/// was `id`.
pub fn lifecycle_step(
    plugin: &str,
    method: &str,
    id: u64,
    deadline_secs: u64,
    event: LifecycleEvent,
) -> (r: LifecycleAction)
    ensures
        r@ == lifecycle_action(plugin@, method@, id, deadline_secs, event),
{
    match event {
        LifecycleEvent::Cancelled => LifecycleAction::Fail {
            error: manifest::failed(
                plugin,
                text::cat3(
                    "lifecycle call ",
                    method,
                    " cancelled — plugin process tree killed",
                ),
            ),
            kill: true,
        },
        LifecycleEvent::Expired => time_out(plugin, method, deadline_secs),
        LifecycleEvent::Quiet { last } => if last {
            time_out(plugin, method, deadline_secs)
        } else {
            LifecycleAction::Wait
        },
        LifecycleEvent::Closed => LifecycleAction::Fail {
            error: Error::PluginClosed(plugin.to_owned()),
            kill: false,
        },
        LifecycleEvent::Line { line, parsed } => match parsed {
            Err(e) => LifecycleAction::Fail {
                error: manifest::failed(
                    plugin,
                    text::cat4(
                        "malformed lifecycle reply ",
                        text::quote(line.as_str()).as_str(),
                        ": ",
                        e.as_str(),
                    ),
                ),
                kill: false,
            },
            Ok(LifecycleLine::Progress(p)) => {
                if p.id != id || !text::same(p.event.as_str(), "progress") {
                    LifecycleAction::Fail {
                        error: manifest::failed(
                            plugin,
                            text::cat3(
                                "invalid lifecycle progress id/event: expected id ",
                                text::decimal_of(id).as_str(),
                                " and event progress",
                            ),
                        ),
                        kill: false,
                    }
                } else {
                    LifecycleAction::Report(p)
                }
            },
            Ok(LifecycleLine::Reply(reply)) => match finish_v1_reply(plugin, "lifecycle", id, reply) {
                Ok(v) => LifecycleAction::Done(v),
                Err(error) => LifecycleAction::Fail { error, kill: false },
            },
        },
    }
}

// ---------------------------------------------------------------------
// Greeting
// ---------------------------------------------------------------------

/// The first `n` texts, quoted.
pub open spec fn quoted_texts(v: Seq<Seq<char>>, n: nat) -> Seq<Seq<char>>
    decreases n,
{
    if n == 0 {
        Seq::empty()
    } else {
        quoted_texts(v, (n - 1) as nat).push(text::quoted(v[n - 1]))
    }
}

/// A list of texts as it is shown: quoted, in square brackets.
pub open spec fn listing(v: Seq<Seq<char>>) -> Seq<char> {
    "["@ + text::joined(quoted_texts(v, v.len()), ", "@) + "]"@
}

/// The list `v` as it is shown.
fn show_list(v: &Vec<String>) -> (r: String)
    ensures
        r@ == listing(text::texts(v@)),
{
    let ghost all = text::texts(v@);
    let mut out: Vec<String> = Vec::new();
    let mut i: usize = 0;
    assert(text::texts(out@) =~= quoted_texts(all, 0));
    while i < v.len()
        invariant
            i <= v@.len(),
            all == text::texts(v@),
            text::texts(out@) == quoted_texts(all, i as nat),
        decreases v@.len() - i,
    {
        assert(all[i as int] == v@[i as int]@);
        let ghost was = text::texts(out@);
        let q = text::quote(v[i].as_str());
        out.push(q);
        assert(text::texts(out@) =~= was.push(q@));
        i = i + 1;
    }
    assert(all.len() == v@.len());
    text::cat3("[", text::join(out.as_slice(), ", ").as_str(), "]")
}

/// The list `v` in order.
pub open spec fn in_order(v: Seq<Seq<char>>) -> Seq<Seq<char>> {
    order::sorted(v, v.len())
}

/// What checking a greeting against the manifest comes to: the executable
/// must speak the declared protocol and have exactly the declared
/// capabilities, in any order.
pub open spec fn hello_check(m: PluginManifest, hello: HelloResult) -> Result<(), ErrorView> {
    match m.protocol {
        None => Err(manifest::plugin_error(m.name@, "hello requires a protocol-v1 manifest"@)),
        Some(expected) => if hello.protocol@ != expected@ {
            Err(
                manifest::plugin_error(
                    m.name@,
                    "hello protocol "@ + text::quoted(hello.protocol@)
                        + " does not match manifest "@ + text::quoted(expected@),
                ),
            )
        } else {
            let reported = in_order(text::texts(hello.capabilities@));
            let declared = in_order(text::texts(m.capabilities@));
            if reported != declared {
                Err(
                    manifest::plugin_error(
                        m.name@,
                        "hello capabilities "@ + listing(reported) + " do not match manifest "@
                            + listing(declared),
                    ),
                )
            } else {
                Ok(())
            }
        },
    }
}

/// Are the lists the same?
fn same_list(a: &Vec<String>, b: &Vec<String>) -> (r: bool)
    ensures
        r == (text::texts(a@) == text::texts(b@)),
{
    let ghost va = text::texts(a@);
    let ghost vb = text::texts(b@);
    if a.len() != b.len() {
        assert(va.len() != vb.len());
        return false;
    }
    let mut i: usize = 0;
    while i < a.len()
        invariant
            i <= a@.len(),
            a@.len() == b@.len(),
            va == text::texts(a@),
            vb == text::texts(b@),
            forall|j: int| 0 <= j < i ==> va[j] == vb[j],
        decreases a@.len() - i,
    {
        assert(va[i as int] == a@[i as int]@ && vb[i as int] == b@[i as int]@);
        if !text::same(a[i].as_str(), b[i].as_str()) {
            return false;
        }
        i = i + 1;
    }
    assert(va =~= vb);
    true
}

/// Check what the executable says of itself against its manifest: what agrees
/// with it is handed on.
pub fn check_hello(m: &PluginManifest, hello: HelloResult) -> (r: Result<HelloResult, Error>)
    ensures
        match hello_check(*m, hello) {
            Ok(_) => r == Ok::<HelloResult, Error>(hello),
            Err(e) => r matches Err(why) && why@ == e,
        },
{
    let expected = match &m.protocol {
        None => {
            return Err(
                manifest::failed(
                    m.name.as_str(),
                    "hello requires a protocol-v1 manifest".to_owned(),
                ),
            );
        },
        Some(p) => p,
    };
    if !text::same(hello.protocol.as_str(), expected.as_str()) {
        return Err(
            manifest::failed(
                m.name.as_str(),
                text::cat4(
                    "hello protocol ",
                    text::quote(hello.protocol.as_str()).as_str(),
                    " does not match manifest ",
                    text::quote(expected.as_str()).as_str(),
                ),
            ),
        );
    }
    let reported = order::sort_texts(&hello.capabilities);
    let declared = order::sort_texts(&m.capabilities);
    assert(text::texts(hello.capabilities@).len() == hello.capabilities@.len());
    assert(text::texts(m.capabilities@).len() == m.capabilities@.len());
    if !same_list(&reported, &declared) {
        return Err(
            manifest::failed(
                m.name.as_str(),
                text::cat4(
                    "hello capabilities ",
                    show_list(&reported).as_str(),
                    " do not match manifest ",
                    show_list(&declared).as_str(),
                ),
            ),
        );
    }
    Ok(hello)
}

// ---------------------------------------------------------------------
// Laws
// ---------------------------------------------------------------------

/// A call is answered only by a reply to its own request, which carries a
/// result or an error and never both.
pub proof fn law_reply_answers_its_request(
    plugin: Seq<char>,
    kind: Seq<char>,
    id: u64,
    reply: ProtocolV1Reply,
)
    ensures
        v1_outcome(plugin, kind, id, reply) is Ok <==> reply.id == id && reply.ok
            && reply.error is None,
        v1_outcome(plugin, kind, id, reply) matches Ok(v) ==> v == result_value(reply.result),
{
}

/// Progress never ends a lifecycle call, and nothing but a reply to its own
/// request completes it.
pub proof fn law_only_a_reply_completes(
    plugin: Seq<char>,
    method: Seq<char>,
    id: u64,
    deadline_secs: u64,
    event: LifecycleEvent,
)
    ensures
        lifecycle_action(plugin, method, id, deadline_secs, event) is Done ==> {
            &&& event matches LifecycleEvent::Line { parsed, .. }
            &&& parsed matches Ok(LifecycleLine::Reply(reply))
            &&& reply.id == id
            &&& reply.ok
        },
        lifecycle_action(plugin, method, id, deadline_secs, event) is Report ==> {
            &&& event matches LifecycleEvent::Line { parsed, .. }
            &&& parsed matches Ok(LifecycleLine::Progress(p))
            &&& p.id == id
        },
{
}

/// A plugin's processes are killed just where a call is cancelled or runs out
/// of time; a plugin that answered, even wrongly, is left running.
pub proof fn law_killed_only_when_out_of_time(
    plugin: Seq<char>,
    method: Seq<char>,
    id: u64,
    deadline_secs: u64,
    event: LifecycleEvent,
)
    ensures
        (lifecycle_action(plugin, method, id, deadline_secs, event) matches LifecycleView::Fail {
            kill,
            ..
        } && kill) <==> (event is Cancelled || event is Expired || event == (LifecycleEvent::Quiet {
            last: true,
        })),
{
}

/// A greeting is accepted just where the executable speaks the declared
/// protocol and has the declared capabilities, each as often, in any order.
pub proof fn law_hello_ignores_order(m: PluginManifest, hello: HelloResult)
    ensures
        hello_check(m, hello) is Ok <==> {
            &&& m.protocol matches Some(expected)
            &&& hello.protocol@ == expected@
            &&& text::texts(hello.capabilities@).to_multiset() == text::texts(
                m.capabilities@,
            ).to_multiset()
        },
{
    order::law_same_texts_sort_alike(text::texts(hello.capabilities@), text::texts(m.capabilities@));
}

/// A request says which call it is, what is called and with what: its
/// parameters are those that were given, and null where there were none.
pub proof fn law_request_carries_its_parameters(
    id: u64,
    method: Seq<char>,
    params: Option<JsonView>,
)
    ensures
        json::member(request(id, method, params), "id"@) matches Some(n) && json::as_whole(n) == Some(
            id,
        ),
        json::member_text(request(id, method, params), "method"@) == Some(method),
        params matches Some(p) ==> json::member(request(id, method, params), "params"@) == Some(p),
        params is None ==> json::member(request(id, method, params), "params"@) == Some(
            JsonView::Null,
        ),
{
    reveal_strlit("id");
    reveal_strlit("method");
    reveal_strlit("params");
    assert("method"@[0] != "params"@[0]);
    text::law_decimal_is_read_back(id as nat);
}

/// Requests are told apart by their number, their method and their parameters.
pub proof fn law_requests_differ(
    a: u64,
    b: u64,
    m: Seq<char>,
    n: Seq<char>,
    p: JsonView,
    q: JsonView,
)
    requires
        request(a, m, Some(p)) == request(b, n, Some(q)),
    ensures
        a == b,
        m == n,
        p == q,
{
    law_request_carries_its_parameters(a, m, Some(p));
    law_request_carries_its_parameters(b, n, Some(q));
}

/// A legacy call is answered only by a reply to its own request that says it
/// went well, and then by that reply's result; the error of one that did not
/// is handed on.
pub proof fn law_legacy_reply_answers_its_request(
    plugin: Seq<char>,
    id: u64,
    line: Seq<char>,
    parsed: Result<Reply, String>,
)
    ensures
        reply_outcome(plugin, id, line, parsed) is Ok <==> line.len() > 0 && (parsed matches Ok(reply)
            && reply.id == id && reply.ok),
        reply_outcome(plugin, id, line, parsed) matches Ok(v) ==> (parsed->Ok_0.result matches Some(
            given,
        ) ==> v == given@) && (parsed->Ok_0.result is None ==> v is Null),
        line.len() > 0 && parsed is Ok && parsed->Ok_0.id == id && !parsed->Ok_0.ok
            && parsed->Ok_0.error is Some ==> reply_outcome(plugin, id, line, parsed) == Err::<
            JsonView,
            ErrorView,
        >(ErrorView::Plugin { plugin, message: parsed->Ok_0.error->Some_0@ }),
        line.len() == 0 ==> reply_outcome(plugin, id, line, parsed) == Err::<JsonView, ErrorView>(
            ErrorView::PluginClosed(plugin),
        ),
{
}

/// A reply that reports an error hands on what it says: its code and its
/// message, under the plugin's name. The result of one that went well is the
/// result that it carries.
pub proof fn law_reported_errors_are_told(
    plugin: Seq<char>,
    kind: Seq<char>,
    id: u64,
    reply: ProtocolV1Reply,
)
    requires
        reply.id == id,
    ensures
        reply.ok && reply.error is None && reply.result is Some ==> v1_outcome(plugin, kind, id, reply)
            == Ok::<JsonView, ErrorView>(reply.result->Some_0@),
        reply.ok && reply.error is None && reply.result is None ==> v1_outcome(plugin, kind, id, reply)
            == Ok::<JsonView, ErrorView>(JsonView::Null),
        !reply.ok && reply.result is None && reply.error is Some ==> {
            let e = reply.error->Some_0;
            &&& v1_outcome(plugin, kind, id, reply) matches Err(
                ErrorView::Plugin { plugin: whose, message },
            )
            &&& whose == plugin
            &&& (e.code@ + ": "@ + e.message@).is_prefix_of(message)
            &&& text::contains(message, if e.retryable {
                "(retryable: true)"@
            } else {
                "(retryable: false)"@
            })
        },
{
    if !reply.ok && reply.result is None && reply.error is Some {
        let e = reply.error->Some_0;
        let said = e.code@ + ": "@ + e.message@;
        let message = told(reply.error);
        assert(said =~= message.subrange(0, said.len() as int));
        reveal_strlit(" (retryable: ");
        reveal_strlit("true");
        reveal_strlit("false");
        reveal_strlit(")");
        reveal_strlit("(retryable: true)");
        reveal_strlit("(retryable: false)");
        let note = if e.retryable {
            "(retryable: true)"@
        } else {
            "(retryable: false)"@
        };
        assert(message.subrange(said.len() as int + 1, message.len() as int) =~= note);
        assert(text::occurs_at(message, note, said.len() as int + 1));
    }
}

/// A lifecycle call returns what its reply carries, reports the progress that
/// was made, and otherwise waits while it has time.
pub proof fn law_lifecycle_hands_on_what_came(
    plugin: Seq<char>,
    method: Seq<char>,
    id: u64,
    deadline_secs: u64,
    line: String,
    progress: LifecycleProgress,
    reply: ProtocolV1Reply,
)
    ensures
        progress.id == id && progress.event@ == "progress"@ ==> lifecycle_action(
            plugin,
            method,
            id,
            deadline_secs,
            LifecycleEvent::Line { line, parsed: Ok(LifecycleLine::Progress(progress)) },
        ) == LifecycleView::Report(progress),
        progress.id != id || progress.event@ != "progress"@ ==> lifecycle_action(
            plugin,
            method,
            id,
            deadline_secs,
            LifecycleEvent::Line { line, parsed: Ok(LifecycleLine::Progress(progress)) },
        ) is Fail,
        reply.id == id && reply.ok && reply.error is None && reply.result is Some
            ==> lifecycle_action(
            plugin,
            method,
            id,
            deadline_secs,
            LifecycleEvent::Line { line, parsed: Ok(LifecycleLine::Reply(reply)) },
        ) == LifecycleView::Done(reply.result->Some_0@),
        reply.id != id || !reply.ok ==> lifecycle_action(
            plugin,
            method,
            id,
            deadline_secs,
            LifecycleEvent::Line { line, parsed: Ok(LifecycleLine::Reply(reply)) },
        ) is Fail,
        lifecycle_action(
            plugin,
            method,
            id,
            deadline_secs,
            LifecycleEvent::Quiet { last: false },
        ) is Wait,
        lifecycle_action(plugin, method, id, deadline_secs, LifecycleEvent::Closed) is Fail,
{
}

/// A line that came is received without the white space around it; a plugin
/// that says nothing in time is killed, and one that closed its stream is not.
pub proof fn law_lines_are_received(
    plugin: Seq<char>,
    method: Seq<char>,
    timeout_secs: u64,
    line: String,
)
    ensures
        received(plugin, method, timeout_secs, ReplyEvent::Line(line)) matches ReceivedView::Line(
            got,
        ) && text::is_padded(got, line@) && (got.len() > 0 ==> !text::is_white(got[0])
            && !text::is_white(got.last())),
        received(plugin, method, timeout_secs, ReplyEvent::Timeout) matches ReceivedView::Failed {
            kill,
            error,
        } && kill && error is Plugin,
        received(plugin, method, timeout_secs, ReplyEvent::Closed) == (ReceivedView::Failed {
            error: ErrorView::PluginClosed(plugin),
            kill: false,
        }),
{
    text::law_trimming_takes_only_white_space(line@);
}

/// The methods of the lifecycle are setting up, checking, telling the status
/// and stopping.
pub proof fn law_lifecycle_methods(method: Seq<char>)
    ensures
        is_lifecycle(method) <==> seq!["setup"@, "doctor"@, "status"@, "stop"@].contains(method),
{
    let all = seq!["setup"@, "doctor"@, "status"@, "stop"@];
    assert(all[0] == "setup"@ && all[1] == "doctor"@ && all[2] == "status"@ && all[3] == "stop"@);
}

} // verus!
