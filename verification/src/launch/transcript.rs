//! The artifacts that a run leaves: its logs, and the record that OpenCode
//! exports of its conversation.
use vstd::prelude::*;
use crate::environment_session::{EnvironmentSessionId, SessionIdView};
use crate::error;
use crate::error::{Error, ErrorView};
use crate::json;
use crate::json::{Json, JsonView};
use crate::launch::plan;
use crate::launch::process::{CommandOutput, OutputView};
use crate::path;
use crate::store::layout;
use crate::store::layout::Store;
use crate::store::missions::FileWrite;
use crate::store::naming;
use crate::text;
use crate::text::Runs;

verus! {

/// How many bytes of an export are taken.
pub const EXPORT_LIMIT: usize = 131072;

/// How many bytes of a listing of sessions are taken.
pub const SESSION_LIST_LIMIT: usize = 1048576;

/// How many bytes may wait for the end of their line.
pub const PENDING_LIMIT: usize = 16384;

/// One line that a run printed.
#[derive(Debug, PartialEq, Eq)]
pub struct RunLine {
    pub stderr: bool,
    pub text: String,
}

// ---------------------------------------------------------------------
// Names
// ---------------------------------------------------------------------

/// What the artifacts of a run are called after: its agent, and its mission and
/// generation where it has any.
pub open spec fn stem_of(agent: Seq<char>, run_id: Option<SessionIdView>) -> Seq<char> {
    match run_id {
        Some(id) => naming::slug_of(agent) + "-"@ + naming::slug_of(id.mission) + "-g"@
            + text::decimal(id.generation as nat),
        None => naming::slug_of(agent),
    }
}

/// What the artifacts of a run are called after.
pub fn artifact_stem(agent: &str, run_id: Option<&EnvironmentSessionId>) -> (r: String)
    ensures
        r@ == stem_of(agent@, plan::opt_id_ref(run_id)),
{
    let agent = naming::slugify(agent);
    match run_id {
        Some(id) => text::cat5(
            agent.as_str(),
            "-",
            naming::slugify(id.mission.as_str()).as_str(),
            "-g",
            text::decimal_of(id.generation).as_str(),
        ),
        None => agent,
    }
}

/// The first six words of a mission, as they stand in a file's name.
pub open spec fn mission_words(mission: Seq<char>) -> Seq<char> {
    let words = text::runs(text::lowercased(mission), Runs::Alnum);
    text::joined(
        if words.len() > 6 {
            words.take(6)
        } else {
            words
        },
        "-"@,
    )
}

/// The first six words of a mission, as they stand in a file's name.
fn words_of(mission: &str) -> (r: String)
    ensures
        r@ == mission_words(mission@),
{
    let mut words = text::split_runs(text::lowercase(mission).as_str(), Runs::Alnum);
    let ghost all = text::runs(text::lowercased(mission@), Runs::Alnum);
    assert(all.len() == words@.len());
    if words.len() > 6 {
        words.truncate(6);
        assert(text::texts(words@) =~= all.take(6));
    }
    text::join(words.as_slice(), "-")
}

/// The log of a piped run, with what stands at its head.
pub open spec fn piped_log(
    runs: Seq<char>,
    stamp: u64,
    stem: Seq<char>,
    agent: Seq<char>,
    model: Option<Seq<char>>,
    mission: Seq<char>,
) -> (Seq<char>, Seq<char>) {
    (
        path::joined(
            runs,
            text::decimal(stamp as nat) + "-"@ + stem + "-"@ + mission_words(mission) + ".log"@,
        ),
        "# corpus run\n# agent: "@ + agent + "\n# model: "@ + (match model {
            Some(m) => m,
            None => "(default)"@,
        }) + "\n# started: "@ + text::decimal(stamp as nat) + "\n# mission: "@ + mission
            + "\n\n"@,
    )
}

/// The log that a piped run begins with, started at `stamp`.
pub fn create_piped(
    runs: &str,
    stamp: u64,
    stem: &str,
    agent: &str,
    model: Option<&str>,
    mission: &str,
) -> (r: FileWrite)
    ensures
        r@ == piped_log(runs@, stamp, stem@, agent@, text::opt_str(model), mission@),
{
    let at = text::decimal_of(stamp);
    let name = text::cat6(at.as_str(), "-", stem, "-", words_of(mission).as_str(), ".log");
    let model = match model {
        Some(m) => m,
        None => "(default)",
    };
    let mut head = text::cat4("# corpus run\n# agent: ", agent, "\n# model: ", model);
    head.append("\n# started: ");
    head.append(at.as_str());
    head.append("\n# mission: ");
    head.append(mission);
    head.append("\n\n");
    FileWrite { path: path::join(runs, name.as_str()), text: head }
}

/// The last dash of a text, among its first `n` characters.
pub open spec fn last_dash(s: Seq<char>, n: nat) -> Option<nat>
    decreases n,
{
    if n == 0 {
        None
    } else if s[n - 1] == '-' {
        Some((n - 1) as nat)
    } else {
        last_dash(s, (n - 1) as nat)
    }
}

/// The stem and the stamp that a terminal session is called after.
pub open spec fn session_parts(session: Seq<char>) -> Option<(Seq<char>, Seq<char>)> {
    match text::without_prefix(session, "corpus-"@) {
        None => None,
        Some(rest) => match last_dash(rest, rest.len()) {
            None => None,
            Some(at) => if at == 0 || text::parsed_u64(rest.skip(at as int + 1)) is None {
                None
            } else {
                Some((rest.take(at as int), rest.skip(at as int + 1)))
            },
        },
    }
}

/// The stem and the stamp that a terminal session is called after.
fn split_session(session: &str) -> (r: Option<(String, String)>)
    ensures
        match r {
            Some(parts) => session_parts(session@) == Some((parts.0@, parts.1@)),
            None => session_parts(session@) is None,
        },
{
    let rest = match text::strip_prefix(session, "corpus-") {
        None => {
            return None;
        },
        Some(rest) => rest,
    };
    let v = text::chars_of(rest.as_str());
    let mut n: usize = v.len();
    while n > 0 && v[n - 1] != '-'
        invariant
            n <= v@.len(),
            v@ == rest@,
            last_dash(rest@, rest@.len()) == last_dash(rest@, n as nat),
        decreases n,
    {
        n = n - 1;
    }
    if n < 2 {
        return None;
    }
    let stem = text::text_of(v.as_slice(), 0, n - 1);
    let stamp = text::text_of(v.as_slice(), n, v.len());
    assert(stem@ =~= rest@.take(n - 1));
    assert(stamp@ =~= rest@.skip(n as int));
    match text::parse_u64(stamp.as_str()) {
        None => None,
        Some(_) => Some((stem, stamp)),
    }
}

/// When a terminal session was launched, in epoch seconds, if it is a run's.
pub fn session_stamp(session: &str) -> (r: Option<u64>)
    ensures
        r == (match session_parts(session@) {
            Some(parts) => text::parsed_u64(parts.1),
            None => None,
        }),
{
    match split_session(session) {
        None => None,
        Some((_, stamp)) => text::parse_u64(stamp.as_str()),
    }
}

/// From when on a terminal session's conversation may have begun, in epoch
/// milliseconds, if the session is a run's.
pub open spec fn begun_since(session: Seq<char>) -> Option<u64> {
    match session_parts(session) {
        Some(parts) => match text::parsed_u64(parts.1) {
            Some(stamp) => Some(
                if stamp * 1000 > u64::MAX {
                    u64::MAX
                } else {
                    (stamp * 1000) as u64
                },
            ),
            None => None,
        },
        None => None,
    }
}

/// From when on the conversation of the terminal session `session` may have
/// begun.
pub fn conversation_since(session: &str) -> (r: Option<u64>)
    ensures
        r == begun_since(session@),
{
    match session_stamp(session) {
        None => None,
        Some(stamp) => Some(
            if stamp > u64::MAX / 1000 {
                u64::MAX
            } else {
                stamp * 1000
            },
        ),
    }
}

/// The directory of a project's run logs.
pub open spec fn runs_path(root: Seq<char>, project: Seq<char>) -> Seq<char> {
    path::joined(layout::corpus_path(root, project), "runs"@)
}

/// An artifact of a run that was launched at `stamp`.
pub open spec fn artifact_path(
    root: Seq<char>,
    project: Seq<char>,
    stem: Seq<char>,
    stamp: Seq<char>,
    extension: Seq<char>,
) -> Seq<char> {
    path::joined(runs_path(root, project), stamp + "-"@ + stem + "."@ + extension)
}

/// The directory of a project's run logs.
pub fn runs_dir(store: &Store, project: &str) -> (r: String)
    ensures
        r@ == runs_path(store@.root, project@),
{
    path::join(store.project_corpus_dir(project).as_str(), layout::RUNS)
}

/// An artifact of a run that was launched at `stamp`.
pub(crate) fn artifact_file(
    store: &Store,
    project: &str,
    stem: &str,
    stamp: &str,
    extension: &str,
) -> (r: String)
    ensures
        r@ == artifact_path(store@.root, project@, stem@, stamp@, extension@),
{
    path::join(
        runs_dir(store, project).as_str(),
        text::cat5(stamp, "-", stem, ".", extension).as_str(),
    )
}

/// The raw capture of a terminal session, if the session is a run's.
pub fn session_raw_log(store: &Store, project: &str, session: &str) -> (r: Option<String>)
    ensures
        text::opt_text(r) == (match session_parts(session@) {
            Some(parts) => Some(
                artifact_path(store@.root, project@, parts.0, parts.1, "raw"@),
            ),
            None => None,
        }),
{
    match split_session(session) {
        None => None,
        Some((stem, stamp)) => Some(
            artifact_file(store, project, stem.as_str(), stamp.as_str(), "raw"),
        ),
    }
}

// ---------------------------------------------------------------------
// Discovery
// ---------------------------------------------------------------------

/// A listed conversation that may be a run's: it is in the run's directory, it
/// began no earlier than the run, and no other run claims it.
pub open spec fn eligible(
    entry: JsonView,
    directory: Seq<char>,
    since: u64,
    claimed: Seq<Seq<char>>,
) -> Option<(u64, Seq<char>)> {
    match (json::member(entry, "created"@), json::member_text(entry, "id"@)) {
        (Some(created), Some(id)) => match json::as_whole(created) {
            Some(created) => if json::member_text(entry, "directory"@) == Some(directory)
                && created >= since && !claimed.contains(id) {
                Some((created, id))
            } else {
                None
            },
            None => None,
        },
        _ => None,
    }
}

/// The oldest eligible conversation among the first `n` that are listed, the
/// first where several are as old.
pub open spec fn oldest(
    entries: Seq<JsonView>,
    n: nat,
    directory: Seq<char>,
    since: u64,
    claimed: Seq<Seq<char>>,
) -> Option<(u64, Seq<char>)>
    decreases n,
{
    if n == 0 {
        None
    } else {
        let before = oldest(entries, (n - 1) as nat, directory, since, claimed);
        match eligible(entries[n - 1], directory, since, claimed) {
            None => before,
            Some(one) => match before {
                Some(best) => if one.0 < best.0 {
                    Some(one)
                } else {
                    before
                },
                None => Some(one),
            },
        }
    }
}

/// The conversation that is a run's, out of a listing.
pub open spec fn selected(
    list: JsonView,
    directory: Seq<char>,
    since: u64,
    claimed: Seq<Seq<char>>,
) -> Option<Seq<char>> {
    match list {
        JsonView::Array(entries) => match oldest(
            entries,
            entries.len(),
            directory,
            since,
            claimed,
        ) {
            Some(best) => Some(best.1),
            None => None,
        },
        _ => None,
    }
}

/// A listed conversation that may be a run's.
fn check_entry(entry: &Json, directory: &str, since: u64, claimed: &[String]) -> (r: Option<
    (u64, String),
>)
    ensures
        match r {
            Some(one) => eligible(entry@, directory@, since, text::texts(claimed@)) == Some(
                (one.0, one.1@),
            ),
            None => eligible(entry@, directory@, since, text::texts(claimed@)) is None,
        },
{
    let id = match entry.get_text("id") {
        None => {
            return None;
        },
        Some(id) => id,
    };
    let created = match entry.get("created") {
        None => {
            return None;
        },
        Some(created) => match created.as_u64() {
            None => {
                return None;
            },
            Some(created) => created,
        },
    };
    let here = match entry.get_text("directory") {
        Some(found) => text::same(found, directory),
        None => false,
    };
    if here && created >= since && !text::listed(claimed, id) {
        Some((created, id.to_owned()))
    } else {
        None
    }
}

/// The conversation that is a run's, out of a listing.
pub fn select_session(list: &Json, directory: &str, since: u64, claimed: &[String]) -> (r: Option<
    String,
>)
    ensures
        text::opt_text(r) == selected(list@, directory@, since, text::texts(claimed@)),
{
    let entries = match list {
        Json::Array(entries) => entries,
        _ => {
            return None;
        },
    };
    let ghost all = json::items(entries@);
    let ghost taken = text::texts(claimed@);
    let mut best: Option<(u64, String)> = None;
    let mut i: usize = 0;
    while i < entries.len()
        invariant
            i <= entries@.len(),
            all == json::items(entries@),
            taken == text::texts(claimed@),
            match best {
                Some(b) => oldest(all, i as nat, directory@, since, taken) == Some((b.0, b.1@)),
                None => oldest(all, i as nat, directory@, since, taken) is None,
            },
        decreases entries@.len() - i,
    {
        assert(all[i as int] == entries@[i as int]@);
        match check_entry(&entries[i], directory, since, claimed) {
            None => {},
            Some(one) => {
                let older = match &best {
                    Some(b) => one.0 < b.0,
                    None => true,
                };
                if older {
                    best = Some(one);
                }
            },
        }
        i = i + 1;
    }
    assert(all.len() == entries@.len());
    match best {
        Some((_, id)) => Some(id),
        None => None,
    }
}

/// What a listing of sessions says of a run's conversation.
pub open spec fn discovered(
    output: OutputView,
    directory: Seq<char>,
    since: u64,
    claimed: Seq<Seq<char>>,
) -> Result<Option<Seq<char>>, ErrorView> {
    if !output.success {
        Err(ErrorView::Store("opencode session list reported an error"@))
    } else if output.stdout_truncated {
        Err(ErrorView::Store("opencode session list exceeded its 1 MiB output cap"@))
    } else {
        match json::parsed_bytes(output.stdout) {
            Err(e) => Err(ErrorView::Store("opencode session list gave bad JSON: "@ + e.1)),
            Ok(list) => Ok(selected(list, directory, since, claimed)),
        }
    }
}

/// What a search for a conversation came to.
pub open spec fn search_outcome(r: Result<Option<String>, Error>) -> Result<
    Option<Seq<char>>,
    ErrorView,
> {
    match r {
        Ok(found) => Ok(text::opt_text(found)),
        Err(e) => Err(e@),
    }
}

/// The conversation that is a run's, out of what listing the sessions came to.
pub fn find_opencode_session(
    output: &CommandOutput,
    directory: &str,
    since: u64,
    claimed: &[String],
) -> (r: Result<Option<String>, Error>)
    ensures
        search_outcome(r) == discovered(output@, directory@, since, text::texts(claimed@)),
{
    if !output.success {
        return Err(Error::Store("opencode session list reported an error".to_owned()));
    }
    if output.stdout_truncated {
        return Err(
            Error::Store("opencode session list exceeded its 1 MiB output cap".to_owned()),
        );
    }
    match json::parse_bytes(output.stdout.as_slice()) {
        Err(e) => Err(
            Error::Store(
                text::cat2("opencode session list gave bad JSON: ", e.message.as_str()),
            ),
        ),
        Ok(list) => Ok(select_session(&list, directory, since, claimed)),
    }
}

/// The conversation of a terminal session: none where the session is no
/// run's, or where listing the sessions did not lead to one.
pub open spec fn session_talk(
    output: Option<OutputView>,
    directory: Seq<char>,
    session: Seq<char>,
    claimed: Seq<Seq<char>>,
) -> Option<Seq<char>> {
    match (begun_since(session), output) {
        (Some(since), Some(listed)) => match discovered(listed, directory, since, claimed) {
            Ok(found) => found,
            Err(_) => None,
        },
        _ => None,
    }
}

/// The conversation of the terminal session `session`, out of what listing
/// the sessions came to, if anything.
pub fn session_conversation(
    output: Option<&CommandOutput>,
    directory: &str,
    session: &str,
    claimed: &[String],
) -> (r: Option<String>)
    ensures
        text::opt_text(r) == session_talk(
            match output {
                Some(listed) => Some(listed@),
                None => None,
            },
            directory@,
            session@,
            text::texts(claimed@),
        ),
{
    match (conversation_since(session), output) {
        (Some(since), Some(listed)) => match find_opencode_session(
            listed,
            directory,
            since,
            claimed,
        ) {
            Ok(found) => found,
            Err(_) => None,
        },
        _ => None,
    }
}

// ---------------------------------------------------------------------
// Export
// ---------------------------------------------------------------------

/// What one attempt at an export came to.
pub enum AttemptView {
    Ended(Result<Seq<char>, ErrorView>),
    /// The document broke off, for this reason.
    BrokeOff(Seq<char>),
}

/// What one attempt at an export comes to.
pub open spec fn attempt(output: OutputView) -> AttemptView {
    let detail = text::trimmed(output.stderr);
    if !output.success {
        AttemptView::Ended(
            Err(
                ErrorView::Store(
                    if detail.len() == 0 {
                        "opencode export reported an error"@
                    } else {
                        "opencode export reported an error: "@ + detail
                    },
                ),
            ),
        )
    } else if output.stdout_truncated {
        AttemptView::Ended(
            Err(ErrorView::Store("opencode export exceeded its 128 KiB output cap"@)),
        )
    } else {
        match json::parsed_bytes(output.stdout) {
            Ok(value) => AttemptView::Ended(
                match json::pretty(value) {
                    Ok(text) => Ok(text),
                    Err(e) => Err(ErrorView::Store("cannot serialize export: "@ + e)),
                },
            ),
            Err((ended, e)) => if !ended {
                AttemptView::Ended(
                    Err(ErrorView::Store("opencode export gave bad JSON: "@ + e)),
                )
            } else if output.stdout.len() == EXPORT_LIMIT {
                AttemptView::Ended(
                    Err(ErrorView::Store("opencode export hit its 128 KiB output cap"@)),
                )
            } else {
                AttemptView::BrokeOff(e)
            },
        }
    }
}

/// What one attempt at an export came to.
enum Attempt {
    Ended(Result<String, Error>),
    BrokeOff(String),
}

/// What one attempt at an export comes to.
fn judge(output: &CommandOutput) -> (r: Attempt)
    ensures
        match r {
            Attempt::Ended(result) => attempt(output@) == AttemptView::Ended(
                error::outcome(result),
            ),
            Attempt::BrokeOff(e) => attempt(output@) == AttemptView::BrokeOff(e@),
        },
{
    if !output.success {
        let detail = text::trim(output.stderr.as_str());
        return Attempt::Ended(
            Err(
                Error::Store(
                    if detail.as_str().is_empty() {
                        "opencode export reported an error".to_owned()
                    } else {
                        text::cat2("opencode export reported an error: ", detail.as_str())
                    },
                ),
            ),
        );
    }
    if output.stdout_truncated {
        return Attempt::Ended(
            Err(Error::Store("opencode export exceeded its 128 KiB output cap".to_owned())),
        );
    }
    match json::parse_bytes(output.stdout.as_slice()) {
        Ok(value) => Attempt::Ended(
            match json::to_pretty(&value) {
                Ok(text) => Ok(text),
                Err(e) => Err(Error::Store(text::cat2("cannot serialize export: ", e.as_str()))),
            },
        ),
        Err(e) => if !e.ended {
            Attempt::Ended(
                Err(
                    Error::Store(
                        text::cat2("opencode export gave bad JSON: ", e.message.as_str()),
                    ),
                ),
            )
        } else if output.stdout.len() == EXPORT_LIMIT {
            Attempt::Ended(
                Err(Error::Store("opencode export hit its 128 KiB output cap".to_owned())),
            )
        } else {
            Attempt::BrokeOff(e.message)
        },
    }
}

/// What happened to an export.
#[derive(Debug, PartialEq, Eq)]
pub enum ExportEvent {
    /// The command ran.
    Output(CommandOutput),
    /// The command could not be run to its end.
    Failed(Error),
    /// No time is left of the `seconds` that there were.
    OutOfTime { seconds: String },
}

/// What happened to an export, as plain values.
pub enum ExportEventView {
    Output(OutputView),
    Failed(ErrorView),
    OutOfTime { seconds: Seq<char> },
}

impl View for ExportEvent {
    type V = ExportEventView;

    open spec fn view(&self) -> ExportEventView {
        match *self {
            ExportEvent::Output(output) => ExportEventView::Output(output@),
            ExportEvent::Failed(e) => ExportEventView::Failed(e@),
            ExportEvent::OutOfTime { seconds } => ExportEventView::OutOfTime {
                seconds: seconds@,
            },
        }
    }
}

/// What an export does next.
#[derive(Debug, PartialEq, Eq)]
pub enum ExportAction {
    /// Run the command after so many milliseconds.
    Run { delay_ms: u64 },
    /// It is over.
    Finish(Result<String, Error>),
}

/// What an export does next, as plain values.
pub enum ExportActionView {
    Run { delay_ms: u64 },
    Finish(Result<Seq<char>, ErrorView>),
}

impl View for ExportAction {
    type V = ExportActionView;

    open spec fn view(&self) -> ExportActionView {
        match *self {
            ExportAction::Run { delay_ms } => ExportActionView::Run { delay_ms },
            ExportAction::Finish(r) => ExportActionView::Finish(error::outcome(r)),
        }
    }
}

/// What an export does next, after `done` attempts that broke off.
pub open spec fn export_next(done: nat, event: ExportEventView) -> ExportActionView {
    match event {
        ExportEventView::Failed(e) => ExportActionView::Finish(Err(e)),
        ExportEventView::OutOfTime { seconds } => ExportActionView::Finish(
            Err(ErrorView::Store("opencode export timed out after "@ + seconds + "s"@)),
        ),
        ExportEventView::Output(output) => match attempt(output) {
            AttemptView::Ended(r) => ExportActionView::Finish(r),
            AttemptView::BrokeOff(e) => if done == 0 {
                ExportActionView::Run { delay_ms: 50 }
            } else if done == 1 {
                ExportActionView::Run { delay_ms: 150 }
            } else {
                ExportActionView::Finish(
                    Err(
                        ErrorView::Store(
                            "opencode export gave incomplete JSON after 3 attempts: "@ + e,
                        ),
                    ),
                )
            },
        },
    }
}

/// An export: it is tried up to three times, since a document may break off
/// while it is still being written.
#[derive(Debug, PartialEq, Eq)]
pub struct Export {
    /// How many attempts broke off.
    pub done: u8,
}

impl Export {
    /// A new export; its first attempt is made at once.
    pub fn start() -> (r: (Export, ExportAction))
        ensures
            r.0.done == 0,
            r.1@ == (ExportActionView::Run { delay_ms: 0 }),
    {
        (Export { done: 0 }, ExportAction::Run { delay_ms: 0 })
    }

    /// What is next.
    pub fn step(&mut self, event: ExportEvent) -> (r: ExportAction)
        ensures
            r@ == export_next(old(self).done as nat, event@),
            final(self).done == (if r@ is Run {
                old(self).done + 1
            } else {
                old(self).done as int
            }),
    {
        let output = match event {
            ExportEvent::Failed(e) => {
                return ExportAction::Finish(Err(e));
            },
            ExportEvent::OutOfTime { seconds } => {
                return ExportAction::Finish(
                    Err(
                        Error::Store(
                            text::cat3("opencode export timed out after ", seconds.as_str(), "s"),
                        ),
                    ),
                );
            },
            ExportEvent::Output(output) => output,
        };
        match judge(&output) {
            Attempt::Ended(r) => ExportAction::Finish(r),
            Attempt::BrokeOff(e) => if self.done == 0 {
                self.done = 1;
                ExportAction::Run { delay_ms: 50 }
            } else if self.done == 1 {
                self.done = 2;
                ExportAction::Run { delay_ms: 150 }
            } else {
                ExportAction::Finish(
                    Err(
                        Error::Store(
                            text::cat2(
                                "opencode export gave incomplete JSON after 3 attempts: ",
                                e.as_str(),
                            ),
                        ),
                    ),
                )
            },
        }
    }
}

/// The record of a conversation.
pub open spec fn record_path(runs: Seq<char>, session: Seq<char>) -> Seq<char> {
    path::joined(runs, session + ".json"@)
}

/// The record of a conversation.
pub fn record_file(runs: &str, session: &str) -> (r: String)
    ensures
        r@ == record_path(runs@, session@),
{
    path::join(runs, text::cat2(session, ".json").as_str())
}

/// Bytes are a record that can be kept: a document with a list of messages.
pub open spec fn is_record(bytes: Option<Seq<u8>>) -> bool {
    match bytes {
        None => false,
        Some(bytes) => match json::parsed_bytes(bytes) {
            Err(_) => false,
            Ok(value) => match json::member(value, "messages"@) {
                Some(messages) => messages is Array,
                None => false,
            },
        },
    }
}

/// What a file holds, where it can be read.
pub open spec fn opt_bytes(bytes: Option<Vec<u8>>) -> Option<Seq<u8>> {
    match bytes {
        Some(bytes) => Some(bytes@),
        None => None,
    }
}

/// Is what a file holds a record that can be kept?
pub fn valid_existing_export(bytes: &Option<Vec<u8>>) -> (r: bool)
    ensures
        r == is_record(opt_bytes(*bytes)),
{
    match bytes {
        None => false,
        Some(bytes) => match json::parse_bytes(bytes.as_slice()) {
            Err(_) => false,
            Ok(value) => match value.get("messages") {
                Some(Json::Array(_)) => true,
                _ => false,
            },
        },
    }
}

/// What becomes of a record.
#[derive(Debug, PartialEq, Eq)]
pub enum Record {
    /// It is written.
    Write(FileWrite),
    /// The one at this path stays.
    Keep(String),
}

/// What becomes of a record, as plain values.
pub enum RecordView {
    Write((Seq<char>, Seq<char>)),
    Keep(Seq<char>),
}

impl View for Record {
    type V = RecordView;

    open spec fn view(&self) -> RecordView {
        match *self {
            Record::Write(file) => RecordView::Write(file@),
            Record::Keep(path) => RecordView::Keep(path@),
        }
    }
}

/// What becomes of the record of a conversation.
pub open spec fn recorded(
    path: Seq<char>,
    exported: Result<Seq<char>, ErrorView>,
    existing: Option<Seq<u8>>,
) -> Result<RecordView, ErrorView> {
    match exported {
        Ok(text) => Ok(RecordView::Write((path, text))),
        Err(e) => if is_record(existing) {
            Ok(RecordView::Keep(path))
        } else {
            Err(e)
        },
    }
}

/// What becomes of the record of the conversation `session`, given what
/// exporting it came to and what its file already holds.
pub fn export_record(
    runs: &str,
    session: &str,
    exported: Result<String, Error>,
    existing: &Option<Vec<u8>>,
) -> (r: Result<Record, Error>)
    ensures
        error::outcome(r) == recorded(
            record_path(runs@, session@),
            error::outcome(exported),
            opt_bytes(*existing),
        ),
{
    let path = record_file(runs, session);
    match exported {
        Ok(text) => Ok(Record::Write(FileWrite { path, text })),
        Err(e) => if valid_existing_export(existing) {
            Ok(Record::Keep(path))
        } else {
            Err(e)
        },
    }
}

// ---------------------------------------------------------------------
// Tailing
// ---------------------------------------------------------------------

/// A character ends a line.
pub open spec fn ends_line(c: char) -> bool {
    c == '\n' || c == '\r'
}

/// Where the first line ends, looked for from `i` on.
pub open spec fn line_end(s: Seq<char>, i: nat) -> Option<nat>
    decreases s.len() - i,
{
    if i >= s.len() {
        None
    } else if ends_line(s[i as int]) {
        Some(i)
    } else {
        line_end(s, i + 1)
    }
}

/// How many characters end the line at `at`: two where it is a carriage return
/// before a line feed.
pub open spec fn end_len(s: Seq<char>, at: nat) -> nat {
    if s[at as int] == '\r' && at + 1 < s.len() && s[at as int + 1] == '\n' {
        2
    } else {
        1
    }
}

/// The first line that is at its end, and what follows it.
pub open spec fn first_line(s: Seq<char>) -> Option<(Seq<char>, Seq<char>)> {
    match line_end(s, 0) {
        Some(at) => Some((s.take(at as int), s.skip(at as int + end_len(s, at)))),
        None => None,
    }
}

/// A capture that is followed while it grows.
#[derive(Debug, PartialEq, Eq)]
pub struct Tail {
    /// How much of the file was read.
    pub position: u64,
    /// What was read and not yet handed out.
    pub pending: String,
}

impl Tail {
    /// Nothing was read yet.
    pub fn new() -> (r: Tail)
        ensures
            r.position == 0,
            r.pending@ == Seq::<char>::empty(),
    {
        Tail { position: 0, pending: String::new() }
    }

    /// The first line that is at its end.
    pub fn take_line(&mut self) -> (r: Option<RunLine>)
        ensures
            final(self).position == old(self).position,
            match first_line(old(self).pending@) {
                Some((line, rest)) => r is Some && !r->Some_0.stderr && r->Some_0.text@ == line
                    && final(self).pending@ == rest,
                None => r is None && final(self).pending@ == old(self).pending@,
            },
    {
        let v = text::chars_of(self.pending.as_str());
        let ghost s = self.pending@;
        let total: usize = v.len();
        let mut at: usize = 0;
        while at < total && v[at] != '\n' && v[at] != '\r'
            invariant
                total == v@.len(),
                v@ == s,
                at <= total,
                line_end(s, 0) == line_end(s, at as nat),
            decreases total - at,
        {
            at = at + 1;
        }
        if at == total {
            return None;
        }
        let next: usize = if v[at] == '\r' && total - at > 1 && v[at + 1] == '\n' {
            at + 2
        } else {
            at + 1
        };
        let line = text::text_of(v.as_slice(), 0, at);
        assert(line@ =~= s.take(at as int));
        self.pending = text::text_of(v.as_slice(), next, total);
        assert(self.pending@ =~= s.skip(next as int));
        Some(RunLine { stderr: false, text: line })
    }

    /// The file is `length` bytes long: from where on it is to be read, if
    /// there is more of it. One that shrank is read anew.
    pub fn look(&mut self, length: u64) -> (r: Option<u64>)
        ensures
            length < old(self).position ==> final(self).position == 0 && final(self).pending@
                == Seq::<char>::empty(),
            length >= old(self).position ==> *final(self) == *old(self),
            r == (if length > final(self).position {
                Some(final(self).position)
            } else {
                None
            }),
    {
        if length < self.position {
            self.position = 0;
            self.pending = String::new();
        }
        if length > self.position {
            Some(self.position)
        } else {
            None
        }
    }

    /// The file was read to `length`, and this is what came. A line that does
    /// not end in time is handed out as it is.
    pub fn feed(&mut self, length: u64, more: &str) -> (r: Option<RunLine>)
        ensures
            final(self).position == length,
            ({
                let all = old(self).pending@ + more@;
                if vstd::utf8::encode_utf8(all).len() > PENDING_LIMIT {
                    r is Some && !r->Some_0.stderr && r->Some_0.text@ == all
                        && final(self).pending@ == Seq::<char>::empty()
                } else {
                    r is None && final(self).pending@ == all
                }
            }),
    {
        self.position = length;
        let all = text::cat2(self.pending.as_str(), more);
        if all.as_str().as_bytes().len() > PENDING_LIMIT {
            self.pending = String::new();
            Some(RunLine { stderr: false, text: all })
        } else {
            self.pending = all;
            None
        }
    }
}

// ---------------------------------------------------------------------
// Laws
// ---------------------------------------------------------------------

/// Digits have no dash among them.
proof fn lemma_no_dash(s: Seq<char>, tail: Seq<char>, n: nat)
    requires
        text::all_digits(tail),
        n <= tail.len(),
    ensures
        last_dash(s + "-"@ + tail, s.len() + 1 + n) == Some(s.len()),
    decreases n,
{
    reveal_strlit("-");
    let whole = s + "-"@ + tail;
    if n == 0 {
        assert(whole[s.len() as int] == '-');
    } else {
        assert(whole[s.len() + n as int] == tail[n - 1]);
        assert(text::is_digit(tail[n - 1]));
        lemma_no_dash(s, tail, (n - 1) as nat);
    }
}

/// What stands before and behind the last dash before digits.
proof fn lemma_dash_splits(s: Seq<char>, tail: Seq<char>)
    requires
        text::all_digits(tail),
    ensures
        ({
            let whole = s + "-"@ + tail;
            &&& last_dash(whole, whole.len()) == Some(s.len())
            &&& whole.take(s.len() as int) == s
            &&& whole.skip(s.len() as int + 1) == tail
        }),
{
    reveal_strlit("-");
    let whole = s + "-"@ + tail;
    lemma_no_dash(s, tail, tail.len());
    assert(whole.take(s.len() as int) =~= s);
    assert(whole.skip(s.len() as int + 1) =~= tail);
}

/// Decimal notation is read back as the number it was made of.
proof fn lemma_decimal_is_read_back(n: u64)
    ensures
        text::parsed_u64(text::decimal(n as nat)) == Some(n),
{
    text::lemma_decimal_value(n as nat);
    let s = text::decimal(n as nat);
    assert(text::is_digit(s[0]));
}

/// The name of a terminal session leads back to the capture of its run, and to
/// the moment it was launched at, whatever dashes its stem holds.
pub proof fn law_session_names_its_run(stem: Seq<char>, stamp: u64)
    requires
        stem.len() > 0,
    ensures
        session_parts("corpus-"@ + stem + "-"@ + text::decimal(stamp as nat)) == Some(
            (stem, text::decimal(stamp as nat)),
        ),
        text::parsed_u64(text::decimal(stamp as nat)) == Some(stamp),
{
    reveal_strlit("corpus-");
    let at = text::decimal(stamp as nat);
    let session = "corpus-"@ + stem + "-"@ + at;
    let rest = stem + "-"@ + at;
    assert(session =~= "corpus-"@ + rest);
    assert(session.take("corpus-"@.len() as int) =~= "corpus-"@);
    assert(session.skip("corpus-"@.len() as int) =~= rest);
    text::lemma_decimal_value(stamp as nat);
    lemma_dash_splits(stem, at);
    lemma_decimal_is_read_back(stamp);
}

/// The runs of one agent leave artifacts under one name only where they are the
/// same generation of missions with the same slug.
pub proof fn law_runs_are_told_apart(agent: Seq<char>, a: SessionIdView, b: SessionIdView)
    requires
        stem_of(agent, Some(a)) == stem_of(agent, Some(b)),
    ensures
        naming::slug_of(a.mission) == naming::slug_of(b.mission),
        a.generation == b.generation,
{
    reveal_strlit("-");
    reveal_strlit("-g");
    let head = naming::slug_of(agent) + "-"@;
    let ga = text::decimal(a.generation as nat);
    let gb = text::decimal(b.generation as nat);
    let ma = naming::slug_of(a.mission);
    let mb = naming::slug_of(b.mission);
    text::lemma_decimal_value(a.generation as nat);
    text::lemma_decimal_value(b.generation as nat);
    let sa = stem_of(agent, Some(a));
    let sb = stem_of(agent, Some(b));
    let ra = head + ma + "-g"@;
    let rb = head + mb + "-g"@;
    assert(sa =~= ra + ga);
    assert(sb =~= rb + gb);
    if ra.len() < rb.len() {
        assert(sa[rb.len() - 1] == 'g');
        assert(sa[rb.len() - 1] == ga[rb.len() - 1 - ra.len()]);
        assert(text::is_digit(ga[rb.len() - 1 - ra.len()]));
    }
    if rb.len() < ra.len() {
        assert(sb[ra.len() - 1] == 'g');
        assert(sb[ra.len() - 1] == gb[ra.len() - 1 - rb.len()]);
        assert(text::is_digit(gb[ra.len() - 1 - rb.len()]));
    }
    assert(ra =~= sa.take(ra.len() as int));
    assert(rb =~= sb.take(rb.len() as int));
    assert(ga =~= sa.skip(ra.len() as int));
    assert(gb =~= sb.skip(rb.len() as int));
    assert(ma =~= ra.subrange(head.len() as int, head.len() + ma.len() as int));
    assert(mb =~= rb.subrange(head.len() as int, head.len() + mb.len() as int));
    assert(ma.len() == mb.len());
}

/// The conversation that is taken for a run's is eligible, and none that is
/// eligible began before it.
pub proof fn law_oldest_eligible_is_taken(
    entries: Seq<JsonView>,
    n: nat,
    directory: Seq<char>,
    since: u64,
    claimed: Seq<Seq<char>>,
)
    requires
        n <= entries.len(),
    ensures
        match oldest(entries, n, directory, since, claimed) {
            Some(best) => {
                &&& best.0 >= since
                &&& !claimed.contains(best.1)
                &&& exists|i: int|
                    0 <= i < n && eligible(#[trigger] entries[i], directory, since, claimed)
                        == Some(best)
                &&& forall|i: int|
                    0 <= i < n ==> match eligible(#[trigger] entries[i], directory, since, claimed) {
                        Some(one) => best.0 <= one.0,
                        None => true,
                    }
            },
            None => forall|i: int|
                0 <= i < n ==> eligible(#[trigger] entries[i], directory, since, claimed) is None,
        },
    decreases n,
{
    if n > 0 {
        law_oldest_eligible_is_taken(entries, (n - 1) as nat, directory, since, claimed);
        let one = eligible(entries[n - 1], directory, since, claimed);
        match oldest(entries, n, directory, since, claimed) {
            Some(best) => {
                if one == Some(best) {
                    assert(eligible(entries[n - 1], directory, since, claimed) == Some(best));
                }
            },
            None => {},
        }
    }
}

/// An export hands out whole documents only: the command succeeded, nothing of
/// what it printed was dropped, and that is the document it hands out.
pub proof fn law_only_whole_documents_are_exported(
    done: nat,
    event: ExportEventView,
    document: Seq<char>,
)
    requires
        export_next(done, event) == ExportActionView::Finish(Ok(document)),
    ensures
        event matches ExportEventView::Output(output) && {
            &&& output.success
            &&& !output.stdout_truncated
            &&& json::parsed_bytes(output.stdout) matches Ok(value) && json::pretty(value) == Ok::<
                Seq<char>,
                Seq<char>,
            >(document)
        },
{
}

/// An export ends after three attempts at the latest.
pub proof fn law_export_ends(done: nat, event: ExportEventView)
    ensures
        done >= 2 ==> export_next(done, event) is Finish,
        export_next(done, event) is Run ==> done < 2 && event is Output,
{
}

/// A record that can be kept outlives every failure to export it again.
pub proof fn law_record_outlives_failed_exports(path: Seq<char>, e: ErrorView, bytes: Seq<u8>)
    requires
        is_record(Some(bytes)),
    ensures
        recorded(path, Err(e), Some(bytes)) == Ok::<RecordView, ErrorView>(RecordView::Keep(path)),
{
}

/// Where a line ends, no character before that ends one.
proof fn lemma_line_end(s: Seq<char>, i: nat)
    ensures
        match line_end(s, i) {
            Some(at) => i <= at < s.len() && ends_line(s[at as int]) && forall|j: int|
                i <= j < at ==> !ends_line(#[trigger] s[j]),
            None => forall|j: int| i <= j < s.len() ==> !ends_line(#[trigger] s[j]),
        },
    decreases s.len() - i,
{
    if i < s.len() && !ends_line(s[i as int]) {
        lemma_line_end(s, i + 1);
    }
}

/// Handing out a line loses nothing: the line, what ended it and what is left
/// make up what there was. What has no end yet waits.
pub proof fn law_lines_lose_nothing(s: Seq<char>)
    ensures
        match first_line(s) {
            Some((line, rest)) => {
                &&& s == line + "\n"@ + rest || s == line + "\r\n"@ + rest || s == line + "\r"@
                    + rest
                &&& forall|j: int| 0 <= j < line.len() ==> !ends_line(#[trigger] line[j])
            },
            None => forall|j: int| 0 <= j < s.len() ==> !ends_line(#[trigger] s[j]),
        },
{
    reveal_strlit("\n");
    reveal_strlit("\r\n");
    reveal_strlit("\r");
    lemma_line_end(s, 0);
    match line_end(s, 0) {
        Some(at) => {
            let line = s.take(at as int);
            let rest = s.skip(at as int + end_len(s, at));
            if end_len(s, at) == 2 {
                assert(s =~= line + "\r\n"@ + rest);
            } else if s[at as int] == '\n' {
                assert(s =~= line + "\n"@ + rest);
            } else {
                assert(s =~= line + "\r"@ + rest);
            }
        },
        None => {},
    }
}

} // verus!
