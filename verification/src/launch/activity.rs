//! What a mission is doing right now, as far as it can be told from its
//! terminal.
use vstd::prelude::*;
use crate::launch::transcript;
use crate::store::layout::Store;
use crate::store::missions::Mission;
use crate::text;

verus! {

/// How recently a run must have painted to count as working, in seconds: long
/// enough to ride out a slow frame, short enough to settle with the answer.
pub const WORKING_WINDOW_SECS: u64 = 5;

/// What a mission is doing.
#[derive(Debug, Clone, Copy, PartialEq, Eq, Structural)]
pub enum MissionActivity {
    /// Its terminal is not there.
    Idle,
    /// It is painting.
    Working,
    /// It is there and quiet.
    Waiting,
}

/// What a mission is doing, and since when it is quiet.
#[derive(Debug, Clone, Copy, PartialEq, Eq, Structural)]
pub struct MissionRunState {
    pub activity: MissionActivity,
    pub idle_secs: Option<u64>,
}

/// What a mission is doing whose terminal is live or not and was quiet for so
/// long.
pub open spec fn activity(live: bool, idle_secs: Option<u64>) -> MissionActivity {
    if !live {
        MissionActivity::Idle
    } else {
        match idle_secs {
            Some(secs) => if secs < WORKING_WINDOW_SECS {
                MissionActivity::Working
            } else {
                MissionActivity::Waiting
            },
            None => MissionActivity::Waiting,
        }
    }
}

/// What a mission is doing. That nothing was read is no evidence of work.
pub fn activity_from_idle(live: bool, idle_secs: Option<u64>) -> (r: MissionActivity)
    ensures
        r == activity(live, idle_secs),
{
    if !live {
        return MissionActivity::Idle;
    }
    match idle_secs {
        Some(secs) => if secs < WORKING_WINDOW_SECS {
            MissionActivity::Working
        } else {
            MissionActivity::Waiting
        },
        None => MissionActivity::Waiting,
    }
}

/// The runs that the first `n` lines of a listing name.
pub open spec fn run_names(lines: Seq<Seq<char>>, n: nat) -> Seq<Seq<char>>
    decreases n,
{
    if n == 0 {
        Seq::empty()
    } else {
        let before = run_names(lines, (n - 1) as nat);
        if text::without_prefix(lines[n - 1], "corpus-"@) is Some {
            before.push(lines[n - 1])
        } else {
            before
        }
    }
}

/// The runs among the sessions that a terminal server lists.
pub open spec fn live_runs(listing: Option<Seq<char>>) -> Seq<Seq<char>> {
    match listing {
        Some(listing) => run_names(text::lines(listing), text::lines(listing).len()),
        None => Seq::empty(),
    }
}

/// The runs among the sessions that a terminal server lists, one name on a
/// line; none where it could not be asked.
pub fn live_tui_sessions(listing: Option<&str>) -> (r: Vec<String>)
    ensures
        text::texts(r@) == live_runs(text::opt_str(listing)),
{
    let mut out: Vec<String> = Vec::new();
    assert(text::texts(out@) =~= Seq::empty());
    let listing = match listing {
        Some(listing) => listing,
        None => {
            return out;
        },
    };
    let lines = text::split_lines(listing);
    let ghost all = text::lines(listing@);
    let mut i: usize = 0;
    while i < lines.len()
        invariant
            i <= lines@.len(),
            text::texts(lines@) == all,
            text::texts(out@) == run_names(all, i as nat),
        decreases lines@.len() - i,
    {
        assert(all[i as int] == lines@[i as int]@);
        if text::strip_prefix(lines[i].as_str(), "corpus-").is_some() {
            let ghost was = text::texts(out@);
            out.push(lines[i].clone());
            assert(text::texts(out@) =~= was.push(all[i as int]));
        }
        i = i + 1;
    }
    assert(all.len() == lines@.len());
    out
}

/// A mission's terminal is among the live ones.
pub open spec fn is_live(session: Option<Seq<char>>, live: Seq<Seq<char>>) -> bool {
    match session {
        Some(session) => live.contains(session),
        None => false,
    }
}

/// The capture to read a mission's state from, where its terminal is live.
pub fn watched_log(store: &Store, project: &str, mission: &Mission, live: &[String]) -> (r: Option<
    String,
>)
    ensures
        text::opt_text(r) == (match text::opt_text(mission.session) {
            Some(session) => if text::texts(live@).contains(session) {
                match transcript::session_parts(session) {
                    Some(parts) => Some(
                        transcript::artifact_path(
                            store@.root,
                            project@,
                            parts.0,
                            parts.1,
                            "raw"@,
                        ),
                    ),
                    None => None,
                }
            } else {
                None
            },
            None => None,
        }),
{
    match &mission.session {
        Some(session) => if text::listed(live, session.as_str()) {
            transcript::session_raw_log(store, project, session.as_str())
        } else {
            None
        },
        None => None,
    }
}

/// What a mission is doing: one without a live terminal is idle, and nothing
/// is read of it.
pub open spec fn run_state(session: Option<Seq<char>>, live: Seq<Seq<char>>, idle: Option<u64>) ->
    MissionRunState {
    if is_live(session, live) {
        MissionRunState { activity: activity(true, idle), idle_secs: idle }
    } else {
        MissionRunState { activity: MissionActivity::Idle, idle_secs: None }
    }
}

/// What a mission is doing, among the terminals that are live; `idle` is how
/// long its capture was quiet.
pub fn mission_run_state(mission: &Mission, live: &[String], idle: Option<u64>) -> (r:
    MissionRunState)
    ensures
        r == run_state(text::opt_text(mission.session), text::texts(live@), idle),
{
    let here = match &mission.session {
        Some(session) => text::listed(live, session.as_str()),
        None => false,
    };
    if here {
        MissionRunState { activity: activity_from_idle(true, idle), idle_secs: idle }
    } else {
        MissionRunState { activity: MissionActivity::Idle, idle_secs: None }
    }
}

// ---------------------------------------------------------------------
// Laws
// ---------------------------------------------------------------------

/// A mission is idle exactly where its terminal is not live, and works only on
/// evidence: it painted within the window.
pub proof fn law_work_needs_evidence(live: bool, idle: Option<u64>)
    ensures
        activity(live, idle) is Idle <==> !live,
        activity(live, idle) is Working <==> live && idle is Some && idle->Some_0
            < WORKING_WINDOW_SECS,
{
}

} // verus!
