//! Watching over a child process: how much of what it prints is kept, how long
//! it may take, and what is said where it had to be done away with.
use vstd::prelude::*;
use crate::error::{Error, ErrorView};
use crate::text;

verus! {

/// What a command came to.
#[derive(Debug, PartialEq, Eq)]
pub struct CommandOutput {
    pub success: bool,
    pub stdout: Vec<u8>,
    pub stderr: String,
    /// More was printed than is kept.
    pub stdout_truncated: bool,
}

/// What a command came to, as plain values.
pub struct OutputView {
    pub success: bool,
    pub stdout: Seq<u8>,
    pub stderr: Seq<char>,
    pub stdout_truncated: bool,
}

impl View for CommandOutput {
    type V = OutputView;

    open spec fn view(&self) -> OutputView {
        OutputView {
            success: self.success,
            stdout: self.stdout@,
            stderr: self.stderr@,
            stdout_truncated: self.stdout_truncated,
        }
    }
}

// ---------------------------------------------------------------------
// A stream of which only the beginning is kept
// ---------------------------------------------------------------------

/// The beginning of a stream, and whether more came.
#[derive(Debug, PartialEq, Eq)]
pub struct Capped {
    pub limit: usize,
    pub retained: Vec<u8>,
    pub truncated: bool,
}

/// The beginning of a stream, as plain values.
#[verifier::ext_equal]
pub struct CappedView {
    pub limit: nat,
    pub retained: Seq<u8>,
    pub truncated: bool,
}

impl View for Capped {
    type V = CappedView;

    open spec fn view(&self) -> CappedView {
        CappedView {
            limit: self.limit as nat,
            retained: self.retained@,
            truncated: self.truncated,
        }
    }
}

/// How many bytes of a stream still have room.
pub open spec fn room(c: CappedView) -> nat {
    if c.retained.len() < c.limit {
        (c.limit - c.retained.len()) as nat
    } else {
        0
    }
}

/// What is kept after one more chunk.
pub open spec fn after_chunk(c: CappedView, chunk: Seq<u8>) -> CappedView {
    if chunk.len() <= room(c) {
        CappedView { limit: c.limit, retained: c.retained + chunk, truncated: c.truncated }
    } else {
        CappedView {
            limit: c.limit,
            retained: c.retained + chunk.take(room(c) as int),
            truncated: true,
        }
    }
}

impl Capped {
    /// Nothing has come yet.
    pub fn new(limit: usize) -> (r: Capped)
        ensures
            r@ == (CappedView { limit: limit as nat, retained: Seq::empty(), truncated: false }),
    {
        Capped { limit, retained: Vec::new(), truncated: false }
    }

    /// Another chunk came. What has no room is read and dropped, so that the
    /// writer is never held up.
    pub fn take(&mut self, chunk: &[u8])
        ensures
            final(self)@ == after_chunk(old(self)@, chunk@),
    {
        let ghost was = self@;
        let kept: usize = self.retained.len();
        let left: usize = if kept < self.limit {
            self.limit - kept
        } else {
            0
        };
        let keep: usize = if chunk.len() <= left {
            chunk.len()
        } else {
            left
        };
        let mut i: usize = 0;
        while i < keep
            invariant
                i <= keep <= chunk@.len(),
                self.retained@ == was.retained + chunk@.take(i as int),
                self.limit as nat == was.limit,
                self.truncated == was.truncated,
            decreases keep - i,
        {
            self.retained.push(chunk[i]);
            assert(self.retained@ =~= was.retained + chunk@.take(i + 1));
            i = i + 1;
        }
        if keep < chunk.len() {
            self.truncated = true;
        } else {
            assert(chunk@.take(keep as int) =~= chunk@);
        }
        assert(self@ =~= after_chunk(was, chunk@));
    }
}

// ---------------------------------------------------------------------
// Waiting
// ---------------------------------------------------------------------

/// What asking after a child gave.
#[derive(Debug, PartialEq, Eq)]
pub enum Polled {
    Exited,
    Running,
    Failed(String),
}

/// What to do next about a child.
#[derive(Debug, PartialEq, Eq)]
pub enum WaitAction {
    /// Collect what it printed.
    Collect,
    /// Ask again after so many milliseconds.
    Sleep(u64),
    /// Do away with it: it is out of time.
    TimedOut,
    /// Do away with it: it cannot be asked after.
    Lost(String),
}

/// What is next about a child that has run for `elapsed` milliseconds.
pub fn wait_step(polled: Polled, elapsed: u64, timeout: u64) -> (r: WaitAction)
    ensures
        r == (match polled {
            Polled::Exited => WaitAction::Collect,
            Polled::Running => if elapsed < timeout {
                WaitAction::Sleep(20)
            } else {
                WaitAction::TimedOut
            },
            Polled::Failed(e) => WaitAction::Lost(e),
        }),
{
    match polled {
        Polled::Exited => WaitAction::Collect,
        Polled::Running => if elapsed < timeout {
            WaitAction::Sleep(20)
        } else {
            WaitAction::TimedOut
        },
        Polled::Failed(e) => WaitAction::Lost(e),
    }
}

// ---------------------------------------------------------------------
// What is said of it
// ---------------------------------------------------------------------

/// What is added where doing away with a child left something behind.
pub open spec fn cleanup_suffix(cleanup: Seq<Seq<char>>) -> Seq<char> {
    if cleanup.len() == 0 {
        Seq::empty()
    } else {
        "; cleanup: "@ + text::joined(cleanup, "; "@)
    }
}

/// What is added where doing away with a child left something behind.
fn suffix(cleanup: &Vec<String>) -> (r: String)
    ensures
        r@ == cleanup_suffix(text::texts(cleanup@)),
{
    if cleanup.len() == 0 {
        String::new()
    } else {
        text::cat2("; cleanup: ", text::join(cleanup.as_slice(), "; ").as_str())
    }
}

/// A child has no stream to read from.
pub fn missing_stream_error(stream: &str, cleanup: &Vec<String>) -> (r: Error)
    ensures
        r@ == ErrorView::Store(
            "no "@ + stream@ + " from opencode"@ + cleanup_suffix(text::texts(cleanup@)),
        ),
{
    Error::Store(text::cat4("no ", stream, " from opencode", suffix(cleanup).as_str()))
}

/// A child took longer than the `seconds` it was given.
pub fn timeout_error(operation: &str, seconds: &str, cleanup: &Vec<String>) -> (r: Error)
    ensures
        r@ == ErrorView::Store(
            operation@ + " timed out after "@ + seconds@ + "s"@ + cleanup_suffix(
                text::texts(cleanup@),
            ),
        ),
{
    Error::Store(
        text::cat5(operation, " timed out after ", seconds, "s", suffix(cleanup).as_str()),
    )
}

/// A child could not be asked after.
pub fn wait_error(operation: &str, why: &str, cleanup: &Vec<String>) -> (r: Error)
    ensures
        r@ == ErrorView::Store(
            "cannot wait for "@ + operation@ + ": "@ + why@ + "; cleanup: "@ + text::joined(
                text::texts(cleanup@),
                "; "@,
            ),
        ),
{
    Error::Store(
        text::cat6(
            "cannot wait for ",
            operation,
            ": ",
            why,
            "; cleanup: ",
            text::join(cleanup.as_slice(), "; ").as_str(),
        ),
    )
}

/// A step in doing away with a child and its process group.
#[derive(Debug, Clone, Copy, PartialEq, Eq, Structural)]
pub enum CleanupStep {
    PollBefore,
    SignalGroup,
    PollDuring,
    KillGroup,
    KillChild,
    Reap,
}

/// What a failed step is reported as.
pub open spec fn cleanup_report(step: CleanupStep, pid: u32, why: Seq<char>) -> Seq<char> {
    let id = text::decimal(pid as nat);
    match step {
        CleanupStep::PollBefore => "poll child "@ + id + " before process-group cleanup: "@ + why,
        CleanupStep::SignalGroup => "signal process group "@ + id + ": "@ + why,
        CleanupStep::PollDuring => "poll child "@ + id + " during cleanup: "@ + why,
        CleanupStep::KillGroup => "kill process group "@ + id + ": "@ + why,
        CleanupStep::KillChild => "kill child "@ + id + ": "@ + why,
        CleanupStep::Reap => "reap child "@ + id + ": "@ + why,
    }
}

/// What a failed step is reported as.
pub fn cleanup_error(step: CleanupStep, pid: u32, why: &str) -> (r: String)
    ensures
        r@ == cleanup_report(step, pid, why@),
{
    let id = text::decimal_of(pid as u64);
    let id = id.as_str();
    match step {
        CleanupStep::PollBefore => text::cat4(
            "poll child ",
            id,
            " before process-group cleanup: ",
            why,
        ),
        CleanupStep::SignalGroup => text::cat4("signal process group ", id, ": ", why),
        CleanupStep::PollDuring => text::cat4("poll child ", id, " during cleanup: ", why),
        CleanupStep::KillGroup => text::cat4("kill process group ", id, ": ", why),
        CleanupStep::KillChild => text::cat4("kill child ", id, ": ", why),
        CleanupStep::Reap => text::cat4("reap child ", id, ": ", why),
    }
}

// ---------------------------------------------------------------------
// Laws
// ---------------------------------------------------------------------

/// The whole of a stream, as far as it is kept.
pub open spec fn beginning(limit: nat, stream: Seq<u8>) -> CappedView {
    CappedView {
        limit,
        retained: if stream.len() <= limit {
            stream
        } else {
            stream.take(limit as int)
        },
        truncated: stream.len() > limit,
    }
}

/// However a stream is cut into chunks, its beginning is kept, never more than
/// the limit, and it is known whether more came.
pub proof fn law_cap_keeps_the_beginning(limit: nat, before: Seq<u8>, chunk: Seq<u8>)
    ensures
        after_chunk(beginning(limit, before), chunk) == beginning(limit, before + chunk),
        beginning(limit, before).retained.len() <= limit,
        beginning(limit, Seq::empty()) == (CappedView {
            limit,
            retained: Seq::empty(),
            truncated: false,
        }),
{
    let c = beginning(limit, before);
    let whole = before + chunk;
    if before.len() >= limit {
        assert(c.retained =~= before.take(limit as int));
        assert(chunk.take(0) =~= Seq::empty());
        if whole.len() > limit {
            assert(whole.take(limit as int) =~= before.take(limit as int));
            if chunk.len() == 0 {
                assert(whole =~= before);
            }
        } else {
            assert(chunk.len() == 0);
            assert(whole =~= before);
        }
    } else if whole.len() > limit {
        assert(whole.take(limit as int) =~= before + chunk.take(limit - before.len()));
    }
    assert(after_chunk(c, chunk) =~= beginning(limit, whole));
}

} // verus!
