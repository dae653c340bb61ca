//! Stopping a recording: after the stop request the recorder gets a grace
//! period to finish writing the file before it is killed.
use vstd::prelude::*;

verus! {

/// Time a recorder gets to exit after the stop request.
pub const STOP_GRACE_NS: u64 = 8_000_000_000;

/// Pause between two checks on the recorder process.
pub const STOP_POLL_MS: u64 = 100;

/// What a check on the recorder process found.
#[derive(Debug, Clone, Copy, PartialEq, Eq, Structural)]
pub enum ChildStatus {
    /// The process has exited.
    Exited,
    /// The process is still running.
    Running,
    /// The check itself failed.
    Unknown,
}

/// What to do after a check.
#[derive(Debug, Clone, Copy, PartialEq, Eq, Structural)]
pub enum StopStep {
    /// The recorder is gone: stop waiting.
    Done,
    /// The grace period is over: kill the recorder.
    Kill,
    /// Check again after `ms` milliseconds.
    Wait { ms: u64 },
}

/// The step after a check that found `status`, `elapsed_ns` after the stop
/// request.
pub open spec fn stop_step_for(status: ChildStatus, elapsed_ns: u64) -> StopStep {
    if status != ChildStatus::Running {
        StopStep::Done
    } else if elapsed_ns > STOP_GRACE_NS {
        StopStep::Kill
    } else {
        StopStep::Wait { ms: STOP_POLL_MS }
    }
}

/// Decides the next step while waiting for a stopped recorder to exit. A
/// failed check counts as an exit; a recorder still running after the
/// grace period is killed.
pub fn stop_step(status: ChildStatus, elapsed_ns: u64) -> (r: StopStep)
    ensures
        r == stop_step_for(status, elapsed_ns),
        r is Kill ==> elapsed_ns > STOP_GRACE_NS,
        status != ChildStatus::Running ==> r == StopStep::Done,
        status == ChildStatus::Running && elapsed_ns > 8_000_000_000 ==> r == StopStep::Kill,
        status == ChildStatus::Running && elapsed_ns <= 8_000_000_000 ==> r == (StopStep::Wait { ms: 100 }),
{
    if status != ChildStatus::Running {
        StopStep::Done
    } else if elapsed_ns > STOP_GRACE_NS {
        StopStep::Kill
    } else {
        StopStep::Wait { ms: STOP_POLL_MS }
    }
}


/// What to do after trying to start recorder command number `attempt` of
/// `count` (from `recorder_commands`).
#[derive(Debug, Clone, Copy, PartialEq, Eq, Structural)]
pub enum SpawnStep {
    /// It started: record with it.
    Use,
    /// It did not start: try the next command.
    TryNext,
    /// It did not start and none is left: there is no recorder.
    GiveUp,
}

/// Decides whether to keep a started recorder, try the next command, or
/// give up: the first command that starts is used.
pub fn spawn_step(attempt: usize, count: usize, started: bool) -> (r: SpawnStep)
    requires
        attempt < count,
    ensures
        r == if started {
            SpawnStep::Use
        } else if attempt + 1 < count {
            SpawnStep::TryNext
        } else {
            SpawnStep::GiveUp
        },
{
    if started {
        SpawnStep::Use
    } else if attempt + 1 < count {
        SpawnStep::TryNext
    } else {
        SpawnStep::GiveUp
    }
}

} // verus!
