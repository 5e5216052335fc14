//! The stages of a run.

use vstd::prelude::*;

verus! {

/// Where a run stands.
#[derive(Clone, Copy, Debug, PartialEq, Eq, Structural)]
pub enum RunState {
    /// The source tree is walked and the plan is made.
    Planning,
    /// The workers take the plan.
    Executing,
    /// The workers are done; the terminal and the log take what is left in
    /// their queues.
    Draining,
    /// The summary can be given.
    Completed,
    /// The run has failed as a whole.
    Fatal,
}

/// What happens to a run.
#[derive(Clone, Copy, Debug, PartialEq, Eq, Structural)]
pub enum RunSignal {
    /// The plan is ready.
    Planned,
    /// An exclude pattern was refused.
    PatternRejected,
    /// Every worker has finished.
    WorkersDone,
    /// The run as a whole failed, as when the source root cannot be read.
    RunFailed,
    /// One file could not be read or copied.
    FileFailed,
    /// A line could not be handed to the terminal or the log.
    SinkUnavailable,
    /// The terminal and the log have written everything.
    SinksDrained,
}

/// The stage that follows `state` on `signal`. A run goes from planning to
/// executing to draining to completed. It fails as a whole only while
/// planning, on a refused pattern or a failure of the run, and while
/// executing, on a failure of the run. A file that fails and a sink that is
/// gone stop nothing; a signal that a stage does not expect leaves it as it is.
pub open spec fn next_state_spec(state: RunState, signal: RunSignal) -> RunState {
    match (state, signal) {
        (RunState::Planning, RunSignal::Planned) => RunState::Executing,
        (RunState::Planning, RunSignal::PatternRejected) => RunState::Fatal,
        (RunState::Planning, RunSignal::RunFailed) => RunState::Fatal,
        (RunState::Executing, RunSignal::WorkersDone) => RunState::Draining,
        (RunState::Executing, RunSignal::RunFailed) => RunState::Fatal,
        (RunState::Draining, RunSignal::SinksDrained) => RunState::Completed,
        _ => state,
    }
}

/// The log is flushed when the run completes and when it fails as a whole.
pub open spec fn flushes_log_spec(state: RunState) -> bool {
    state == RunState::Completed || state == RunState::Fatal
}

impl RunState {
    /// The stage of a run that has not begun.
    pub fn new() -> (s: RunState)
        ensures
            s == RunState::Planning,
    {
        RunState::Planning
    }

    /// The stage that follows on `signal`.
    pub fn next(self, signal: RunSignal) -> (s: RunState)
        ensures
            s == next_state_spec(self, signal),
            s == RunState::Fatal ==> self == RunState::Planning || self == RunState::Executing || self
                == RunState::Fatal,
            signal == RunSignal::FileFailed || signal == RunSignal::SinkUnavailable ==> s == self,
    {
        match (self, signal) {
            (RunState::Planning, RunSignal::Planned) => RunState::Executing,
            (RunState::Planning, RunSignal::PatternRejected) => RunState::Fatal,
            (RunState::Planning, RunSignal::RunFailed) => RunState::Fatal,
            (RunState::Executing, RunSignal::WorkersDone) => RunState::Draining,
            (RunState::Executing, RunSignal::RunFailed) => RunState::Fatal,
            (RunState::Draining, RunSignal::SinksDrained) => RunState::Completed,
            _ => self,
        }
    }

    /// Whether the log is to be flushed at this stage.
    pub fn flushes_log(self) -> (r: bool)
        ensures
            r == flushes_log_spec(self),
    {
        match self {
            RunState::Completed => true,
            RunState::Fatal => true,
            _ => false,
        }
    }

    /// Whether the run is over.
    pub fn is_final(self) -> (r: bool)
        ensures
            r == (self == RunState::Completed || self == RunState::Fatal),
    {
        match self {
            RunState::Completed => true,
            RunState::Fatal => true,
            _ => false,
        }
    }
}

} // verus!
