//! Structured log lines for the lifecycle points of a run, written by the
//! pieces that know their own state.

use vstd::prelude::*;

use crate::runner::{Action, Phase, StopReason, Verdict};

verus! {

/// A value that can describe itself for a log line.
pub trait Loggable {
    fn as_log(&self) -> String;
}

impl Loggable for Phase {
    /// The lifecycle point this phase stands at.
    fn as_log(&self) -> String {
        let s: &'static str = match *self {
            Phase::Creating => "creating",
            Phase::Copying => "created",
            Phase::Starting => "starting",
            Phase::Streaming => "started",
            Phase::Stopping { reason: StopReason::Overflow } => "stopping: overflowed output",
            Phase::Stopping { reason: StopReason::Timeout } => "stopping: exceeded timeout",
            Phase::AwaitingExit { .. } => "waiting for exit",
            Phase::Draining { .. } => "stopped: draining buffered output",
            Phase::Removing { .. } => "removing",
            Phase::Done { verdict: Verdict::Output { .. } } => "removed: finished",
            Phase::Done { verdict: Verdict::UnrecognizedImage } => "no such image",
            Phase::Done { verdict: Verdict::Transport } => "removed: engine failure",
            Phase::Aborted => "aborted: force-stop failed",
        };
        String::from_str(s)
    }
}

impl Loggable for Action {
    /// The engine call this action asks for.
    fn as_log(&self) -> String {
        let s: &'static str = match *self {
            Action::CreateContainer => "create container",
            Action::CopyCode => "copy code into container",
            Action::StartContainer => "start container",
            Action::ReadChunk => "read log chunk",
            Action::WaitExit => "wait for exit",
            Action::ForceStop => "force-stop container",
            Action::RemoveContainer => "force-remove container",
            Action::Abort => "abort the process",
            Action::Finish => "finish",
        };
        String::from_str(s)
    }
}

} // verus!
