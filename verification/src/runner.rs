//! The sandbox executor: a resolved run recipe, and the session state
//! machine that runs one piece of submitted code in an ephemeral container
//! and guarantees teardown on every path.

use vstd::prelude::*;

use crate::output::{chunk_cost, marker_bytes, total_cost, Output, OutputBuilder};

verus! {

/// A resolved build-and-run recipe for one language configuration.
#[derive(Debug, Clone, PartialEq, Eq)]
pub struct RunSpec {
    /// Where the submitted code is written inside the container.
    pub code_path: &'static str,
    /// The image tag this recipe builds and runs under, an injective
    /// function of the variant and its resolved option values.
    pub image_name: String,
    /// The self-contained build recipe whose default command runs the code.
    pub dockerfile: String,
}

/// The signal that a recipe's backing image has not been built yet: the
/// caller builds it and retries once. Not a failure.
#[derive(Debug, Clone, PartialEq, Eq)]
pub struct UnrecognizedContainer;

impl UnrecognizedContainer {
    /// The signal's display text.
    pub fn message(&self) -> (r: String)
        ensures
            r@ == "UnrecognizedContainer"@,
    {
        String::from_str("UnrecognizedContainer")
    }
}

/// The executor's failure taxonomy: a missing image signals "build, retry
/// once"; everything else surfaces as an opaque transport failure.
#[derive(Debug, Clone, Copy, PartialEq, Eq, Structural)]
pub enum ExecutorError {
    UnrecognizedImage,
    TransportFailure,
}

/// The image tag a recipe builds and runs under, namespaced so it cannot
/// collide with unrelated images.
pub fn image_tag(spec: &RunSpec) -> (r: String)
    ensures
        r@ == "codie/"@ + spec.image_name@,
{
    let mut r = String::from_str("codie/");
    r.append(spec.image_name.as_str());
    r
}

/// The fixed, non-negotiable isolation profile every container is created
/// with. The CPU share and memory ceiling come from engine-wide
/// configuration and are added by the driver.
pub struct ContainerProfile {
    /// Unprivileged numeric user and group.
    pub user: &'static str,
    /// No granted capabilities.
    pub capabilities: Vec<&'static str>,
    pub privileged: bool,
    /// Isolated network namespace: no outbound access.
    pub network_mode: &'static str,
    /// A safe, writable working directory.
    pub working_dir: &'static str,
    /// Immediate, no-grace-period stop.
    pub stop_signal: &'static str,
    pub stop_timeout_secs: u64,
}

pub fn container_profile() -> (r: ContainerProfile)
    ensures
        r.user@ == "65534:65534"@,
        r.capabilities@.len() == 0,
        !r.privileged,
        r.network_mode@ == "none"@,
        r.working_dir@ == "/tmp"@,
        r.stop_signal@ == "SIGKILL"@,
        r.stop_timeout_secs == 0,
{
    ContainerProfile {
        user: "65534:65534",
        capabilities: Vec::new(),
        privileged: false,
        network_mode: "none",
        working_dir: "/tmp",
        stop_signal: "SIGKILL",
        stop_timeout_secs: 0,
    }
}

// ---------------------------------------------------------------------------
// The run session: one container's lifecycle as a state machine
// ---------------------------------------------------------------------------

/// Why the container is being force-stopped.
#[derive(Clone, Copy, Debug, PartialEq, Eq, Structural)]
pub enum StopReason {
    /// The captured output overran the codepoint budget.
    Overflow,
    /// The wall-clock timeout elapsed.
    Timeout,
}

/// What a finished session delivers.
#[derive(Clone, Copy, Debug, PartialEq, Eq, Structural)]
pub enum Verdict {
    /// The run completed (naturally or force-stopped) with this exit
    /// status; the captured output goes with it.
    Output { status: u64 },
    /// The recipe's image does not exist; no container was created.
    UnrecognizedImage,
    /// An opaque engine failure; the container, if created, was removed.
    Transport,
}

/// Where the session stands. Every phase between `Creating` and `Removing`
/// holds a live container; `Done` never does.
#[derive(Clone, Copy, Debug, PartialEq, Eq, Structural)]
pub enum Phase {
    /// The create call is in flight.
    Creating,
    /// The container exists; the code file is being written into it.
    Copying,
    /// The start call is in flight.
    Starting,
    /// Started: log chunks stream in, racing the wall clock.
    Streaming,
    /// A force-stop is in flight.
    Stopping { reason: StopReason },
    /// Waiting for the exit status; `stopped` tells whether a force-stop
    /// preceded it, and why.
    AwaitingExit { stopped: Option<StopReason> },
    /// Stopped after a timeout: one best-effort drain of output that was
    /// buffered before the stop took effect.
    Draining { status: u64 },
    /// The unconditional force-remove is in flight.
    Removing { verdict: Verdict },
    /// The container is gone (or never existed); the verdict stands.
    Done { verdict: Verdict },
    /// A force-stop failed for a reason other than "already stopped": the
    /// sandbox can no longer be considered contained, and the process must
    /// abort.
    Aborted,
}

/// What the engine reported back for the last action.
#[derive(Debug)]
pub enum Event {
    /// The container was created.
    Created,
    /// Creation failed; `image_missing` tells whether the engine reported
    /// the image as nonexistent.
    CreateFailed { image_missing: bool },
    Copied,
    CopyFailed,
    Started,
    StartFailed,
    /// One log chunk from the combined stdout/stderr stream.
    Chunk(Vec<u8>),
    /// The log stream ended.
    StreamEnd,
    /// The wall-clock timeout elapsed.
    TimedOut,
    /// The container exited with this status.
    Exited(u64),
    WaitFailed,
    /// The force-stop call succeeded, or reported "already stopped".
    Stopped,
    /// The force-stop call failed for any other reason.
    StopFailed,
    Removed,
    RemoveFailed,
}

/// What the driver must do next.
#[derive(Clone, Copy, Debug, PartialEq, Eq, Structural)]
pub enum Action {
    /// Create a container from the recipe's tagged image, under the fixed
    /// isolation profile and the engine-wide resource limits.
    CreateContainer,
    /// Write the submitted code as the single file at the recipe's code
    /// path inside the container.
    CopyCode,
    StartContainer,
    /// Read the next log chunk, racing the wall clock while streaming.
    ReadChunk,
    /// Wait for the exit status.
    WaitExit,
    /// Stop the container immediately, with no grace period; "already
    /// stopped" counts as success.
    ForceStop,
    /// Force-remove the container, tolerating one that removed itself.
    RemoveContainer,
    /// Abort the whole process: containment can no longer be guaranteed.
    Abort,
    /// The session is over; take the verdict.
    Finish,
}

/// Which events can answer which phase.
pub open spec fn accepts(phase: Phase, event: Event) -> bool {
    match phase {
        Phase::Creating => event is Created || event is CreateFailed,
        Phase::Copying => event is Copied || event is CopyFailed,
        Phase::Starting => event is Started || event is StartFailed,
        Phase::Streaming => event is Chunk || event is StreamEnd || event is TimedOut,
        Phase::Stopping { .. } => event is Stopped || event is StopFailed,
        Phase::AwaitingExit { stopped } => event is Exited || event is WaitFailed || (stopped
            is None && event is TimedOut),
        Phase::Draining { .. } => event is Chunk || event is StreamEnd,
        Phase::Removing { .. } => event is Removed || event is RemoveFailed,
        Phase::Done { .. } => false,
        Phase::Aborted => false,
    }
}

/// One run of one piece of code in one ephemeral container. The session
/// decides; a driver performs each returned action against the engine and
/// feeds the outcome back in. The invariant guarantees that a finished
/// session has already had its container removed, whatever path it took.
pub struct Session {
    phase: Phase,
    builder: crate::output::OutputBuilder,
    container_created: bool,
    remove_called: bool,
}

impl Session {
    pub closed spec fn phase(&self) -> Phase {
        self.phase
    }

    /// The engine confirmed a container creation in this session.
    pub closed spec fn created(&self) -> bool {
        self.container_created
    }

    /// The remove call was issued in this session.
    pub closed spec fn removed(&self) -> bool {
        self.remove_called
    }

    pub closed spec fn builder(&self) -> crate::output::OutputBuilder {
        self.builder
    }

    /// The bytes captured so far.
    pub open spec fn captured(&self) -> Seq<u8> {
        self.builder().captured()
    }

    /// Whether a live container backs the current phase.
    pub open spec fn holds_container(&self) -> bool {
        match self.phase() {
            Phase::Creating => false,
            Phase::Copying => true,
            Phase::Starting => true,
            Phase::Streaming => true,
            Phase::Stopping { .. } => true,
            Phase::AwaitingExit { .. } => true,
            Phase::Draining { .. } => true,
            Phase::Removing { .. } => true,
            Phase::Done { .. } => false,
            Phase::Aborted => false,
        }
    }

    /// The session invariant. Above all: a created container is removed,
    /// or still held by a live phase, or the process is aborting — it is
    /// never silently dropped.
    pub closed spec fn wf(&self) -> bool {
        &&& self.builder.wf()
        &&& match self.phase {
            Phase::Creating => !self.container_created && !self.remove_called,
            Phase::Copying | Phase::Starting | Phase::Streaming => self.container_created
                && !self.remove_called,
            Phase::Stopping { .. } | Phase::AwaitingExit { .. } | Phase::Draining { .. } => {
                self.container_created && !self.remove_called
            },
            Phase::Removing { verdict } => {
                &&& self.container_created
                &&& self.remove_called
                &&& !(verdict is UnrecognizedImage)
            },
            Phase::Done { verdict } => {
                &&& (self.container_created ==> self.remove_called)
                &&& (verdict == Verdict::UnrecognizedImage ==> !self.container_created)
            },
            Phase::Aborted => true,
        }
        &&& (match self.phase {
            Phase::Creating | Phase::Copying | Phase::Starting => !self.builder.spec_overflowed(),
            Phase::Streaming => !self.builder.spec_overflowed(),
            Phase::Draining { .. } => !self.builder.spec_overflowed(),
            Phase::Stopping { reason: StopReason::Timeout } => !self.builder.spec_overflowed(),
            Phase::AwaitingExit { stopped: None } => !self.builder.spec_overflowed(),
            Phase::AwaitingExit { stopped: Some(StopReason::Timeout) } => !self.builder.spec_overflowed(),
            _ => true,
        })
    }

    /// Opens a session: the driver's first duty is the create call.
    pub fn new(budget: usize) -> (r: (Session, Action))
        ensures
            r.0.wf(),
            r.1 == Action::CreateContainer,
            r.0.phase() == Phase::Creating,
            !r.0.created(),
            !r.0.removed(),
            r.0.builder().spec_budget() == budget,
            r.0.captured() == Seq::<u8>::empty(),
            r.0.builder().chunks() == Seq::<Seq<u8>>::empty(),
    {
        let s = Session {
            phase: Phase::Creating,
            builder: crate::output::OutputBuilder::new(budget),
            container_created: false,
            remove_called: false,
        };
        (s, Action::CreateContainer)
    }
}

/// The whole transition relation: what one event does to the session and
/// which action it demands. `step` is exact with respect to this relation.
pub open spec fn step_rel(pre: Session, event: Event, post: Session, action: Action) -> bool {
    &&& post.builder().spec_budget() == pre.builder().spec_budget()
    &&& match (pre.phase(), event) {
        (Phase::Creating, Event::Created) => {
            &&& post.phase() == Phase::Copying
            &&& action == Action::CopyCode
            &&& post.builder() == pre.builder()
            &&& post.created() && !post.removed()
        },
        (Phase::Creating, Event::CreateFailed { image_missing }) => {
            &&& post.phase() == (Phase::Done {
                verdict: if image_missing {
                    Verdict::UnrecognizedImage
                } else {
                    Verdict::Transport
                },
            })
            &&& action == Action::Finish
            &&& post.builder() == pre.builder()
            &&& !post.created() && !post.removed()
        },
        (Phase::Copying, Event::Copied) => {
            &&& post.phase() == Phase::Starting
            &&& action == Action::StartContainer
            &&& post.builder() == pre.builder()
            &&& post.created() && !post.removed()
        },
        (Phase::Copying, Event::CopyFailed) => {
            &&& post.phase() == (Phase::Removing { verdict: Verdict::Transport })
            &&& action == Action::RemoveContainer
            &&& post.builder() == pre.builder()
            &&& post.created() && post.removed()
        },
        (Phase::Starting, Event::Started) => {
            &&& post.phase() == Phase::Streaming
            &&& action == Action::ReadChunk
            &&& post.builder() == pre.builder()
            &&& post.created() && !post.removed()
        },
        (Phase::Starting, Event::StartFailed) => {
            &&& post.phase() == (Phase::Removing { verdict: Verdict::Transport })
            &&& action == Action::RemoveContainer
            &&& post.builder() == pre.builder()
            &&& post.created() && post.removed()
        },
        (Phase::Streaming, Event::Chunk(v)) => {
            let over = total_cost(pre.builder().chunks()) + chunk_cost(v@) > pre.builder(
            ).spec_budget();
            &&& post.created() && !post.removed()
            &&& post.builder().spec_overflowed() == over
            &&& if over {
                &&& post.phase() == (Phase::Stopping { reason: StopReason::Overflow })
                &&& action == Action::ForceStop
                &&& post.builder().chunks() == pre.builder().chunks()
                &&& post.builder().captured() == pre.builder().captured() + marker_bytes()
            } else {
                &&& post.phase() == Phase::Streaming
                &&& action == Action::ReadChunk
                &&& post.builder().chunks() == pre.builder().chunks().push(v@)
                &&& post.builder().captured() == pre.builder().captured() + v@
            }
        },
        (Phase::Streaming, Event::StreamEnd) => {
            &&& post.phase() == (Phase::AwaitingExit { stopped: None })
            &&& action == Action::WaitExit
            &&& post.builder() == pre.builder()
            &&& post.created() && !post.removed()
        },
        (Phase::Streaming, Event::TimedOut) => {
            &&& post.phase() == (Phase::Stopping { reason: StopReason::Timeout })
            &&& action == Action::ForceStop
            &&& post.builder() == pre.builder()
            &&& post.created() && !post.removed()
        },
        (Phase::Stopping { reason }, Event::Stopped) => {
            &&& post.phase() == (Phase::AwaitingExit { stopped: Some(reason) })
            &&& action == Action::WaitExit
            &&& post.builder() == pre.builder()
            &&& post.created() && !post.removed()
        },
        (Phase::Stopping { .. }, Event::StopFailed) => {
            &&& post.phase() == Phase::Aborted
            &&& action == Action::Abort
            &&& post.builder() == pre.builder()
        },
        (Phase::AwaitingExit { stopped }, Event::Exited(status)) => {
            &&& post.builder() == pre.builder()
            &&& if stopped == Some(StopReason::Timeout) {
                &&& post.phase() == (Phase::Draining { status })
                &&& action == Action::ReadChunk
                &&& post.created() && !post.removed()
            } else {
                &&& post.phase() == (Phase::Removing {
                    verdict: Verdict::Output { status },
                })
                &&& action == Action::RemoveContainer
                &&& post.created() && post.removed()
            }
        },
        (Phase::AwaitingExit { .. }, Event::WaitFailed) => {
            &&& post.phase() == (Phase::Removing { verdict: Verdict::Transport })
            &&& action == Action::RemoveContainer
            &&& post.builder() == pre.builder()
            &&& post.created() && post.removed()
        },
        (Phase::AwaitingExit { stopped }, Event::TimedOut) => {
            &&& stopped is None
            &&& post.phase() == (Phase::Stopping { reason: StopReason::Timeout })
            &&& action == Action::ForceStop
            &&& post.builder() == pre.builder()
            &&& post.created() && !post.removed()
        },
        (Phase::Draining { status }, Event::Chunk(v)) => {
            let over = total_cost(pre.builder().chunks()) + chunk_cost(v@) > pre.builder(
            ).spec_budget();
            &&& post.builder().spec_overflowed() == over
            &&& if over {
                &&& post.phase() == (Phase::Removing {
                    verdict: Verdict::Output { status },
                })
                &&& action == Action::RemoveContainer
                &&& post.builder().chunks() == pre.builder().chunks()
                &&& post.builder().captured() == pre.builder().captured() + marker_bytes()
                &&& post.created() && post.removed()
            } else {
                &&& post.phase() == (Phase::Draining { status })
                &&& action == Action::ReadChunk
                &&& post.builder().chunks() == pre.builder().chunks().push(v@)
                &&& post.builder().captured() == pre.builder().captured() + v@
                &&& post.created() && !post.removed()
            }
        },
        (Phase::Draining { status }, Event::StreamEnd) => {
            &&& post.phase() == (Phase::Removing { verdict: Verdict::Output { status } })
            &&& action == Action::RemoveContainer
            &&& post.builder() == pre.builder()
            &&& post.created() && post.removed()
        },
        (Phase::Removing { verdict }, Event::Removed) => {
            &&& post.phase() == (Phase::Done { verdict })
            &&& action == Action::Finish
            &&& post.builder() == pre.builder()
            &&& post.created() && post.removed()
        },
        (Phase::Removing { .. }, Event::RemoveFailed) => {
            &&& post.phase() == (Phase::Done { verdict: Verdict::Transport })
            &&& action == Action::Finish
            &&& post.builder() == pre.builder()
            &&& post.created() && post.removed()
        },
        _ => false,
    }
}

impl Session {
    /// Feeds the engine's answer to the last action in, and decides the
    /// next action, exactly as `step_rel` says. A remove is demanded at
    /// most once per session, and only for a created container.
    pub fn step(&mut self, event: Event) -> (action: Action)
        requires
            old(self).wf(),
            accepts(old(self).phase(), event),
        ensures
            final(self).wf(),
            step_rel(*old(self), event, *final(self), action),
            action == Action::RemoveContainer ==> old(self).created() && !old(self).removed()
                && final(self).removed(),
    {
        let ph = self.phase;
        match (ph, event) {
            (Phase::Creating, Event::Created) => {
                self.phase = Phase::Copying;
                self.container_created = true;
                Action::CopyCode
            },
            (Phase::Creating, Event::CreateFailed { image_missing }) => {
                self.phase = Phase::Done {
                    verdict: if image_missing {
                        Verdict::UnrecognizedImage
                    } else {
                        Verdict::Transport
                    },
                };
                Action::Finish
            },
            (Phase::Copying, Event::Copied) => {
                self.phase = Phase::Starting;
                Action::StartContainer
            },
            (Phase::Copying, Event::CopyFailed) => {
                self.phase = Phase::Removing { verdict: Verdict::Transport };
                self.remove_called = true;
                Action::RemoveContainer
            },
            (Phase::Starting, Event::Started) => {
                self.phase = Phase::Streaming;
                Action::ReadChunk
            },
            (Phase::Starting, Event::StartFailed) => {
                self.phase = Phase::Removing { verdict: Verdict::Transport };
                self.remove_called = true;
                Action::RemoveContainer
            },
            (Phase::Streaming, Event::Chunk(v)) => {
                let overflow = self.builder.push_chunk(v.as_slice());
                if overflow {
                    self.phase = Phase::Stopping { reason: StopReason::Overflow };
                    Action::ForceStop
                } else {
                    Action::ReadChunk
                }
            },
            (Phase::Streaming, Event::StreamEnd) => {
                self.phase = Phase::AwaitingExit { stopped: None };
                Action::WaitExit
            },
            (Phase::Streaming, Event::TimedOut) => {
                self.phase = Phase::Stopping { reason: StopReason::Timeout };
                Action::ForceStop
            },
            (Phase::Stopping { reason }, Event::Stopped) => {
                self.phase = Phase::AwaitingExit { stopped: Some(reason) };
                Action::WaitExit
            },
            (Phase::Stopping { .. }, Event::StopFailed) => {
                self.phase = Phase::Aborted;
                Action::Abort
            },
            (Phase::AwaitingExit { stopped }, Event::Exited(status)) => {
                if stopped == Some(StopReason::Timeout) {
                    self.phase = Phase::Draining { status };
                    Action::ReadChunk
                } else {
                    self.phase = Phase::Removing { verdict: Verdict::Output { status } };
                    self.remove_called = true;
                    Action::RemoveContainer
                }
            },
            (Phase::AwaitingExit { .. }, Event::WaitFailed) => {
                self.phase = Phase::Removing { verdict: Verdict::Transport };
                self.remove_called = true;
                Action::RemoveContainer
            },
            (Phase::AwaitingExit { .. }, Event::TimedOut) => {
                self.phase = Phase::Stopping { reason: StopReason::Timeout };
                Action::ForceStop
            },
            (Phase::Draining { status }, Event::Chunk(v)) => {
                let overflow = self.builder.push_chunk(v.as_slice());
                if overflow {
                    self.phase = Phase::Removing { verdict: Verdict::Output { status } };
                    self.remove_called = true;
                    Action::RemoveContainer
                } else {
                    Action::ReadChunk
                }
            },
            (Phase::Draining { status }, Event::StreamEnd) => {
                self.phase = Phase::Removing { verdict: Verdict::Output { status } };
                self.remove_called = true;
                Action::RemoveContainer
            },
            (Phase::Removing { verdict }, Event::Removed) => {
                self.phase = Phase::Done { verdict };
                Action::Finish
            },
            (Phase::Removing { .. }, Event::RemoveFailed) => {
                self.phase = Phase::Done { verdict: Verdict::Transport };
                Action::Finish
            },
            _ => {
                proof {
                    assert(false);
                }
                Action::Finish
            },
        }
    }

    /// Closes a finished session: the captured text with the exit status,
    /// or the error. By the invariant, any container this session created
    /// has already been removed.
    pub fn finish(self) -> (r: Result<Output, ExecutorError>)
        requires
            self.wf(),
            self.phase() is Done,
        ensures
            match self.phase()->Done_verdict {
                Verdict::Output { status } => (match r {
                    Ok(o) => {
                        &&& o.status == status
                        &&& vstd::utf8::valid_utf8(self.captured()) ==> o.tty@
                            == vstd::utf8::decode_utf8(self.captured())
                        &&& !vstd::utf8::valid_utf8(self.captured()) ==> o.tty@
                            == crate::output::lossy_utf8(self.captured())
                    },
                    Err(_) => false,
                }),
                Verdict::UnrecognizedImage => r == Err::<Output, ExecutorError>(
                    ExecutorError::UnrecognizedImage,
                ),
                Verdict::Transport => r == Err::<Output, ExecutorError>(
                    ExecutorError::TransportFailure,
                ),
            },
    {
        let Session { phase, builder, .. } = self;
        match phase {
            Phase::Done { verdict } => match verdict {
                Verdict::Output { status } => Ok(Output { status, tty: builder.build() }),
                Verdict::UnrecognizedImage => Err(ExecutorError::UnrecognizedImage),
                Verdict::Transport => Err(ExecutorError::TransportFailure),
            },
            _ => {
                proof {
                    assert(false);
                }
                Err(ExecutorError::TransportFailure)
            },
        }
    }
}

// ---------------------------------------------------------------------------
// Laws of the session
// ---------------------------------------------------------------------------

/// Teardown: a finished session never holds a container — whichever path
/// it took, a created container had its remove call before the verdict.
pub proof fn lemma_finished_means_removed(s: &Session)
    requires
        s.wf(),
        s.phase() is Done,
    ensures
        s.created() ==> s.removed(),
        !s.holds_container(),
{
}

/// A missing image is reported as exactly that, never as a transport
/// failure, and without any container having been created — there is
/// nothing to leak.
pub proof fn lemma_missing_image_is_clean(pre: Session, post: Session, action: Action)
    requires
        pre.wf(),
        pre.phase() == Phase::Creating,
        step_rel(pre, Event::CreateFailed { image_missing: true }, post, action),
    ensures
        post.phase() == (Phase::Done { verdict: Verdict::UnrecognizedImage }),
        !post.created(),
        action == Action::Finish,
{
}

/// The wall-clock timeout forces an immediate stop, and the session still
/// heads for removal, not for an error.
pub proof fn lemma_timeout_forces_stop(pre: Session, post: Session, action: Action)
    requires
        pre.wf(),
        pre.phase() == Phase::Streaming,
        step_rel(pre, Event::TimedOut, post, action),
    ensures
        action == Action::ForceStop,
        post.phase() == (Phase::Stopping { reason: StopReason::Timeout }),
{
}

/// The session's capture stays within the output budget: with every
/// accepted chunk valid text, the captured text decodes to at most the
/// budget in characters, plus the marker once truncated.
pub proof fn lemma_session_capture_within_budget(s: &Session)
    requires
        s.wf(),
        forall|i: int|
            0 <= i < s.builder().chunks().len() ==> vstd::utf8::valid_utf8(
                #[trigger] s.builder().chunks()[i],
            ),
    ensures
        vstd::utf8::valid_utf8(s.captured()),
        vstd::utf8::decode_utf8(s.captured()).len() <= s.builder().spec_budget()
            + marker_bytes().len(),
{
    crate::output::lemma_captured_within_budget(&s.builder());
}

} // verus!
