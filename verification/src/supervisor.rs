//! The receiving side's decisions.
//!
//! A supervisor keeps a child process running that writes the event stream,
//! mirrors the graph that the stream describes, and says which events go out
//! to the subscribers. It does none of the waiting itself: its driver starts
//! the process, reads the stream and publishes, reports each thing that it
//! has seen as an [`Observation`] to [`Supervisor::step`], and does what the
//! returned [`Command`] says.

use vstd::prelude::*;
use crate::entity::Entity;
use crate::laws::is_added;
use crate::state::{apply, is_change_list, RosState, StateModel};
use crate::types::{DiscoveryEvent, DiscoveryEventWrapper, EnvelopeModel};

verus! {

/// A child process that lived for less than this many milliseconds is not
/// started again.
pub const MIN_RUNTIME_MS: u128 = 2000;

/// Where the supervisor stands.
#[derive(Debug, Clone, Copy, PartialEq, Eq, Structural)]
pub enum Phase {
    /// The child process is to be started.
    Spawning,
    /// The child process runs and its stream is read.
    Streaming,
    /// The child process ended early and its error output is collected.
    Diagnosing,
    /// Supervision has ended for good.
    Terminated,
}

/// Why the reading of a stream stopped.
#[derive(Debug, Clone, Copy, PartialEq, Eq, Structural)]
pub enum StreamEnd {
    /// The stream ended between two frames.
    EndOfStream,
    /// The stream ended inside a frame.
    Truncated,
    /// A frame did not hold a well-formed envelope.
    Malformed,
}

/// Something that the driver has seen.
#[derive(Debug, Clone)]
pub enum Observation {
    /// The child process was started and its output is captured.
    Spawned,
    /// Starting the child process, or reading its error output, failed.
    /// `not_found` says that the program to start does not exist.
    IoFailed { not_found: bool, message: String },
    /// An output of the child process could not be captured.
    PipeMissing,
    /// One envelope arrived on the stream.
    Envelope { envelope: DiscoveryEventWrapper },
    /// The stream stopped, `alive_ms` milliseconds after the child process
    /// was started.
    StreamEnded { cause: StreamEnd, alive_ms: u128 },
    /// The error output of the child process was collected.
    Diagnosed { status: String, stderr: String },
}

/// The model of an [`Observation`].
#[allow(inconsistent_fields)]
pub enum ObservationModel {
    Spawned,
    IoFailed { not_found: bool, message: Seq<char> },
    PipeMissing,
    Envelope { envelope: EnvelopeModel },
    StreamEnded { cause: StreamEnd, alive_ms: u128 },
    Diagnosed { status: Seq<char>, stderr: Seq<char> },
}

impl DeepView for Observation {
    type V = ObservationModel;

    open spec fn deep_view(&self) -> ObservationModel {
        match self {
            Observation::Spawned => ObservationModel::Spawned,
            Observation::IoFailed { not_found, message } => ObservationModel::IoFailed {
                not_found: *not_found,
                message: message@,
            },
            Observation::PipeMissing => ObservationModel::PipeMissing,
            Observation::Envelope { envelope } => ObservationModel::Envelope {
                envelope: envelope.deep_view(),
            },
            Observation::StreamEnded { cause, alive_ms } => ObservationModel::StreamEnded {
                cause: *cause,
                alive_ms: *alive_ms,
            },
            Observation::Diagnosed { status, stderr } => ObservationModel::Diagnosed {
                status: status@,
                stderr: stderr@,
            },
        }
    }
}

/// Why supervision ended.
#[derive(Debug, Clone)]
pub enum Failure {
    /// The child process could not be started, or its error output could not
    /// be read.
    SpawnError { not_found: bool, message: String },
    /// An output of the child process could not be captured.
    PipeError,
    /// The child process ended too soon after its start.
    ProcessExited { status: String, stderr: String },
}

/// The model of a [`Failure`].
pub enum FailureModel {
    SpawnError { not_found: bool, message: Seq<char> },
    PipeError,
    ProcessExited { status: Seq<char>, stderr: Seq<char> },
}

impl DeepView for Failure {
    type V = FailureModel;

    open spec fn deep_view(&self) -> FailureModel {
        match self {
            Failure::SpawnError { not_found, message } => FailureModel::SpawnError {
                not_found: *not_found,
                message: message@,
            },
            Failure::PipeError => FailureModel::PipeError,
            Failure::ProcessExited { status, stderr } => FailureModel::ProcessExited {
                status: status@,
                stderr: stderr@,
            },
        }
    }
}

/// What the driver is to do next.
#[derive(Debug, Clone)]
pub enum Command {
    /// Start the child process.
    Spawn,
    /// Read the next envelope from the stream.
    Read,
    /// Collect the error output and the exit status of the child process.
    Diagnose,
    /// Close the channel to the subscribers and stop.
    Stop { failure: Failure },
    /// Nothing: supervision has ended before.
    Halt,
}

/// The model of a [`Command`].
pub enum CommandModel {
    Spawn,
    Read,
    Diagnose,
    Stop { failure: FailureModel },
    Halt,
}

impl DeepView for Command {
    type V = CommandModel;

    open spec fn deep_view(&self) -> CommandModel {
        match self {
            Command::Spawn => CommandModel::Spawn,
            Command::Read => CommandModel::Read,
            Command::Diagnose => CommandModel::Diagnose,
            Command::Stop { failure } => CommandModel::Stop { failure: failure.deep_view() },
            Command::Halt => CommandModel::Halt,
        }
    }
}

/// The phase after `observation` was seen in `phase`. An observation that the
/// phase does not wait for leaves it as it is.
pub open spec fn next_phase(phase: Phase, observation: ObservationModel) -> Phase {
    match (phase, observation) {
        (Phase::Spawning, ObservationModel::Spawned) => Phase::Streaming,
        (Phase::Spawning, ObservationModel::IoFailed { .. }) => Phase::Terminated,
        (Phase::Spawning, ObservationModel::PipeMissing) => Phase::Terminated,
        (Phase::Streaming, ObservationModel::StreamEnded { alive_ms, .. }) => if alive_ms
            < MIN_RUNTIME_MS {
            Phase::Diagnosing
        } else {
            Phase::Spawning
        },
        (Phase::Diagnosing, ObservationModel::Diagnosed { .. }) => Phase::Terminated,
        (Phase::Diagnosing, ObservationModel::IoFailed { .. }) => Phase::Terminated,
        (Phase::Diagnosing, ObservationModel::PipeMissing) => Phase::Terminated,
        _ => phase,
    }
}

/// The mirror after `observation` was seen in `phase`: an envelope that
/// arrives while streaming is folded in, the end of the stream empties the
/// mirror, and nothing else touches it.
pub open spec fn next_mirror(
    phase: Phase,
    mirror: StateModel,
    observation: ObservationModel,
) -> StateModel {
    match (phase, observation) {
        (Phase::Streaming, ObservationModel::Envelope { envelope }) => apply(
            mirror,
            envelope.event,
        ),
        (Phase::Streaming, ObservationModel::StreamEnded { .. }) => StateModel::empty(),
        _ => mirror,
    }
}

/// What the driver is told to do after `observation` was seen in `phase`.
pub open spec fn command_for(phase: Phase, observation: ObservationModel) -> CommandModel {
    match (phase, observation) {
        (Phase::Spawning, ObservationModel::Spawned) => CommandModel::Read,
        (Phase::Spawning, ObservationModel::IoFailed { not_found, message }) => CommandModel::Stop {
            failure: FailureModel::SpawnError { not_found, message },
        },
        (Phase::Spawning, ObservationModel::PipeMissing) => CommandModel::Stop {
            failure: FailureModel::PipeError,
        },
        (Phase::Spawning, _) => CommandModel::Spawn,
        (Phase::Streaming, ObservationModel::StreamEnded { alive_ms, .. }) => if alive_ms
            < MIN_RUNTIME_MS {
            CommandModel::Diagnose
        } else {
            CommandModel::Spawn
        },
        (Phase::Streaming, _) => CommandModel::Read,
        (Phase::Diagnosing, ObservationModel::Diagnosed { status, stderr }) => CommandModel::Stop {
            failure: FailureModel::ProcessExited { status, stderr },
        },
        (Phase::Diagnosing, ObservationModel::IoFailed { not_found, message }) => CommandModel::Stop {
            failure: FailureModel::SpawnError { not_found, message },
        },
        (Phase::Diagnosing, ObservationModel::PipeMissing) => CommandModel::Stop {
            failure: FailureModel::PipeError,
        },
        (Phase::Diagnosing, _) => CommandModel::Diagnose,
        (Phase::Terminated, _) => CommandModel::Halt,
    }
}

/// Why a stream stopped makes no difference to what follows: a clean end, a
/// frame cut short and a malformed envelope are all answered alike.
pub proof fn law_every_stream_end_alike(
    phase: Phase,
    mirror: StateModel,
    first: StreamEnd,
    second: StreamEnd,
    alive_ms: u128,
)
    ensures
        next_phase(phase, ObservationModel::StreamEnded { cause: first, alive_ms }) == next_phase(
            phase,
            ObservationModel::StreamEnded { cause: second, alive_ms },
        ),
        next_mirror(phase, mirror, ObservationModel::StreamEnded { cause: first, alive_ms })
            == next_mirror(phase, mirror, ObservationModel::StreamEnded { cause: second, alive_ms }),
        command_for(phase, ObservationModel::StreamEnded { cause: first, alive_ms }) == command_for(
            phase,
            ObservationModel::StreamEnded { cause: second, alive_ms },
        ),
{
}

/// Whether the child process is never started again from `phase` on.
pub open spec fn is_final(phase: Phase) -> bool {
    phase == Phase::Diagnosing || phase == Phase::Terminated
}

/// A child process that ends before [`MIN_RUNTIME_MS`] is not started again:
/// the end of its stream leads to a final phase, and from a final phase every
/// observation leads to a final phase and to a command other than `Spawn`.
/// Once supervision has ended, it stays ended.
pub proof fn law_early_exit_is_final(observation: ObservationModel, phase: Phase)
    ensures
        observation matches ObservationModel::StreamEnded { alive_ms, .. } && alive_ms
            < MIN_RUNTIME_MS ==> is_final(next_phase(Phase::Streaming, observation)),
        is_final(phase) ==> is_final(next_phase(phase, observation)) && command_for(
            phase,
            observation,
        ) != CommandModel::Spawn,
        next_phase(Phase::Terminated, observation) == Phase::Terminated,
        command_for(Phase::Terminated, observation) == CommandModel::Halt,
{
}

/// A child process that ran for at least [`MIN_RUNTIME_MS`] is started again
/// at once when its stream ends, with an empty mirror.
pub proof fn law_late_exit_restarts(mirror: StateModel, cause: StreamEnd, alive_ms: u128)
    requires
        alive_ms >= MIN_RUNTIME_MS,
    ensures
        next_phase(Phase::Streaming, ObservationModel::StreamEnded { cause, alive_ms })
            == Phase::Spawning,
        command_for(Phase::Streaming, ObservationModel::StreamEnded { cause, alive_ms })
            == CommandModel::Spawn,
        next_mirror(Phase::Streaming, mirror, ObservationModel::StreamEnded { cause, alive_ms })
            == StateModel::empty(),
{
}

/// What one step asks of the driver: first to publish `publish`, in order,
/// then to do `next`.
#[derive(Debug, Clone)]
pub struct Step {
    pub publish: Vec<DiscoveryEvent>,
    pub next: Command,
}

/// The answer to a subscription that comes after supervision has ended.
#[derive(Debug, Clone, Copy, PartialEq, Eq, Structural)]
pub struct Closed;

/// The supervisor's state: its phase and its mirror of the graph.
#[derive(Debug)]
pub struct Supervisor {
    phase: Phase,
    mirror: RosState,
}

/// The model of a [`Supervisor`].
pub struct SupervisorModel {
    pub phase: Phase,
    pub mirror: StateModel,
}

impl View for Supervisor {
    type V = SupervisorModel;

    closed spec fn view(&self) -> SupervisorModel {
        SupervisorModel { phase: self.phase, mirror: self.mirror.deep_view() }
    }
}

impl Supervisor {
    /// A supervisor that is about to start the child process for the first
    /// time and knows nothing of the graph.
    pub fn new() -> (supervisor: Self)
        ensures
            supervisor@.phase == Phase::Spawning,
            supervisor@.mirror == StateModel::empty(),
    {
        Supervisor { phase: Phase::Spawning, mirror: RosState::default() }
    }

    /// Where the supervisor stands.
    pub fn phase(&self) -> (phase: Phase)
        ensures
            phase == self@.phase,
    {
        self.phase
    }

    /// The graph as the stream has described it so far.
    pub fn mirror(&self) -> (mirror: &RosState)
        ensures
            mirror.deep_view() == self@.mirror,
    {
        &self.mirror
    }

    /// Takes in one observation. The phase, the mirror and the command follow
    /// [`next_phase`], [`next_mirror`] and [`command_for`], and the events to
    /// publish are the changes from the mirror as it was to the mirror as it
    /// is now.
    pub fn step(&mut self, observation: Observation) -> (step: Step)
        ensures
            final(self)@.phase == next_phase(old(self)@.phase, observation.deep_view()),
            final(self)@.mirror == next_mirror(
                old(self)@.phase,
                old(self)@.mirror,
                observation.deep_view(),
            ),
            step.next.deep_view() == command_for(old(self)@.phase, observation.deep_view()),
            is_change_list(step.publish.deep_view(), final(self)@.mirror, old(self)@.mirror),
            final(self)@.mirror == old(self)@.mirror ==> step.publish.len() == 0,
    {
        match self.phase {
            Phase::Spawning => match observation {
                Observation::Spawned => {
                    self.phase = Phase::Streaming;
                    self.quiet(Command::Read)
                },
                Observation::IoFailed { not_found, message } => {
                    self.phase = Phase::Terminated;
                    self.quiet(
                        Command::Stop { failure: Failure::SpawnError { not_found, message } },
                    )
                },
                Observation::PipeMissing => {
                    self.phase = Phase::Terminated;
                    self.quiet(Command::Stop { failure: Failure::PipeError })
                },
                _ => self.quiet(Command::Spawn),
            },
            Phase::Streaming => match observation {
                Observation::Envelope { envelope } => {
                    let mut next = self.mirror.duplicate();
                    next.update(envelope.event);
                    let publish = next.changes(&self.mirror);
                    self.mirror = next;
                    Step { publish, next: Command::Read }
                },
                Observation::StreamEnded { cause: _, alive_ms } => {
                    let next = RosState::default();
                    let publish = next.changes(&self.mirror);
                    self.mirror = next;
                    if alive_ms < MIN_RUNTIME_MS {
                        self.phase = Phase::Diagnosing;
                        Step { publish, next: Command::Diagnose }
                    } else {
                        self.phase = Phase::Spawning;
                        Step { publish, next: Command::Spawn }
                    }
                },
                _ => self.quiet(Command::Read),
            },
            Phase::Diagnosing => match observation {
                Observation::Diagnosed { status, stderr } => {
                    self.phase = Phase::Terminated;
                    self.quiet(
                        Command::Stop { failure: Failure::ProcessExited { status, stderr } },
                    )
                },
                Observation::IoFailed { not_found, message } => {
                    self.phase = Phase::Terminated;
                    self.quiet(
                        Command::Stop { failure: Failure::SpawnError { not_found, message } },
                    )
                },
                Observation::PipeMissing => {
                    self.phase = Phase::Terminated;
                    self.quiet(Command::Stop { failure: Failure::PipeError })
                },
                _ => self.quiet(Command::Diagnose),
            },
            Phase::Terminated => self.quiet(Command::Halt),
        }
    }

    /// The step that publishes nothing and asks for `next`.
    fn quiet(&self, next: Command) -> (step: Step)
        ensures
            step.next == next,
            step.publish.len() == 0,
            is_change_list(step.publish.deep_view(), self@.mirror, self@.mirror),
    {
        let step = Step { publish: Vec::new(), next };
        assert(step.publish.deep_view() =~= Seq::<crate::types::EventModel>::empty());
        step
    }

    /// What a new subscriber receives before anything that is published from
    /// now on: one `Added` event for each entity of the mirror. After
    /// supervision has ended there is nothing to subscribe to.
    pub fn subscribe(&self) -> (replay: Result<Vec<DiscoveryEvent>, Closed>)
        ensures
            replay is Err <==> self@.phase == Phase::Terminated,
            replay is Ok ==> is_change_list(
                replay->Ok_0.deep_view(),
                self@.mirror,
                StateModel::empty(),
            ),
            replay is Ok ==> forall|i: int|
                0 <= i < replay->Ok_0.len() ==> is_added(#[trigger] replay->Ok_0.deep_view()[i]),
    {
        if self.phase == Phase::Terminated {
            return Err(Closed);
        }
        let nothing = RosState::default();
        Ok(self.mirror.changes(&nothing))
    }
}

} // verus!
