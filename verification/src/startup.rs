//! Establishing a connection: listen, and start the device only if it is silent.
//!
//! The procedure alternates between I/O and decisions. Each decision is taken here,
//! by [`Startup::advance`]: from the outcome of the last action to the next one.

use crate::codec::Event;
use crate::error::TransportError;
use crate::node::DeviceInfo;
use crate::protocol::{
    startup_command, startup_request, startup_step, startup_timeout_millis, FixedWrite,
    STARTUP_STEPS, WRITE_TIMEOUT_MILLIS,
};
use crate::session::{
    is_imu, law_buffer_stays_bounded, requested_acknowledgement, ConnectionInfo, Incoming,
    Received, SessionCore, SessionView, StartupMode,
};
use vstd::prelude::*;

verus! {

/// How long to listen before deciding whether the device must be started, in
/// milliseconds.
pub const PASSIVE_WINDOW_MILLIS: u64 = 500;

/// A startup step whose request was sent and whose response is awaited.
#[derive(Debug, Clone, Copy, PartialEq, Eq)]
pub struct Wait {
    /// Index of the step, counted from zero.
    pub step: usize,
    /// Number of invalid reports before the step.
    pub invalid_before: u64,
}

/// Where the procedure stands.
#[derive(Debug, Clone, Copy, PartialEq, Eq)]
pub enum Phase {
    /// Listening without having sent anything but acknowledgements.
    Listening,
    /// The request of a step (counted from zero) is being written.
    Requesting {
        /// Index of the step.
        step: usize,
    },
    /// The response of a step is awaited.
    Waiting(Wait),
    /// An acknowledgement is being written, after which its event is delivered.
    Acknowledging {
        /// The step that was awaited, if any.
        wait: Option<Wait>,
    },
    /// The connection is established.
    Connected(ConnectionInfo),
    /// The procedure was given up.
    Failed,
}

/// What to do next.
#[derive(Debug, PartialEq, Eq)]
pub enum Action {
    /// Start a new deadline, this many milliseconds from now, and read until then.
    Listen {
        /// Time until the deadline.
        millis: u64,
    },
    /// Read on, until the current deadline.
    Read,
    /// Write a fixed request, within its time limit.
    Request(FixedWrite),
    /// Write a requested acknowledgement, within its time limit and before the current
    /// deadline.
    Acknowledge(FixedWrite),
    /// Nothing: the connection is established.
    Connected(ConnectionInfo),
    /// Nothing: the procedure was given up.
    Failed(TransportError),
}

/// What came of an action.
#[derive(Debug, PartialEq, Eq)]
pub enum Outcome {
    /// A report was read.
    Report(Incoming),
    /// The deadline passed, or no report arrived before it.
    TimedOut,
    /// The message was written.
    Written,
    /// Reading or writing failed.
    Failed(TransportError),
    /// The clock cannot represent the deadline.
    NoDeadline,
}

/// An action, with its message as a sequence and the time limit of writing it.
pub enum ActionView {
    /// See [`Action::Listen`].
    Listen(u64),
    /// See [`Action::Read`].
    Read,
    /// See [`Action::Request`].
    Request(Seq<u8>, u64),
    /// See [`Action::Acknowledge`].
    Acknowledge(Seq<u8>, u64),
    /// See [`Action::Connected`].
    Connected(ConnectionInfo),
    /// See [`Action::Failed`].
    Failed(TransportError),
}

impl View for Action {
    type V = ActionView;

    open spec fn view(&self) -> ActionView {
        match *self {
            Action::Listen { millis } => ActionView::Listen(millis),
            Action::Read => ActionView::Read,
            Action::Request(write) => ActionView::Request(write.report@, write.millis),
            Action::Acknowledge(write) => ActionView::Acknowledge(write.report@, write.millis),
            Action::Connected(info) => ActionView::Connected(info),
            Action::Failed(error) => ActionView::Failed(error),
        }
    }
}

/// Number of steps of a procedure.
pub open spec fn step_count(mode: StartupMode) -> int {
    match mode {
        StartupMode::Full => STARTUP_STEPS as int,
        StartupMode::StreamOnly => 1,
        StartupMode::FirstTwo => 2,
    }
}

/// The status that an event reports for a step, if it is the response to its request.
pub open spec fn answer(event: Event, step: int) -> Option<u8> {
    match event {
        Event::StartupResponse(response) => if response.command_id == startup_command(step) {
            Some(response.status)
        } else {
            None
        },
        Event::CurrentProximity(response) => if startup_command(step) == 0x4a {
            Some(response.status)
        } else {
            None
        },
        _ => None,
    }
}

/// The state of the procedure.
#[verifier::ext_equal]
pub struct StartupView {
    /// Buffered events and counters.
    pub session: SessionView,
    /// The selected procedure.
    pub mode: StartupMode,
    /// Where it stands.
    pub phase: Phase,
}

impl StartupView {
    /// The start of the procedure.
    pub open spec fn initial(mode: StartupMode) -> StartupView {
        StartupView { session: SessionView::initial(), mode, phase: Phase::Listening }
    }

    /// A step in progress is one of the procedure, and began with no more invalid
    /// reports than there are.
    pub open spec fn valid_wait(self, wait: Wait) -> bool {
        &&& wait.step < step_count(self.mode)
        &&& wait.invalid_before <= self.session.statistics.invalid_reports
    }

    /// What holds throughout the procedure.
    pub open spec fn valid(self) -> bool {
        &&& self.session.bounded()
        &&& self.session.awaiting is Some <==> self.phase is Acknowledging
        &&& self.session.awaiting matches Some(event) ==> requested_acknowledgement(event) is Some
        &&& match self.phase {
            Phase::Requesting { step } => step < step_count(self.mode),
            Phase::Waiting(wait) => self.valid_wait(wait),
            Phase::Acknowledging { wait: Some(wait) } => self.valid_wait(wait),
            _ => true,
        }
    }

    /// Whether an outcome can come of the last action.
    pub open spec fn expects(self, outcome: Outcome) -> bool {
        match self.phase {
            Phase::Listening | Phase::Waiting(_) => !(outcome is Written),
            Phase::Requesting { step } => outcome is Written || outcome is Failed
                || outcome is NoDeadline,
            Phase::Acknowledging { wait } => outcome is Written || outcome is Failed,
            Phase::Connected(_) | Phase::Failed => false,
        }
    }

    /// The counter of dropped IMU samples can hold one more if delivering an event
    /// drops one.
    pub open spec fn can_deliver(self, event: Event) -> bool {
        self.session.drops(event) ==> self.session.statistics.dropped_imu_reports < u64::MAX
    }

    /// Each counter that an outcome increments can hold one more.
    pub open spec fn can_count(self, outcome: Outcome) -> bool {
        match (self.phase, outcome) {
            (Phase::Listening | Phase::Waiting(_), Outcome::Report(input)) => {
                &&& self.session.statistics.can_count_input(input)
                &&& input.decoded() matches Ok(event) ==> self.can_deliver(event)
            },
            (Phase::Acknowledging { wait }, Outcome::Written) => {
                &&& self.session.statistics.acknowledgements_sent < u64::MAX
                &&& self.can_deliver(self.session.awaiting->0)
            },
            _ => true,
        }
    }

    /// The procedure given up.
    pub open spec fn give_up(self, error: TransportError) -> (StartupView, ActionView) {
        (StartupView { phase: Phase::Failed, ..self }, ActionView::Failed(error))
    }

    /// The procedure finished.
    pub open spec fn connect(self, startup_performed: bool) -> (StartupView, ActionView) {
        let info = ConnectionInfo { startup_performed, startup_mode: self.mode };
        (StartupView { phase: Phase::Connected(info), ..self }, ActionView::Connected(info))
    }

    /// The request of a step, or the end of the procedure if there is no such step.
    pub open spec fn request(self, step: usize) -> (StartupView, ActionView) {
        if step < step_count(self.mode) {
            (
                StartupView { phase: Phase::Requesting { step }, ..self },
                ActionView::Request(startup_request(step as int), WRITE_TIMEOUT_MILLIS),
            )
        } else {
            self.connect(true)
        }
    }

    /// Reading on, in the passive window or for the response of a step.
    pub open spec fn read_on(self, wait: Option<Wait>) -> (StartupView, ActionView) {
        let phase = match wait {
            None => Phase::Listening,
            Some(wait) => Phase::Waiting(wait),
        };
        (StartupView { phase, ..self }, ActionView::Read)
    }

    /// A failure of I/O, which names the step if there is one.
    pub open spec fn failure(self, wait: Option<Wait>, error: TransportError) -> (
        StartupView,
        ActionView,
    ) {
        match wait {
            None => self.give_up(error),
            Some(wait) => self.give_up(
                TransportError::StartupTransport {
                    step: (wait.step + 1) as usize,
                    source: Box::new(error),
                },
            ),
        }
    }

    /// An event is delivered. In the passive window an IMU sample shows that the
    /// device is active; for a step only the response to its request counts, and a
    /// nonzero status in it ends the procedure.
    pub open spec fn deliver(self, event: Event, wait: Option<Wait>) -> (StartupView, ActionView) {
        let buffered = StartupView { session: self.session.after_event(event), ..self };
        match wait {
            None => if self.session.refuses(event) {
                buffered.give_up(TransportError::EventBufferFull)
            } else if is_imu(event) {
                buffered.connect(false)
            } else {
                buffered.read_on(None)
            },
            Some(current) => {
                let status = answer(event, current.step as int);
                if status is Some && status != Some(0u8) {
                    self.give_up(
                        TransportError::CommandFailed {
                            step: (current.step + 1) as usize,
                            command_id: startup_command(current.step as int),
                            status: status->0,
                        },
                    )
                } else if self.session.refuses(event) {
                    buffered.give_up(TransportError::EventBufferFull)
                } else if status is Some {
                    buffered.request((current.step + 1) as usize)
                } else {
                    buffered.read_on(wait)
                }
            },
        }
    }

    /// What came of a read, in the passive window or for the response of a step.
    pub open spec fn after_read(self, wait: Option<Wait>, outcome: Outcome) -> (
        StartupView,
        ActionView,
    ) {
        match outcome {
            Outcome::Report(input) => {
                let counted = StartupView { session: self.session.after_input(input), ..self };
                match input.decoded() {
                    Err(_) => counted.read_on(wait),
                    Ok(event) => match requested_acknowledgement(event) {
                        Some(report) => (
                            StartupView {
                                phase: Phase::Acknowledging { wait },
                                ..counted
                            },
                            ActionView::Acknowledge(report, WRITE_TIMEOUT_MILLIS),
                        ),
                        None => counted.deliver(event, wait),
                    },
                }
            },
            Outcome::Failed(TransportError::InvalidReport(_)) => self.read_on(wait),
            Outcome::Failed(error) => self.failure(wait, error),
            Outcome::NoDeadline => self.give_up(TransportError::InvalidTimeout),
            _ => match wait {
                None => self.request(0),
                Some(wait) => self.give_up(
                    self.session.timeout_error((wait.step + 1) as usize, wait.invalid_before),
                ),
            },
        }
    }

    /// The next state and action. Nothing is ever sent twice, and nothing but
    /// acknowledgements is sent before the passive window ends.
    pub open spec fn next(self, outcome: Outcome) -> (StartupView, ActionView) {
        match self.phase {
            Phase::Listening => self.after_read(None, outcome),
            Phase::Waiting(wait) => self.after_read(Some(wait), outcome),
            Phase::Requesting { step } => {
                let wait = Wait {
                    step,
                    invalid_before: self.session.statistics.invalid_reports,
                };
                match outcome {
                    Outcome::Written => (
                        StartupView { phase: Phase::Waiting(wait), ..self },
                        ActionView::Listen(startup_timeout_millis(step as int)),
                    ),
                    Outcome::Failed(error) => self.failure(Some(wait), error),
                    _ => self.give_up(TransportError::InvalidTimeout),
                }
            },
            Phase::Acknowledging { wait } => match outcome {
                Outcome::Failed(error) => StartupView {
                    session: self.session.after_failed_acknowledgement(),
                    ..self
                }.failure(wait, TransportError::AcknowledgementFailed(Box::new(error))),
                _ => StartupView { session: self.session.after_acknowledgement(), ..self }.deliver(
                    self.session.awaiting->0,
                    wait,
                ),
            },
            _ => (self, ActionView::Read),
        }
    }
}

proof fn lemma_deliver_keeps_valid(state: StartupView, event: Event, wait: Option<Wait>)
    requires
        state.session.bounded(),
        state.session.awaiting is None,
        wait matches Some(wait) ==> state.valid_wait(wait),
    ensures
        state.deliver(event, wait).0.valid(),
{
    law_buffer_stays_bounded(state.session, event);
}

/// Whatever comes of an action, a step in progress stays one of the selected
/// procedure, and the buffer stays within its bound.
pub proof fn law_procedure_stays_valid(state: StartupView, outcome: Outcome)
    requires
        state.valid(),
        state.expects(outcome),
        state.can_count(outcome),
    ensures
        state.next(outcome).0.valid(),
{
    let wait = match state.phase {
        Phase::Waiting(wait) => Some(wait),
        Phase::Acknowledging { wait } => wait,
        _ => None,
    };
    match (state.phase, outcome) {
        (Phase::Acknowledging { wait }, Outcome::Written) => {
            let counted = StartupView { session: state.session.after_acknowledgement(), ..state };
            lemma_deliver_keeps_valid(counted, state.session.awaiting->0, wait);
        },
        (Phase::Listening | Phase::Waiting(_), Outcome::Report(input)) => {
            let counted = StartupView { session: state.session.after_input(input), ..state };
            if input.decoded() is Ok && requested_acknowledgement(input.decoded()->Ok_0) is None {
                lemma_deliver_keeps_valid(counted, input.decoded()->Ok_0, wait);
            }
        },
        _ => {},
    }
}

/// The procedure that establishes a connection with an open, verified node.
#[derive(Debug)]
pub struct Startup {
    device: DeviceInfo,
    core: SessionCore,
    mode: StartupMode,
    phase: Phase,
}

impl View for Startup {
    type V = StartupView;

    closed spec fn view(&self) -> StartupView {
        StartupView { session: self.core@, mode: self.mode, phase: self.phase }
    }
}

impl Startup {
    /// The path of the node that the connection is with.
    pub closed spec fn path(self) -> Seq<char> {
        self.device@
    }

    /// Begin the procedure with a verified node; the first action is to listen.
    pub(crate) fn begin(device: DeviceInfo, mode: StartupMode) -> (begun: (Startup, Action))
        ensures
            begun.0@ == StartupView::initial(mode),
            begun.0@.valid(),
            begun.0.path() == device@,
            begun.1@ == ActionView::Listen(PASSIVE_WINDOW_MILLIS),
    {
        let startup = Startup { device, core: SessionCore::new(), mode, phase: Phase::Listening };
        (startup, Action::Listen { millis: PASSIVE_WINDOW_MILLIS })
    }

    /// Where the procedure stands.
    pub fn phase(&self) -> (phase: Phase)
        ensures
            phase == self@.phase,
    {
        self.phase
    }

    /// Buffered events and counters.
    pub fn session(&self) -> (session: &SessionCore)
        ensures
            session@ == self@.session,
    {
        &self.core
    }

    /// The node and the buffered events and counters, once the procedure is over.
    pub(crate) fn into_parts(self) -> (parts: (DeviceInfo, SessionCore))
        ensures
            parts.0@ == self.path(),
            parts.1@ == self@.session,
    {
        (self.device, self.core)
    }

    /// Whether an outcome can come of the last action.
    pub fn is_expected(&self, outcome: &Outcome) -> (expected: bool)
        ensures
            expected == self@.expects(*outcome),
    {
        match self.phase {
            Phase::Listening | Phase::Waiting(_) => match outcome {
                Outcome::Written => false,
                _ => true,
            },
            Phase::Requesting { step: _ } => match outcome {
                Outcome::Written | Outcome::Failed(_) | Outcome::NoDeadline => true,
                _ => false,
            },
            Phase::Acknowledging { wait: _ } => match outcome {
                Outcome::Written | Outcome::Failed(_) => true,
                _ => false,
            },
            Phase::Connected(_) | Phase::Failed => false,
        }
    }

    fn give_up(&mut self, error: TransportError) -> (action: Action)
        ensures
            final(self).path() == old(self).path(),
            (final(self)@, action@) == old(self)@.give_up(error),
    {
        self.phase = Phase::Failed;
        Action::Failed(error)
    }

    fn connect(&mut self, startup_performed: bool) -> (action: Action)
        ensures
            final(self).path() == old(self).path(),
            (final(self)@, action@) == old(self)@.connect(startup_performed),
    {
        let info = ConnectionInfo { startup_performed, startup_mode: self.mode };
        self.phase = Phase::Connected(info);
        Action::Connected(info)
    }

    fn request(&mut self, step: usize) -> (action: Action)
        ensures
            final(self).path() == old(self).path(),
            (final(self)@, action@) == old(self)@.request(step),
    {
        let count: usize = match self.mode {
            StartupMode::Full => STARTUP_STEPS,
            StartupMode::StreamOnly => 1,
            StartupMode::FirstTwo => 2,
        };
        if step < count {
            self.phase = Phase::Requesting { step };
            Action::Request(FixedWrite::of(startup_step(step).report))
        } else {
            self.connect(true)
        }
    }

    fn read_on(&mut self, wait: Option<Wait>) -> (action: Action)
        ensures
            final(self).path() == old(self).path(),
            (final(self)@, action@) == old(self)@.read_on(wait),
    {
        self.phase = match wait {
            None => Phase::Listening,
            Some(wait) => Phase::Waiting(wait),
        };
        Action::Read
    }

    fn failure(&mut self, wait: Option<Wait>, error: TransportError) -> (action: Action)
        requires
            wait matches Some(wait) ==> wait.step < step_count(old(self).mode),
        ensures
            final(self).path() == old(self).path(),
            (final(self)@, action@) == old(self)@.failure(wait, error),
    {
        match wait {
            None => self.give_up(error),
            Some(wait) => self.give_up(
                TransportError::StartupTransport { step: wait.step + 1, source: Box::new(error) },
            ),
        }
    }

    fn deliver(&mut self, event: Event, wait: Option<Wait>) -> (action: Action)
        requires
            old(self)@.session.bounded(),
            old(self)@.can_deliver(event),
            wait matches Some(wait) ==> wait.step < step_count(old(self).mode),
        ensures
            final(self).path() == old(self).path(),
            (final(self)@, action@) == old(self)@.deliver(event, wait),
    {
        let mut answered: bool = false;
        if let Some(current) = wait {
            let command_id: u8 = startup_step(current.step).report[3];
            assert(command_id == startup_command(current.step as int));
            let status: Option<u8> = match event {
                Event::StartupResponse(response) => if response.command_id == command_id {
                    Some(response.status)
                } else {
                    None
                },
                Event::CurrentProximity(response) => if command_id == 0x4a {
                    Some(response.status)
                } else {
                    None
                },
                _ => None,
            };
            if let Some(status) = status {
                if status != 0 {
                    return self.give_up(
                        TransportError::CommandFailed {
                            step: current.step + 1,
                            command_id,
                            status,
                        },
                    );
                }
                answered = true;
            }
        }
        match self.core.enqueue(event) {
            Err(error) => {
                return self.give_up(error);
            },
            Ok(_) => {},
        }
        match wait {
            None => {
                if matches!(event, Event::Imu(_)) {
                    self.connect(false)
                } else {
                    self.read_on(None)
                }
            },
            Some(current) => {
                if answered {
                    self.request(current.step + 1)
                } else {
                    self.read_on(wait)
                }
            },
        }
    }

    fn after_read(&mut self, wait: Option<Wait>, outcome: Outcome) -> (action: Action)
        requires
            old(self)@.session.bounded(),
            old(self)@.session.awaiting is None,
            old(self)@.phase is Listening || old(self)@.phase is Waiting,
            old(self)@.can_count(outcome),
            wait matches Some(wait) ==> old(self)@.valid_wait(wait),
            !(outcome is Written),
        ensures
            final(self).path() == old(self).path(),
            (final(self)@, action@) == old(self)@.after_read(wait, outcome),
    {
        match outcome {
            Outcome::Report(input) => match self.core.receive(&input) {
                Err(_) => self.read_on(wait),
                Ok(Received::Acknowledge(write)) => {
                    self.phase = Phase::Acknowledging { wait };
                    Action::Acknowledge(write)
                },
                Ok(Received::Event(event)) => self.deliver(event, wait),
            },
            Outcome::Failed(TransportError::InvalidReport(_)) => self.read_on(wait),
            Outcome::Failed(error) => self.failure(wait, error),
            Outcome::NoDeadline => self.give_up(TransportError::InvalidTimeout),
            _ => match wait {
                None => self.request(0),
                Some(wait) => {
                    let error = self.core.startup_timeout(wait.step + 1, wait.invalid_before);
                    self.give_up(error)
                },
            },
        }
    }

    /// Take the outcome of the last action and decide on the next one.
    pub fn advance(&mut self, outcome: Outcome) -> (action: Action)
        requires
            old(self)@.valid(),
            old(self)@.expects(outcome),
            old(self)@.can_count(outcome),
        ensures
            final(self)@.valid(),
            final(self).path() == old(self).path(),
            (final(self)@, action@) == old(self)@.next(outcome),
    {
        proof {
            law_procedure_stays_valid(self@, outcome);
        }
        match self.phase {
            Phase::Listening => self.after_read(None, outcome),
            Phase::Waiting(wait) => self.after_read(Some(wait), outcome),
            Phase::Requesting { step } => {
                let wait = Wait { step, invalid_before: self.core.statistics().invalid_reports };
                match outcome {
                    Outcome::Written => {
                        self.phase = Phase::Waiting(wait);
                        Action::Listen { millis: startup_step(step).timeout_millis }
                    },
                    Outcome::Failed(error) => self.failure(Some(wait), error),
                    _ => self.give_up(TransportError::InvalidTimeout),
                }
            },
            Phase::Acknowledging { wait } => {
                let sent = match outcome {
                    Outcome::Failed(error) => Err(error),
                    _ => Ok(()),
                };
                match self.core.acknowledged(sent) {
                    Err(error) => self.failure(wait, error),
                    Ok(event) => self.deliver(event, wait),
                }
            },
            _ => Action::Read,
        }
    }
}

} // verus!
