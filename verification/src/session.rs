//! What a session keeps between reports: the buffered events and the counters.

use crate::codec::{parse_report, report_of, Event, ParseError, REPORT_SIZE};
use crate::error::{RejectedReport, TransportError};
use crate::protocol::{acknowledgement, acknowledgement_of, FixedWrite};
use std::collections::VecDeque;
use vstd::prelude::*;

verus! {

/// Most events that are buffered during connection.
pub const MAX_PENDING_EVENTS: usize = 256;

/// One of the fixed startup procedures; none accepts commands or payloads.
#[derive(Debug, Clone, Copy, PartialEq, Eq)]
pub enum StartupMode {
    /// The documented 15-step procedure (the default).
    Full,
    /// Only the first, fixed stream-start request, for explicit hardware testing.
    ///
    /// Cold-start stability and asynchronous proximity updates must be verified
    /// on hardware before relying on this mode. A cold-start trial returned
    /// proximity updates but no IMU for 30 seconds. It does not set sampling
    /// rates or query initial proximity. No automatic fallback or retry is performed.
    StreamOnly,
    /// Send the first two fixed requests, for explicit cold-start comparison.
    ///
    /// Two cold-start trials produced sustained IMU updates, but asynchronous
    /// proximity updates were inconsistent. This does not set sampling rates or
    /// query initial proximity. `Full` remains the default.
    FirstTwo,
}

impl Default for StartupMode {
    fn default() -> (mode: Self)
        ensures
            mode == StartupMode::Full,
    {
        StartupMode::Full
    }
}

/// Result of establishing a connection.
#[derive(Debug, Clone, Copy, PartialEq, Eq)]
pub struct ConnectionInfo {
    /// False when an IMU frame arrived during the initial passive window.
    pub startup_performed: bool,
    /// Selected procedure. No startup requests were sent if `startup_performed` is false.
    pub startup_mode: StartupMode,
}

/// Counters since opening the session, including the connection phase.
#[derive(Debug, Clone, Copy, PartialEq, Eq)]
pub struct Statistics {
    /// Number of valid IMU reports decoded, including discarded buffered samples.
    pub imu_reports: u64,
    /// Number of valid asynchronous status reports decoded.
    pub status_reports: u64,
    /// Number of requested acknowledgements successfully sent.
    pub acknowledgements_sent: u64,
    /// Invalid reports consumed. During connection these are skipped.
    pub invalid_reports: u64,
    /// Oldest IMU samples discarded to bound the connection buffer to 256 events.
    pub dropped_imu_reports: u64,
    /// Most recently rejected input's error and envelope metadata, never payload.
    pub last_rejected_report: Option<RejectedReport>,
}

/// Counters of a session that has received nothing.
pub open spec fn no_statistics() -> Statistics {
    Statistics {
        imu_reports: 0,
        status_reports: 0,
        acknowledgements_sent: 0,
        invalid_reports: 0,
        dropped_imu_reports: 0,
        last_rejected_report: None,
    }
}

impl Default for Statistics {
    fn default() -> (statistics: Self)
        ensures
            statistics == no_statistics(),
    {
        Statistics {
            imu_reports: 0,
            status_reports: 0,
            acknowledgements_sent: 0,
            invalid_reports: 0,
            dropped_imu_reports: 0,
            last_rejected_report: None,
        }
    }
}

impl Statistics {
    /// No counter has reached the largest value that it can hold.
    pub open spec fn can_count(self) -> bool {
        &&& self.imu_reports < u64::MAX
        &&& self.status_reports < u64::MAX
        &&& self.acknowledgements_sent < u64::MAX
        &&& self.invalid_reports < u64::MAX
        &&& self.dropped_imu_reports < u64::MAX
    }

    /// The counter that an input increments, if any, can hold one more.
    pub open spec fn can_count_input(self, input: Incoming) -> bool {
        match input.decoded() {
            Err(_) => self.invalid_reports < u64::MAX,
            Ok(Event::Imu(_)) => self.imu_reports < u64::MAX,
            Ok(Event::Status(_)) => self.status_reports < u64::MAX,
            Ok(_) => true,
        }
    }

    /// Whether every counter can still be incremented.
    pub fn has_room(&self) -> (room: bool)
        ensures
            room == self.can_count(),
    {
        self.imu_reports < u64::MAX && self.status_reports < u64::MAX && self.acknowledgements_sent
            < u64::MAX && self.invalid_reports < u64::MAX && self.dropped_imu_reports < u64::MAX
    }
}

/// What one read delivered.
#[derive(Debug, Clone, Copy, PartialEq, Eq)]
pub struct Incoming {
    /// The bytes, followed by anything up to the size of a report.
    pub bytes: [u8; 64],
    /// How many bytes were read.
    pub len: usize,
}

/// What a valid report leads to.
#[derive(Debug, Clone, Copy, PartialEq)]
pub enum Received {
    /// The event is delivered.
    Event(Event),
    /// The event is kept until its acknowledgement is written.
    Acknowledge(FixedWrite),
}

impl Incoming {
    /// The outcome of decoding what was read; only a complete report is decoded.
    pub open spec fn decoded(self) -> Result<Event, ParseError> {
        if self.len == REPORT_SIZE {
            report_of(self.bytes@)
        } else {
            Err(ParseError::WrongInputSize { actual: self.len })
        }
    }

    /// The byte at `index`, if it was read.
    pub open spec fn byte(self, index: int) -> Option<u8> {
        if index < self.len {
            Some(self.bytes@[index])
        } else {
            None
        }
    }

    /// What is kept of an input that was rejected.
    pub open spec fn rejection(self, error: ParseError) -> RejectedReport {
        RejectedReport {
            error,
            flags_version: self.byte(1),
            report_type: self.byte(2),
            protocol_length: self.byte(3),
        }
    }
}

/// Whether an event is an IMU sample.
pub open spec fn is_imu(event: Event) -> bool {
    event is Imu
}

/// The acknowledgement that an event requests.
pub open spec fn requested_acknowledgement(event: Event) -> Option<Seq<u8>> {
    match event {
        Event::Status(status) => if status.acknowledgement_requested {
            Some(acknowledgement_of(status))
        } else {
            None
        },
        _ => None,
    }
}

/// What a session holds.
#[verifier::ext_equal]
pub struct SessionView {
    /// The buffered events, oldest first.
    pub pending: Seq<Event>,
    /// The counters.
    pub statistics: Statistics,
    /// The event that is delivered once its acknowledgement is written.
    pub awaiting: Option<Event>,
}

/// Index of the oldest IMU sample, or the number of events if there is none.
pub open spec fn oldest_imu(pending: Seq<Event>) -> int
    decreases pending.len(),
{
    if pending.len() == 0 || is_imu(pending[0]) {
        0
    } else {
        1 + oldest_imu(pending.skip(1))
    }
}

impl SessionView {
    /// A session that has received nothing.
    pub open spec fn initial() -> SessionView {
        SessionView { pending: seq![], statistics: no_statistics(), awaiting: None }
    }

    /// The buffer is within its bound.
    pub open spec fn bounded(self) -> bool {
        self.pending.len() <= MAX_PENDING_EVENTS
    }

    /// The session after an input was read and decoded. An event that requests an
    /// acknowledgement awaits it.
    pub open spec fn after_input(self, input: Incoming) -> SessionView {
        let old = self.statistics;
        let statistics = match input.decoded() {
            Err(error) => Statistics {
                invalid_reports: (old.invalid_reports + 1) as u64,
                last_rejected_report: Some(input.rejection(error)),
                ..old
            },
            Ok(Event::Imu(_)) => Statistics {
                imu_reports: (old.imu_reports + 1) as u64,
                ..old
            },
            Ok(Event::Status(_)) => Statistics {
                status_reports: (old.status_reports + 1) as u64,
                ..old
            },
            Ok(_) => old,
        };
        let awaiting = match input.decoded() {
            Ok(event) => if requested_acknowledgement(event) is Some {
                Some(event)
            } else {
                None
            },
            Err(_) => None,
        };
        SessionView { pending: self.pending, statistics, awaiting }
    }

    /// The session after a requested acknowledgement was sent.
    pub open spec fn after_acknowledgement(self) -> SessionView {
        SessionView {
            pending: self.pending,
            statistics: Statistics {
                acknowledgements_sent: (self.statistics.acknowledgements_sent + 1) as u64,
                ..self.statistics
            },
            awaiting: None,
        }
    }

    /// The session after a requested acknowledgement could not be sent.
    pub open spec fn after_failed_acknowledgement(self) -> SessionView {
        SessionView { awaiting: None, ..self }
    }

    /// The counters with one more IMU sample dropped.
    pub open spec fn after_drop(self) -> Statistics {
        Statistics {
            dropped_imu_reports: (self.statistics.dropped_imu_reports + 1) as u64,
            ..self.statistics
        }
    }

    /// Whether an event finds no place: the buffer is full of other events than IMU
    /// samples, and the event is none either.
    pub open spec fn refuses(self, event: Event) -> bool {
        &&& self.pending.len() == MAX_PENDING_EVENTS
        &&& oldest_imu(self.pending) == self.pending.len()
        &&& !is_imu(event)
    }

    /// Whether buffering an event drops an IMU sample: the oldest one, or the event.
    pub open spec fn drops(self, event: Event) -> bool {
        self.pending.len() == MAX_PENDING_EVENTS && !self.refuses(event)
    }

    /// The session after an event was buffered. A full buffer gives up its oldest IMU
    /// sample; where it holds none, a new IMU sample is dropped instead.
    pub open spec fn after_event(self, event: Event) -> SessionView {
        let oldest = oldest_imu(self.pending);
        if self.pending.len() != MAX_PENDING_EVENTS {
            SessionView { pending: self.pending.push(event), ..self }
        } else if oldest < self.pending.len() {
            SessionView {
                pending: self.pending.remove(oldest).push(event),
                statistics: self.after_drop(),
                ..self
            }
        } else if is_imu(event) {
            SessionView { statistics: self.after_drop(), ..self }
        } else {
            self
        }
    }

    /// The error of a startup step (counted from one) whose response did not arrive.
    pub open spec fn timeout_error(self, step: usize, invalid_before_step: u64) -> TransportError {
        let statistics = self.statistics;
        let invalid_reports = (statistics.invalid_reports - invalid_before_step) as u64;
        TransportError::StartupTimeout {
            step,
            invalid_reports,
            last_rejected_report: if invalid_reports > 0 {
                statistics.last_rejected_report
            } else {
                None
            },
            imu_reports: statistics.imu_reports,
            status_reports: statistics.status_reports,
            acknowledgements_sent: statistics.acknowledgements_sent,
        }
    }
}

/// What receiving an input gives: the error of an invalid report, the event of a valid
/// one, or the acknowledgement that must be written first.
pub open spec fn receives(raw: Incoming, received: Result<Received, TransportError>) -> bool {
    match raw.decoded() {
        Err(error) => received == Err::<Received, _>(TransportError::InvalidReport(error)),
        Ok(event) => match requested_acknowledgement(event) {
            None => received == Ok::<_, TransportError>(Received::Event(event)),
            Some(report) => received matches Ok(Received::Acknowledge(write)) && write.carries(
                report,
            ),
        },
    }
}

/// The buffered events and the counters of a session.
#[derive(Debug)]
pub struct SessionCore {
    pending: VecDeque<Event>,
    statistics: Statistics,
    awaiting: Option<Event>,
}

impl View for SessionCore {
    type V = SessionView;

    closed spec fn view(&self) -> SessionView {
        SessionView {
            pending: self.pending@,
            statistics: self.statistics,
            awaiting: self.awaiting,
        }
    }
}

proof fn lemma_oldest_imu(pending: Seq<Event>, index: int)
    requires
        0 <= index <= pending.len(),
        index < pending.len() ==> is_imu(pending[index]),
        forall|i: int| 0 <= i < index ==> !is_imu(#[trigger] pending[i]),
    ensures
        oldest_imu(pending) == index,
    decreases pending.len(),
{
    if index > 0 {
        assert forall|i: int| 0 <= i < index - 1 implies !is_imu(#[trigger] pending.skip(1)[i]) by {
            assert(pending.skip(1)[i] == pending[i + 1]);
        }
        lemma_oldest_imu(pending.skip(1), index - 1);
    }
}

/// The oldest IMU sample, where there is one, is at a place in the buffer, and no
/// earlier event is an IMU sample.
pub proof fn lemma_oldest_imu_place(pending: Seq<Event>)
    ensures
        0 <= oldest_imu(pending) <= pending.len(),
        oldest_imu(pending) < pending.len() ==> is_imu(pending[oldest_imu(pending)]),
        forall|i: int| 0 <= i < oldest_imu(pending) ==> !is_imu(#[trigger] pending[i]),
    decreases pending.len(),
{
    if pending.len() > 0 && !is_imu(pending[0]) {
        lemma_oldest_imu_place(pending.skip(1));
        assert forall|i: int| 0 <= i < oldest_imu(pending) implies !is_imu(
            #[trigger] pending[i],
        ) by {
            if i > 0 {
                assert(pending.skip(1)[i - 1] == pending[i]);
            }
        }
    }
}

/// Buffering an event keeps the buffer within its bound.
pub proof fn law_buffer_stays_bounded(session: SessionView, event: Event)
    requires
        session.bounded(),
    ensures
        session.after_event(event).bounded(),
{
    lemma_oldest_imu_place(session.pending);
}

impl SessionCore {
    /// A session that has received nothing.
    pub fn new() -> (core: SessionCore)
        ensures
            core@ == SessionView::initial(),
            core@.bounded(),
    {
        let core = SessionCore {
            pending: VecDeque::new(),
            statistics: Statistics::default(),
            awaiting: None,
        };
        assert(core@ =~= SessionView::initial());
        core
    }

    /// The buffered events, oldest first.
    pub fn pending(&self) -> (pending: &VecDeque<Event>)
        ensures
            pending@ == self@.pending,
    {
        &self.pending
    }

    /// The counters.
    pub fn statistics(&self) -> (statistics: Statistics)
        ensures
            statistics == self@.statistics,
    {
        self.statistics
    }

    /// Whether an event awaits its acknowledgement.
    pub fn is_awaiting(&self) -> (awaiting: bool)
        ensures
            awaiting == (self@.awaiting is Some),
    {
        self.awaiting.is_some()
    }

    /// Decode what was read and count it.
    ///
    /// An input that is not a valid report is counted and remembered without its
    /// payload, and is an error after which reading may continue. Only a valid status
    /// report can request an acknowledgement; its event is kept until
    /// [`Self::acknowledged`] is told what came of writing that.
    pub fn receive(&mut self, raw: &Incoming) -> (received: Result<Received, TransportError>)
        requires
            old(self)@.awaiting is None,
            old(self)@.statistics.can_count_input(*raw),
        ensures
            final(self)@ == old(self)@.after_input(*raw),
            receives(*raw, received),
    {
        let parsed = if raw.len == REPORT_SIZE {
            parse_report(&raw.bytes)
        } else {
            Err(ParseError::WrongInputSize { actual: raw.len })
        };
        let event = match parsed {
            Err(error) => {
                self.statistics.invalid_reports = self.statistics.invalid_reports + 1;
                self.statistics.last_rejected_report = Some(
                    RejectedReport {
                        error,
                        flags_version: byte_at(raw, 1),
                        report_type: byte_at(raw, 2),
                        protocol_length: byte_at(raw, 3),
                    },
                );
                return Err(TransportError::InvalidReport(error));
            },
            Ok(event) => event,
        };
        match event {
            Event::Imu(_) => {
                self.statistics.imu_reports = self.statistics.imu_reports + 1;
            },
            Event::Status(status) => {
                self.statistics.status_reports = self.statistics.status_reports + 1;
                if status.acknowledgement_requested {
                    self.awaiting = Some(event);
                    return Ok(Received::Acknowledge(FixedWrite::of(acknowledgement(&status))));
                }
            },
            _ => {},
        }
        Ok(Received::Event(event))
    }

    /// Count an acknowledgement that was sent and deliver the event that awaited it, or
    /// name the failure to send it.
    pub fn acknowledged(&mut self, sent: Result<(), TransportError>) -> (delivered: Result<
        Event,
        TransportError,
    >)
        requires
            old(self)@.awaiting is Some,
            sent is Ok ==> old(self)@.statistics.acknowledgements_sent < u64::MAX,
        ensures
            match sent {
                Ok(_) => {
                    &&& delivered == Ok::<Event, TransportError>(old(self)@.awaiting->0)
                    &&& final(self)@ == old(self)@.after_acknowledgement()
                },
                Err(error) => {
                    &&& delivered == Err::<Event, _>(
                        TransportError::AcknowledgementFailed(Box::new(error)),
                    )
                    &&& final(self)@ == old(self)@.after_failed_acknowledgement()
                },
            },
    {
        let event = self.awaiting.take().unwrap();
        match sent {
            Ok(_) => {
                self.statistics.acknowledgements_sent = self.statistics.acknowledgements_sent + 1;
                Ok(event)
            },
            Err(error) => Err(TransportError::AcknowledgementFailed(Box::new(error))),
        }
    }

    /// Buffer an event, giving up IMU samples rather than anything else.
    pub fn enqueue(&mut self, event: Event) -> (queued: Result<(), TransportError>)
        requires
            old(self)@.bounded(),
            old(self)@.drops(event) ==> old(self)@.statistics.dropped_imu_reports < u64::MAX,
        ensures
            final(self)@ == old(self)@.after_event(event),
            final(self)@.bounded(),
            queued == (if old(self)@.refuses(event) {
                Err(TransportError::EventBufferFull)
            } else {
                Ok(())
            }),
    {
        if self.pending.len() == MAX_PENDING_EVENTS {
            let mut index: usize = 0;
            while index < self.pending.len() && !matches!(self.pending[index], Event::Imu(_))
                invariant
                    *self == *old(self),
                    index <= self.pending@.len(),
                    forall|i: int| 0 <= i < index ==> !is_imu(#[trigger] self.pending@[i]),
                decreases self.pending@.len() - index,
            {
                index += 1;
            }
            proof {
                lemma_oldest_imu(self.pending@, index as int);
            }
            if index < self.pending.len() {
                self.pending.remove(index);
                self.statistics.dropped_imu_reports = self.statistics.dropped_imu_reports + 1;
            } else if matches!(event, Event::Imu(_)) {
                self.statistics.dropped_imu_reports = self.statistics.dropped_imu_reports + 1;
                return Ok(());
            } else {
                return Err(TransportError::EventBufferFull);
            }
        }
        self.pending.push_back(event);
        Ok(())
    }

    /// The oldest buffered event, if there is one.
    pub fn next_pending(&mut self) -> (event: Option<Event>)
        ensures
            if old(self)@.pending.len() == 0 {
                event is None && final(self)@ == old(self)@
            } else {
                &&& event == Some(old(self)@.pending[0])
                &&& final(self)@ == (SessionView {
                    pending: old(self)@.pending.skip(1),
                    ..old(self)@
                })
            },
    {
        self.pending.pop_front()
    }

    /// The error of a startup step (counted from one) whose response did not arrive.
    pub fn startup_timeout(&self, step: usize, invalid_before_step: u64) -> (error: TransportError)
        requires
            invalid_before_step <= self@.statistics.invalid_reports,
        ensures
            error == self@.timeout_error(step, invalid_before_step),
    {
        let invalid_reports: u64 = self.statistics.invalid_reports - invalid_before_step;
        TransportError::StartupTimeout {
            step,
            invalid_reports,
            last_rejected_report: if invalid_reports > 0 {
                self.statistics.last_rejected_report
            } else {
                None
            },
            imu_reports: self.statistics.imu_reports,
            status_reports: self.statistics.status_reports,
            acknowledgements_sent: self.statistics.acknowledgements_sent,
        }
    }
}

fn byte_at(raw: &Incoming, index: usize) -> (byte: Option<u8>)
    requires
        index < REPORT_SIZE,
    ensures
        byte == raw.byte(index as int),
{
    if index < raw.len {
        Some(raw.bytes[index])
    } else {
        None
    }
}

} // verus!
