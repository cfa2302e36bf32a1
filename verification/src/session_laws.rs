//! What holds of the event buffer as a whole.

use crate::codec::{report_of, Event, ParseError};
use crate::error::TransportError;
use crate::protocol::{acknowledgement_of, WRITE_TIMEOUT_MILLIS};
use crate::session::{
    is_imu, lemma_oldest_imu_place, oldest_imu, receives, requested_acknowledgement, Incoming,
    Received, SessionView, Statistics, MAX_PENDING_EVENTS,
};
use vstd::prelude::*;

verus! {

/// The events other than IMU samples, in order.
pub open spec fn other_events(events: Seq<Event>) -> Seq<Event>
    decreases events.len(),
{
    if events.len() == 0 {
        seq![]
    } else if is_imu(events.last()) {
        other_events(events.drop_last())
    } else {
        other_events(events.drop_last()).push(events.last())
    }
}

/// The IMU samples, in order.
pub open spec fn samples(events: Seq<Event>) -> Seq<Event>
    decreases events.len(),
{
    if events.len() == 0 {
        seq![]
    } else if is_imu(events.last()) {
        samples(events.drop_last()).push(events.last())
    } else {
        samples(events.drop_last())
    }
}

/// The number of IMU samples.
pub open spec fn imu_count(events: Seq<Event>) -> nat
    decreases events.len(),
{
    if events.len() == 0 {
        0
    } else if is_imu(events.last()) {
        imu_count(events.drop_last()) + 1
    } else {
        imu_count(events.drop_last())
    }
}

/// Adding an event at the end adds it to the other events or to the IMU samples.
pub proof fn lemma_push(events: Seq<Event>, event: Event)
    ensures
        other_events(events.push(event)) == if is_imu(event) {
            other_events(events)
        } else {
            other_events(events).push(event)
        },
        imu_count(events.push(event)) == imu_count(events) + if is_imu(event) {
            1nat
        } else {
            0nat
        },
        samples(events.push(event)) == if is_imu(event) {
            samples(events).push(event)
        } else {
            samples(events)
        },
{
    assert(events.push(event).drop_last() =~= events);
}

/// The IMU samples are as many as they are counted.
pub proof fn lemma_sample_count(events: Seq<Event>)
    ensures
        samples(events).len() == imu_count(events),
    decreases events.len(),
{
    if events.len() > 0 {
        lemma_sample_count(events.drop_last());
    }
}

proof fn lemma_remove_oldest(events: Seq<Event>, index: int)
    requires
        0 <= index < events.len(),
        is_imu(events[index]),
        forall|i: int| 0 <= i < index ==> !is_imu(#[trigger] events[i]),
    ensures
        samples(events).len() > 0,
        samples(events.remove(index)) == samples(events).skip(1),
    decreases events.len(),
{
    if index == events.len() - 1 {
        assert(events.remove(index) =~= events.drop_last());
        lemma_no_samples(events.drop_last());
        assert(samples(events).skip(1) =~= seq![]);
    } else {
        assert(events.remove(index).drop_last() =~= events.drop_last().remove(index));
        assert(events.remove(index).last() == events.last());
        lemma_remove_oldest(events.drop_last(), index);
        if is_imu(events.last()) {
            assert(samples(events).skip(1) =~= samples(events.drop_last()).skip(1).push(
                events.last(),
            ));
        }
    }
}

proof fn lemma_no_samples(events: Seq<Event>)
    requires
        forall|i: int| 0 <= i < events.len() ==> !is_imu(#[trigger] events[i]),
    ensures
        samples(events) == Seq::<Event>::empty(),
    decreases events.len(),
{
    if events.len() > 0 {
        lemma_no_samples(events.drop_last());
    }
}

/// The IMU samples that a buffer keeps are the newest, in order of arrival: a new one
/// comes last, and where one is dropped it is the oldest.
pub proof fn law_newest_samples_are_kept(session: SessionView, event: Event)
    ensures
        ({
            let all = if is_imu(event) {
                samples(session.pending).push(event)
            } else {
                samples(session.pending)
            };
            samples(session.after_event(event).pending) == all.skip(
                if session.drops(event) {
                    1
                } else {
                    0
                },
            )
        }),
{
    let oldest = oldest_imu(session.pending);
    let before = samples(session.pending);
    lemma_oldest_imu_place(session.pending);
    lemma_push(session.pending, event);
    assert(before.skip(0) =~= before);
    assert(before.push(event).skip(0) =~= before.push(event));
    if oldest < session.pending.len() {
        lemma_remove_oldest(session.pending, oldest);
        lemma_push(session.pending.remove(oldest), event);
        assert(before.push(event).skip(1) =~= before.skip(1).push(event));
    } else {
        lemma_no_samples(session.pending);
        assert(before.push(event).skip(1) =~= seq![]);
    }
}

proof fn lemma_remove_imu(events: Seq<Event>, index: int)
    requires
        0 <= index < events.len(),
        is_imu(events[index]),
    ensures
        other_events(events.remove(index)) == other_events(events),
        imu_count(events.remove(index)) + 1 == imu_count(events),
    decreases events.len(),
{
    if index == events.len() - 1 {
        assert(events.remove(index) =~= events.drop_last());
    } else {
        assert(events.remove(index).drop_last() =~= events.drop_last().remove(index));
        assert(events.remove(index).last() == events.last());
        lemma_remove_imu(events.drop_last(), index);
    }
}

/// Events other than IMU samples are never given up: unless the buffer refuses it, a
/// new one comes after all the others, which stay in their order.
pub proof fn law_other_events_are_retained(session: SessionView, event: Event)
    ensures
        other_events(session.after_event(event).pending) == if is_imu(event) || session.refuses(
            event,
        ) {
            other_events(session.pending)
        } else {
            other_events(session.pending).push(event)
        },
{
    let oldest = oldest_imu(session.pending);
    lemma_oldest_imu_place(session.pending);
    lemma_push(session.pending, event);
    if oldest < session.pending.len() {
        lemma_remove_imu(session.pending, oldest);
        lemma_push(session.pending.remove(oldest), event);
    }
}

/// Every IMU sample that was buffered is either still there or counted as dropped.
pub proof fn law_imu_samples_are_buffered_or_counted(session: SessionView, event: Event)
    requires
        session.drops(event) ==> session.statistics.dropped_imu_reports < u64::MAX,
    ensures
        imu_count(session.after_event(event).pending) + session.after_event(
            event,
        ).statistics.dropped_imu_reports == imu_count(session.pending)
            + session.statistics.dropped_imu_reports + if is_imu(event) {
            1int
        } else {
            0int
        },
{
    let oldest = oldest_imu(session.pending);
    lemma_oldest_imu_place(session.pending);
    lemma_push(session.pending, event);
    if oldest < session.pending.len() {
        lemma_remove_imu(session.pending, oldest);
        lemma_push(session.pending.remove(oldest), event);
    }
}

/// An event is refused only if it is not an IMU sample and the buffer is full of
/// events that are none either; an IMU sample is never refused.
pub proof fn law_only_a_full_buffer_refuses(session: SessionView, event: Event)
    ensures
        session.refuses(event) ==> !is_imu(event) && session.pending.len()
            == MAX_PENDING_EVENTS && forall|i: int|
            0 <= i < session.pending.len() ==> !is_imu(#[trigger] session.pending[i]),
        session.refuses(event) ==> session.after_event(event) == session,
{
    lemma_oldest_imu_place(session.pending);
}

/// An event is delivered on receipt only if it requests no acknowledgement; one that
/// does is kept, with its own acknowledgement to be written first, within the write
/// timeout.
pub proof fn law_acknowledged_before_delivery(
    session: SessionView,
    raw: Incoming,
    received: Result<Received, TransportError>,
)
    requires
        receives(raw, received),
    ensures
        received matches Ok(Received::Event(event)) ==> requested_acknowledgement(event) is None
            && session.after_input(raw).awaiting is None,
        received matches Ok(Received::Acknowledge(write)) ==> {
            &&& session.after_input(raw).awaiting matches Some(event)
            &&& raw.decoded() == Ok::<_, ParseError>(event)
            &&& requested_acknowledgement(event) == Some(write.report@)
            &&& write.millis == WRITE_TIMEOUT_MILLIS
        },
        received is Err ==> session.after_input(raw).awaiting is None,
{
}

/// Samples are the IMU reports, and an acknowledgement is requested exactly by a status
/// update that says so: the one that belongs to it.
pub proof fn law_events_are_told_apart(event: Event)
    ensures
        is_imu(event) <==> event is Imu,
        requested_acknowledgement(event) is Some <==> event is Status
            && event->Status_0.acknowledgement_requested,
        requested_acknowledgement(event) is Some ==> requested_acknowledgement(event)->0
            == acknowledgement_of(event->Status_0),
{
}

/// Only 64 bytes are a report; of an input of another length the error tells the length.
pub proof fn law_only_whole_reports_are_decoded(input: Incoming)
    ensures
        input.len == 64 ==> input.decoded() == report_of(input.bytes@),
        input.len != 64 ==> input.decoded() == Err::<Event, _>(
            ParseError::WrongInputSize { actual: input.len },
        ),
{
}

/// Of a rejected input its error is kept, and of bytes 1, 2 and 3 those that were read.
pub proof fn law_rejections_keep_what_was_read(input: Incoming, error: ParseError)
    ensures
        ({
            let kept = input.rejection(error);
            &&& kept.error == error
            &&& kept.flags_version is Some <==> input.len > 1
            &&& kept.flags_version is Some ==> kept.flags_version->0 == input.bytes@[1]
            &&& kept.report_type is Some <==> input.len > 2
            &&& kept.report_type is Some ==> kept.report_type->0 == input.bytes@[2]
            &&& kept.protocol_length is Some <==> input.len > 3
            &&& kept.protocol_length is Some ==> kept.protocol_length->0 == input.bytes@[3]
        }),
{
}

/// An input changes exactly one counter: that of invalid reports, of samples, or of
/// status updates; none for anything else. Only an invalid one is remembered, and
/// nothing is buffered or counted as sent or dropped.
pub proof fn law_inputs_are_counted_once(session: SessionView, input: Incoming)
    requires
        session.statistics.can_count_input(input),
    ensures
        ({
            let before = session.statistics;
            let after = session.after_input(input).statistics;
            let one = |counted: bool|
                if counted {
                    1int
                } else {
                    0int
                };
            let decoded = input.decoded();
            &&& after.invalid_reports == before.invalid_reports + one(decoded is Err)
            &&& after.imu_reports == before.imu_reports + one(decoded is Ok && decoded->Ok_0 is Imu)
            &&& after.status_reports == before.status_reports + one(
                decoded is Ok && decoded->Ok_0 is Status,
            )
            &&& after.acknowledgements_sent == before.acknowledgements_sent
            &&& after.dropped_imu_reports == before.dropped_imu_reports
            &&& decoded is Ok ==> after.last_rejected_report == before.last_rejected_report
            &&& decoded is Err ==> after.last_rejected_report == Some(
                input.rejection(decoded->Err_0),
            )
            &&& session.after_input(input).pending == session.pending
        }),
{
}

/// An acknowledgement that was sent adds one to its counter; one that could not be sent
/// adds nothing. Either way nothing else changes, and no event awaits one any more.
pub proof fn law_acknowledgements_are_counted(session: SessionView)
    requires
        session.statistics.acknowledgements_sent < u64::MAX,
    ensures
        ({
            let before = session.statistics;
            let sent = session.after_acknowledgement();
            let failed = session.after_failed_acknowledgement();
            &&& sent.statistics.acknowledgements_sent == before.acknowledgements_sent + 1
            &&& sent.statistics.imu_reports == before.imu_reports
            &&& sent.statistics.status_reports == before.status_reports
            &&& sent.statistics.invalid_reports == before.invalid_reports
            &&& sent.statistics.dropped_imu_reports == before.dropped_imu_reports
            &&& sent.statistics.last_rejected_report == before.last_rejected_report
            &&& sent.pending == session.pending
            &&& sent.awaiting is None
            &&& failed.statistics == before
            &&& failed.pending == session.pending
            &&& failed.awaiting is None
        }),
{
}

/// A new event comes last and everything before it stays as it is, but for the oldest
/// IMU sample where the buffer holds 256 events. Where those hold no sample, a new
/// sample is dropped and any other event refused.
pub proof fn law_events_are_appended(session: SessionView, event: Event, oldest: int)
    requires
        session.pending.len() <= 256,
        0 <= oldest <= session.pending.len(),
        forall|i: int| 0 <= i < oldest ==> !(#[trigger] session.pending[i] is Imu),
        oldest < session.pending.len() ==> session.pending[oldest] is Imu,
    ensures
        ({
            let full = session.pending.len() == 256;
            let after = session.after_event(event);
            &&& !full ==> after.pending == session.pending.push(event)
            &&& full && oldest < 256 ==> after.pending == session.pending.remove(oldest).push(
                event,
            )
            &&& full && oldest == 256 ==> after.pending == session.pending
            &&& session.refuses(event) <==> full && oldest == 256 && !(event is Imu)
            &&& session.drops(event) <==> full && (oldest < 256 || event is Imu)
            &&& after.awaiting == session.awaiting
            &&& !session.drops(event) ==> after.statistics == session.statistics
        }),
{
    lemma_oldest_imu_place(session.pending);
    let place = oldest_imu(session.pending);
    if place < oldest {
        assert(is_imu(session.pending[place]));
    }
    if oldest < place {
        assert(!is_imu(session.pending[oldest]));
    }
}

/// A dropped sample adds one to its counter, and to no other.
pub proof fn law_drops_are_counted(session: SessionView, event: Event)
    requires
        session.drops(event),
        session.statistics.dropped_imu_reports < u64::MAX,
    ensures
        ({
            let before = session.statistics;
            let after = session.after_event(event).statistics;
            &&& after.dropped_imu_reports == before.dropped_imu_reports + 1
            &&& after.imu_reports == before.imu_reports
            &&& after.status_reports == before.status_reports
            &&& after.acknowledgements_sent == before.acknowledgements_sent
            &&& after.invalid_reports == before.invalid_reports
            &&& after.last_rejected_report == before.last_rejected_report
        }),
{
    lemma_oldest_imu_place(session.pending);
}

/// Receiving gives an error exactly for an invalid report, and that error; of a valid
/// one the event itself, or the write of its acknowledgement within one second.
pub proof fn law_received_is_what_was_decoded(
    raw: Incoming,
    received: Result<Received, TransportError>,
)
    requires
        receives(raw, received),
    ensures
        match raw.decoded() {
            Err(error) => received == Err::<Received, _>(TransportError::InvalidReport(error)),
            Ok(Event::Status(status)) => if status.acknowledgement_requested {
                &&& received matches Ok(Received::Acknowledge(write))
                &&& write.report@ == acknowledgement_of(status)
                &&& write.millis == 1000
            } else {
                received == Ok::<_, TransportError>(Received::Event(Event::Status(status)))
            },
            Ok(event) => received == Ok::<_, TransportError>(Received::Event(event)),
        },
{
}

/// A new session holds nothing and has counted nothing, and every counter has room
/// until it holds the largest number.
pub proof fn law_sessions_begin_empty(statistics: Statistics, input: Incoming)
    ensures
        ({
            let fresh = SessionView::initial();
            &&& fresh.pending.len() == 0
            &&& fresh.awaiting is None
            &&& fresh.statistics.imu_reports == 0
            &&& fresh.statistics.status_reports == 0
            &&& fresh.statistics.acknowledgements_sent == 0
            &&& fresh.statistics.invalid_reports == 0
            &&& fresh.statistics.dropped_imu_reports == 0
            &&& fresh.statistics.last_rejected_report is None
        }),
        statistics.can_count() <==> {
            &&& statistics.imu_reports < 0xffff_ffff_ffff_ffff
            &&& statistics.status_reports < 0xffff_ffff_ffff_ffff
            &&& statistics.acknowledgements_sent < 0xffff_ffff_ffff_ffff
            &&& statistics.invalid_reports < 0xffff_ffff_ffff_ffff
            &&& statistics.dropped_imu_reports < 0xffff_ffff_ffff_ffff
        },
        statistics.can_count() ==> statistics.can_count_input(input),
{
}

/// A buffer is within its bound with at most 256 events.
pub proof fn law_bound_is_256_events(session: SessionView)
    ensures
        session.bounded() <==> session.pending.len() <= 256,
{
}

/// The error of a missing response names the step and tells the counters, how many
/// reports were invalid since the step began, and the last one only if there were any.
pub proof fn law_timeout_errors_tell_the_counters(
    session: SessionView,
    step: usize,
    invalid_before_step: u64,
)
    requires
        invalid_before_step <= session.statistics.invalid_reports,
    ensures
        ({
            let statistics = session.statistics;
            &&& session.timeout_error(
                step,
                invalid_before_step,
            ) matches TransportError::StartupTimeout {
                step: named,
                invalid_reports,
                last_rejected_report,
                imu_reports,
                status_reports,
                acknowledgements_sent,
            }
            &&& named == step
            &&& invalid_reports == statistics.invalid_reports - invalid_before_step
            &&& invalid_reports == 0 ==> last_rejected_report is None
            &&& invalid_reports > 0 ==> last_rejected_report == statistics.last_rejected_report
            &&& imu_reports == statistics.imu_reports
            &&& status_reports == statistics.status_reports
            &&& acknowledgements_sent == statistics.acknowledgements_sent
        }),
{
}

} // verus!
