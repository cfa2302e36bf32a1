//! What holds of the startup procedure as a whole, over every run of it.

use crate::codec::{Event, ParseError, StatusUpdate};
use crate::error::{RejectedReport, TransportError};
use crate::protocol::{
    acknowledgement_of, law_startup_requests_are_the_documented_ones, startup_request,
    WRITE_TIMEOUT_MILLIS,
};
use crate::session::{
    is_imu, requested_acknowledgement, ConnectionInfo, Incoming, SessionView, StartupMode,
};
use crate::session_laws::{
    imu_count, law_imu_samples_are_buffered_or_counted, law_newest_samples_are_kept,
    law_other_events_are_retained, lemma_push, lemma_sample_count, other_events, samples,
};
use crate::startup::{
    answer, law_procedure_stays_valid, step_count, Action, ActionView, Outcome, Phase, StartupView,
    Wait, PASSIVE_WINDOW_MILLIS,
};
use vstd::prelude::*;

verus! {

/// The state after a run, given what came of each action in turn.
pub open spec fn run(mode: StartupMode, outcomes: Seq<Outcome>) -> StartupView
    decreases outcomes.len(),
{
    if outcomes.len() == 0 {
        StartupView::initial(mode)
    } else {
        run(mode, outcomes.drop_last()).next(outcomes.last()).0
    }
}

/// Whether each outcome can come of the action before it, with room in the counters.
pub open spec fn possible(mode: StartupMode, outcomes: Seq<Outcome>) -> bool
    decreases outcomes.len(),
{
    outcomes.len() == 0 || {
        let before = run(mode, outcomes.drop_last());
        &&& possible(mode, outcomes.drop_last())
        &&& before.expects(outcomes.last())
        &&& before.can_count(outcomes.last())
    }
}

/// The requests of a run, in the order in which they were to be written.
pub open spec fn requests(mode: StartupMode, outcomes: Seq<Outcome>) -> Seq<Seq<u8>>
    decreases outcomes.len(),
{
    if outcomes.len() == 0 {
        seq![]
    } else {
        let earlier = requests(mode, outcomes.drop_last());
        match run(mode, outcomes.drop_last()).next(outcomes.last()).1 {
            ActionView::Request(report, _) => earlier.push(report),
            _ => earlier,
        }
    }
}

/// The first `count` requests of the fixed procedure.
pub open spec fn first_requests(count: int) -> Seq<Seq<u8>> {
    Seq::new(count as nat, |step: int| startup_request(step))
}

/// The number of requests that a phase has behind it, if the phase tells.
pub open spec fn requested(state: StartupView) -> Option<int> {
    match state.phase {
        Phase::Listening => Some(0),
        Phase::Requesting { step } => Some(step + 1),
        Phase::Waiting(wait) => Some(wait.step + 1),
        Phase::Acknowledging { wait: None } => Some(0),
        Phase::Acknowledging { wait: Some(wait) } => Some(wait.step + 1),
        Phase::Connected(info) => Some(
            if info.startup_performed {
                step_count(state.mode)
            } else {
                0
            },
        ),
        Phase::Failed => None,
    }
}

/// The number of steps that a phase has completed.
pub open spec fn completed(state: StartupView) -> int {
    match state.phase {
        Phase::Requesting { step } => step as int,
        Phase::Waiting(wait) => wait.step as int,
        Phase::Acknowledging { wait: Some(wait) } => wait.step as int,
        Phase::Connected(info) => if info.startup_performed {
            step_count(state.mode)
        } else {
            0
        },
        _ => 0,
    }
}

/// Whether an outcome is the successful response to the request of a step.
pub open spec fn answers(outcome: Outcome, step: int) -> bool {
    match outcome {
        Outcome::Report(input) => match input.decoded() {
            Ok(event) => answer(event, step) == Some(0u8),
            Err(_) => false,
        },
        _ => false,
    }
}

proof fn lemma_run_is_valid(mode: StartupMode, outcomes: Seq<Outcome>)
    requires
        possible(mode, outcomes),
    ensures
        run(mode, outcomes).valid(),
        run(mode, outcomes).mode == mode,
    decreases outcomes.len(),
{
    if outcomes.len() > 0 {
        let before = run(mode, outcomes.drop_last());
        lemma_run_is_valid(mode, outcomes.drop_last());
        law_procedure_stays_valid(before, outcomes.last());
    }
}

proof fn lemma_request_step(state: StartupView, outcome: Outcome)
    requires
        state.valid(),
        state.expects(outcome),
    ensures
        ({
            let (after, action) = state.next(outcome);
            match action {
                ActionView::Request(report, _) => {
                    &&& requested(state) is Some
                    &&& requested(state)->0 < step_count(state.mode)
                    &&& report == startup_request(requested(state)->0)
                    &&& requested(after) == Some(requested(state)->0 + 1)
                },
                _ => requested(after) == requested(state) || requested(after) is None,
            }
        }),
        requested(state) is Some,
        requested(state)->0 <= step_count(state.mode),
{
}

/// The requests of a run are the first ones of the fixed procedure, each sent once and
/// in order, and never more than the selected procedure has. A connection made without
/// startup sent none of them, and one made with startup sent all of them.
pub proof fn law_requests_are_fixed_and_sent_once(mode: StartupMode, outcomes: Seq<Outcome>)
    requires
        possible(mode, outcomes),
    ensures
        requests(mode, outcomes).len() <= step_count(mode),
        requests(mode, outcomes) == first_requests(requests(mode, outcomes).len() as int),
        run(mode, outcomes).phase matches Phase::Connected(info) ==> requests(mode, outcomes).len()
            == if info.startup_performed {
            step_count(mode)
        } else {
            0
        },
{
    lemma_requests(mode, outcomes);
    lemma_run_is_valid(mode, outcomes);
}

proof fn lemma_requests(mode: StartupMode, outcomes: Seq<Outcome>)
    requires
        possible(mode, outcomes),
    ensures
        requests(mode, outcomes).len() <= step_count(mode),
        requests(mode, outcomes) == first_requests(requests(mode, outcomes).len() as int),
        requested(run(mode, outcomes)) matches Some(count) ==> requests(mode, outcomes).len()
            == count,
    decreases outcomes.len(),
{
    if outcomes.len() == 0 {
        assert(requests(mode, outcomes) =~= first_requests(0));
    } else {
        let before = run(mode, outcomes.drop_last());
        lemma_requests(mode, outcomes.drop_last());
        lemma_run_is_valid(mode, outcomes.drop_last());
        lemma_request_step(before, outcomes.last());
        let count = requests(mode, outcomes).len() as int;
        assert(requests(mode, outcomes) =~= first_requests(count));
    }
}

/// Whether the outcome at `index` is the successful response to the request of a step,
/// and came while that response was awaited.
pub open spec fn answered_at(
    mode: StartupMode,
    outcomes: Seq<Outcome>,
    index: int,
    step: int,
) -> bool {
    &&& 0 <= index < outcomes.len()
    &&& run(mode, outcomes.take(index)).phase matches Phase::Waiting(wait)
    &&& wait.step == step
    &&& answers(outcomes[index], step)
}

/// The next request, and the connection after the last one, follow directly on the
/// successful response to the request before it, which came while it was awaited.
pub proof fn law_steps_end_with_their_response(state: StartupView, outcome: Outcome, step: usize)
    requires
        state.valid(),
        state.expects(outcome),
        ({
            let after = state.next(outcome).0;
            ||| after.phase == (Phase::Requesting { step }) && step > 0
            ||| after.phase matches Phase::Connected(info) && info.startup_performed && step
                == step_count(state.mode)
        }),
    ensures
        state.phase matches Phase::Waiting(wait) && wait.step == step - 1,
        answers(outcome, step - 1),
        step < step_count(state.mode) ==> state.next(outcome).1 == ActionView::Request(
            startup_request(step as int),
            WRITE_TIMEOUT_MILLIS,
        ),
{
}

proof fn lemma_completion_step(state: StartupView, outcome: Outcome)
    requires
        state.valid(),
        state.expects(outcome),
    ensures
        ({
            let after = state.next(outcome).0;
            ||| completed(after) <= completed(state)
            ||| {
                &&& completed(after) == completed(state) + 1
                &&& state.phase matches Phase::Waiting(wait)
                &&& wait.step == completed(state)
                &&& answers(outcome, completed(state))
            }
        }),
{
}

/// A step is left behind only by a valid response to its own request with status zero,
/// received while that step was awaited: in a run that is at a later step, or connected
/// after startup, every earlier step has its own.
pub proof fn law_steps_need_their_response(mode: StartupMode, outcomes: Seq<Outcome>, step: int)
    requires
        possible(mode, outcomes),
        0 <= step < completed(run(mode, outcomes)),
    ensures
        exists|index: int| answered_at(mode, outcomes, index, step),
    decreases outcomes.len(),
{
    if outcomes.len() > 0 {
        let earlier = outcomes.drop_last();
        let before = run(mode, earlier);
        lemma_run_is_valid(mode, earlier);
        lemma_completion_step(before, outcomes.last());
        if step < completed(before) {
            law_steps_need_their_response(mode, earlier, step);
            let index = choose|index: int| answered_at(mode, earlier, index, step);
            assert(earlier.take(index) =~= outcomes.take(index));
            assert(answered_at(mode, outcomes, index, step));
        } else {
            assert(outcomes.take(outcomes.len() - 1) =~= earlier);
            assert(answered_at(mode, outcomes, outcomes.len() - 1, step));
        }
    }
}

/// The step that an error names, counted from one.
pub open spec fn named_step(error: TransportError) -> Option<usize> {
    match error {
        TransportError::StartupTimeout {
            step,
            invalid_reports,
            last_rejected_report,
            imu_reports,
            status_reports,
            acknowledgements_sent,
        } => Some(step),
        TransportError::CommandFailed { step, command_id, status } => Some(step),
        TransportError::StartupTransport { step, source } => Some(step),
        _ => None,
    }
}

/// A failure that names a step ends a run with exactly as many requests as the number
/// of that step. Left out is an error of the I/O itself in the passive window, which is
/// passed on as it is, whatever it names.
pub proof fn law_failure_names_the_last_request(
    mode: StartupMode,
    outcomes: Seq<Outcome>,
    error: TransportError,
)
    requires
        possible(mode, outcomes),
        outcomes.len() > 0,
        run(mode, outcomes.drop_last()).next(outcomes.last()).1 == ActionView::Failed(error),
        named_step(error) is Some,
        run(mode, outcomes.drop_last()).phase == Phase::Listening ==> outcomes.last()
            != Outcome::Failed(error),
    ensures
        requests(mode, outcomes).len() == named_step(error)->0,
{
    lemma_requests(mode, outcomes.drop_last());
    lemma_run_is_valid(mode, outcomes.drop_last());
}

/// Whatever is written may take no longer than the write timeout.
pub proof fn law_writes_are_limited(state: StartupView, outcome: Outcome)
    ensures
        match state.next(outcome).1 {
            ActionView::Request(_, millis) => millis == WRITE_TIMEOUT_MILLIS,
            ActionView::Acknowledge(_, millis) => millis == WRITE_TIMEOUT_MILLIS,
            _ => true,
        },
{
}

/// Once the connection is established or given up, no outcome is expected any more:
/// there is no retry and no further message.
pub proof fn law_nothing_follows_the_end(state: StartupView, outcome: Outcome, later: Outcome)
    requires
        state.expects(outcome),
        state.next(outcome).1 is Connected || state.next(outcome).1 is Failed,
    ensures
        !state.next(outcome).0.expects(later),
{
}

/// A valid IMU sample in the passive window ends the procedure: the device is active,
/// and the connection is established without startup.
pub proof fn law_active_device_is_not_started(state: StartupView, input: Incoming)
    requires
        state.phase == Phase::Listening,
        input.decoded() is Ok,
        is_imu(input.decoded()->Ok_0),
    ensures
        state.next(Outcome::Report(input)).1 == ActionView::Connected(
            ConnectionInfo { startup_performed: false, startup_mode: state.mode },
        ),
{
}

/// An acknowledgement is written exactly for a valid status report that requests one,
/// and it is the one that belongs to that report.
pub proof fn law_only_requested_acknowledgements(state: StartupView, outcome: Outcome)
    requires
        state.expects(outcome),
    ensures
        match state.next(outcome).1 {
            ActionView::Acknowledge(report, _) => {
                &&& outcome is Report
                &&& outcome->Report_0.decoded() matches Ok(Event::Status(status))
                &&& status.acknowledgement_requested
                &&& report == acknowledgement_of(status)
            },
            _ => outcome is Report ==> !(outcome->Report_0.decoded() matches Ok(
                Event::Status(status),
            ) && status.acknowledgement_requested),
        },
{
}

/// An invalid report is counted and skipped: the procedure stays where it is and
/// reads on.
pub proof fn law_invalid_reports_are_skipped(state: StartupView, input: Incoming)
    requires
        state.expects(Outcome::Report(input)),
        input.decoded() is Err,
        state.can_count(Outcome::Report(input)),
    ensures
        state.next(Outcome::Report(input)).1 == ActionView::Read,
        state.next(Outcome::Report(input)).0.phase == state.phase,
        state.next(Outcome::Report(input)).0.session.pending == state.session.pending,
        state.next(Outcome::Report(input)).0.session.statistics.invalid_reports
            == state.session.statistics.invalid_reports + 1,
{
}

/// While the response of a step is awaited, an IMU sample does not interrupt the
/// procedure, and neither does the response to another command.
pub proof fn law_other_reports_do_not_advance(state: StartupView, input: Incoming, wait: Wait)
    requires
        state.phase == Phase::Waiting(wait),
        input.decoded() is Ok,
        answer(input.decoded()->Ok_0, wait.step as int) is None,
    ensures
        ({
            let (after, action) = state.next(Outcome::Report(input));
            ||| after.phase == Phase::Waiting(wait) && action == ActionView::Read
            ||| {
                &&& after.phase == (Phase::Acknowledging { wait: Some(wait) })
                &&& after.session.awaiting == Some(input.decoded()->Ok_0)
                &&& action is Acknowledge
            }
            ||| action == ActionView::Failed(TransportError::EventBufferFull)
        }),
        is_imu(input.decoded()->Ok_0) ==> state.next(Outcome::Report(input)).1 == ActionView::Read,
{
}

/// The valid reports of a run, in order.
pub open spec fn decoded_events(outcomes: Seq<Outcome>) -> Seq<Event>
    decreases outcomes.len(),
{
    if outcomes.len() == 0 {
        seq![]
    } else {
        let earlier = decoded_events(outcomes.drop_last());
        match outcomes.last() {
            Outcome::Report(input) => match input.decoded() {
                Ok(event) => earlier.push(event),
                Err(_) => earlier,
            },
            _ => earlier,
        }
    }
}

/// The number of invalid reports of a run.
pub open spec fn invalid_count(outcomes: Seq<Outcome>) -> nat
    decreases outcomes.len(),
{
    if outcomes.len() == 0 {
        0
    } else {
        let earlier = invalid_count(outcomes.drop_last());
        match outcomes.last() {
            Outcome::Report(input) => if input.decoded() is Err {
                earlier + 1
            } else {
                earlier
            },
            _ => earlier,
        }
    }
}

/// The number of status reports.
pub open spec fn status_count(events: Seq<Event>) -> nat
    decreases events.len(),
{
    if events.len() == 0 {
        0
    } else {
        status_count(events.drop_last()) + if events.last() is Status {
            1nat
        } else {
            0nat
        }
    }
}

/// The number of requests for an acknowledgement.
pub open spec fn acknowledgement_count(events: Seq<Event>) -> nat
    decreases events.len(),
{
    if events.len() == 0 {
        0
    } else {
        acknowledgement_count(events.drop_last()) + if requested_acknowledgement(
            events.last(),
        ) is Some {
            1nat
        } else {
            0nat
        }
    }
}

/// The event that awaits its acknowledgement.
pub open spec fn awaiting(state: StartupView) -> Seq<Event> {
    match state.session.awaiting {
        Some(event) => seq![event],
        None => seq![],
    }
}

/// The counters and the buffer tell what the reports of a run were.
pub open spec fn accounted(state: StartupView, events: Seq<Event>, invalid: nat) -> bool {
    let statistics = state.session.statistics;
    &&& statistics.imu_reports == imu_count(events)
    &&& statistics.status_reports == status_count(events)
    &&& statistics.invalid_reports == invalid
    &&& imu_count(state.session.pending) + statistics.dropped_imu_reports == imu_count(events)
    &&& samples(state.session.pending) == samples(events).skip(
        statistics.dropped_imu_reports as int,
    )
    &&& !(state.phase is Failed) ==> {
        &&& other_events(state.session.pending) + awaiting(state) == other_events(events)
        &&& statistics.acknowledgements_sent + awaiting(state).len() == acknowledgement_count(
            events,
        )
    }
}

proof fn lemma_deliver_accounts(
    state: StartupView,
    event: Event,
    wait: Option<Wait>,
    events: Seq<Event>,
    invalid: nat,
)
    requires
        state.can_deliver(event),
        state.session.statistics.imu_reports == imu_count(events),
        state.session.statistics.status_reports == status_count(events),
        state.session.statistics.invalid_reports == invalid,
        state.session.statistics.acknowledgements_sent == acknowledgement_count(events),
        imu_count(state.session.pending) + state.session.statistics.dropped_imu_reports + (
        if is_imu(event) {
            1int
        } else {
            0int
        }) == imu_count(events),
        state.session.awaiting is None,
        ({
            let kept = if is_imu(event) {
                samples(state.session.pending).push(event)
            } else {
                samples(state.session.pending)
            };
            kept == samples(events).skip(state.session.statistics.dropped_imu_reports as int)
        }),
        other_events(events) == if is_imu(event) {
            other_events(state.session.pending)
        } else {
            other_events(state.session.pending).push(event)
        },
    ensures
        accounted(state.deliver(event, wait).0, events, invalid),
{
    law_other_events_are_retained(state.session, event);
    law_imu_samples_are_buffered_or_counted(state.session, event);
    law_newest_samples_are_kept(state.session, event);
    lemma_sample_count(events);
    let dropped = state.session.statistics.dropped_imu_reports as int;
    assert(samples(events).skip(dropped).skip(0) =~= samples(events).skip(dropped));
    assert(dropped < imu_count(events) ==> samples(events).skip(dropped).skip(1) =~= samples(
        events,
    ).skip(dropped + 1));
    let after = state.deliver(event, wait).0;
    assert(awaiting(after) =~= seq![]);
    assert(other_events(after.session.pending) + awaiting(after) =~= other_events(
        after.session.pending,
    ));
}

proof fn lemma_events_push(events: Seq<Event>, event: Event)
    ensures
        status_count(events.push(event)) == status_count(events) + (if event is Status {
            1nat
        } else {
            0nat
        }),
        acknowledgement_count(events.push(event)) == acknowledgement_count(events) + (
        if requested_acknowledgement(event) is Some {
            1nat
        } else {
            0nat
        }),
{
    assert(events.push(event).drop_last() =~= events);
}

/// Through every run the counters are exact: of valid IMU and status reports, of
/// invalid reports, and of acknowledgements, every one of which that was requested was
/// sent. Each IMU sample is buffered or counted as dropped, and those that are buffered
/// are the newest, in order of arrival. Every other event is buffered, in order of
/// arrival.
pub proof fn law_runs_are_accounted_for(mode: StartupMode, outcomes: Seq<Outcome>)
    requires
        possible(mode, outcomes),
    ensures
        accounted(run(mode, outcomes), decoded_events(outcomes), invalid_count(outcomes)),
    decreases outcomes.len(),
{
    if outcomes.len() == 0 {
        let state = StartupView::initial(mode);
        assert(other_events(state.session.pending) + awaiting(state) =~= seq![]);
        assert(samples(decoded_events(outcomes)).skip(0) =~= seq![]);
    } else {
        let earlier = outcomes.drop_last();
        let before = run(mode, earlier);
        let outcome = outcomes.last();
        let events = decoded_events(earlier);
        law_runs_are_accounted_for(mode, earlier);
        lemma_run_is_valid(mode, earlier);
        lemma_account_step(before, outcome, events, invalid_count(earlier));
    }
}

proof fn lemma_account_step(
    before: StartupView,
    outcome: Outcome,
    events: Seq<Event>,
    invalid: nat,
)
    requires
        accounted(before, events, invalid),
        before.expects(outcome),
        before.can_count(outcome),
        before.valid(),
    ensures
        ({
            let after = before.next(outcome).0;
            match outcome {
                Outcome::Report(input) => match input.decoded() {
                    Ok(event) => accounted(after, events.push(event), invalid),
                    Err(_) => accounted(after, events, invalid + 1),
                },
                _ => accounted(after, events, invalid),
            }
        }),
{
    let after = before.next(outcome).0;
    match before.phase {
        Phase::Acknowledging { wait } => {
            let event = before.session.awaiting->0;
            if outcome is Written {
                let counted = StartupView {
                    session: before.session.after_acknowledgement(),
                    ..before
                };
                assert(other_events(before.session.pending) + seq![event] =~= other_events(
                    before.session.pending,
                ).push(event));
                lemma_deliver_accounts(counted, event, wait, events, invalid);
            }
        },
        Phase::Listening | Phase::Waiting(_) => {
            assert(awaiting(before) =~= seq![]);
            assert(other_events(before.session.pending) + awaiting(before) =~= other_events(
                before.session.pending,
            ));
            match outcome {
                Outcome::Report(input) => {
                    let counted = StartupView {
                        session: before.session.after_input(input),
                        ..before
                    };
                    let wait = match before.phase {
                        Phase::Waiting(wait) => Some(wait),
                        _ => None,
                    };
                    if input.decoded() is Ok {
                        let event = input.decoded()->Ok_0;
                        lemma_push(events, event);
                        lemma_events_push(events, event);
                        lemma_sample_count(events);
                        let dropped = before.session.statistics.dropped_imu_reports as int;
                        assert(samples(events).push(event).skip(dropped) =~= samples(events).skip(
                            dropped,
                        ).push(event));
                        if requested_acknowledgement(event) is None {
                            lemma_deliver_accounts(
                                counted,
                                event,
                                wait,
                                events.push(event),
                                invalid,
                            );
                        } else {
                            assert(other_events(after.session.pending) + seq![event]
                                =~= other_events(events).push(event));
                        }
                    } else {
                        assert(awaiting(after) =~= seq![]);
                    }
                },
                _ => {
                    assert(awaiting(after) =~= seq![]);
                },
            }
        },
        _ => {
            assert(awaiting(before) =~= awaiting(after));
        },
    }
}

/// What is kept of the last invalid report of a run.
pub open spec fn last_rejection(outcomes: Seq<Outcome>) -> Option<RejectedReport>
    decreases outcomes.len(),
{
    if outcomes.len() == 0 {
        None
    } else {
        match outcomes.last() {
            Outcome::Report(input) => match input.decoded() {
                Err(error) => Some(input.rejection(error)),
                Ok(_) => last_rejection(outcomes.drop_last()),
            },
            _ => last_rejection(outcomes.drop_last()),
        }
    }
}

/// The counters always tell of the most recent invalid report its error and the bytes
/// of its envelope, and nothing else of it.
pub proof fn law_last_rejection_is_kept(mode: StartupMode, outcomes: Seq<Outcome>)
    requires
        possible(mode, outcomes),
    ensures
        run(mode, outcomes).session.statistics.last_rejected_report == last_rejection(outcomes),
    decreases outcomes.len(),
{
    if outcomes.len() > 0 {
        law_last_rejection_is_kept(mode, outcomes.drop_last());
    }
}

/// Whether a state is at a step that began with that many invalid reports, or beyond
/// that step.
pub open spec fn at_or_beyond(state: StartupView, step: usize, invalid: nat) -> bool {
    match state.phase {
        Phase::Listening => false,
        Phase::Requesting { step: current } => current > step,
        Phase::Waiting(wait) | Phase::Acknowledging { wait: Some(wait) } => {
            ||| wait.step > step
            ||| wait.step == step && wait.invalid_before == invalid
        },
        Phase::Acknowledging { wait: None } => false,
        Phase::Connected(_) | Phase::Failed => true,
    }
}

proof fn lemma_at_or_beyond(
    mode: StartupMode,
    before: Seq<Outcome>,
    after: Seq<Outcome>,
    step: usize,
)
    requires
        possible(mode, before.push(Outcome::Written) + after),
        run(mode, before).phase == (Phase::Requesting { step }),
    ensures
        at_or_beyond(
            run(mode, before.push(Outcome::Written) + after),
            step,
            invalid_count(before),
        ),
    decreases after.len(),
{
    let all = before.push(Outcome::Written) + after;
    if after.len() == 0 {
        assert(all =~= before.push(Outcome::Written));
        assert(all.drop_last() =~= before);
        law_runs_are_accounted_for(mode, before);
    } else {
        assert(all.drop_last() =~= before.push(Outcome::Written) + after.drop_last());
        assert(all.last() == after.last());
        lemma_at_or_beyond(mode, before, after.drop_last(), step);
        lemma_run_is_valid(mode, all.drop_last());
    }
}

/// A startup timeout tells how many invalid reports were consumed since the request of
/// its step was written, and what is kept of the last of them, if there was one.
pub proof fn law_timeout_counts_its_own_step(
    mode: StartupMode,
    before: Seq<Outcome>,
    after: Seq<Outcome>,
    step: usize,
    wait: Wait,
)
    requires
        possible(mode, before.push(Outcome::Written) + after),
        run(mode, before).phase == (Phase::Requesting { step }),
        run(mode, before.push(Outcome::Written) + after).phase == Phase::Waiting(wait),
        wait.step == step,
    ensures
        ({
            let all = before.push(Outcome::Written) + after;
            &&& run(mode, all).next(Outcome::TimedOut).1 matches ActionView::Failed(error)
            &&& error matches TransportError::StartupTimeout {
                step: failed,
                invalid_reports,
                last_rejected_report,
                imu_reports,
                status_reports,
                acknowledgements_sent,
            }
            &&& failed == step + 1
            &&& invalid_reports == invalid_count(all) - invalid_count(before)
            &&& last_rejected_report == if invalid_reports > 0 {
                last_rejection(all)
            } else {
                None
            }
            &&& imu_reports == imu_count(decoded_events(all))
            &&& status_reports == status_count(decoded_events(all))
            &&& acknowledgements_sent == acknowledgement_count(decoded_events(all))
        }),
{
    let all = before.push(Outcome::Written) + after;
    lemma_at_or_beyond(mode, before, after, step);
    law_last_rejection_is_kept(mode, all);
    law_runs_are_accounted_for(mode, all);
    lemma_run_is_valid(mode, all);
}

/// A procedure has its documented number of steps: 15, or the first, or the first two.
pub proof fn law_procedures_have_their_steps(mode: StartupMode)
    ensures
        step_count(mode) == match mode {
            StartupMode::Full => 15int,
            StartupMode::StreamOnly => 1,
            StartupMode::FirstTwo => 2,
        },
{
}

/// The response to a request is the one that tells its command, which is byte 3 of the
/// request; that of the proximity query has a form of its own. Nothing else answers.
pub proof fn law_responses_answer_their_own_request(event: Event, step: int)
    requires
        0 <= step < 15,
    ensures
        ({
            let command = startup_request(step)[3];
            match event {
                Event::StartupResponse(response) => {
                    &&& answer(event, step) is Some <==> response.command_id == command
                    &&& answer(event, step) is Some ==> answer(event, step)->0 == response.status
                },
                Event::CurrentProximity(response) => {
                    &&& answer(event, step) is Some <==> command == 0x4a
                    &&& answer(event, step) is Some ==> answer(event, step)->0 == response.status
                },
                _ => answer(event, step) is None,
            }
        }),
{
    law_startup_requests_are_the_documented_ones(step);
}

/// The procedure begins by listening for half a second, with nothing received.
pub proof fn law_procedure_begins_by_listening(mode: StartupMode)
    ensures
        StartupView::initial(mode).phase == Phase::Listening,
        StartupView::initial(mode).mode == mode,
        StartupView::initial(mode).session == SessionView::initial(),
        PASSIVE_WINDOW_MILLIS == 500,
{
}

/// When the passive window ends without a sample the first request is written, whatever
/// else was received in it.
pub proof fn law_silent_device_is_started(state: StartupView)
    requires
        state.phase == Phase::Listening,
    ensures
        ({
            let (after, action) = state.next(Outcome::TimedOut);
            &&& action == ActionView::Request(startup_request(0), 1000)
            &&& after.phase == (Phase::Requesting { step: 0 })
            &&& after.session == state.session
            &&& after.mode == state.mode
        }),
{
}

/// Through every run the procedure stays the selected one, and what a connection says
/// of itself is true: made without startup, it was a valid sample that came last, in
/// the passive window, and nothing was requested; made with startup, everything was.
pub proof fn law_connections_tell_how_they_were_made(
    mode: StartupMode,
    outcomes: Seq<Outcome>,
    info: ConnectionInfo,
)
    requires
        possible(mode, outcomes),
        run(mode, outcomes).phase == Phase::Connected(info),
    ensures
        info.startup_mode == mode,
        outcomes.len() > 0,
        !info.startup_performed ==> {
            &&& run(mode, outcomes.drop_last()).phase == Phase::Listening
            &&& outcomes.last() matches Outcome::Report(input)
            &&& input.decoded() matches Ok(event)
            &&& event is Imu
            &&& imu_count(decoded_events(outcomes)) > 0
            &&& requests(mode, outcomes).len() == 0
        },
        info.startup_performed ==> requests(mode, outcomes).len() == match mode {
            StartupMode::Full => 15int,
            StartupMode::StreamOnly => 1,
            StartupMode::FirstTwo => 2,
        },
{
    let earlier = outcomes.drop_last();
    let before = run(mode, earlier);
    lemma_run_is_valid(mode, outcomes);
    lemma_run_is_valid(mode, earlier);
    law_requests_are_fixed_and_sent_once(mode, outcomes);
    lemma_connected_step(before, outcomes.last(), info);
    if !info.startup_performed {
        let event = outcomes.last()->Report_0.decoded()->Ok_0;
        lemma_push(decoded_events(earlier), event);
    }
}

proof fn lemma_connected_step(state: StartupView, outcome: Outcome, info: ConnectionInfo)
    requires
        state.valid(),
        state.expects(outcome),
        state.next(outcome).0.phase == Phase::Connected(info),
    ensures
        info.startup_mode == state.mode,
        !info.startup_performed ==> {
            &&& state.phase == Phase::Listening
            &&& outcome matches Outcome::Report(input)
            &&& input.decoded() matches Ok(event)
            &&& event is Imu
        },
{
}

/// Where the procedure reads: in the passive window, or for the response of a step.
pub open spec fn reading(wait: Option<Wait>) -> Phase {
    match wait {
        None => Phase::Listening,
        Some(wait) => Phase::Waiting(wait),
    }
}

/// The failure of I/O is passed on, and from the first request on names its step.
pub open spec fn blamed(wait: Option<Wait>, error: TransportError) -> TransportError {
    match wait {
        None => error,
        Some(wait) => TransportError::StartupTransport {
            step: (wait.step + 1) as usize,
            source: Box::new(error),
        },
    }
}

/// A valid report that requests an acknowledgement is counted, and its acknowledgement
/// written before anything else is done with it.
pub proof fn law_acknowledgement_comes_first(
    state: StartupView,
    wait: Option<Wait>,
    input: Incoming,
    status: StatusUpdate,
)
    requires
        state.phase == reading(wait),
        input.decoded() == Ok::<_, ParseError>(Event::Status(status)),
        status.acknowledgement_requested,
    ensures
        ({
            let (after, action) = state.next(Outcome::Report(input));
            &&& action == ActionView::Acknowledge(acknowledgement_of(status), 1000)
            &&& after.phase == (Phase::Acknowledging { wait })
            &&& after.session == state.session.after_input(input)
            &&& after.session.awaiting == Some(Event::Status(status))
            &&& after.mode == state.mode
        }),
{
}

/// Once it is written the event is buffered and reading goes on where it was, unless
/// the buffer refuses the event; a failure to write it is named as such.
pub proof fn law_acknowledged_events_are_buffered(
    state: StartupView,
    wait: Option<Wait>,
    event: Event,
    error: TransportError,
)
    requires
        state.valid(),
        state.phase == (Phase::Acknowledging { wait }),
        state.session.awaiting == Some(event),
    ensures
        ({
            let counted = state.session.after_acknowledgement();
            let (after, action) = state.next(Outcome::Written);
            if counted.refuses(event) {
                &&& action == ActionView::Failed(TransportError::EventBufferFull)
                &&& after.phase == Phase::Failed
            } else {
                &&& action == ActionView::Read
                &&& after.phase == reading(wait)
                &&& after.session == counted.after_event(event)
                &&& after.mode == state.mode
            }
        }),
        ({
            let (after, action) = state.next(Outcome::Failed(error));
            &&& action == ActionView::Failed(
                blamed(wait, TransportError::AcknowledgementFailed(Box::new(error))),
            )
            &&& after.phase == Phase::Failed
            &&& after.session == state.session.after_failed_acknowledgement()
        }),
{
}

/// In the passive window every valid report is counted and buffered. A sample ends the
/// window; after anything else reading goes on, unless the buffer refuses it.
pub proof fn law_window_buffers_what_it_hears(state: StartupView, input: Incoming, event: Event)
    requires
        state.phase == Phase::Listening,
        input.decoded() == Ok::<_, ParseError>(event),
        !(event is Status && event->Status_0.acknowledgement_requested),
    ensures
        ({
            let counted = state.session.after_input(input);
            let (after, action) = state.next(Outcome::Report(input));
            &&& after.mode == state.mode
            &&& after.session == counted.after_event(event)
            &&& counted.refuses(event) ==> action == ActionView::Failed(
                TransportError::EventBufferFull,
            ) && after.phase == Phase::Failed
            &&& event is Imu ==> {
                &&& action is Connected
                &&& action->Connected_0.startup_performed == false
                &&& action->Connected_0.startup_mode == state.mode
                &&& after.phase == Phase::Connected(action->Connected_0)
            }
            &&& !(event is Imu) && !counted.refuses(event) ==> action == ActionView::Read
                && after.phase == Phase::Listening
        }),
{
}

/// While a response is awaited, a valid report is counted. The response with another
/// status than zero ends the procedure and is told; with status zero it is buffered and
/// the next step requested, or the connection made. Anything else is buffered, and
/// reading goes on.
pub proof fn law_awaited_response_decides(
    state: StartupView,
    wait: Wait,
    input: Incoming,
    event: Event,
)
    requires
        state.phase == Phase::Waiting(wait),
        state.valid(),
        input.decoded() == Ok::<_, ParseError>(event),
        !(event is Status && event->Status_0.acknowledgement_requested),
    ensures
        ({
            let command = startup_request(wait.step as int)[3];
            let status = match event {
                Event::StartupResponse(response) => if response.command_id == command {
                    Some(response.status)
                } else {
                    None
                },
                Event::CurrentProximity(response) => if command == 0x4a {
                    Some(response.status)
                } else {
                    None
                },
                _ => None,
            };
            let last = wait.step + 1 == match state.mode {
                StartupMode::Full => 15int,
                StartupMode::StreamOnly => 1,
                StartupMode::FirstTwo => 2,
            };
            let counted = state.session.after_input(input);
            let (after, action) = state.next(Outcome::Report(input));
            &&& after.mode == state.mode
            &&& status is Some && status->0 != 0 ==> {
                &&& action == ActionView::Failed(
                    TransportError::CommandFailed {
                        step: (wait.step + 1) as usize,
                        command_id: command,
                        status: status->0,
                    },
                )
                &&& after.phase == Phase::Failed
                &&& after.session == counted
            }
            &&& !(status is Some && status->0 != 0) ==> after.session == counted.after_event(event)
            &&& !(status is Some && status->0 != 0) && counted.refuses(event) ==> action
                == ActionView::Failed(TransportError::EventBufferFull) && after.phase
                == Phase::Failed
            &&& status is None && !counted.refuses(event) ==> action == ActionView::Read
                && after.phase == Phase::Waiting(wait)
            &&& status == Some(0u8) && !counted.refuses(event) && !last ==> action
                == ActionView::Request(startup_request(wait.step + 1), 1000) && after.phase
                == (Phase::Requesting { step: (wait.step + 1) as usize })
            &&& status == Some(0u8) && !counted.refuses(event) && last ==> {
                &&& action is Connected
                &&& action->Connected_0.startup_performed == true
                &&& action->Connected_0.startup_mode == state.mode
                &&& after.phase == Phase::Connected(action->Connected_0)
            }
        }),
{
    law_startup_requests_are_the_documented_ones(wait.step as int);
}

/// An invalid report is counted, and nothing else happens but that reading goes on.
pub proof fn law_invalid_reports_change_nothing_else(
    state: StartupView,
    wait: Option<Wait>,
    input: Incoming,
)
    requires
        state.phase == reading(wait),
        input.decoded() is Err,
    ensures
        state.next(Outcome::Report(input)).1 == ActionView::Read,
        state.next(Outcome::Report(input)).0.phase == state.phase,
        state.next(Outcome::Report(input)).0.mode == state.mode,
        state.next(Outcome::Report(input)).0.session == state.session.after_input(input),
{
}

/// A failure to read ends the procedure and is told, except an invalid report, after
/// which reading goes on. A clock that cannot represent the deadline ends it too.
/// Nothing is counted or buffered.
pub proof fn law_failures_to_read_end_the_procedure(
    state: StartupView,
    wait: Option<Wait>,
    error: TransportError,
)
    requires
        state.phase == reading(wait),
    ensures
        ({
            let (after, action) = state.next(Outcome::Failed(error));
            &&& after.session == state.session
            &&& after.mode == state.mode
            &&& error is InvalidReport ==> action == ActionView::Read && after.phase == state.phase
            &&& !(error is InvalidReport) ==> action == ActionView::Failed(blamed(wait, error))
                && after.phase == Phase::Failed
        }),
        ({
            let (after, action) = state.next(Outcome::NoDeadline);
            &&& after.session == state.session
            &&& action == ActionView::Failed(TransportError::InvalidTimeout)
            &&& after.phase == Phase::Failed
        }),
{
}

/// Once a request is written its response is awaited, for one second or for 3.5 in the
/// second step, and the invalid reports so far are noted. A failure to write it ends
/// the procedure and names the step.
pub proof fn law_requests_are_awaited(state: StartupView, step: usize, error: TransportError)
    requires
        state.phase == (Phase::Requesting { step }),
    ensures
        ({
            let wait = Wait {
                step,
                invalid_before: state.session.statistics.invalid_reports,
            };
            let (after, action) = state.next(Outcome::Written);
            &&& action == ActionView::Listen(
                if step == 1 {
                    3500
                } else {
                    1000
                },
            )
            &&& after.phase == Phase::Waiting(wait)
            &&& after.session == state.session
            &&& after.mode == state.mode
        }),
        ({
            let (after, action) = state.next(Outcome::Failed(error));
            &&& action == ActionView::Failed(
                TransportError::StartupTransport {
                    step: (step + 1) as usize,
                    source: Box::new(error),
                },
            )
            &&& after.phase == Phase::Failed
            &&& after.session == state.session
        }),
        ({
            let (after, action) = state.next(Outcome::NoDeadline);
            &&& action == ActionView::Failed(TransportError::InvalidTimeout)
            &&& after.phase == Phase::Failed
            &&& after.session == state.session
        }),
{
}

/// A response that does not arrive ends the procedure: the error names the step, tells
/// the counters, how many reports were invalid since the request, and the last of these.
pub proof fn law_missing_response_ends_the_procedure(state: StartupView, wait: Wait)
    requires
        state.phase == Phase::Waiting(wait),
        state.valid(),
    ensures
        ({
            let statistics = state.session.statistics;
            let (after, action) = state.next(Outcome::TimedOut);
            &&& after.phase == Phase::Failed
            &&& after.session == state.session
            &&& action matches ActionView::Failed(error)
            &&& error matches TransportError::StartupTimeout {
                step,
                invalid_reports,
                last_rejected_report,
                imu_reports,
                status_reports,
                acknowledgements_sent,
            }
            &&& step == wait.step + 1
            &&& invalid_reports == statistics.invalid_reports - wait.invalid_before
            &&& invalid_reports == 0 ==> last_rejected_report is None
            &&& invalid_reports > 0 ==> last_rejected_report == statistics.last_rejected_report
            &&& imu_reports == statistics.imu_reports
            &&& status_reports == statistics.status_reports
            &&& acknowledgements_sent == statistics.acknowledgements_sent
        }),
{
}

/// After reading, anything may come but that something was written; after writing, that
/// it was or was not; and of a request also that there is no deadline. At the end
/// nothing is expected.
pub proof fn law_outcomes_fit_their_action(state: StartupView, outcome: Outcome)
    ensures
        state.expects(outcome) <==> match state.phase {
            Phase::Listening => !(outcome is Written),
            Phase::Waiting(_) => !(outcome is Written),
            Phase::Requesting { step } => outcome is Written || outcome is Failed || outcome
                is NoDeadline,
            Phase::Acknowledging { wait } => outcome is Written || outcome is Failed,
            Phase::Connected(_) => false,
            Phase::Failed => false,
        },
        state.session.statistics.can_count() ==> state.can_count(outcome),
{
}

/// What is shown of an action is what it is.
pub proof fn law_actions_are_shown_as_they_are(action: Action)
    ensures
        match action {
            Action::Listen { millis } => action@ == ActionView::Listen(millis),
            Action::Read => action@ == ActionView::Read,
            Action::Request(write) => action@ == ActionView::Request(write.report@, write.millis),
            Action::Acknowledge(write) => action@ == ActionView::Acknowledge(
                write.report@,
                write.millis,
            ),
            Action::Connected(info) => action@ == ActionView::Connected(info),
            Action::Failed(error) => action@ == ActionView::Failed(error),
        },
{
}

} // verus!
