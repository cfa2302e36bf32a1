//! The startup procedure and the event buffer, driven by scripts.

use std::collections::VecDeque;
use vrg9080_protocol::hidraw::write_limit;
use vrg9080_protocol::open::{OpenOutcome, RawInfo};
use vrg9080_protocol::os::{OsError, OsErrorKind};
use vrg9080_protocol::protocol::{
    acknowledgement, current_proximity, padded, startup_step, FixedWrite, STARTUP_STEPS,
    WRITE_TIMEOUT_MILLIS,
};
use vrg9080_protocol::session::{Incoming, Received, SessionCore, MAX_PENDING_EVENTS};
use vrg9080_protocol::startup::{Action, Outcome, Phase, Startup, PASSIVE_WINDOW_MILLIS};
use vrg9080_protocol::{
    parse_report, parse_status_report, ConnectionInfo, DeviceSession, Event, ParseError,
    RejectedReport, StartupMode, Statistics, TransportError,
};

fn checksum(raw: &mut [u8; 64]) {
    let length = usize::from(raw[3]);
    raw[length] = raw[..length].iter().fold(0_u8, |sum, byte| sum.wrapping_add(*byte));
}

fn imu() -> [u8; 64] {
    let mut raw = [0; 64];
    raw[..4].copy_from_slice(&[0, 1, 0x0a, 44]);
    let values = [1.0_f32, 2.0, 3.0, 90.0, -45.0, 0.0, 4.0, 5.0, 6.0];
    for (index, value) in values.iter().enumerate() {
        let offset = 4 + 4 * index;
        raw[offset..offset + 4].copy_from_slice(&value.to_le_bytes());
    }
    raw[40..42].copy_from_slice(&1234_u16.to_le_bytes());
    raw[42..44].copy_from_slice(&365_u16.to_le_bytes());
    checksum(&mut raw);
    raw
}

fn status(mask: u8) -> [u8; 64] {
    let mut raw = [0; 64];
    raw[..9].copy_from_slice(&[0, 1, 0x0b, 9, mask, 1, 30, 31, 2]);
    checksum(&mut raw);
    raw
}

fn response(command: u8, status: u8, data: &[u8]) -> [u8; 64] {
    let mut raw = [0; 64];
    let length = 5 + data.len();
    raw[..4].copy_from_slice(&[0xaa, 0x11, command, length as u8]);
    raw[4..length - 1].copy_from_slice(data);
    raw[length - 1] = status;
    checksum(&mut raw);
    raw
}

fn whole(prefix: &[u8]) -> [u8; 65] {
    let mut bytes = [0; 65];
    bytes[..prefix.len()].copy_from_slice(prefix);
    bytes
}

fn request(index: usize) -> [u8; 65] {
    startup_step(index).report
}

fn event(raw: &[u8; 64]) -> Event {
    parse_report(raw).unwrap()
}

enum Scripted {
    Read([u8; 64], usize),
    Timeout,
    Write([u8; 65]),
    FailWrite([u8; 65]),
}

#[derive(Default)]
struct Script {
    actions: VecDeque<Scripted>,
    writes: Vec<[u8; 65]>,
    read_timeouts: Vec<u64>,
}

impl Script {
    fn read(&mut self, report: [u8; 64]) {
        self.actions.push_back(Scripted::Read(report, 64));
    }
    fn write(&mut self, report: [u8; 65]) {
        self.actions.push_back(Scripted::Write(report));
    }
    fn timeout(&mut self) {
        self.actions.push_back(Scripted::Timeout);
    }
    fn complete_step(&mut self, index: usize) {
        let report = request(index);
        self.write(report);
        let command = report[3];
        self.read(response(
            command,
            0,
            if command == 0x4a {
                &[1]
            } else {
                b"synthetic identification"
            },
        ));
    }
    fn read_report(&mut self) -> Option<Incoming> {
        match self.actions.pop_front().expect("unexpected extra read") {
            Scripted::Read(bytes, len) => Some(Incoming { bytes, len }),
            Scripted::Timeout => None,
            Scripted::Write(_) | Scripted::FailWrite(_) => panic!("read before required write"),
        }
    }
    fn write_fixed(&mut self, report: &[u8; 65]) -> Result<(), TransportError> {
        match self
            .actions
            .pop_front()
            .expect("unexpected extra write/retry")
        {
            Scripted::Write(expected) => assert_eq!(*report, expected),
            Scripted::FailWrite(expected) => {
                assert_eq!(*report, expected);
                return Err(timed_out());
            }
            _ => panic!("write before matching response"),
        }
        self.writes.push(*report);
        Ok(())
    }
}

fn timed_out() -> TransportError {
    TransportError::Io {
        operation: "write fixed hidraw request",
        path: "/dev/hidraw0".to_string(),
        source: OsError {
            kind: OsErrorKind::Other,
            code: Some(libc::ETIMEDOUT),
            text: "Connection timed out (os error 110)".to_string(),
        },
    }
}

/// The startup procedure, begun with a node that was opened and verified.
fn started(mode: StartupMode) -> (Startup, Action) {
    let (mut opening, _) = DeviceSession::open_with_startup(b"/dev/hidraw4", mode).unwrap();
    let identity = RawInfo {
        bus: 3,
        vendor: 0x2c30,
        product: 0x1050,
    };
    for outcome in [
        OpenOutcome::Identity(Ok("HID_ID=3:2c30:1050".to_string())),
        OpenOutcome::Opened(Ok(())),
        OpenOutcome::Inspected(Ok(true)),
        OpenOutcome::Identified(Ok(identity)),
    ] {
        assert!(opening.is_expected(&outcome));
        opening.advance(outcome);
    }
    opening.start().unwrap()
}

struct Run {
    io: Script,
    startup: Startup,
    result: Result<ConnectionInfo, TransportError>,
}

impl Run {
    fn pending(&self) -> &VecDeque<Event> {
        self.startup.session().pending()
    }
    fn statistics(&self) -> Statistics {
        self.startup.session().statistics()
    }
}

fn initialize(mut io: Script, mode: StartupMode) -> Run {
    let (mut startup, mut action) = started(mode);
    loop {
        let outcome = match action {
            Action::Listen { millis } => {
                io.read_timeouts.push(millis);
                io.read_report().map_or(Outcome::TimedOut, Outcome::Report)
            }
            Action::Read => io.read_report().map_or(Outcome::TimedOut, Outcome::Report),
            Action::Request(write) | Action::Acknowledge(write) => {
                assert_eq!(write.millis, 1000);
                match io.write_fixed(&write.report) {
                    Ok(()) => Outcome::Written,
                    Err(error) => Outcome::Failed(error),
                }
            }
            Action::Connected(info) => {
                let result = Ok(info);
                return Run { io, startup, result };
            }
            Action::Failed(error) => {
                let result = Err(error);
                return Run { io, startup, result };
            }
        };
        assert!(startup.is_expected(&outcome));
        assert!(startup.session().statistics().has_room());
        action = startup.advance(outcome);
    }
}

fn receive(core: &mut SessionCore, io: &mut Script) -> Result<Option<Event>, TransportError> {
    let Some(raw) = io.read_report() else {
        return Ok(None);
    };
    assert!(!core.is_awaiting());
    match core.receive(&raw)? {
        Received::Event(event) => Ok(Some(event)),
        Received::Acknowledge(write) => {
            assert!(core.is_awaiting());
            core.acknowledged(io.write_fixed(&write.report)).map(Some)
        }
    }
}

#[test]
fn os_write_timeout_identifies_step_without_retry() {
    for failing_index in 0..15 {
        let mut script = Script::default();
        script.timeout();
        for index in 0..failing_index {
            script.complete_step(index);
        }
        script
            .actions
            .push_back(Scripted::FailWrite(request(failing_index)));
        let run = initialize(script, StartupMode::Full);
        let error = run.result.unwrap_err();
        assert!(
            matches!(error, TransportError::StartupTransport { step, .. } if step == failing_index + 1)
        );
        assert!(error
            .message()
            .contains(&format!("startup step {}:", failing_index + 1)));
        assert!(run.io.actions.is_empty());
        assert_eq!(run.io.writes.len(), failing_index);
    }
}

#[test]
fn passive_acknowledgement_failure_is_named() {
    let mut script = Script::default();
    script.read(status(0x80));
    script.actions.push_back(Scripted::FailWrite(whole(&[
        0, 0xaa, 0x11, 0x0b, 5, 1, 0xcc,
    ])));
    let run = initialize(script, StartupMode::Full);
    let error = run.result.unwrap_err();
    assert!(matches!(error, TransportError::AcknowledgementFailed(_)));
    assert!(error
        .message()
        .contains("requested status acknowledgement"));
    assert!(run.io.actions.is_empty());
}

#[test]
fn every_fixed_write_matches_the_wire_contract_including_padding() {
    let prefixes: &[&[u8]] = &[
        &[0, 0xaa, 1, 0x8c, 5, 0, 0x3c],
        &[0, 0xaa, 1, 0x8d, 5, 3, 0x40],
        &[0, 0xaa, 1, 0x80, 6, 0, 0, 0x31],
        &[0, 0xaa, 1, 1, 4, 0xb0],
        &[0, 0xaa, 1, 0x7f, 5, 1, 0x30],
        &[0, 0xaa, 1, 0x7f, 5, 0, 0x2f],
        &[0, 0xaa, 1, 0x7f, 5, 2, 0x31],
        &[0, 0xaa, 1, 2, 4, 0xb1],
        &[0, 0xaa, 1, 0x40, 4, 0xef],
        &[0, 0xaa, 1, 0x47, 4, 0xf6],
        &[0, 0xaa, 1, 0x86, 6, 1, 1, 0x39],
        &[0, 0xaa, 1, 0x4a, 4, 0xf9],
        &[0, 0xaa, 1, 0x4e, 4, 0xfd],
        &[0, 0xaa, 1, 0x4f, 4, 0xfe],
        &[0, 0xaa, 1, 0x81, 8, 0xe8, 3, 0xc8, 0, 0xe7],
    ];
    assert_eq!(prefixes.len(), STARTUP_STEPS);
    for (index, expected) in prefixes.iter().enumerate() {
        let step = startup_step(index);
        assert_eq!(step.report, whole(expected));
        let length = usize::from(step.report[4]);
        let sum = step.report[1..=length]
            .iter()
            .fold(0_u8, |a, b| a.wrapping_add(*b));
        assert_eq!(step.report[length + 1], sum);
        assert_eq!(step.timeout_millis, if index == 1 { 3500 } else { 1000 });
    }
    assert_eq!(
        current_proximity(),
        whole(&[0, 0xaa, 1, 0x4a, 4, 0xf9])
    );
}

#[test]
fn active_imu_skips_every_startup_write() {
    let mut script = Script::default();
    script.read(status(1));
    script.read(imu());
    let run = initialize(script, StartupMode::Full);
    assert_eq!(
        run.result,
        Ok(ConnectionInfo {
            startup_performed: false,
            startup_mode: StartupMode::Full,
        })
    );
    assert!(run.io.writes.is_empty());
    assert!(run.io.actions.is_empty());
    assert!(matches!(run.pending()[0], Event::Status(_)));
    assert!(matches!(run.pending()[1], Event::Imu(_)));
    assert!(run.io.read_timeouts[0] <= PASSIVE_WINDOW_MILLIS);
}

#[test]
fn stream_only_is_exactly_one_fixed_request_with_interleaved_status_ack() {
    let mut script = Script::default();
    script.timeout();
    script.write(request(0));
    script.read(imu());
    script.read(status(0x81));
    script.write(whole(&[0, 0xaa, 0x11, 0x0b, 5, 1, 0xcc]));
    script.read(response(0x8c, 0, &[]));
    let run = initialize(script, StartupMode::StreamOnly);
    let pending = run.pending().clone();
    let info = run.result.unwrap();
    assert!(info.startup_performed);
    assert_eq!(info.startup_mode, StartupMode::StreamOnly);
    assert_eq!(run.io.writes.len(), 2);
    assert!(run.io.actions.is_empty());
    assert!(pending.iter().any(|event| matches!(event, Event::Imu(_))));
    assert!(pending
        .iter()
        .any(|event| matches!(event, Event::Status(s) if s.proximity == Some(1))));
}

#[test]
fn stream_only_still_skips_when_active_and_aborts_on_error_or_timeout() {
    let mut script = Script::default();
    script.read(imu());
    let run = initialize(script, StartupMode::StreamOnly);
    assert!(!run.result.unwrap().startup_performed);
    assert!(run.io.writes.is_empty());
    for timeout in [true, false] {
        let mut script = Script::default();
        script.timeout();
        script.write(request(0));
        if timeout {
            script.timeout();
        } else {
            script.read(response(0x8c, 4, &[]));
        }
        let run = initialize(script, StartupMode::StreamOnly);
        assert!(run.result.is_err());
        assert_eq!(run.io.writes.len(), 1);
        assert!(run.io.actions.is_empty());
    }
}

#[test]
fn first_two_sends_only_the_first_two_fixed_requests() {
    let mut script = Script::default();
    script.timeout();
    script.complete_step(0);
    script.complete_step(1);
    let run = initialize(script, StartupMode::FirstTwo);
    assert_eq!(run.statistics().imu_reports, 0);
    let info = run.result.unwrap();
    assert!(info.startup_performed);
    assert_eq!(info.startup_mode, StartupMode::FirstTwo);
    assert_eq!(
        run.io.writes,
        (0..2).map(request).collect::<Vec<_>>()
    );
    assert!(run.io.actions.is_empty());
}

#[test]
fn timeout_reports_rejected_proximity_envelope_without_payload() {
    let mut script = Script::default();
    script.timeout();
    for index in 0..11 {
        script.complete_step(index);
    }
    script.write(current_proximity());
    // A response with no proximity data must stay rejected, but diagnostics
    // should distinguish it from receiving no response at all.
    script.read(response(0x4a, 0, &[]));
    script.timeout();
    let run = initialize(script, StartupMode::Full);
    let error = run.result.unwrap_err();
    let TransportError::StartupTimeout {
        step,
        invalid_reports,
        last_rejected_report,
        ..
    } = error
    else {
        panic!("wrong error: {}", error.message());
    };
    assert_eq!(step, 12);
    assert_eq!(invalid_reports, 1);
    let rejected = last_rejected_report.unwrap();
    assert_eq!(rejected.report_type, Some(0x4a));
    assert_eq!(rejected.flags_version, Some(0x11));
    assert_eq!(rejected.protocol_length, Some(5));
    assert_eq!(
        rejected.error,
        ParseError::WrongProtocolLength {
            expected: 6,
            actual: 5
        }
    );
    assert!(run.io.actions.is_empty());
}

#[test]
fn length_seven_proximity_response_completes_full_startup_without_inventing_value() {
    let mut script = Script::default();
    script.timeout();
    for index in 0..STARTUP_STEPS {
        let report = request(index);
        script.write(report);
        script.read(response(
            report[3],
            0,
            if index == 11 { &[7, 99] } else { &[] },
        ));
    }
    let run = initialize(script, StartupMode::Full);
    assert!(run.pending().iter().any(|event| {
        matches!(event, Event::CurrentProximity(p) if p.status == 0 && p.proximity.is_none() && p.uninterpreted_data == Some([7, 99]))
    }));
    assert_eq!(run.statistics().invalid_reports, 0);
    let info = run.result.unwrap();
    assert!(info.startup_performed);
    assert_eq!(run.io.writes.len(), 15);
    assert!(run.io.actions.is_empty());
}

#[test]
fn early_stream_does_not_interrupt_full_startup_and_step12_emits_proximity() {
    let mut script = Script::default();
    script.timeout();
    for index in 0..STARTUP_STEPS {
        let report = request(index);
        script.write(report);
        // A mismatched response must not advance the startup state machine.
        script.read(response(0xf0, 9, b"ignored"));
        script.read(imu());
        script.read(status(0x81));
        script.write(whole(&[0, 0xaa, 0x11, 0x0b, 5, 1, 0xcc]));
        let data: &[u8] = if index == 11 {
            &[7]
        } else {
            b"PRIVATE_SYNTHETIC_DATA"
        };
        script.read(response(report[3], 0, data));
    }
    let run = initialize(script, StartupMode::Full);
    assert_eq!(
        run.result,
        Ok(ConnectionInfo {
            startup_performed: true,
            startup_mode: StartupMode::Full,
        })
    );
    assert_eq!(run.io.writes.len(), 30);
    assert!(run.io.actions.is_empty());
    assert_eq!(run.statistics().imu_reports, 15);
    assert!(run
        .pending()
        .iter()
        .any(|event| matches!(event, Event::CurrentProximity(p) if p.proximity == Some(7))));
    assert!(!format!("{:?}", run.pending()).contains("PRIVATE_SYNTHETIC_DATA"));
}

#[test]
fn every_startup_failure_aborts_once_without_retry() {
    for failing_index in 0..15 {
        for timeout in [false, true] {
            let mut script = Script::default();
            script.timeout();
            for index in 0..failing_index {
                script.complete_step(index);
            }
            let report = request(failing_index);
            script.write(report);
            if timeout {
                script.timeout();
            } else {
                script.read(response(
                    report[3],
                    7,
                    if failing_index == 11 { &[1] } else { &[] },
                ));
            }
            let run = initialize(script, StartupMode::Full);
            let error = run.result.unwrap_err();
            if timeout {
                assert!(
                    matches!(error, TransportError::StartupTimeout { step, .. } if step == failing_index + 1)
                );
            } else {
                assert!(
                    matches!(error, TransportError::CommandFailed { step, status: 7, .. } if step == failing_index + 1)
                );
            }
            assert!(run.io.actions.is_empty());
            assert_eq!(run.io.writes.len(), failing_index + 1);
        }
    }
}

#[test]
fn only_fully_valid_status_requests_are_acknowledged() {
    let mut script = Script::default();
    script.read(status(1));
    script.read(status(0x80));
    script.write(whole(&[0, 0xaa, 0x11, 0x0b, 5, 1, 0xcc]));
    let mut flagged = status(0x80);
    flagged[1] = 0x61;
    checksum(&mut flagged);
    script.read(flagged);
    script.write(whole(&[0, 0xaa, 0x71, 0x0b, 5, 1, 0x2c]));
    let mut corrupt = status(0x81);
    corrupt[9] ^= 1;
    script.read(corrupt);
    let mut bad_version = status(0x81);
    bad_version[1] = 2;
    checksum(&mut bad_version);
    script.read(bad_version);
    let mut wrong_length = status(0x81);
    wrong_length[3] = 8;
    checksum(&mut wrong_length);
    script.read(wrong_length);
    script.actions.push_back(Scripted::Read(status(0x81), 63));
    script.read(response(0x0b, 0, &[0x80, 1, 2, 3]));
    let mut core = SessionCore::new();
    let io = &mut script;
    assert!(
        matches!(receive(&mut core, io).unwrap(), Some(Event::Status(s)) if s.proximity == Some(1))
    );
    for _ in 0..2 {
        assert!(
            matches!(receive(&mut core, io).unwrap(), Some(Event::Status(s)) if s.proximity.is_none())
        );
    }
    for _ in 0..4 {
        assert!(matches!(
            receive(&mut core, io),
            Err(TransportError::InvalidReport(_))
        ));
    }
    assert!(matches!(
        receive(&mut core, io).unwrap(),
        Some(Event::UnsupportedResponse(_))
    ));
    assert!(script.actions.is_empty());
    assert_eq!(script.writes.len(), 2);
    assert_eq!(core.statistics().invalid_reports, 4);
}

#[test]
fn passive_window_acknowledges_and_skips_malformed_imu() {
    let mut script = Script::default();
    let mut malformed = imu();
    malformed[44] ^= 1;
    script.read(malformed);
    script.read(status(0x80));
    script.write(whole(&[0, 0xaa, 0x11, 0x0b, 5, 1, 0xcc]));
    script.read(imu());
    let run = initialize(script, StartupMode::Full);
    assert_eq!(run.statistics().invalid_reports, 1);
    assert!(!run.result.unwrap().startup_performed);
    assert_eq!(run.io.writes.len(), 1);
}

#[test]
fn invalid_matching_response_does_not_advance_startup() {
    let mut script = Script::default();
    script.timeout();
    script.write(request(0));
    let mut malformed = response(0x8c, 0, &[]);
    malformed[5] ^= 1;
    script.read(malformed);
    script.timeout();
    let run = initialize(script, StartupMode::Full);
    assert!(matches!(
        run.result,
        Err(TransportError::StartupTimeout { step: 1, .. })
    ));
    assert_eq!(run.statistics().invalid_reports, 1);
    assert_eq!(run.io.writes.len(), 1);
}

#[test]
fn bounded_startup_buffer_preserves_status_and_proximity() {
    let mut core = SessionCore::new();
    core.enqueue(event(&status(1))).unwrap();
    core.enqueue(event(&response(0x4a, 0, &[9]))).unwrap();
    for _ in 0..1000 {
        core.enqueue(event(&imu())).unwrap();
    }
    assert_eq!(core.pending().len(), MAX_PENDING_EVENTS);
    assert_eq!(core.statistics().dropped_imu_reports, 746);
    assert!(matches!(core.pending()[0], Event::Status(_)));
    assert!(matches!(core.pending()[1], Event::CurrentProximity(_)));
    let mut core = SessionCore::new();
    for _ in 0..MAX_PENDING_EVENTS {
        core.enqueue(event(&status(1))).unwrap();
    }
    assert!(matches!(
        core.enqueue(event(&status(1))),
        Err(TransportError::EventBufferFull)
    ));
}

#[test]
fn a_full_buffer_drops_the_oldest_sample_or_the_new_one() {
    let mut core = SessionCore::new();
    core.enqueue(event(&status(1))).unwrap();
    let mut later = imu();
    later[40] = 1;
    checksum(&mut later);
    core.enqueue(event(&imu())).unwrap();
    core.enqueue(event(&later)).unwrap();
    for _ in 3..MAX_PENDING_EVENTS {
        core.enqueue(event(&status(2))).unwrap();
    }
    core.enqueue(event(&status(4))).unwrap();
    assert_eq!(core.pending().len(), 256);
    assert_eq!(core.pending()[1], event(&later));
    assert_eq!(core.pending()[255], event(&status(4)));
    assert_eq!(core.statistics().dropped_imu_reports, 1);
    core.enqueue(event(&status(8))).unwrap();
    assert_eq!(core.statistics().dropped_imu_reports, 2);
    // No sample is left: a new one is dropped, and nothing else finds a place.
    core.enqueue(event(&imu())).unwrap();
    assert_eq!(core.statistics().dropped_imu_reports, 3);
    assert!(core.pending().iter().all(|event| !matches!(event, Event::Imu(_))));
    assert_eq!(
        core.enqueue(event(&status(1))),
        Err(TransportError::EventBufferFull)
    );
    assert_eq!(core.statistics().dropped_imu_reports, 3);
    assert_eq!(core.pending()[255], event(&status(8)));
}

#[test]
fn startup_gives_up_when_the_buffer_is_full_of_other_events() {
    let mut script = Script::default();
    for _ in 0..=MAX_PENDING_EVENTS {
        script.read(status(1));
    }
    let run = initialize(script, StartupMode::Full);
    assert_eq!(run.result, Err(TransportError::EventBufferFull));
    assert!(run.io.actions.is_empty());
    assert!(run.io.writes.is_empty());
}

#[test]
fn rejections_keep_the_envelope_that_was_read() {
    let mut core = SessionCore::new();
    let rejected = |core: &mut SessionCore, len: usize| {
        let error = core
            .receive(&Incoming { bytes: status(1), len })
            .unwrap_err();
        assert_eq!(
            error,
            TransportError::InvalidReport(ParseError::WrongInputSize { actual: len })
        );
        core.statistics().last_rejected_report.unwrap()
    };
    assert_eq!(
        rejected(&mut core, 3),
        RejectedReport {
            error: ParseError::WrongInputSize { actual: 3 },
            flags_version: Some(1),
            report_type: Some(0x0b),
            protocol_length: None,
        }
    );
    assert_eq!(rejected(&mut core, 1).flags_version, None);
    assert_eq!(rejected(&mut core, 63).protocol_length, Some(9));
    assert_eq!(core.statistics().invalid_reports, 3);
    assert_eq!(core.statistics().status_reports, 0);
}

#[test]
fn a_timeout_counts_only_the_invalid_reports_of_its_step() {
    let mut malformed = imu();
    malformed[44] ^= 1;
    let mut script = Script::default();
    script.read(malformed);
    script.timeout();
    script.complete_step(0);
    script.write(request(1));
    script.read(imu());
    script.read(status(0x80));
    script.write(whole(&[0, 0xaa, 0x11, 0x0b, 5, 1, 0xcc]));
    script.timeout();
    let run = initialize(script, StartupMode::Full);
    assert_eq!(run.io.read_timeouts, [500, 1000, 3500]);
    assert_eq!(
        run.result,
        Err(TransportError::StartupTimeout {
            step: 2,
            invalid_reports: 0,
            last_rejected_report: None,
            imu_reports: 1,
            status_reports: 1,
            acknowledgements_sent: 1,
        })
    );
}

#[test]
fn every_run_accounts_for_its_reports() {
    let mut script = Script::default();
    script.read(status(0));
    script.timeout();
    script.write(request(0));
    script.read(status(0x80));
    script.write(whole(&[0, 0xaa, 0x11, 0x0b, 5, 1, 0xcc]));
    script.read(imu());
    script.read(response(0x8d, 0, &[]));
    script.read(response(0x8c, 0, &[]));
    let run = initialize(script, StartupMode::StreamOnly);
    assert_eq!(
        run.statistics(),
        Statistics {
            imu_reports: 1,
            status_reports: 2,
            acknowledgements_sent: 1,
            ..Statistics::default()
        }
    );
    let expected = [
        event(&status(0)),
        event(&status(0x80)),
        event(&imu()),
        event(&response(0x8d, 0, &[])),
        event(&response(0x8c, 0, &[])),
    ];
    assert!(run.pending().iter().eq(expected.iter()));
}

#[test]
fn failures_to_read_name_the_step_once_there_is_one() {
    let (mut startup, _) = started(StartupMode::Full);
    assert_eq!(
        startup.advance(Outcome::Failed(TransportError::Disconnected)),
        Action::Failed(TransportError::Disconnected)
    );
    assert_eq!(startup.phase(), Phase::Failed);
    assert!(!startup.is_expected(&Outcome::TimedOut));

    let (mut startup, _) = started(StartupMode::Full);
    startup.advance(Outcome::TimedOut);
    startup.advance(Outcome::Written);
    assert_eq!(
        startup.advance(Outcome::Failed(TransportError::Disconnected)),
        Action::Failed(TransportError::StartupTransport {
            step: 1,
            source: Box::new(TransportError::Disconnected)
        })
    );
}

#[test]
fn a_failed_acknowledgement_during_a_step_names_both() {
    let mut script = Script::default();
    script.timeout();
    script.complete_step(0);
    script.write(request(1));
    script.read(status(0x80));
    script.actions.push_back(Scripted::FailWrite(whole(&[
        0, 0xaa, 0x11, 0x0b, 5, 1, 0xcc,
    ])));
    let run = initialize(script, StartupMode::FirstTwo);
    assert_eq!(
        run.result,
        Err(TransportError::StartupTransport {
            step: 2,
            source: Box::new(TransportError::AcknowledgementFailed(Box::new(timed_out())))
        })
    );
}

#[test]
fn a_deadline_out_of_range_is_not_blamed_on_a_step() {
    let (mut startup, _) = started(StartupMode::Full);
    assert_eq!(
        startup.advance(Outcome::NoDeadline),
        Action::Failed(TransportError::InvalidTimeout)
    );
    let (mut startup, _) = started(StartupMode::Full);
    startup.advance(Outcome::TimedOut);
    assert!(startup.is_expected(&Outcome::NoDeadline));
    assert!(!startup.is_expected(&Outcome::TimedOut));
    assert_eq!(
        startup.advance(Outcome::NoDeadline),
        Action::Failed(TransportError::InvalidTimeout)
    );
}

#[test]
fn messages_are_padded_and_acknowledgements_keep_flags() {
    assert_eq!(padded(&[1, 2]), whole(&[1, 2]));
    assert_eq!(padded(&[7; 65]), [7; 65]);
    let mut raw = status(0x80);
    raw[1] = 0xe1;
    checksum(&mut raw);
    let update = parse_status_report(&raw).unwrap();
    assert_eq!(
        acknowledgement(&update),
        whole(&[0, 0xaa, 0xf1, 0x0b, 5, 1, 0xac])
    );
    assert_eq!(current_proximity(), request(11));
    assert_eq!(WRITE_TIMEOUT_MILLIS, 1000);
    assert_eq!(StartupMode::default(), StartupMode::Full);
}

fn connected() -> DeviceSession {
    let mut script = Script::default();
    script.read(status(1));
    script.read(imu());
    let run = initialize(script, StartupMode::FirstTwo);
    DeviceSession::establish(run.startup).unwrap()
}

fn incoming(bytes: [u8; 64]) -> Incoming {
    Incoming { bytes, len: 64 }
}

#[test]
fn a_session_gives_buffered_events_first() {
    let mut session = connected();
    assert_eq!(session.device().path(), "/dev/hidraw4");
    assert_eq!(
        session.connection_info(),
        ConnectionInfo {
            startup_performed: false,
            startup_mode: StartupMode::FirstTwo
        }
    );
    assert_eq!(session.statistics().imu_reports, 1);
    assert_eq!(
        session.request_current_proximity(),
        FixedWrite {
            report: current_proximity(),
            millis: 1000
        }
    );
    assert_eq!(session.next_event(), Some(event(&status(1))));
    assert_eq!(session.next_event(), Some(event(&imu())));
    assert_eq!(session.next_event(), None);
    assert_eq!(session.next_event(), None);
}

#[test]
fn a_session_delivers_an_event_only_after_its_acknowledgement() {
    let mut session = connected();
    let request = FixedWrite {
        report: whole(&[0, 0xaa, 0x11, 0x0b, 5, 1, 0xcc]),
        millis: 1000,
    };
    assert!(!session.is_awaiting());
    assert_eq!(
        session.receive(&incoming(status(0x80))),
        Ok(Received::Acknowledge(request))
    );
    assert!(session.is_awaiting());
    assert_eq!(session.statistics().acknowledgements_sent, 0);
    assert_eq!(session.acknowledged(Ok(())), Ok(event(&status(0x80))));
    assert!(!session.is_awaiting());
    assert_eq!(session.statistics().acknowledgements_sent, 1);

    assert_eq!(
        session.receive(&incoming(status(0x80))),
        Ok(Received::Acknowledge(request))
    );
    assert_eq!(
        session.acknowledged(Err(TransportError::WriteTimeout)),
        Err(TransportError::AcknowledgementFailed(Box::new(
            TransportError::WriteTimeout
        )))
    );
    assert!(!session.is_awaiting());
    assert_eq!(session.statistics().acknowledgements_sent, 1);
    assert_eq!(session.statistics().status_reports, 3);

    assert_eq!(
        session.receive(&incoming(status(1))),
        Ok(Received::Event(event(&status(1))))
    );
    assert_eq!(
        session.receive(&incoming([0; 64])),
        Err(TransportError::InvalidReport(
            ParseError::InvalidProtocolLength { actual: 0 }
        ))
    );
    assert_eq!(session.statistics().invalid_reports, 1);
}

#[test]
fn an_unfinished_procedure_makes_no_session() {
    let (startup, action) = started(StartupMode::Full);
    assert_eq!(action, Action::Listen { millis: 500 });
    assert_eq!(startup.phase(), Phase::Listening);
    assert!(DeviceSession::establish(startup).is_none());
}

#[test]
fn a_write_exceeds_neither_its_limit_nor_the_deadline() {
    let write = connected().request_current_proximity();
    for (remaining, limit) in [
        (0, 0),
        (1, 1),
        (999_999_999, 999_999_999),
        (1_000_000_000, 1_000_000_000),
        (1_000_000_001, 1_000_000_000),
        (3_500_000_000, 1_000_000_000),
        (u128::MAX, 1_000_000_000),
    ] {
        assert_eq!(write_limit(remaining, &write), limit);
    }
}

#[test]
fn the_samples_kept_are_the_newest() {
    let sample = |tick: u16| {
        let mut raw = imu();
        raw[40..42].copy_from_slice(&tick.to_le_bytes());
        checksum(&mut raw);
        raw
    };
    let mut script = Script::default();
    script.timeout();
    script.write(request(0));
    for tick in 0..300 {
        script.read(sample(tick));
    }
    script.read(response(0x8c, 0, &[]));
    let run = initialize(script, StartupMode::StreamOnly);
    assert_eq!(run.statistics().imu_reports, 300);
    assert_eq!(run.statistics().dropped_imu_reports, 45);
    let kept: Vec<Event> = (45..300).map(|tick| event(&sample(tick))).collect();
    assert!(run.pending().iter().take(255).eq(kept.iter()));
    assert_eq!(run.pending()[255], event(&response(0x8c, 0, &[])));
}

#[test]
fn one_response_completes_one_step_only() {
    let mut script = Script::default();
    script.timeout();
    for index in 0..5 {
        script.complete_step(index);
    }
    // The next request has the same command and needs a response of its own.
    script.write(request(5));
    script.timeout();
    let run = initialize(script, StartupMode::Full);
    assert!(matches!(
        run.result,
        Err(TransportError::StartupTimeout { step: 6, .. })
    ));
    assert_eq!(run.io.writes.len(), 6);

    // A response that comes before its request does not count.
    let mut script = Script::default();
    script.read(response(0x8c, 0, &[]));
    script.timeout();
    script.write(request(0));
    script.timeout();
    let run = initialize(script, StartupMode::Full);
    assert!(matches!(
        run.result,
        Err(TransportError::StartupTimeout { step: 1, .. })
    ));
}

#[test]
fn counters_have_room_until_one_is_full() {
    assert!(Statistics::default().has_room());
    assert!(!Statistics {
        imu_reports: u64::MAX,
        ..Statistics::default()
    }
    .has_room());
}
