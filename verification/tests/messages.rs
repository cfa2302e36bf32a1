//! The exact messages of errors.

use vrg9080_protocol::discovery::SysfsEntry;
use vrg9080_protocol::os::{OsError, OsErrorKind};
use vrg9080_protocol::{
    discover_devices, DeviceSession, ImuChannel, ParseError, RejectedReport, TransportError,
};

fn io_error(kind: OsErrorKind, code: Option<i32>) -> TransportError {
    TransportError::Io {
        operation: "open hidraw node",
        path: "/dev/hidraw1".to_string(),
        source: OsError {
            kind,
            code,
            text: "cause".to_string(),
        },
    }
}

#[test]
fn parse_errors_say_what_was_expected() {
    let expected = [
        (
            ParseError::WrongInputSize { actual: 63 },
            "expected 64 report bytes, got 63",
        ),
        (
            ParseError::UnsupportedVersion { version: 15 },
            "unsupported protocol version 15",
        ),
        (
            ParseError::WrongReportType {
                expected: 0x0a,
                actual: 0xf1,
            },
            "expected report type 0x0a, got 0xf1",
        ),
        (
            ParseError::InvalidProtocolLength { actual: 255 },
            "checksum offset 255 is outside 4..=63",
        ),
        (
            ParseError::WrongProtocolLength {
                expected: 44,
                actual: 0,
            },
            "expected protocol length 44, got 0",
        ),
        (
            ParseError::ResponseTooShort { actual: 4 },
            "response length 4 has no status byte",
        ),
        (
            ParseError::ChecksumMismatch {
                expected: 0,
                actual: 0xbc,
            },
            "expected checksum 0x00, got 0xbc",
        ),
        (
            ParseError::InvalidFloat {
                channel: ImuChannel::Acceleration,
                axis: 0,
            },
            "invalid Acceleration channel at axis 0",
        ),
        (
            ParseError::InvalidFloat {
                channel: ImuChannel::AngularVelocity,
                axis: 1,
            },
            "invalid AngularVelocity channel at axis 1",
        ),
        (
            ParseError::InvalidFloat {
                channel: ImuChannel::MagneticField,
                axis: 2,
            },
            "invalid MagneticField channel at axis 2",
        ),
    ];
    for (error, message) in expected {
        assert_eq!(error.message(), message);
    }
    assert_eq!(
        ParseError::WrongInputSize { actual: 4294967295 }.message(),
        "expected 64 report bytes, got 4294967295"
    );
}

#[test]
fn rejections_show_the_envelope_only_when_it_is_complete() {
    let rejected = RejectedReport {
        error: ParseError::ResponseTooShort { actual: 4 },
        flags_version: Some(0x11),
        report_type: Some(0x4a),
        protocol_length: Some(4),
    };
    assert_eq!(
        rejected.message(),
        "response length 4 has no status byte (flags/version=0x11, type=0x4a, length=4)"
    );
    let partial = RejectedReport {
        protocol_length: None,
        ..rejected
    };
    assert_eq!(partial.message(), "response length 4 has no status byte");
}

#[test]
fn transport_errors_say_what_happened() {
    let boxed = || Box::new(TransportError::Disconnected);
    let expected = [
        (
            TransportError::NoDevice,
            "no USB VRG9080 (2c30:1050) found in /sys/class/hidraw",
        ),
        (
            TransportError::IdentityMismatch("/dev/hidraw3".to_string()),
            "/dev/hidraw3 is not USB 2c30:1050; refusing access",
        ),
        (TransportError::Disconnected, "hidraw device disconnected"),
        (
            TransportError::InvalidReport(ParseError::WrongInputSize { actual: 1 }),
            "invalid incoming report: expected 64 report bytes, got 1",
        ),
        (
            TransportError::CommandFailed {
                step: 12,
                command_id: 0x4a,
                status: 7,
            },
            "startup step 12 (command 0x4a) failed with status 0x07",
        ),
        (
            TransportError::StartupTransport {
                step: 3,
                source: boxed(),
            },
            "startup step 3: hidraw device disconnected",
        ),
        (
            TransportError::AcknowledgementFailed(boxed()),
            "requested status acknowledgement: hidraw device disconnected",
        ),
        (TransportError::WriteTimeout, "fixed HID write timed out"),
        (
            TransportError::ShortWrite { actual: 64 },
            "HID write accepted 64 bytes instead of 65; request was not retried",
        ),
        (
            TransportError::EventBufferFull,
            "connection event buffer is full of non-IMU events",
        ),
        (
            TransportError::InvalidTimeout,
            "timeout exceeds the monotonic clock range",
        ),
    ];
    for (error, message) in expected {
        assert_eq!(error.message(), message);
    }
}

#[test]
fn a_startup_timeout_gives_the_counters_and_the_last_rejection() {
    let timeout = |last_rejected_report| TransportError::StartupTimeout {
        step: 1,
        invalid_reports: 2,
        last_rejected_report,
        imu_reports: 30,
        status_reports: 400,
        acknowledgements_sent: 18446744073709551615,
    };
    let counters = "startup step 1 timed out; invalid_reports=2, total_imu=30, \
                    total_status=400, acks_sent=18446744073709551615; \
                    no automatic retry was attempted";
    assert_eq!(timeout(None).message(), counters);
    let rejected = RejectedReport {
        error: ParseError::WrongInputSize { actual: 2 },
        flags_version: Some(1),
        report_type: None,
        protocol_length: None,
    };
    assert_eq!(
        timeout(Some(rejected)).message(),
        format!("{counters}; last rejected report: expected 64 report bytes, got 2")
    );
}

#[test]
fn operating_system_errors_come_with_advice() {
    assert_eq!(
        io_error(OsErrorKind::Other, None).message(),
        "open hidraw node /dev/hidraw1: cause"
    );
    assert_eq!(
        io_error(OsErrorKind::PermissionDenied, Some(13)).message(),
        "open hidraw node /dev/hidraw1: cause; \
         ask the system administrator for read/write access to this node"
    );
    assert_eq!(
        io_error(OsErrorKind::Other, Some(libc::EBUSY)).message(),
        "open hidraw node /dev/hidraw1: cause; \
         close the other reader or driver before trying again"
    );
    assert_eq!(
        io_error(OsErrorKind::Other, Some(libc::EBUSY + 1)).message(),
        "open hidraw node /dev/hidraw1: cause"
    );
    assert_eq!(
        io_error(OsErrorKind::PermissionDenied, Some(libc::EBUSY)).message(),
        io_error(OsErrorKind::PermissionDenied, Some(13)).message()
    );
}

#[test]
fn a_refused_path_is_shown_even_if_it_is_not_text() {
    let message = |path: &[u8]| DeviceSession::open(path).unwrap_err().message();
    assert_eq!(
        message("/dev/h\u{ef}draw1".as_bytes()),
        "/dev/h\u{ef}draw1 is not a direct /dev/hidrawN path"
    );
    assert_eq!(
        message(b"/dev/hid\xffraw1"),
        "/dev/hid\u{fffd}raw1 is not a direct /dev/hidrawN path"
    );
    assert_eq!(message(b""), " is not a direct /dev/hidrawN path");
    let nested = TransportError::AcknowledgementFailed(Box::new(TransportError::InvalidPath(
        b"\x80".to_vec(),
    )));
    assert_eq!(
        nested.message(),
        "requested status acknowledgement: \u{fffd} is not a direct /dev/hidrawN path"
    );
    assert_eq!(
        TransportError::InvalidPath(b"\x80".to_vec()).message_with("there"),
        "there is not a direct /dev/hidrawN path"
    );
}

#[test]
fn several_devices_are_listed_in_quotes() {
    let entry = |name: &str| {
        Ok(SysfsEntry {
            name: name.as_bytes().to_vec(),
            uevent: Ok("HID_ID=3:2c30:1050".to_string()),
        })
    };
    let error = DeviceSession::connect(Ok(vec![
        entry("hidraw2"),
        entry("hidraw1"),
        entry("hidraw10"),
    ]))
    .unwrap_err();
    assert_eq!(
        error.message(),
        "multiple matching nodes found ([\"/dev/hidraw1\", \"/dev/hidraw10\", \"/dev/hidraw2\"]); \
         select one explicitly"
    );
    let one = discover_devices(Ok(vec![entry("hidraw1")])).unwrap();
    assert_eq!(
        TransportError::MultipleDevices(one).message(),
        "multiple matching nodes found ([\"/dev/hidraw1\"]); select one explicitly"
    );
    assert_eq!(
        TransportError::MultipleDevices(vec![]).message(),
        "multiple matching nodes found ([]); select one explicitly"
    );
}
