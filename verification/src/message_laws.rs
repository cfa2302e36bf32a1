//! What holds of the messages of errors.

use crate::codec::{ImuChannel, ParseError};
use crate::error::{RejectedReport, TransportError};
use crate::message::{advice, counters, quoted};
use crate::node::DeviceInfo;
use crate::os::{OsError, OsErrorKind};
use crate::text::{decimal, digit_text, hex_byte};
use vstd::prelude::*;

verus! {

/// Digits are the usual ones: `0` to `9`, then `a` to `f`.
pub proof fn law_digits_are_the_usual_ones(digit: int)
    requires
        0 <= digit < 16,
    ensures
        digit_text(digit).len() == 1,
        digit < 10 ==> digit_text(digit)[0] as int == 0x30 + digit,
        digit >= 10 ==> digit_text(digit)[0] as int == 0x61 + digit - 10,
{
    reveal_strlit("0");
    reveal_strlit("1");
    reveal_strlit("2");
    reveal_strlit("3");
    reveal_strlit("4");
    reveal_strlit("5");
    reveal_strlit("6");
    reveal_strlit("7");
    reveal_strlit("8");
    reveal_strlit("9");
    reveal_strlit("a");
    reveal_strlit("b");
    reveal_strlit("c");
    reveal_strlit("d");
    reveal_strlit("e");
    reveal_strlit("f");
}

/// A number below ten is its digit; ten times a number and a digit is that number and
/// the digit behind it.
pub proof fn law_decimal_is_positional(number: nat, digit: nat)
    requires
        digit < 10,
    ensures
        decimal(digit) == digit_text(digit as int),
        number > 0 ==> decimal(10 * number + digit) == decimal(number) + digit_text(digit as int),
{
    assert((10 * number + digit) / 10 == number);
    assert((10 * number + digit) % 10 == digit);
}

/// A byte is `0x` and two digits, which make it up.
pub proof fn law_bytes_are_two_digits(high: u8, low: u8)
    requires
        high < 16,
        low < 16,
    ensures
        hex_byte((16 * high + low) as u8) == "0x"@ + digit_text(high as int) + digit_text(
            low as int,
        ),
{
    let byte = (16 * high + low) as u8;
    assert(byte / 16 == high && byte % 16 == low);
}

/// The message of a validation failure says what was expected and what was received.
pub proof fn law_parse_errors_say_what_was_received(
    size: usize,
    expected: u8,
    actual: u8,
    channel: ImuChannel,
    axis: usize,
)
    ensures
        (ParseError::WrongInputSize { actual: size }).text() == "expected 64 report bytes, got "@
            + decimal(size as nat),
        (ParseError::UnsupportedVersion { version: actual }).text()
            == "unsupported protocol version "@ + decimal(actual as nat),
        (ParseError::WrongReportType { expected, actual }).text() == "expected report type "@
            + hex_byte(expected) + ", got "@ + hex_byte(actual),
        (ParseError::InvalidProtocolLength { actual }).text() == "checksum offset "@ + decimal(
            actual as nat,
        ) + " is outside 4..=63"@,
        (ParseError::WrongProtocolLength { expected, actual }).text()
            == "expected protocol length "@ + decimal(expected as nat) + ", got "@ + decimal(
            actual as nat,
        ),
        (ParseError::ResponseTooShort { actual }).text() == "response length "@ + decimal(
            actual as nat,
        ) + " has no status byte"@,
        (ParseError::ChecksumMismatch { expected, actual }).text() == "expected checksum "@
            + hex_byte(expected) + ", got "@ + hex_byte(actual),
        (ParseError::InvalidFloat { channel, axis }).text() == "invalid "@ + match channel {
            ImuChannel::Acceleration => "Acceleration"@,
            ImuChannel::AngularVelocity => "AngularVelocity"@,
            ImuChannel::MagneticField => "MagneticField"@,
        } + " channel at axis "@ + decimal(axis as nat),
{
}

/// The message of a rejection is that of its error, followed by the envelope exactly if
/// all of it is known.
pub proof fn law_rejections_show_a_whole_envelope(
    rejected: RejectedReport,
    flags: u8,
    kind: u8,
    length: u8,
)
    ensures
        rejected.flags_version == Some(flags) && rejected.report_type == Some(kind)
            && rejected.protocol_length == Some(length) ==> rejected.text()
            == rejected.error.text() + " (flags/version="@ + hex_byte(flags) + ", type="@
            + hex_byte(kind) + ", length="@ + decimal(length as nat) + ")"@,
        rejected.flags_version is None || rejected.report_type is None
            || rejected.protocol_length is None ==> rejected.text() == rejected.error.text(),
{
}

/// An error that has another as its source says where that happened and then what the
/// other says.
pub proof fn law_sources_are_told(
    step: usize,
    source: TransportError,
    error: ParseError,
    refused: Seq<char>,
)
    ensures
        (TransportError::StartupTransport { step, source: Box::new(source) }).text(refused)
            == "startup step "@ + decimal(step as nat) + ": "@ + source.text(refused),
        TransportError::AcknowledgementFailed(Box::new(source)).text(refused)
            == "requested status acknowledgement: "@ + source.text(refused),
        TransportError::InvalidReport(error).text(refused) == "invalid incoming report: "@
            + error.text(),
        (TransportError::StartupTransport { step, source: Box::new(source) }).refused_path()
            == source.refused_path(),
        TransportError::AcknowledgementFailed(Box::new(source)).refused_path()
            == source.refused_path(),
{
    reveal_with_fuel(TransportError::text, 2);
    reveal_with_fuel(TransportError::refused_path, 2);
}

/// A refused path is told, and what a mismatched node is not.
pub proof fn law_refused_nodes_are_told(path: Vec<u8>, node: String, refused: Seq<char>)
    ensures
        TransportError::InvalidPath(path).refused_path() == path@,
        TransportError::InvalidPath(path).text(refused) == refused
            + " is not a direct /dev/hidrawN path"@,
        TransportError::IdentityMismatch(node).text(refused) == node@
            + " is not USB 2c30:1050; refusing access"@,
        TransportError::IdentityMismatch(node).refused_path().len() == 0,
{
}

/// An operating-system error says the operation, the path and the description of the
/// cause; it advises where access is denied, or else where the device is busy (error
/// number 16), and nowhere else.
pub proof fn law_system_errors_advise(
    operation: &'static str,
    path: String,
    source: OsError,
    refused: Seq<char>,
)
    ensures
        (TransportError::Io { operation, path, source }).text(refused) == operation@ + " "@ + path@
            + ": "@ + source.text@ + (if source.kind == OsErrorKind::PermissionDenied {
            "; ask the system administrator for read/write access to this node"@
        } else if source.code == Some(16i32) {
            "; close the other reader or driver before trying again"@
        } else {
            ""@
        }),
        advice(source).len() > 0 ==> source.kind == OsErrorKind::PermissionDenied || source.code
            == Some(16i32),
{
    reveal_strlit("");
}

/// A startup timeout says the step and every counter, and after them what the last
/// rejection says, if there was one.
pub proof fn law_timeouts_say_the_counters(
    step: usize,
    invalid: u64,
    rejected: RejectedReport,
    imu: u64,
    status: u64,
    sent: u64,
    refused: Seq<char>,
)
    ensures
        counters(step, invalid, imu, status, sent) == "startup step "@ + decimal(step as nat)
            + " timed out; invalid_reports="@ + decimal(invalid as nat) + ", total_imu="@ + decimal(
            imu as nat,
        ) + ", total_status="@ + decimal(status as nat) + ", acks_sent="@ + decimal(sent as nat)
            + "; no automatic retry was attempted"@,
        (TransportError::StartupTimeout {
            step,
            invalid_reports: invalid,
            last_rejected_report: Some(rejected),
            imu_reports: imu,
            status_reports: status,
            acknowledgements_sent: sent,
        }).text(refused) == counters(step, invalid, imu, status, sent) + (
        "; last rejected report: "@ + rejected.text()),
        (TransportError::StartupTimeout {
            step,
            invalid_reports: invalid,
            last_rejected_report: None,
            imu_reports: imu,
            status_reports: status,
            acknowledgements_sent: sent,
        }).text(refused) == counters(step, invalid, imu, status, sent),
{
    reveal_strlit("");
    assert(counters(step, invalid, imu, status, sent) + ""@ =~= counters(
        step,
        invalid,
        imu,
        status,
        sent,
    ));
}

/// The other failures say what happened, with the numbers that belong to it.
pub proof fn law_failures_say_what_happened(
    step: usize,
    command_id: u8,
    status: u8,
    actual: usize,
    refused: Seq<char>,
)
    ensures
        (TransportError::CommandFailed { step, command_id, status }).text(refused)
            == "startup step "@ + decimal(step as nat) + " (command "@ + hex_byte(command_id)
            + ") failed with status "@ + hex_byte(status),
        (TransportError::ShortWrite { actual }).text(refused) == "HID write accepted "@ + decimal(
            actual as nat,
        ) + " bytes instead of 65; request was not retried"@,
        TransportError::NoDevice.text(refused)
            == "no USB VRG9080 (2c30:1050) found in /sys/class/hidraw"@,
        TransportError::Disconnected.text(refused) == "hidraw device disconnected"@,
        TransportError::WriteTimeout.text(refused) == "fixed HID write timed out"@,
        TransportError::EventBufferFull.text(refused)
            == "connection event buffer is full of non-IMU events"@,
        TransportError::InvalidTimeout.text(refused)
            == "timeout exceeds the monotonic clock range"@,
{
}

/// Several devices are listed in brackets, each in quotes and after a comma but for the
/// first.
pub proof fn law_devices_are_listed_in_quotes(
    devices: Vec<DeviceInfo>,
    listed: Seq<DeviceInfo>,
    device: DeviceInfo,
    refused: Seq<char>,
)
    ensures
        TransportError::MultipleDevices(devices).text(refused)
            == "multiple matching nodes found (["@ + quoted(devices@)
            + "]); select one explicitly"@,
        quoted(Seq::<DeviceInfo>::empty()).len() == 0,
        quoted(seq![device]) == "\""@ + device@ + "\""@,
        listed.len() > 0 ==> quoted(listed.push(device)) == quoted(listed) + ", "@ + ("\""@
            + device@ + "\""@),
{
    reveal_strlit("");
    assert(listed.push(device).drop_last() =~= listed);
}

} // verus!
