//! The messages of errors.

use crate::codec::{ImuChannel, ParseError};
use crate::error::{RejectedReport, TransportError};
use crate::node::DeviceInfo;
use crate::os::{busy_code, ebusy, OsError, OsErrorKind};
use crate::text::{
    decimal, decode_lossy, hex_byte, lossy_utf8, push_decimal, push_hex_byte, push_text,
};
use vstd::prelude::*;

verus! {

impl ImuChannel {
    /// The name of the channel.
    pub open spec fn text(self) -> Seq<char> {
        match self {
            ImuChannel::Acceleration => "Acceleration"@,
            ImuChannel::AngularVelocity => "AngularVelocity"@,
            ImuChannel::MagneticField => "MagneticField"@,
        }
    }

    fn push_to(&self, out: &mut String)
        ensures
            final(out)@ == old(out)@ + self.text(),
    {
        match self {
            ImuChannel::Acceleration => push_text(out, "Acceleration"),
            ImuChannel::AngularVelocity => push_text(out, "AngularVelocity"),
            ImuChannel::MagneticField => push_text(out, "MagneticField"),
        }
    }
}

impl ParseError {
    /// The message of the error.
    pub open spec fn text(self) -> Seq<char> {
        match self {
            ParseError::WrongInputSize { actual } => "expected 64 report bytes, got "@ + decimal(
                actual as nat,
            ),
            ParseError::UnsupportedVersion { version } => "unsupported protocol version "@
                + decimal(version as nat),
            ParseError::WrongReportType { expected, actual } => "expected report type "@ + hex_byte(
                expected,
            ) + ", got "@ + hex_byte(actual),
            ParseError::InvalidProtocolLength { actual } => "checksum offset "@ + decimal(
                actual as nat,
            ) + " is outside 4..=63"@,
            ParseError::WrongProtocolLength { expected, actual } => "expected protocol length "@
                + decimal(expected as nat) + ", got "@ + decimal(actual as nat),
            ParseError::ResponseTooShort { actual } => "response length "@ + decimal(actual as nat)
                + " has no status byte"@,
            ParseError::ChecksumMismatch { expected, actual } => "expected checksum "@ + hex_byte(
                expected,
            ) + ", got "@ + hex_byte(actual),
            ParseError::InvalidFloat { channel, axis } => "invalid "@ + channel.text()
                + " channel at axis "@ + decimal(axis as nat),
        }
    }

    fn push_to(&self, out: &mut String)
        ensures
            final(out)@ == old(out)@ + self.text(),
    {
        match self {
            ParseError::WrongInputSize { actual } => {
                push_text(out, "expected 64 report bytes, got ");
                push_decimal(out, *actual as u64);
            },
            ParseError::UnsupportedVersion { version } => {
                push_text(out, "unsupported protocol version ");
                push_decimal(out, *version as u64);
            },
            ParseError::WrongReportType { expected, actual } => {
                push_text(out, "expected report type ");
                push_hex_byte(out, *expected);
                push_text(out, ", got ");
                push_hex_byte(out, *actual);
            },
            ParseError::InvalidProtocolLength { actual } => {
                push_text(out, "checksum offset ");
                push_decimal(out, *actual as u64);
                push_text(out, " is outside 4..=63");
            },
            ParseError::WrongProtocolLength { expected, actual } => {
                push_text(out, "expected protocol length ");
                push_decimal(out, *expected as u64);
                push_text(out, ", got ");
                push_decimal(out, *actual as u64);
            },
            ParseError::ResponseTooShort { actual } => {
                push_text(out, "response length ");
                push_decimal(out, *actual as u64);
                push_text(out, " has no status byte");
            },
            ParseError::ChecksumMismatch { expected, actual } => {
                push_text(out, "expected checksum ");
                push_hex_byte(out, *expected);
                push_text(out, ", got ");
                push_hex_byte(out, *actual);
            },
            ParseError::InvalidFloat { channel, axis } => {
                push_text(out, "invalid ");
                channel.push_to(out);
                push_text(out, " channel at axis ");
                push_decimal(out, *axis as u64);
            },
        }
        assert(out@ =~= old(out)@ + self.text());
    }

    /// The message of the error.
    pub fn message(&self) -> (message: String)
        ensures
            message@ == self.text(),
    {
        let mut out = String::new();
        self.push_to(&mut out);
        assert(out@ =~= self.text());
        out
    }
}

impl RejectedReport {
    /// The message: the failure and, where all three are known, the envelope bytes.
    pub open spec fn text(self) -> Seq<char> {
        match (self.flags_version, self.report_type, self.protocol_length) {
            (Some(flags), Some(kind), Some(length)) => self.error.text() + " (flags/version="@
                + hex_byte(flags) + ", type="@ + hex_byte(kind) + ", length="@ + decimal(
                length as nat,
            ) + ")"@,
            _ => self.error.text(),
        }
    }

    fn push_to(&self, out: &mut String)
        ensures
            final(out)@ == old(out)@ + self.text(),
    {
        self.error.push_to(out);
        match (self.flags_version, self.report_type, self.protocol_length) {
            (Some(flags), Some(kind), Some(length)) => {
                push_text(out, " (flags/version=");
                push_hex_byte(out, flags);
                push_text(out, ", type=");
                push_hex_byte(out, kind);
                push_text(out, ", length=");
                push_decimal(out, length as u64);
                push_text(out, ")");
            },
            _ => {},
        }
        assert(out@ =~= old(out)@ + self.text());
    }

    /// The message of the rejection.
    pub fn message(&self) -> (message: String)
        ensures
            message@ == self.text(),
    {
        let mut out = String::new();
        self.push_to(&mut out);
        assert(out@ =~= self.text());
        out
    }
}

/// Paths in quotes, separated by a comma and a space.
pub open spec fn quoted(devices: Seq<DeviceInfo>) -> Seq<char>
    decreases devices.len(),
{
    if devices.len() == 0 {
        ""@
    } else if devices.len() == 1 {
        "\""@ + devices[0]@ + "\""@
    } else {
        quoted(devices.drop_last()) + ", "@ + ("\""@ + devices.last()@ + "\""@)
    }
}

fn push_quoted(out: &mut String, devices: &Vec<DeviceInfo>)
    ensures
        final(out)@ == old(out)@ + quoted(devices@),
{
    let mut index: usize = 0;
    proof {
        reveal_strlit("");
        assert(out@ =~= old(out)@ + quoted(devices@.take(0)));
    }
    while index < devices.len()
        invariant
            index <= devices@.len(),
            out@ == old(out)@ + quoted(devices@.take(index as int)),
        decreases devices@.len() - index,
    {
        if index > 0 {
            push_text(out, ", ");
        }
        push_text(out, "\"");
        push_text(out, devices[index].path());
        push_text(out, "\"");
        index += 1;
        proof {
            reveal_strlit("");
            assert(devices@.take(index as int).drop_last() =~= devices@.take(index - 1));
            assert(out@ =~= old(out)@ + quoted(devices@.take(index as int)));
        }
    }
    assert(devices@.take(index as int) =~= devices@);
}

/// What the message of an operating-system error advises.
pub open spec fn advice(source: OsError) -> Seq<char> {
    if source.kind == OsErrorKind::PermissionDenied {
        "; ask the system administrator for read/write access to this node"@
    } else if source.code == Some(busy_code()) {
        "; close the other reader or driver before trying again"@
    } else {
        ""@
    }
}

/// The part of a startup timeout's message that gives the counters.
pub open spec fn counters(
    step: usize,
    invalid_reports: u64,
    imu_reports: u64,
    status_reports: u64,
    acknowledgements_sent: u64,
) -> Seq<char> {
    "startup step "@ + decimal(step as nat) + " timed out; invalid_reports="@ + decimal(
        invalid_reports as nat,
    ) + ", total_imu="@ + decimal(imu_reports as nat) + ", total_status="@ + decimal(
        status_reports as nat,
    ) + ", acks_sent="@ + decimal(acknowledgements_sent as nat)
        + "; no automatic retry was attempted"@
}

fn push_counters(
    out: &mut String,
    step: usize,
    invalid_reports: u64,
    imu_reports: u64,
    status_reports: u64,
    acknowledgements_sent: u64,
)
    ensures
        final(out)@ == old(out)@ + counters(
            step,
            invalid_reports,
            imu_reports,
            status_reports,
            acknowledgements_sent,
        ),
{
    let ghost start = out@;
    let ghost so_far = "startup step "@ + decimal(step as nat) + " timed out; invalid_reports="@
        + decimal(invalid_reports as nat);
    push_text(out, "startup step ");
    push_decimal(out, step as u64);
    push_text(out, " timed out; invalid_reports=");
    push_decimal(out, invalid_reports);
    assert(out@ =~= start + so_far);
    push_text(out, ", total_imu=");
    push_decimal(out, imu_reports);
    let ghost further = so_far + ", total_imu="@ + decimal(imu_reports as nat);
    assert(out@ =~= start + further);
    push_text(out, ", total_status=");
    push_decimal(out, status_reports);
    let ghost nearly = further + ", total_status="@ + decimal(status_reports as nat);
    assert(out@ =~= start + nearly);
    push_text(out, ", acks_sent=");
    push_decimal(out, acknowledgements_sent);
    push_text(out, "; no automatic retry was attempted");
    assert(out@ =~= start + (nearly + ", acks_sent="@ + decimal(acknowledgements_sent as nat)
        + "; no automatic retry was attempted"@));
}

impl TransportError {
    /// The path that an error refuses, directly or as its source; empty if none.
    pub open spec fn refused_path(self) -> Seq<u8>
        decreases self,
    {
        match self {
            TransportError::InvalidPath(path) => path@,
            TransportError::StartupTransport { step, source } => (*source).refused_path(),
            TransportError::AcknowledgementFailed(source) => (*source).refused_path(),
            _ => seq![],
        }
    }

    /// The message of the error, with the refused path given as a text.
    pub open spec fn text(self, refused: Seq<char>) -> Seq<char>
        decreases self,
    {
        match self {
            TransportError::NoDevice => "no USB VRG9080 (2c30:1050) found in /sys/class/hidraw"@,
            TransportError::MultipleDevices(devices) => "multiple matching nodes found (["@
                + quoted(devices@) + "]); select one explicitly"@,
            TransportError::InvalidPath(_) => refused + " is not a direct /dev/hidrawN path"@,
            TransportError::IdentityMismatch(path) => path@
                + " is not USB 2c30:1050; refusing access"@,
            TransportError::Io { operation, path, source } => operation@ + " "@ + path@ + ": "@
                + source.text@ + advice(source),
            TransportError::Disconnected => "hidraw device disconnected"@,
            TransportError::InvalidReport(error) => "invalid incoming report: "@ + error.text(),
            TransportError::StartupTimeout {
                step,
                invalid_reports,
                last_rejected_report,
                imu_reports,
                status_reports,
                acknowledgements_sent,
            } => counters(
                step,
                invalid_reports,
                imu_reports,
                status_reports,
                acknowledgements_sent,
            ) + (match last_rejected_report {
                Some(rejected) => "; last rejected report: "@ + rejected.text(),
                None => ""@,
            }),
            TransportError::CommandFailed { step, command_id, status } => "startup step "@
                + decimal(step as nat) + " (command "@ + hex_byte(command_id)
                + ") failed with status "@ + hex_byte(status),
            TransportError::StartupTransport { step, source } => "startup step "@ + decimal(
                step as nat,
            ) + ": "@ + (*source).text(refused),
            TransportError::AcknowledgementFailed(source) => "requested status acknowledgement: "@
                + (*source).text(refused),
            TransportError::WriteTimeout => "fixed HID write timed out"@,
            TransportError::ShortWrite { actual } => "HID write accepted "@ + decimal(
                actual as nat,
            ) + " bytes instead of 65; request was not retried"@,
            TransportError::EventBufferFull => "connection event buffer is full of non-IMU events"@,
            TransportError::InvalidTimeout => "timeout exceeds the monotonic clock range"@,
        }
    }

    fn push_to(&self, refused: &str, out: &mut String)
        ensures
            final(out)@ == old(out)@ + self.text(refused@),
        decreases self,
    {
        proof {
            reveal_strlit("");
        }
        match self {
            TransportError::NoDevice => {
                push_text(out, "no USB VRG9080 (2c30:1050) found in /sys/class/hidraw");
            },
            TransportError::MultipleDevices(devices) => {
                push_text(out, "multiple matching nodes found ([");
                push_quoted(out, devices);
                push_text(out, "]); select one explicitly");
            },
            TransportError::InvalidPath(_) => {
                push_text(out, refused);
                push_text(out, " is not a direct /dev/hidrawN path");
            },
            TransportError::IdentityMismatch(path) => {
                push_text(out, path.as_str());
                push_text(out, " is not USB 2c30:1050; refusing access");
            },
            TransportError::Io { operation, path, source } => {
                push_text(out, operation);
                push_text(out, " ");
                push_text(out, path.as_str());
                push_text(out, ": ");
                push_text(out, source.text.as_str());
                let busy: bool = match source.code {
                    Some(code) => code == ebusy(),
                    None => false,
                };
                if source.kind == OsErrorKind::PermissionDenied {
                    push_text(
                        out,
                        "; ask the system administrator for read/write access to this node",
                    );
                } else if busy {
                    push_text(out, "; close the other reader or driver before trying again");
                }
            },
            TransportError::Disconnected => {
                push_text(out, "hidraw device disconnected");
            },
            TransportError::InvalidReport(error) => {
                push_text(out, "invalid incoming report: ");
                error.push_to(out);
            },
            TransportError::StartupTimeout {
                step,
                invalid_reports,
                last_rejected_report,
                imu_reports,
                status_reports,
                acknowledgements_sent,
            } => {
                push_counters(
                    out,
                    *step,
                    *invalid_reports,
                    *imu_reports,
                    *status_reports,
                    *acknowledgements_sent,
                );
                match last_rejected_report {
                    Some(rejected) => {
                        push_text(out, "; last rejected report: ");
                        rejected.push_to(out);
                    },
                    None => {},
                }
            },
            TransportError::CommandFailed { step, command_id, status } => {
                push_text(out, "startup step ");
                push_decimal(out, *step as u64);
                push_text(out, " (command ");
                push_hex_byte(out, *command_id);
                push_text(out, ") failed with status ");
                push_hex_byte(out, *status);
            },
            TransportError::StartupTransport { step, source } => {
                push_text(out, "startup step ");
                push_decimal(out, *step as u64);
                push_text(out, ": ");
                source.push_to(refused, out);
            },
            TransportError::AcknowledgementFailed(source) => {
                push_text(out, "requested status acknowledgement: ");
                source.push_to(refused, out);
            },
            TransportError::WriteTimeout => {
                push_text(out, "fixed HID write timed out");
            },
            TransportError::ShortWrite { actual } => {
                push_text(out, "HID write accepted ");
                push_decimal(out, *actual as u64);
                push_text(out, " bytes instead of 65; request was not retried");
            },
            TransportError::EventBufferFull => {
                push_text(out, "connection event buffer is full of non-IMU events");
            },
            TransportError::InvalidTimeout => {
                push_text(out, "timeout exceeds the monotonic clock range");
            },
        }
        assert(out@ =~= old(out)@ + self.text(refused@));
    }

    /// The message of the error, with the refused path given as a text.
    pub fn message_with(&self, refused: &str) -> (message: String)
        ensures
            message@ == self.text(refused@),
    {
        let mut out = String::new();
        self.push_to(refused, &mut out);
        assert(out@ =~= self.text(refused@));
        out
    }

    fn path_bytes(&self) -> (path: Option<&Vec<u8>>)
        ensures
            match path {
                Some(path) => path@ == self.refused_path(),
                None => self.refused_path() == Seq::<u8>::empty(),
            },
        decreases self,
    {
        match self {
            TransportError::InvalidPath(path) => Some(path),
            TransportError::StartupTransport { step: _, source } => source.path_bytes(),
            TransportError::AcknowledgementFailed(source) => source.path_bytes(),
            _ => None,
        }
    }

    /// The message of the error. A refused path that is not UTF-8 is shown with
    /// replacement characters.
    pub fn message(&self) -> (message: String)
        ensures
            message@ == self.text(lossy_utf8(self.refused_path())),
            vstd::utf8::valid_utf8(self.refused_path()) ==> message@ == self.text(
                vstd::utf8::decode_utf8(self.refused_path()),
            ),
    {
        let refused = match self.path_bytes() {
            Some(path) => decode_lossy(path.as_slice()),
            None => {
                let empty: Vec<u8> = Vec::new();
                assert(empty@ =~= self.refused_path());
                decode_lossy(empty.as_slice())
            },
        };
        self.message_with(refused.as_str())
    }
}

} // verus!
