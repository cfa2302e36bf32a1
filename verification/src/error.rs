//! Transport failures.

use crate::codec::ParseError;
use crate::node::DeviceInfo;
use crate::os::OsError;
use vstd::prelude::*;

verus! {

/// Metadata of a rejected input, without any payload bytes.
#[derive(Debug, Clone, Copy, PartialEq, Eq)]
pub struct RejectedReport {
    /// Validation failure.
    pub error: ParseError,
    /// Unvalidated byte 1, if present.
    pub flags_version: Option<u8>,
    /// Unvalidated type/command byte 2, if present.
    pub report_type: Option<u8>,
    /// Unvalidated length byte 3, if present.
    pub protocol_length: Option<u8>,
}

/// Transport failures. Errors never carry incoming command-response payloads.
#[allow(inconsistent_fields)]
#[derive(Debug, PartialEq, Eq)]
#[non_exhaustive]
pub enum TransportError {
    /// No USB device with the supported VID/PID was found.
    NoDevice,
    /// Explicit node selection is needed; discovery never picks by path order.
    MultipleDevices(Vec<DeviceInfo>),
    /// Only direct `/dev/hidrawN` node paths are accepted. The bytes are the refused path.
    InvalidPath(Vec<u8>),
    /// Sysfs or the opened descriptor identifies a different device.
    IdentityMismatch(String),
    /// An operating-system error, with operation and node context.
    Io {
        /// Operation that failed.
        operation: &'static str,
        /// Path involved.
        path: String,
        /// Underlying OS error.
        source: OsError,
    },
    /// The device disconnected or returned an end-of-file indication.
    Disconnected,
    /// An incoming report was consumed but rejected; reading may continue.
    InvalidReport(ParseError),
    /// A startup response did not arrive within its fixed deadline.
    StartupTimeout {
        /// One-based startup step.
        step: usize,
        /// Number of malformed reports consumed while waiting at this step.
        invalid_reports: u64,
        /// Last malformed report at this step, if any; no payload is retained.
        last_rejected_report: Option<RejectedReport>,
        /// Valid IMU reports received since opening, including the passive window.
        imu_reports: u64,
        /// Valid status reports received since opening, including the passive window.
        status_reports: u64,
        /// Requested acknowledgements sent since opening.
        acknowledgements_sent: u64,
    },
    /// A matching startup command returned a nonzero status.
    CommandFailed {
        /// One-based startup step.
        step: usize,
        /// Received command ID.
        command_id: u8,
        /// Nonzero status code.
        status: u8,
    },
    /// An I/O failure occurred while performing a specific startup step.
    StartupTransport {
        /// One-based startup step.
        step: usize,
        /// Failure of the fixed request, response read or requested acknowledgement.
        source: Box<TransportError>,
    },
    /// A requested status acknowledgement could not be sent.
    AcknowledgementFailed(Box<TransportError>),
    /// A fixed write could not complete within its deadline.
    WriteTimeout,
    /// A write accepted fewer than 65 bytes. The remainder is never sent.
    ShortWrite {
        /// Number of bytes accepted by the OS.
        actual: usize,
    },
    /// More than 256 non-IMU events arrived during connection.
    EventBufferFull,
    /// The requested timeout cannot be represented by the monotonic clock.
    InvalidTimeout,
}

/// Whether an error is an operating-system error of the operation on the path.
pub open spec fn is_io_error(
    error: TransportError,
    operation: Seq<char>,
    path: Seq<char>,
    source: OsError,
) -> bool {
    match error {
        TransportError::Io { operation: found, path: at, source: cause } => {
            &&& found@ == operation
            &&& at@ == path
            &&& cause == source
        },
        _ => false,
    }
}

/// The operating-system error of an operation on a path.
pub fn io_error(operation: &'static str, path: String, source: OsError) -> (error: TransportError)
    ensures
        is_io_error(error, operation@, path@, source),
{
    TransportError::Io { operation, path, source }
}

/// An operating-system error tells the operation, the path and the cause.
pub proof fn law_io_errors_tell_their_cause(
    error: TransportError,
    operation: Seq<char>,
    path: Seq<char>,
    source: OsError,
)
    ensures
        is_io_error(error, operation, path, source) <==> {
            &&& error is Io
            &&& error->operation@ == operation
            &&& error->Io_path@ == path
            &&& error->Io_source == source
        },
{
}

} // verus!
