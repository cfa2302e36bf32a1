//! Pure, allocation-free decoding of 64-byte incoming reports.
//!
//! Input excludes the HID report-ID slot. Padding after the checksum is ignored.
//! No function in this module performs I/O or produces outgoing commands.
//!
//! A report starts with an uninterpreted byte, a byte of flags (high nibble) and
//! version (low nibble), a type or command byte, and the protocol length, which is
//! also the offset of the checksum of everything before it.

use crate::binary32::Binary32;
use crate::bits::{lemma_bit_masks, lemma_high_nibble_keeps_response_flag, lemma_nibble_masks};
use vstd::prelude::*;
use vstd::slice::slice_subrange;

verus! {

/// Incoming report size, without a report-ID byte.
pub const REPORT_SIZE: usize = 64;

/// Common metadata, with no meaning assigned to the first byte.
#[derive(Debug, Clone, Copy, PartialEq, Eq)]
pub struct ReportHeader {
    /// Uninterpreted first byte.
    pub header0: u8,
    /// High nibble of byte 1, kept in its original bit positions.
    pub flags: u8,
    /// Low nibble of byte 1 (currently 1).
    pub version: u8,
}

/// One sample in the original wire axis order, without calibration or fusion.
#[derive(Debug, Clone, Copy, PartialEq)]
pub struct ImuFrame {
    /// Uninterpreted first byte.
    pub header0: u8,
    /// High nibble of byte 1, kept in its original bit positions.
    pub flags: u8,
    /// Protocol version.
    pub version: u8,
    /// Acceleration in units of g.
    pub acceleration_g: [Binary32; 3],
    /// Angular velocity in degrees per second.
    pub angular_velocity_deg_s: [Binary32; 3],
    /// Magnetic channels; physical units are unspecified.
    pub magnetic_field_raw: [Binary32; 3],
    /// Wrapping counter with a nominal period of 100 microseconds per tick.
    pub timestamp_ticks: u16,
    /// Unsigned temperature in tenths of a degree Celsius.
    pub temperature_tenths_c: u16,
}

/// An asynchronous status update. Absent mask bits yield `None`, never stale data.
#[derive(Debug, Clone, Copy, PartialEq, Eq)]
pub struct StatusUpdate {
    /// Uninterpreted first byte.
    pub header0: u8,
    /// High nibble of byte 1, kept in its original bit positions.
    pub flags: u8,
    /// Protocol version.
    pub version: u8,
    /// Entire update mask, including unknown bits 4 through 6.
    pub mask: u8,
    /// Raw proximity value when mask bit 0 is set; its scale is unspecified.
    pub proximity: Option<u8>,
    /// Uninterpreted status A, selected by mask bit 1.
    pub status_a: Option<u8>,
    /// Uninterpreted status B, selected by mask bit 2.
    pub status_b: Option<u8>,
    /// Uninterpreted event value, selected by mask bit 3.
    pub event: Option<u8>,
    /// Whether mask bit 7 requests the fixed acknowledgement.
    pub acknowledgement_requested: bool,
}

/// Startup response metadata. Identification and other response data are discarded.
#[derive(Debug, Clone, Copy, PartialEq, Eq)]
pub struct CommandResponse {
    /// Common metadata.
    pub header: ReportHeader,
    /// Received command ID; this is not an outgoing command API.
    pub command_id: u8,
    /// Zero indicates success.
    pub status: u8,
}

/// Response to the fixed current-proximity request.
#[derive(Debug, Clone, Copy, PartialEq, Eq)]
pub struct ProximityResponse {
    /// Common metadata.
    pub header: ReportHeader,
    /// Zero indicates success.
    pub status: u8,
    /// Present only for a successful length-6 response.
    pub proximity: Option<u8>,
    /// Data from a successful length-7 response, in wire order.
    /// Its meaning has not been established; no proximity value is inferred.
    pub uninterpreted_data: Option<[u8; 2]>,
}

/// A validated report. No variant contains raw command-response payloads.
#[derive(Debug, Clone, Copy, PartialEq)]
#[non_exhaustive]
pub enum Event {
    /// IMU sample.
    Imu(ImuFrame),
    /// Status update, possibly including proximity.
    Status(StatusUpdate),
    /// One of the startup commands other than the proximity query.
    StartupResponse(CommandResponse),
    /// Current-proximity response, including command status on failure.
    CurrentProximity(ProximityResponse),
    /// Unrecognized command response, with its data discarded.
    UnsupportedResponse(CommandResponse),
    /// Valid envelope with an unrecognized report type; payload is discarded.
    UnsupportedReport {
        /// Common metadata.
        header: ReportHeader,
        /// Unrecognized type byte.
        report_type: u8,
        /// Checksum offset in the report.
        protocol_length: u8,
    },
}

/// Vector containing an invalid floating-point value.
#[derive(Debug, Clone, Copy, PartialEq, Eq)]
pub enum ImuChannel {
    /// Acceleration vector.
    Acceleration,
    /// Angular velocity vector.
    AngularVelocity,
    /// Magnetic vector.
    MagneticField,
}

/// Validation failure; no partially decoded report is returned.
#[allow(inconsistent_fields)]
#[derive(Debug, Clone, Copy, PartialEq, Eq)]
#[non_exhaustive]
pub enum ParseError {
    /// Input length was not 64.
    WrongInputSize {
        /// Actual input byte count.
        actual: usize,
    },
    /// Version is not supported.
    UnsupportedVersion {
        /// Received low-nibble version.
        version: u8,
    },
    /// Type differs from the specific parser's expected type.
    WrongReportType {
        /// Required type byte.
        expected: u8,
        /// Received type byte.
        actual: u8,
    },
    /// Checksum position is outside the range 4 through 63.
    InvalidProtocolLength {
        /// Received length/checksum offset.
        actual: u8,
    },
    /// Type-specific protocol length is incorrect.
    WrongProtocolLength {
        /// Required length/checksum offset.
        expected: u8,
        /// Received length/checksum offset.
        actual: u8,
    },
    /// A command response lacks its final status byte.
    ResponseTooShort {
        /// Received length/checksum offset.
        actual: u8,
    },
    /// SUM8 does not match the byte at the protocol length offset.
    ChecksumMismatch {
        /// Calculated SUM8.
        expected: u8,
        /// Received checksum byte.
        actual: u8,
    },
    /// A channel is non-finite or its magnitude exceeds 1e9.
    InvalidFloat {
        /// Vector containing the invalid value.
        channel: ImuChannel,
        /// Index in the original wire order (0, 1 or 2).
        axis: usize,
    },
}

// ---------------------------------------------------------------------------
// Wire format
// ---------------------------------------------------------------------------

/// Sum of the bytes as a natural number.
pub open spec fn byte_sum(bytes: Seq<u8>) -> nat
    decreases bytes.len(),
{
    if bytes.len() == 0 {
        0
    } else {
        byte_sum(bytes.drop_last()) + bytes.last() as nat
    }
}

/// SUM8: the sum of the bytes modulo 256.
pub open spec fn checksum(bytes: Seq<u8>) -> u8 {
    (byte_sum(bytes) % 256) as u8
}

/// The metadata that every report carries in its first two bytes.
pub open spec fn header_of(bytes: Seq<u8>) -> ReportHeader {
    ReportHeader {
        header0: bytes[0],
        flags: crate::bits::high_nibble(bytes[1]),
        version: crate::bits::low_nibble(bytes[1]),
    }
}

/// Whether the response flag (bit 4 of byte 1) is set.
pub open spec fn is_response(bytes: Seq<u8>) -> bool {
    crate::bits::has_bit(bytes[1], 0x10)
}

/// What the checks common to all reports find, in the order in which they apply:
/// input size, protocol length, version, checksum.
pub open spec fn envelope_of(bytes: Seq<u8>) -> Result<ReportHeader, ParseError> {
    if bytes.len() != REPORT_SIZE {
        Err(ParseError::WrongInputSize { actual: bytes.len() as usize })
    } else if bytes[3] < 4 || bytes[3] > 63 {
        Err(ParseError::InvalidProtocolLength { actual: bytes[3] })
    } else if header_of(bytes).version != 1 {
        Err(ParseError::UnsupportedVersion { version: header_of(bytes).version })
    } else if checksum(bytes.take(bytes[3] as int)) != bytes[bytes[3] as int] {
        Err(
            ParseError::ChecksumMismatch {
                expected: checksum(bytes.take(bytes[3] as int)),
                actual: bytes[bytes[3] as int],
            },
        )
    } else {
        Ok(header_of(bytes))
    }
}

/// What the checks of a specific report type and protocol length find.
pub open spec fn layout_of(bytes: Seq<u8>, report_type: u8, length: u8) -> Result<
    (),
    ParseError,
> {
    if bytes[2] != report_type {
        Err(ParseError::WrongReportType { expected: report_type, actual: bytes[2] })
    } else if bytes[3] != length {
        Err(ParseError::WrongProtocolLength { expected: length, actual: bytes[3] })
    } else {
        Ok(())
    }
}

/// The unsigned 16-bit little-endian value at `offset`.
pub open spec fn le_u16(bytes: Seq<u8>, offset: int) -> u16 {
    (bytes[offset] + 0x100 * bytes[offset + 1]) as u16
}

/// The single-precision little-endian value at `offset`.
pub open spec fn le_binary32(bytes: Seq<u8>, offset: int) -> Binary32 {
    Binary32 {
        bits: (bytes[offset] + 0x100 * bytes[offset + 1] + 0x1_0000 * bytes[offset + 2]
            + 0x100_0000 * bytes[offset + 3]) as u32,
    }
}

/// Three consecutive values starting at `start`; the first unacceptable one is the error.
pub open spec fn vector_of(bytes: Seq<u8>, start: int, channel: ImuChannel) -> Result<
    [Binary32; 3],
    ParseError,
> {
    if !le_binary32(bytes, start).acceptable() {
        Err(ParseError::InvalidFloat { channel, axis: 0 })
    } else if !le_binary32(bytes, start + 4).acceptable() {
        Err(ParseError::InvalidFloat { channel, axis: 1 })
    } else if !le_binary32(bytes, start + 8).acceptable() {
        Err(ParseError::InvalidFloat { channel, axis: 2 })
    } else {
        Ok(
            [
                le_binary32(bytes, start),
                le_binary32(bytes, start + 4),
                le_binary32(bytes, start + 8),
            ],
        )
    }
}

/// The payload of an IMU report (type `0x0a`, length 44): three vectors of three
/// values at 4, 16 and 28, the timestamp at 40 and the temperature at 42.
pub open spec fn imu_of(bytes: Seq<u8>) -> Result<ImuFrame, ParseError> {
    match layout_of(bytes, 0x0a, 44) {
        Err(error) => Err(error),
        Ok(_) => match (
            vector_of(bytes, 4, ImuChannel::Acceleration),
            vector_of(bytes, 16, ImuChannel::AngularVelocity),
            vector_of(bytes, 28, ImuChannel::MagneticField),
        ) {
            (Err(error), _, _) => Err(error),
            (_, Err(error), _) => Err(error),
            (_, _, Err(error)) => Err(error),
            (Ok(acceleration), Ok(angular_velocity), Ok(magnetic_field)) => Ok(
                ImuFrame {
                    header0: header_of(bytes).header0,
                    flags: header_of(bytes).flags,
                    version: header_of(bytes).version,
                    acceleration_g: acceleration,
                    angular_velocity_deg_s: angular_velocity,
                    magnetic_field_raw: magnetic_field,
                    timestamp_ticks: le_u16(bytes, 40),
                    temperature_tenths_c: le_u16(bytes, 42),
                },
            ),
        },
    }
}

/// `value` where the mask bit is set, `None` where it is not.
pub open spec fn selected(mask: u8, weight: u8, value: u8) -> Option<u8> {
    if crate::bits::has_bit(mask, weight) {
        Some(value)
    } else {
        None
    }
}

/// The payload of a status report (type `0x0b`, length 9): the mask at 4, then the
/// four bytes that its low bits select.
pub open spec fn status_of(bytes: Seq<u8>) -> Result<StatusUpdate, ParseError> {
    match layout_of(bytes, 0x0b, 9) {
        Err(error) => Err(error),
        Ok(_) => Ok(
            StatusUpdate {
                header0: header_of(bytes).header0,
                flags: header_of(bytes).flags,
                version: header_of(bytes).version,
                mask: bytes[4],
                proximity: selected(bytes[4], 0x01, bytes[5]),
                status_a: selected(bytes[4], 0x02, bytes[6]),
                status_b: selected(bytes[4], 0x04, bytes[7]),
                event: selected(bytes[4], 0x08, bytes[8]),
                acknowledgement_requested: crate::bits::has_bit(bytes[4], 0x80),
            },
        ),
    }
}

/// The command IDs of the startup procedure, without the proximity query.
pub open spec fn is_startup_command(command_id: u8) -> bool {
    ||| command_id == 0x8c
    ||| command_id == 0x8d
    ||| command_id == 0x80
    ||| command_id == 0x01
    ||| command_id == 0x7f
    ||| command_id == 0x02
    ||| command_id == 0x40
    ||| command_id == 0x47
    ||| command_id == 0x86
    ||| command_id == 0x4e
    ||| command_id == 0x4f
    ||| command_id == 0x81
}

/// A command response: the command ID at 2 and the status right before the checksum.
/// Data is kept only of a successful proximity query.
pub open spec fn response_of(bytes: Seq<u8>) -> Result<Event, ParseError> {
    let header = header_of(bytes);
    let length = bytes[3];
    let command_id = bytes[2];
    let status = bytes[length - 1];
    if length < 5 {
        Err(ParseError::ResponseTooShort { actual: length })
    } else if command_id != 0x4a {
        let response = CommandResponse { header, command_id, status };
        if is_startup_command(command_id) {
            Ok(Event::StartupResponse(response))
        } else {
            Ok(Event::UnsupportedResponse(response))
        }
    } else if length == 6 {
        Ok(
            Event::CurrentProximity(
                ProximityResponse {
                    header,
                    status,
                    proximity: if status == 0 {
                        Some(bytes[4])
                    } else {
                        None
                    },
                    uninterpreted_data: None,
                },
            ),
        )
    } else if length == 7 {
        Ok(
            Event::CurrentProximity(
                ProximityResponse {
                    header,
                    status,
                    proximity: None,
                    uninterpreted_data: if status == 0 {
                        Some([bytes[4], bytes[5]])
                    } else {
                        None
                    },
                },
            ),
        )
    } else {
        Err(ParseError::WrongProtocolLength { expected: 6, actual: length })
    }
}

/// The outcome of decoding a report of any kind. The response flag takes
/// precedence over the type byte.
pub open spec fn report_of(bytes: Seq<u8>) -> Result<Event, ParseError> {
    match envelope_of(bytes) {
        Err(error) => Err(error),
        Ok(header) => if is_response(bytes) {
            response_of(bytes)
        } else if bytes[2] == 0x0a {
            match imu_of(bytes) {
                Err(error) => Err(error),
                Ok(frame) => Ok(Event::Imu(frame)),
            }
        } else if bytes[2] == 0x0b {
            match status_of(bytes) {
                Err(error) => Err(error),
                Ok(update) => Ok(Event::Status(update)),
            }
        } else {
            Ok(
                Event::UnsupportedReport {
                    header,
                    report_type: bytes[2],
                    protocol_length: bytes[3],
                },
            )
        },
    }
}

/// The outcome of decoding a report that must be an IMU report.
pub open spec fn imu_report_of(bytes: Seq<u8>) -> Result<ImuFrame, ParseError> {
    match envelope_of(bytes) {
        Err(error) => Err(error),
        Ok(_) => imu_of(bytes),
    }
}

/// The outcome of decoding a report that must be a status report.
pub open spec fn status_report_of(bytes: Seq<u8>) -> Result<StatusUpdate, ParseError> {
    match envelope_of(bytes) {
        Err(error) => Err(error),
        Ok(_) => status_of(bytes),
    }
}

// ---------------------------------------------------------------------------
// Decoding
// ---------------------------------------------------------------------------

/// SUM8 of the bytes.
pub fn sum8(bytes: &[u8]) -> (sum: u8)
    ensures
        sum == checksum(bytes@),
{
    let mut sum: u8 = 0;
    let mut index: usize = 0;
    while index < bytes.len()
        invariant
            index <= bytes.len(),
            sum == checksum(bytes@.take(index as int)),
        decreases bytes.len() - index,
    {
        sum = sum.wrapping_add(bytes[index]);
        index += 1;
        assert(bytes@.take(index as int).drop_last() =~= bytes@.take(index - 1));
    }
    assert(bytes@.take(index as int) =~= bytes@);
    sum
}

/// Check size, protocol length, version and checksum.
pub fn envelope(bytes: &[u8]) -> (header: Result<ReportHeader, ParseError>)
    ensures
        header == envelope_of(bytes@),
{
    if bytes.len() != REPORT_SIZE {
        return Err(ParseError::WrongInputSize { actual: bytes.len() });
    }
    let length: u8 = bytes[3];
    if length < 4 || length > 63 {
        return Err(ParseError::InvalidProtocolLength { actual: length });
    }
    proof {
        lemma_nibble_masks(bytes@[1]);
    }
    let version: u8 = bytes[1] & 0x0f;
    if version != 1 {
        return Err(ParseError::UnsupportedVersion { version });
    }
    let expected: u8 = sum8(slice_subrange(bytes, 0, length as usize));
    assert(bytes@.subrange(0, length as int) =~= bytes@.take(length as int));
    let actual: u8 = bytes[length as usize];
    if expected != actual {
        return Err(ParseError::ChecksumMismatch { expected, actual });
    }
    Ok(ReportHeader { header0: bytes[0], flags: bytes[1] & 0xf0, version })
}

/// Check the type byte and the protocol length of a specific report.
pub fn require_layout(bytes: &[u8], report_type: u8, length: u8) -> (checked: Result<
    (),
    ParseError,
>)
    requires
        bytes@.len() >= 4,
    ensures
        checked == layout_of(bytes@, report_type, length),
{
    if bytes[2] != report_type {
        return Err(ParseError::WrongReportType { expected: report_type, actual: bytes[2] });
    }
    if bytes[3] != length {
        return Err(ParseError::WrongProtocolLength { expected: length, actual: bytes[3] });
    }
    Ok(())
}

fn binary32_at(bytes: &[u8], offset: usize) -> (value: Binary32)
    requires
        offset + 4 <= bytes@.len(),
    ensures
        value == le_binary32(bytes@, offset as int),
{
    Binary32 {
        bits: bytes[offset] as u32 + 0x100 * (bytes[offset + 1] as u32) + 0x1_0000 * (bytes[offset
            + 2] as u32) + 0x100_0000 * (bytes[offset + 3] as u32),
    }
}

fn u16_at(bytes: &[u8], offset: usize) -> (value: u16)
    requires
        offset + 2 <= bytes@.len(),
    ensures
        value == le_u16(bytes@, offset as int),
{
    bytes[offset] as u16 + 0x100 * (bytes[offset + 1] as u16)
}

fn vector(bytes: &[u8], start: usize, channel: ImuChannel) -> (decoded: Result<
    [Binary32; 3],
    ParseError,
>)
    requires
        start + 12 <= bytes.len(),
    ensures
        decoded == vector_of(bytes@, start as int, channel),
{
    let mut result = [Binary32 { bits: 0 };3];
    let mut axis: usize = 0;
    while axis < 3
        invariant
            axis <= 3,
            start + 12 <= bytes.len(),
            forall|i: int|
                0 <= i < axis ==> {
                    &&& #[trigger] result@[i] == le_binary32(bytes@, start + 4 * i)
                    &&& result@[i].acceptable()
                },
        decreases 3 - axis,
    {
        let value = binary32_at(bytes, start + axis * 4);
        if !value.is_acceptable() {
            assert(axis > 0 ==> result@[0].acceptable());
            assert(axis > 1 ==> result@[1].acceptable());
            return Err(ParseError::InvalidFloat { channel, axis });
        }
        result[axis] = value;
        axis += 1;
    }
    assert(result@[0].acceptable() && result@[1].acceptable() && result@[2].acceptable());
    assert(result =~= [
        le_binary32(bytes@, start as int),
        le_binary32(bytes@, start + 4),
        le_binary32(bytes@, start + 8),
    ]);
    Ok(result)
}

/// Decode an IMU report, validating envelope, checksum, layout and all nine floats.
pub fn parse_imu_report(bytes: &[u8]) -> (parsed: Result<ImuFrame, ParseError>)
    ensures
        parsed == imu_report_of(bytes@),
{
    match envelope(bytes) {
        Err(error) => Err(error),
        Ok(header) => imu(bytes, header),
    }
}

fn imu(bytes: &[u8], header: ReportHeader) -> (parsed: Result<ImuFrame, ParseError>)
    requires
        bytes@.len() == REPORT_SIZE,
        header == header_of(bytes@),
    ensures
        parsed == imu_of(bytes@),
{
    match require_layout(bytes, 0x0a, 44) {
        Err(error) => {
            return Err(error);
        },
        Ok(_) => {},
    }
    let acceleration_g = match vector(bytes, 4, ImuChannel::Acceleration) {
        Err(error) => {
            return Err(error);
        },
        Ok(values) => values,
    };
    let angular_velocity_deg_s = match vector(bytes, 16, ImuChannel::AngularVelocity) {
        Err(error) => {
            return Err(error);
        },
        Ok(values) => values,
    };
    let magnetic_field_raw = match vector(bytes, 28, ImuChannel::MagneticField) {
        Err(error) => {
            return Err(error);
        },
        Ok(values) => values,
    };
    Ok(
        ImuFrame {
            header0: header.header0,
            flags: header.flags,
            version: header.version,
            acceleration_g,
            angular_velocity_deg_s,
            magnetic_field_raw,
            timestamp_ticks: u16_at(bytes, 40),
            temperature_tenths_c: u16_at(bytes, 42),
        },
    )
}

/// Decode a status report; only mask-selected fields are returned.
pub fn parse_status_report(bytes: &[u8]) -> (parsed: Result<StatusUpdate, ParseError>)
    ensures
        parsed == status_report_of(bytes@),
{
    match envelope(bytes) {
        Err(error) => Err(error),
        Ok(header) => status(bytes, header),
    }
}

fn keep_if(keep: bool, value: u8) -> (kept: Option<u8>)
    ensures
        kept == (if keep {
            Some(value)
        } else {
            None
        }),
{
    if keep {
        Some(value)
    } else {
        None
    }
}

fn status(bytes: &[u8], header: ReportHeader) -> (parsed: Result<StatusUpdate, ParseError>)
    requires
        bytes@.len() == REPORT_SIZE,
        header == header_of(bytes@),
    ensures
        parsed == status_of(bytes@),
{
    match require_layout(bytes, 0x0b, 9) {
        Err(error) => {
            return Err(error);
        },
        Ok(_) => {},
    }
    let mask: u8 = bytes[4];
    proof {
        lemma_bit_masks(mask);
    }
    Ok(
        StatusUpdate {
            header0: header.header0,
            flags: header.flags,
            version: header.version,
            mask,
            proximity: keep_if(mask & 0x01 != 0, bytes[5]),
            status_a: keep_if(mask & 0x02 != 0, bytes[6]),
            status_b: keep_if(mask & 0x04 != 0, bytes[7]),
            event: keep_if(mask & 0x08 != 0, bytes[8]),
            acknowledgement_requested: mask & 0x80 != 0,
        },
    )
}

fn response(bytes: &[u8], header: ReportHeader) -> (parsed: Result<Event, ParseError>)
    requires
        bytes@.len() == REPORT_SIZE,
        4 <= bytes@[3] <= 63,
        header == header_of(bytes@),
    ensures
        parsed == response_of(bytes@),
{
    let length: u8 = bytes[3];
    if length < 5 {
        return Err(ParseError::ResponseTooShort { actual: length });
    }
    let command_id: u8 = bytes[2];
    let status: u8 = bytes[length as usize - 1];
    if command_id == 0x4a {
        if length == 7 {
            let uninterpreted_data = if status == 0 {
                Some([bytes[4], bytes[5]])
            } else {
                None
            };
            return Ok(
                Event::CurrentProximity(
                    ProximityResponse { header, status, proximity: None, uninterpreted_data },
                ),
            );
        }
        return match require_layout(bytes, 0x4a, 6) {
            Err(error) => Err(error),
            Ok(_) => Ok(
                Event::CurrentProximity(
                    ProximityResponse {
                        header,
                        status,
                        proximity: keep_if(status == 0, bytes[4]),
                        uninterpreted_data: None,
                    },
                ),
            ),
        };
    }
    let response = CommandResponse { header, command_id, status };
    match command_id {
        0x8c | 0x8d | 0x80 | 0x01 | 0x7f | 0x02 | 0x40 | 0x47 | 0x86 | 0x4e | 0x4f | 0x81 => Ok(
            Event::StartupResponse(response),
        ),
        _ => Ok(Event::UnsupportedResponse(response)),
    }
}

/// Decode a report, giving the response flag precedence over its type byte.
///
/// Unknown types retain only metadata. Response payloads other than successful
/// current-proximity response data are never returned, including in errors or `Debug`.
pub fn parse_report(bytes: &[u8]) -> (parsed: Result<Event, ParseError>)
    ensures
        parsed == report_of(bytes@),
{
    let header = match envelope(bytes) {
        Err(error) => {
            return Err(error);
        },
        Ok(header) => header,
    };
    proof {
        lemma_bit_masks(header.flags);
        lemma_high_nibble_keeps_response_flag(bytes@[1]);
    }
    if header.flags & 0x10 != 0 {
        return response(bytes, header);
    }
    match bytes[2] {
        0x0a => match imu(bytes, header) {
            Err(error) => Err(error),
            Ok(frame) => Ok(Event::Imu(frame)),
        },
        0x0b => match status(bytes, header) {
            Err(error) => Err(error),
            Ok(update) => Ok(Event::Status(update)),
        },
        report_type => Ok(
            Event::UnsupportedReport { header, report_type, protocol_length: bytes[3] },
        ),
    }
}

} // verus!
