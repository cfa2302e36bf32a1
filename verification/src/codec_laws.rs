//! What holds of decoding as a whole.

use crate::binary32::Binary32;
use crate::bits::{has_bit, high_nibble, lemma_bit_masks, lemma_nibble_masks};
use crate::codec::{
    byte_sum, checksum, envelope_of, imu_report_of, is_response, is_startup_command, layout_of,
    le_binary32, report_of, status_report_of, vector_of, Event, ImuChannel, ImuFrame, ParseError,
    ProximityResponse, StatusUpdate, REPORT_SIZE,
};
use crate::protocol::startup_request;
use vstd::prelude::*;
use vstd::std_specs::cmp::PartialEqSpec;

verus! {

proof fn lemma_sum_update(bytes: Seq<u8>, index: int, value: u8)
    requires
        0 <= index < bytes.len(),
    ensures
        byte_sum(bytes.update(index, value)) == byte_sum(bytes) - bytes[index] + value,
    decreases bytes.len(),
{
    let changed = bytes.update(index, value);
    if index == bytes.len() - 1 {
        assert(changed.drop_last() =~= bytes.drop_last());
    } else {
        assert(changed.drop_last() =~= bytes.drop_last().update(index, value));
        lemma_sum_update(bytes.drop_last(), index, value);
    }
}

/// Bytes after the checksum are ignored: two inputs that agree up to it decode alike.
pub proof fn law_padding_is_ignored(a: Seq<u8>, b: Seq<u8>)
    requires
        a.len() == REPORT_SIZE,
        b.len() == REPORT_SIZE,
        4 <= a[3] <= 63,
        a.take(a[3] + 1) == b.take(a[3] + 1),
    ensures
        report_of(a) == report_of(b),
        imu_report_of(a) == imu_report_of(b),
        status_report_of(a) == status_report_of(b),
{
    let length = a[3] as int;
    assert forall|i: int| 0 <= i <= length implies a[i] == b[i] by {
        assert(a.take(length + 1)[i] == b.take(length + 1)[i]);
    }
    assert(a.take(length) =~= b.take(length));
    if length == 44 {
        assert(vector_of(a, 4, ImuChannel::Acceleration) == vector_of(
            b,
            4,
            ImuChannel::Acceleration,
        ));
        assert(vector_of(a, 16, ImuChannel::AngularVelocity) == vector_of(
            b,
            16,
            ImuChannel::AngularVelocity,
        ));
        assert(vector_of(a, 28, ImuChannel::MagneticField) == vector_of(
            b,
            28,
            ImuChannel::MagneticField,
        ));
    }
}

/// No report survives the corruption of a single byte, other than the length byte,
/// before or at its checksum; and unless that byte holds the version, it is the
/// checksum that gives it away.
pub proof fn law_single_corruption_is_detected(bytes: Seq<u8>, index: int, value: u8)
    requires
        envelope_of(bytes) is Ok,
        0 <= index <= bytes[3],
        index != 3,
        value != bytes[index],
    ensures
        envelope_of(bytes.update(index, value)) is Err,
        index != 1 ==> envelope_of(bytes.update(index, value))->Err_0 is ChecksumMismatch,
{
    let changed = bytes.update(index, value);
    let length = bytes[3] as int;
    if index < length {
        assert(changed.take(length) =~= bytes.take(length).update(index, value));
        lemma_sum_update(bytes.take(length), index, value);
        assert(bytes.take(length)[index] == bytes[index]);
    } else {
        assert(changed.take(length) =~= bytes.take(length));
    }
}

/// Of a command response other than to the proximity query, nothing but the header,
/// the command ID and the status is kept: whatever else two such reports hold, and
/// however long they are, they decode to the same event.
pub proof fn law_response_payload_is_discarded(a: Seq<u8>, b: Seq<u8>)
    requires
        envelope_of(a) is Ok,
        envelope_of(b) is Ok,
        is_response(a),
        a[2] != 0x4a,
        a[3] >= 5,
        b[3] >= 5,
        a[0] == b[0],
        a[1] == b[1],
        a[2] == b[2],
        a[a[3] - 1] == b[b[3] - 1],
    ensures
        report_of(a) == report_of(b),
{
}

/// Of a proximity query that failed, no data is kept either.
pub proof fn law_failed_query_payload_is_discarded(a: Seq<u8>, b: Seq<u8>)
    requires
        envelope_of(a) is Ok,
        envelope_of(b) is Ok,
        is_response(a),
        a[2] == 0x4a,
        a[0] == b[0],
        a[1] == b[1],
        a[2] == b[2],
        a[3] == b[3],
        a[a[3] - 1] == b[b[3] - 1],
        a[a[3] - 1] != 0,
    ensures
        report_of(a) == report_of(b),
{
}

/// Of a report of unrecognized type, nothing but the header, the type and the length
/// is kept.
pub proof fn law_unknown_payload_is_discarded(a: Seq<u8>, b: Seq<u8>)
    requires
        envelope_of(a) is Ok,
        envelope_of(b) is Ok,
        !is_response(a),
        a[2] != 0x0a,
        a[2] != 0x0b,
        a[0] == b[0],
        a[1] == b[1],
        a[2] == b[2],
        a[3] == b[3],
    ensures
        report_of(a) == report_of(b),
{
}

/// The errors of a command response tell its length, never its data.
pub proof fn law_response_errors_hold_no_payload(bytes: Seq<u8>)
    requires
        envelope_of(bytes) is Ok,
        is_response(bytes),
        report_of(bytes) is Err,
    ensures
        report_of(bytes)->Err_0 == if bytes[3] < 5 {
            ParseError::ResponseTooShort { actual: bytes[3] }
        } else {
            ParseError::WrongProtocolLength { expected: 6, actual: bytes[3] }
        },
{
}

/// A proximity value exists only in a successful response of length 6, and
/// uninterpreted data only in a successful response of length 7, in wire order.
pub proof fn law_proximity_data_only_on_success(bytes: Seq<u8>, response: ProximityResponse)
    requires
        report_of(bytes) == Ok::<_, ParseError>(Event::CurrentProximity(response)),
    ensures
        bytes[3] == 6 || bytes[3] == 7,
        response.status == bytes[bytes[3] - 1],
        response.proximity is Some <==> response.status == 0 && bytes[3] == 6,
        response.proximity is Some ==> response.proximity == Some(bytes[4]),
        response.uninterpreted_data is Some <==> response.status == 0 && bytes[3] == 7,
        response.uninterpreted_data is Some ==> response.uninterpreted_data->0@ == seq![
            bytes[4],
            bytes[5],
        ],
{
    if response.uninterpreted_data is Some {
        assert(response.uninterpreted_data->0@ =~= seq![bytes[4], bytes[5]]);
    }
}

/// Decoding a report of any kind agrees with the decoders of one kind, wherever the
/// response flag is not set.
pub proof fn law_decoders_agree(bytes: Seq<u8>, frame: ImuFrame, update: StatusUpdate)
    ensures
        report_of(bytes) == Ok::<_, ParseError>(Event::Imu(frame)) <==> imu_report_of(bytes)
            == Ok::<_, ParseError>(frame) && !is_response(bytes),
        report_of(bytes) == Ok::<_, ParseError>(Event::Status(update)) <==> status_report_of(bytes)
            == Ok::<_, ParseError>(update) && !is_response(bytes),
{
}

/// A field of a status update is present exactly if its mask bit is set.
pub proof fn law_mask_selects_the_fields(bytes: Seq<u8>, update: StatusUpdate)
    requires
        status_report_of(bytes) == Ok::<_, ParseError>(update),
    ensures
        update.mask == bytes[4],
        update.proximity is Some <==> has_bit(update.mask, 0x01),
        update.status_a is Some <==> has_bit(update.mask, 0x02),
        update.status_b is Some <==> has_bit(update.mask, 0x04),
        update.event is Some <==> has_bit(update.mask, 0x08),
        update.acknowledgement_requested <==> has_bit(update.mask, 0x80),
{
}

/// Bytes that the mask does not select are not used: two status reports that agree on
/// all others decode alike.
pub proof fn law_unselected_bytes_are_ignored(a: Seq<u8>, b: Seq<u8>)
    requires
        envelope_of(a) is Ok,
        envelope_of(b) is Ok,
        forall|i: int| 0 <= i <= 4 ==> #[trigger] a[i] == b[i],
        has_bit(a[4], 0x01) ==> a[5] == b[5],
        has_bit(a[4], 0x02) ==> a[6] == b[6],
        has_bit(a[4], 0x04) ==> a[7] == b[7],
        has_bit(a[4], 0x08) ==> a[8] == b[8],
    ensures
        status_report_of(a) == status_report_of(b),
{
}

/// The response flag decides, whatever the type byte is: with it a report is a command
/// response, without it never one.
pub proof fn law_response_flag_takes_precedence(bytes: Seq<u8>)
    requires
        report_of(bytes) is Ok,
    ensures
        is_response(bytes) <==> (report_of(bytes)->Ok_0 is StartupResponse || report_of(
            bytes,
        )->Ok_0 is CurrentProximity || report_of(bytes)->Ok_0 is UnsupportedResponse),
{
}

/// Every value of a decoded IMU sample is finite and at most 1e9 in magnitude.
pub proof fn law_samples_are_acceptable(bytes: Seq<u8>, frame: ImuFrame, axis: int)
    requires
        imu_report_of(bytes) == Ok::<_, ParseError>(frame),
        0 <= axis < 3,
    ensures
        frame.acceleration_g@[axis] == le_binary32(bytes, 4 + 4 * axis),
        frame.angular_velocity_deg_s@[axis] == le_binary32(bytes, 16 + 4 * axis),
        frame.magnetic_field_raw@[axis] == le_binary32(bytes, 28 + 4 * axis),
        frame.acceleration_g@[axis].acceptable(),
        frame.angular_velocity_deg_s@[axis].acceptable(),
        frame.magnetic_field_raw@[axis].acceptable(),
{
}

/// What is decoded keeps the first byte and the flags of the report, and has version 1.
pub proof fn law_header_is_kept(bytes: Seq<u8>)
    requires
        report_of(bytes) is Ok,
    ensures
        ({
            let (header0, flags, version) = match report_of(bytes)->Ok_0 {
                Event::Imu(frame) => (frame.header0, frame.flags, frame.version),
                Event::Status(update) => (update.header0, update.flags, update.version),
                Event::StartupResponse(response) => (
                    response.header.header0,
                    response.header.flags,
                    response.header.version,
                ),
                Event::CurrentProximity(response) => (
                    response.header.header0,
                    response.header.flags,
                    response.header.version,
                ),
                Event::UnsupportedResponse(response) => (
                    response.header.header0,
                    response.header.flags,
                    response.header.version,
                ),
                Event::UnsupportedReport { header, report_type, protocol_length } => (
                    header.header0,
                    header.flags,
                    header.version,
                ),
            };
            header0 == bytes[0] && flags == high_nibble(bytes[1]) && version == 1
        }),
{
}

/// The checksum of no bytes is zero, and each further byte adds its value, modulo 256.
pub proof fn law_checksum_is_the_sum(bytes: Seq<u8>, byte: u8)
    ensures
        checksum(Seq::<u8>::empty()) == 0,
        checksum(bytes.push(byte)) == (checksum(bytes) + byte) % 256,
{
    assert(bytes.push(byte).drop_last() =~= bytes);
}

/// Whether bytes are a report of 64 bytes and version 1 whose checksum, at the offset
/// that byte 3 tells, is right.
pub open spec fn framed(bytes: Seq<u8>) -> bool {
    &&& bytes.len() == 64
    &&& 4 <= bytes[3] <= 63
    &&& bytes[1] & 0x0f == 1
    &&& checksum(bytes.take(bytes[3] as int)) == bytes[bytes[3] as int]
}

/// Every decoder refuses what is not framed, and says what is wrong with it: first the
/// size, then the protocol length, the version and the checksum.
pub proof fn law_unframed_reports_are_refused(bytes: Seq<u8>)
    ensures
        ({
            let refuses = |error: ParseError|
                {
                    &&& report_of(bytes) == Err::<Event, _>(error)
                    &&& imu_report_of(bytes) == Err::<ImuFrame, _>(error)
                    &&& status_report_of(bytes) == Err::<StatusUpdate, _>(error)
                };
            if bytes.len() != 64 {
                refuses(ParseError::WrongInputSize { actual: bytes.len() as usize })
            } else if !(4 <= bytes[3] <= 63) {
                refuses(ParseError::InvalidProtocolLength { actual: bytes[3] })
            } else if bytes[1] & 0x0f != 1 {
                refuses(ParseError::UnsupportedVersion { version: bytes[1] & 0x0f })
            } else {
                !framed(bytes) ==> refuses(
                    ParseError::ChecksumMismatch {
                        expected: checksum(bytes.take(bytes[3] as int)),
                        actual: bytes[bytes[3] as int],
                    },
                )
            }
        }),
{
    lemma_nibble_masks(bytes[1]);
}

/// Whether a value has exactly the four bytes at an offset, the last of them most
/// significant.
#[verifier::opaque]
pub open spec fn has_wire_bytes(value: Binary32, bytes: Seq<u8>, offset: int) -> bool {
    &&& value.bits % 0x100 == bytes[offset]
    &&& (value.bits / 0x100) % 0x100 == bytes[offset + 1]
    &&& (value.bits / 0x1_0000) % 0x100 == bytes[offset + 2]
    &&& value.bits / 0x100_0000 == bytes[offset + 3]
}

/// Whether a value is a number of at most one thousand million in magnitude: its bits
/// without the sign are at most those of that number.
pub open spec fn in_range(value: Binary32) -> bool {
    value.bits % 0x8000_0000 <= 0x4e6e_6b28
}

proof fn lemma_assembled(b0: u8, b1: u8, b2: u8, b3: u8, bits: u32)
    ensures
        bits == b0 + 0x100 * b1 + 0x1_0000 * b2 + 0x100_0000 * b3 <==> {
            &&& bits % 0x100 == b0
            &&& (bits / 0x100) % 0x100 == b1
            &&& (bits / 0x1_0000) % 0x100 == b2
            &&& bits / 0x100_0000 == b3
        },
{
    assert(bits == b0 + 0x100 * b1 + 0x1_0000 * b2 + 0x100_0000 * b3 <==> (bits % 0x100 == b0 && (
    bits / 0x100) % 0x100 == b1 && (bits / 0x1_0000) % 0x100 == b2 && bits / 0x100_0000 == b3))
        by (bit_vector);
}

proof fn lemma_wire_bytes(value: Binary32, bytes: Seq<u8>, offset: int)
    ensures
        has_wire_bytes(value, bytes, offset) <==> value == le_binary32(bytes, offset),
{
    reveal(has_wire_bytes);
    lemma_assembled(
        bytes[offset],
        bytes[offset + 1],
        bytes[offset + 2],
        bytes[offset + 3],
        value.bits,
    );
}

/// Exactly the patterns of numbers of at most 1e9 in magnitude are acceptable.
pub proof fn law_acceptable_values_are_in_range(value: Binary32)
    ensures
        value.acceptable() <==> in_range(value),
        value.acceptable() <==> (Binary32 { bits: (value.bits % 0x8000_0000) as u32 }).acceptable(),
{
    value.lemma_acceptable();
    (Binary32 { bits: (value.bits % 0x8000_0000) as u32 }).lemma_acceptable();
}

/// Values are equal as numbers are: either of the same bits and not a NaN, or both zero
/// of whatever sign.
pub proof fn law_values_compare_as_numbers(a: Binary32, b: Binary32)
    ensures
        a.equals(b) <==> {
            ||| a.bits == b.bits && a.bits % 0x8000_0000 <= 0x7f80_0000
            ||| a.bits % 0x8000_0000 == 0 && b.bits % 0x8000_0000 == 0
        },
        a.equals(b) == b.equals(a),
        a.eq_spec(&b) == a.equals(b),
{
    let bits: u32 = a.bits;
    assert(bits % 0x8000_0000 == ((bits / 0x80_0000) % 0x100) * 0x80_0000 + bits % 0x80_0000)
        by (bit_vector);
    let bits: u32 = b.bits;
    assert(bits % 0x8000_0000 == ((bits / 0x80_0000) % 0x100) * 0x80_0000 + bits % 0x80_0000)
        by (bit_vector);
}

/// Each value of a decoded sample keeps exactly its own four bytes of the wire, and is
/// in range.
pub proof fn law_samples_keep_the_wire_bytes(bytes: Seq<u8>, frame: ImuFrame, axis: int)
    requires
        imu_report_of(bytes) == Ok::<_, ParseError>(frame),
        0 <= axis < 3,
    ensures
        has_wire_bytes(frame.acceleration_g@[axis], bytes, 4 + 4 * axis),
        has_wire_bytes(frame.angular_velocity_deg_s@[axis], bytes, 16 + 4 * axis),
        has_wire_bytes(frame.magnetic_field_raw@[axis], bytes, 28 + 4 * axis),
        in_range(frame.acceleration_g@[axis]),
        in_range(frame.angular_velocity_deg_s@[axis]),
        in_range(frame.magnetic_field_raw@[axis]),
{
    law_samples_are_acceptable(bytes, frame, axis);
    let acceleration = frame.acceleration_g@[axis];
    let angular_velocity = frame.angular_velocity_deg_s@[axis];
    let magnetic_field = frame.magnetic_field_raw@[axis];
    assert(has_wire_bytes(acceleration, bytes, 4 + 4 * axis)) by {
        lemma_wire_bytes(acceleration, bytes, 4 + 4 * axis);
    }
    assert(has_wire_bytes(angular_velocity, bytes, 16 + 4 * axis)) by {
        lemma_wire_bytes(angular_velocity, bytes, 16 + 4 * axis);
    }
    assert(has_wire_bytes(magnetic_field, bytes, 28 + 4 * axis)) by {
        lemma_wire_bytes(magnetic_field, bytes, 28 + 4 * axis);
    }
    law_acceptable_values_are_in_range(acceleration);
    law_acceptable_values_are_in_range(angular_velocity);
    law_acceptable_values_are_in_range(magnetic_field);
}

/// A decoded sample was framed, of type `0x0a` and length 44, and keeps the header, the
/// timestamp and the temperature, least significant byte first.
pub proof fn law_samples_keep_header_and_counters(bytes: Seq<u8>, frame: ImuFrame)
    requires
        imu_report_of(bytes) == Ok::<_, ParseError>(frame),
    ensures
        framed(bytes),
        bytes[2] == 0x0a,
        bytes[3] == 44,
        frame.header0 == bytes[0],
        frame.flags == bytes[1] & 0xf0,
        frame.version == 1,
        frame.timestamp_ticks == bytes[40] + 0x100 * bytes[41],
        frame.temperature_tenths_c == bytes[42] + 0x100 * bytes[43],
{
    lemma_nibble_masks(bytes[1]);
}

/// The channel of the value at `index` of the nine.
pub open spec fn channel_at(index: int) -> ImuChannel {
    if index < 3 {
        ImuChannel::Acceleration
    } else if index < 6 {
        ImuChannel::AngularVelocity
    } else {
        ImuChannel::MagneticField
    }
}

spec fn value_ok(bytes: Seq<u8>, index: int) -> bool {
    le_binary32(bytes, 4 + 4 * index).acceptable()
}

proof fn lemma_vector(bytes: Seq<u8>, first: int, channel: ImuChannel)
    ensures
        ({
            let vector = vector_of(bytes, 4 + 4 * first, channel);
            let refused = |axis: usize|
                vector == Err::<[Binary32; 3], _>(ParseError::InvalidFloat { channel, axis });
            if !value_ok(bytes, first) {
                refused(0)
            } else if !value_ok(bytes, first + 1) {
                refused(1)
            } else if !value_ok(bytes, first + 2) {
                refused(2)
            } else {
                vector is Ok
            }
        }),
{
}

proof fn lemma_first_refused(bytes: Seq<u8>, index: int)
    requires
        framed(bytes),
        bytes[2] == 0x0a,
        bytes[3] == 44,
        0 <= index <= 9,
        forall|k: int| 0 <= k < index ==> #[trigger] value_ok(bytes, k),
        index < 9 ==> !value_ok(bytes, index),
    ensures
        index == 9 ==> imu_report_of(bytes) is Ok,
        index < 9 ==> imu_report_of(bytes) == Err::<ImuFrame, _>(
            ParseError::InvalidFloat { channel: channel_at(index), axis: (index % 3) as usize },
        ),
{
    lemma_nibble_masks(bytes[1]);
    lemma_vector(bytes, 0, ImuChannel::Acceleration);
    lemma_vector(bytes, 3, ImuChannel::AngularVelocity);
    lemma_vector(bytes, 6, ImuChannel::MagneticField);
}

/// A framed IMU report is refused exactly for the first of its nine values that is out
/// of range, whose channel and axis are told, and accepted if there is none.
pub proof fn law_first_value_out_of_range_is_refused(
    bytes: Seq<u8>,
    values: Seq<Binary32>,
    index: int,
)
    requires
        framed(bytes),
        bytes[2] == 0x0a,
        bytes[3] == 44,
        values.len() == 9,
        forall|k: int| 0 <= k < 9 ==> has_wire_bytes(#[trigger] values[k], bytes, 4 + 4 * k),
        0 <= index <= 9,
        forall|k: int| 0 <= k < index ==> in_range(#[trigger] values[k]),
        index < 9 ==> !in_range(values[index]),
    ensures
        index == 9 ==> imu_report_of(bytes) is Ok,
        index < 9 ==> imu_report_of(bytes) == Err::<ImuFrame, _>(
            ParseError::InvalidFloat { channel: channel_at(index), axis: (index % 3) as usize },
        ),
{
    assert forall|k: int| 0 <= k < 9 implies #[trigger] value_ok(bytes, k) == in_range(
        values[k],
    ) by {
        lemma_wire_bytes(values[k], bytes, 4 + 4 * k);
        law_acceptable_values_are_in_range(values[k]);
    }
    lemma_first_refused(bytes, index);
}

/// A framed report that must be of one kind is refused for its type byte, and then for
/// its length.
pub proof fn law_other_layouts_are_refused(bytes: Seq<u8>)
    requires
        framed(bytes),
    ensures
        bytes[2] != 0x0a ==> imu_report_of(bytes) == Err::<ImuFrame, _>(
            ParseError::WrongReportType { expected: 0x0a, actual: bytes[2] },
        ),
        bytes[2] == 0x0a && bytes[3] != 44 ==> imu_report_of(bytes) == Err::<ImuFrame, _>(
            ParseError::WrongProtocolLength { expected: 44, actual: bytes[3] },
        ),
        bytes[2] != 0x0b ==> status_report_of(bytes) == Err::<StatusUpdate, _>(
            ParseError::WrongReportType { expected: 0x0b, actual: bytes[2] },
        ),
        bytes[2] == 0x0b && bytes[3] != 9 ==> status_report_of(bytes) == Err::<StatusUpdate, _>(
            ParseError::WrongProtocolLength { expected: 9, actual: bytes[3] },
        ),
        bytes[2] == 0x0b && bytes[3] == 9 ==> status_report_of(bytes) is Ok,
{
    lemma_nibble_masks(bytes[1]);
}

/// A field of a decoded status update holds its own byte exactly where its own bit of
/// the mask is set, and is absent elsewhere; bit 7 requests the acknowledgement.
pub proof fn law_status_fields_hold_their_bytes(bytes: Seq<u8>, update: StatusUpdate)
    requires
        status_report_of(bytes) == Ok::<_, ParseError>(update),
    ensures
        framed(bytes),
        bytes[2] == 0x0b,
        bytes[3] == 9,
        update.header0 == bytes[0],
        update.flags == bytes[1] & 0xf0,
        update.version == 1,
        update.mask == bytes[4],
        update.proximity is Some <==> bytes[4] & 0x01 != 0,
        update.proximity is Some ==> update.proximity->0 == bytes[5],
        update.status_a is Some <==> bytes[4] & 0x02 != 0,
        update.status_a is Some ==> update.status_a->0 == bytes[6],
        update.status_b is Some <==> bytes[4] & 0x04 != 0,
        update.status_b is Some ==> update.status_b->0 == bytes[7],
        update.event is Some <==> bytes[4] & 0x08 != 0,
        update.event is Some ==> update.event->0 == bytes[8],
        update.acknowledgement_requested <==> bytes[4] & 0x80 != 0,
{
    lemma_nibble_masks(bytes[1]);
    lemma_bit_masks(bytes[4]);
}

proof fn lemma_startup_commands(command: u8)
    requires
        command != 0x4a,
    ensures
        is_startup_command(command) <==> exists|step: int|
            0 <= step < 15 && #[trigger] startup_request(step)[3] == command,
{
    if is_startup_command(command) {
        let step: int = if command == 0x8c {
            0
        } else if command == 0x8d {
            1
        } else if command == 0x80 {
            2
        } else if command == 0x01 {
            3
        } else if command == 0x7f {
            4
        } else if command == 0x02 {
            7
        } else if command == 0x40 {
            8
        } else if command == 0x47 {
            9
        } else if command == 0x86 {
            10
        } else if command == 0x4e {
            12
        } else if command == 0x4f {
            13
        } else {
            14
        };
        assert(startup_request(step)[3] == command);
    }
}

/// A framed report with the response flag tells its command, its status (the byte
/// before the checksum) and its header. It is a startup response exactly if some
/// startup request other than the proximity query has that command.
pub proof fn law_responses_tell_command_and_status(bytes: Seq<u8>)
    requires
        framed(bytes),
        bytes[1] & 0x10 != 0,
    ensures
        bytes[3] == 4 ==> report_of(bytes) == Err::<Event, _>(
            ParseError::ResponseTooShort { actual: 4 },
        ),
        bytes[3] > 4 && bytes[2] != 0x4a ==> {
            let known = exists|step: int|
                0 <= step < 15 && #[trigger] startup_request(step)[3] == bytes[2];
            let response = match report_of(bytes) {
                Ok(Event::StartupResponse(response)) => if known {
                    Some(response)
                } else {
                    None
                },
                Ok(Event::UnsupportedResponse(response)) => if known {
                    None
                } else {
                    Some(response)
                },
                _ => None,
            };
            &&& response is Some
            &&& response->0.command_id == bytes[2]
            &&& response->0.status == bytes[bytes[3] - 1]
            &&& response->0.header.header0 == bytes[0]
            &&& response->0.header.flags == bytes[1] & 0xf0
            &&& response->0.header.version == 1
        },
        bytes[3] > 4 && bytes[2] == 0x4a && bytes[3] != 6 && bytes[3] != 7 ==> report_of(bytes)
            == Err::<Event, _>(
            ParseError::WrongProtocolLength { expected: 6, actual: bytes[3] },
        ),
{
    lemma_nibble_masks(bytes[1]);
    lemma_bit_masks(bytes[1]);
    if bytes[2] != 0x4a {
        lemma_startup_commands(bytes[2]);
    }
}

/// The response to the proximity query tells its status and header. Exactly if the
/// status is zero it holds data: one byte as the proximity value at length 6, two bytes
/// uninterpreted at length 7.
pub proof fn law_proximity_responses_hold_their_bytes(bytes: Seq<u8>)
    requires
        framed(bytes),
        bytes[1] & 0x10 != 0,
        bytes[2] == 0x4a,
        bytes[3] == 6 || bytes[3] == 7,
    ensures
        report_of(bytes) matches Ok(Event::CurrentProximity(response)) && {
            &&& response.header.header0 == bytes[0]
            &&& response.header.flags == bytes[1] & 0xf0
            &&& response.header.version == 1
            &&& response.status == bytes[bytes[3] - 1]
            &&& response.proximity is Some <==> bytes[3] == 6 && bytes[5] == 0
            &&& response.proximity is Some ==> response.proximity->0 == bytes[4]
            &&& response.uninterpreted_data is Some <==> bytes[3] == 7 && bytes[6] == 0
            &&& response.uninterpreted_data is Some ==> response.uninterpreted_data->0@[0]
                == bytes[4] && response.uninterpreted_data->0@[1] == bytes[5]
        },
{
    lemma_nibble_masks(bytes[1]);
    lemma_bit_masks(bytes[1]);
}

/// A framed report without the response flag is what its type byte says: a sample, a
/// status update, or of an unrecognized type, of which header, type and length are kept.
pub proof fn law_type_byte_decides_without_response_flag(bytes: Seq<u8>)
    requires
        framed(bytes),
        bytes[1] & 0x10 == 0,
    ensures
        bytes[2] == 0x0a ==> match imu_report_of(bytes) {
            Ok(frame) => report_of(bytes) == Ok::<_, ParseError>(Event::Imu(frame)),
            Err(error) => report_of(bytes) == Err::<Event, _>(error),
        },
        bytes[2] == 0x0b ==> match status_report_of(bytes) {
            Ok(update) => report_of(bytes) == Ok::<_, ParseError>(Event::Status(update)),
            Err(error) => report_of(bytes) == Err::<Event, _>(error),
        },
        bytes[2] != 0x0a && bytes[2] != 0x0b ==> {
            &&& report_of(bytes) matches Ok(
                Event::UnsupportedReport { header, report_type, protocol_length },
            )
            &&& header.header0 == bytes[0]
            &&& header.flags == bytes[1] & 0xf0
            &&& header.version == 1
            &&& report_type == bytes[2]
            &&& protocol_length == bytes[3]
        },
{
    lemma_nibble_masks(bytes[1]);
    lemma_bit_masks(bytes[1]);
}

/// The envelope is accepted exactly if the report is framed, and then tells the header;
/// what it refuses every decoder refuses alike.
pub proof fn law_envelope_tells_the_header(bytes: Seq<u8>)
    ensures
        envelope_of(bytes) is Ok <==> framed(bytes),
        envelope_of(bytes) is Ok ==> {
            &&& envelope_of(bytes)->Ok_0.header0 == bytes[0]
            &&& envelope_of(bytes)->Ok_0.flags == bytes[1] & 0xf0
            &&& envelope_of(bytes)->Ok_0.version == 1
        },
        envelope_of(bytes) is Err ==> report_of(bytes) == Err::<Event, _>(
            envelope_of(bytes)->Err_0,
        ),
{
    lemma_nibble_masks(bytes[1]);
}

/// A layout is accepted exactly if type and length are the required ones; a wrong type
/// is told before a wrong length.
pub proof fn law_layouts_are_checked(bytes: Seq<u8>, report_type: u8, length: u8)
    ensures
        layout_of(bytes, report_type, length) is Ok <==> bytes[2] == report_type && bytes[3]
            == length,
        bytes[2] != report_type ==> layout_of(bytes, report_type, length) == Err::<(), _>(
            ParseError::WrongReportType { expected: report_type, actual: bytes[2] },
        ),
        bytes[2] == report_type && bytes[3] != length ==> layout_of(bytes, report_type, length)
            == Err::<(), _>(
            ParseError::WrongProtocolLength { expected: length, actual: bytes[3] },
        ),
{
}

} // verus!
