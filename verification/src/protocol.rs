//! The fixed messages that a session may send, and nothing else.
//!
//! Each is a report-ID slot (zero) followed by a 64-byte report.

use crate::codec::{byte_sum, checksum, envelope_of, sum8, ReportHeader, StatusUpdate};
use vstd::prelude::*;
use vstd::slice::slice_subrange;

verus! {

/// Size of an outgoing message, with its report-ID slot.
pub const MESSAGE_SIZE: usize = 65;

/// Number of steps of the complete startup procedure.
pub const STARTUP_STEPS: usize = 15;

/// How long a fixed message may take to be written, in milliseconds.
pub const WRITE_TIMEOUT_MILLIS: u64 = 1000;

/// A fixed message to write once, and how long that may take.
#[derive(Debug, Clone, Copy, PartialEq, Eq)]
pub struct FixedWrite {
    /// The complete message.
    pub report: [u8; 65],
    /// How long to wait for the node to become writable, in milliseconds.
    pub millis: u64,
}

impl FixedWrite {
    /// Whether this is the message, with the write timeout.
    pub open spec fn carries(self, report: Seq<u8>) -> bool {
        self.report@ == report && self.millis == WRITE_TIMEOUT_MILLIS
    }

    /// The message, with the write timeout.
    pub(crate) fn of(report: [u8; 65]) -> (write: FixedWrite)
        ensures
            write.carries(report@),
            write.report == report,
    {
        FixedWrite { report, millis: WRITE_TIMEOUT_MILLIS }
    }
}

/// One request of the startup procedure, with how long its response may take.
#[derive(Debug, Clone, Copy, PartialEq, Eq)]
pub struct StartupStep {
    /// The complete message.
    pub report: [u8; 65],
    /// How long to wait for the response, in milliseconds.
    pub timeout_millis: u64,
}

/// A complete message: the prefix, then zeros.
pub open spec fn message(prefix: Seq<u8>) -> Seq<u8> {
    Seq::new(
        MESSAGE_SIZE as nat,
        |i: int|
            if i < prefix.len() {
                prefix[i]
            } else {
                0
            },
    )
}

/// The meaningful bytes of the startup request at `index`, counted from zero.
pub open spec fn startup_prefix(index: int) -> Seq<u8> {
    if index == 0 {
        seq![0, 0xaa, 1, 0x8c, 5, 0, 0x3c]
    } else if index == 1 {
        seq![0, 0xaa, 1, 0x8d, 5, 3, 0x40]
    } else if index == 2 {
        seq![0, 0xaa, 1, 0x80, 6, 0, 0, 0x31]
    } else if index == 3 {
        seq![0, 0xaa, 1, 0x01, 4, 0xb0]
    } else if index == 4 {
        seq![0, 0xaa, 1, 0x7f, 5, 1, 0x30]
    } else if index == 5 {
        seq![0, 0xaa, 1, 0x7f, 5, 0, 0x2f]
    } else if index == 6 {
        seq![0, 0xaa, 1, 0x7f, 5, 2, 0x31]
    } else if index == 7 {
        seq![0, 0xaa, 1, 0x02, 4, 0xb1]
    } else if index == 8 {
        seq![0, 0xaa, 1, 0x40, 4, 0xef]
    } else if index == 9 {
        seq![0, 0xaa, 1, 0x47, 4, 0xf6]
    } else if index == 10 {
        seq![0, 0xaa, 1, 0x86, 6, 1, 1, 0x39]
    } else if index == 11 {
        seq![0, 0xaa, 1, 0x4a, 4, 0xf9]
    } else if index == 12 {
        seq![0, 0xaa, 1, 0x4e, 4, 0xfd]
    } else if index == 13 {
        seq![0, 0xaa, 1, 0x4f, 4, 0xfe]
    } else {
        seq![0, 0xaa, 1, 0x81, 8, 0xe8, 3, 0xc8, 0, 0xe7]
    }
}

/// The startup request at `index`, counted from zero.
pub open spec fn startup_request(index: int) -> Seq<u8> {
    message(startup_prefix(index))
}

/// The command ID of the startup request at `index`.
pub open spec fn startup_command(index: int) -> u8 {
    startup_prefix(index)[3]
}

/// How long the response to the startup request at `index` may take, in milliseconds.
pub open spec fn startup_timeout_millis(index: int) -> u64 {
    if index == 1 {
        3500
    } else {
        1000
    }
}

/// The query of the current proximity value.
pub open spec fn proximity_query() -> Seq<u8> {
    message(seq![0, 0xaa, 1, 0x4a, 4, 0xf9])
}

/// The acknowledgement of a status update, before its checksum.
pub open spec fn acknowledgement_prefix(flags: u8, version: u8) -> Seq<u8> {
    seq![0, 0xaa, flags | version | 0x10, 0x0b, 5, 1]
}

/// The acknowledgement of a status update: it repeats the flags and the version,
/// sets the response flag, and carries status 1.
pub open spec fn acknowledgement_of(status: StatusUpdate) -> Seq<u8> {
    let prefix = acknowledgement_prefix(status.flags, status.version);
    message(prefix.push(checksum(prefix.skip(1))))
}

/// Pad a complete wire prefix with zeros.
pub fn padded(prefix: &[u8]) -> (report: [u8; 65])
    requires
        prefix@.len() <= MESSAGE_SIZE,
    ensures
        report@ == message(prefix@),
{
    let mut report: [u8; 65] = [0u8;65];
    let mut index: usize = 0;
    while index < prefix.len()
        invariant
            index <= prefix@.len() <= MESSAGE_SIZE,
            forall|i: int|
                0 <= i < MESSAGE_SIZE ==> #[trigger] report@[i] == (if i < index {
                    prefix@[i]
                } else {
                    0
                }),
        decreases prefix@.len() - index,
    {
        report[index] = prefix[index];
        index += 1;
    }
    assert(report@ =~= message(prefix@));
    report
}

fn step(prefix: &[u8], millis: u64) -> (step: StartupStep)
    requires
        prefix@.len() <= MESSAGE_SIZE,
    ensures
        step.report@ == message(prefix@),
        step.timeout_millis == millis,
{
    StartupStep { report: padded(prefix), timeout_millis: millis }
}

/// The startup request at `index`, counted from zero, and its time limit.
pub fn startup_step(index: usize) -> (found: StartupStep)
    requires
        index < STARTUP_STEPS,
    ensures
        found.report@ == startup_request(index as int),
        found.timeout_millis == startup_timeout_millis(index as int),
{
    let found = match index {
        0 => step(&[0, 0xaa, 1, 0x8c, 5, 0, 0x3c], 1000),
        1 => step(&[0, 0xaa, 1, 0x8d, 5, 3, 0x40], 3500),
        2 => step(&[0, 0xaa, 1, 0x80, 6, 0, 0, 0x31], 1000),
        3 => step(&[0, 0xaa, 1, 0x01, 4, 0xb0], 1000),
        4 => step(&[0, 0xaa, 1, 0x7f, 5, 1, 0x30], 1000),
        5 => step(&[0, 0xaa, 1, 0x7f, 5, 0, 0x2f], 1000),
        6 => step(&[0, 0xaa, 1, 0x7f, 5, 2, 0x31], 1000),
        7 => step(&[0, 0xaa, 1, 0x02, 4, 0xb1], 1000),
        8 => step(&[0, 0xaa, 1, 0x40, 4, 0xef], 1000),
        9 => step(&[0, 0xaa, 1, 0x47, 4, 0xf6], 1000),
        10 => step(&[0, 0xaa, 1, 0x86, 6, 1, 1, 0x39], 1000),
        11 => step(&[0, 0xaa, 1, 0x4a, 4, 0xf9], 1000),
        12 => step(&[0, 0xaa, 1, 0x4e, 4, 0xfd], 1000),
        13 => step(&[0, 0xaa, 1, 0x4f, 4, 0xfe], 1000),
        _ => step(&[0, 0xaa, 1, 0x81, 8, 0xe8, 3, 0xc8, 0, 0xe7], 1000),
    };
    assert(found.report@ =~= startup_request(index as int));
    found
}

/// The fixed, payload-free query of the current proximity value.
pub fn current_proximity() -> (report: [u8; 65])
    ensures
        report@ == proximity_query(),
{
    let report = padded(&[0, 0xaa, 1, 0x4a, 4, 0xf9]);
    assert(report@ =~= proximity_query());
    report
}

/// The acknowledgement that a status update may request.
pub fn acknowledgement(status: &StatusUpdate) -> (report: [u8; 65])
    ensures
        report@ == acknowledgement_of(*status),
{
    let prefix = [0, 0xaa, status.flags | status.version | 0x10, 0x0b, 5, 1];
    assert(prefix@ =~= acknowledgement_prefix(status.flags, status.version));
    let mut report = padded(&prefix);
    assert(report@.subrange(1, 6) =~= prefix@.skip(1));
    report[6] = sum8(slice_subrange(&report, 1, 6));
    assert(report@ =~= acknowledgement_of(*status));
    report
}

// ---------------------------------------------------------------------------
// Laws
// ---------------------------------------------------------------------------

proof fn lemma_envelope(prefix: Seq<u8>)
    requires
        6 <= prefix.len() <= MESSAGE_SIZE,
        crate::bits::low_nibble(prefix[2]) == 1,
        prefix[4] as int == prefix.len() - 2,
        prefix.last() == checksum(prefix.subrange(1, prefix.len() - 1)),
    ensures
        envelope_of(message(prefix).skip(1)) == Ok::<_, crate::codec::ParseError>(
            ReportHeader {
                header0: prefix[1],
                flags: crate::bits::high_nibble(prefix[2]),
                version: 1,
            },
        ),
{
    let report = message(prefix).skip(1);
    assert(report.take(report[3] as int) =~= prefix.subrange(1, prefix.len() - 1));
}

proof fn lemma_short_sum(bytes: Seq<u8>)
    requires
        4 <= bytes.len() <= 8,
    ensures
        byte_sum(bytes) == bytes[0] + bytes[1] + bytes[2] + bytes[3] + (if bytes.len() > 4 {
            bytes[4] as int
        } else {
            0
        }) + (if bytes.len() > 5 {
            bytes[5] as int
        } else {
            0
        }) + (if bytes.len() > 6 {
            bytes[6] as int
        } else {
            0
        }) + (if bytes.len() > 7 {
            bytes[7] as int
        } else {
            0
        }),
    decreases bytes.len(),
{
    if bytes.len() > 4 {
        lemma_short_sum(bytes.drop_last());
    } else {
        reveal_with_fuel(byte_sum, 5);
    }
}

/// Every startup request, without its report-ID slot, is a well-formed report of
/// version 1 without flags: its length byte points at a correct checksum.
pub proof fn law_startup_requests_are_well_formed(index: int)
    requires
        0 <= index < STARTUP_STEPS,
    ensures
        startup_request(index).len() == MESSAGE_SIZE,
        startup_request(index)[0] == 0,
        startup_request(index)[3] == startup_command(index),
        envelope_of(startup_request(index).skip(1)) == Ok::<_, crate::codec::ParseError>(
            ReportHeader { header0: 0xaa, flags: 0, version: 1 },
        ),
{
    let prefix = startup_prefix(index);
    lemma_short_sum(prefix.subrange(1, prefix.len() - 1));
    lemma_envelope(prefix);
}

/// The proximity query is the startup request of the same command, and as well-formed.
pub proof fn law_proximity_query_is_well_formed()
    ensures
        proximity_query() == startup_request(11),
        envelope_of(proximity_query().skip(1)) == Ok::<_, crate::codec::ParseError>(
            ReportHeader { header0: 0xaa, flags: 0, version: 1 },
        ),
{
    law_startup_requests_are_well_formed(11);
}

/// The acknowledgement of a decoded status update is a well-formed report: it keeps
/// the version and the flags, adds the response flag, and its checksum is correct.
pub proof fn law_acknowledgements_are_well_formed(bytes: Seq<u8>, status: StatusUpdate)
    requires
        crate::codec::status_report_of(bytes) == Ok::<_, crate::codec::ParseError>(status),
    ensures
        acknowledgement_of(status).len() == MESSAGE_SIZE,
        acknowledgement_of(status)[0] == 0,
        envelope_of(acknowledgement_of(status).skip(1)) == Ok::<_, crate::codec::ParseError>(
            ReportHeader { header0: 0xaa, flags: status.flags | 0x10, version: status.version },
        ),
{
    let flags = status.flags;
    let byte = bytes[1];
    assert(flags == (byte - byte % 16) as u8);
    assert((flags | 1u8 | 0x10u8) % 16 == 1 && (flags | 1u8 | 0x10u8) - (flags | 1u8 | 0x10u8) % 16
        == flags | 0x10u8) by (bit_vector)
        requires
            flags == (byte - byte % 16) as u8,
    ;
    let prefix = acknowledgement_prefix(status.flags, status.version);
    let complete = prefix.push(checksum(prefix.skip(1)));
    assert(complete.subrange(1, 6) =~= prefix.skip(1));
    lemma_envelope(complete);
}

/// The command and the payload of each step, as the device documents them.
pub open spec fn documented_step(index: int) -> (u8, Seq<u8>) {
    if index == 0 {
        (0x8c, seq![0x00])
    } else if index == 1 {
        (0x8d, seq![0x03])
    } else if index == 2 {
        (0x80, seq![0x00, 0x00])
    } else if index == 3 {
        (0x01, seq![])
    } else if index == 4 {
        (0x7f, seq![0x01])
    } else if index == 5 {
        (0x7f, seq![0x00])
    } else if index == 6 {
        (0x7f, seq![0x02])
    } else if index == 7 {
        (0x02, seq![])
    } else if index == 8 {
        (0x40, seq![])
    } else if index == 9 {
        (0x47, seq![])
    } else if index == 10 {
        (0x86, seq![0x01, 0x01])
    } else if index == 11 {
        (0x4a, seq![])
    } else if index == 12 {
        (0x4e, seq![])
    } else if index == 13 {
        (0x4f, seq![])
    } else {
        (0x81, seq![0xe8, 0x03, 0xc8, 0x00])
    }
}

/// Whether a message is a request: the report-ID slot, `aa`, version 1, the command,
/// the length, the payload, the checksum of all that but the slot, and zeros.
pub open spec fn is_request(report: Seq<u8>, command: u8, payload: Seq<u8>) -> bool {
    &&& report.len() == 65
    &&& report[0] == 0
    &&& report[1] == 0xaa
    &&& report[2] == 1
    &&& report[3] == command
    &&& report[4] == 4 + payload.len()
    &&& report.subrange(5, 5 + payload.len() as int) == payload
    &&& report[5 + payload.len() as int] == checksum(report.subrange(1, 5 + payload.len() as int))
    &&& forall|i: int| 5 + payload.len() < i < 65 ==> #[trigger] report[i] == 0
}

/// The startup procedure is the documented one: each step requests its command with
/// its payload, and awaits the response for one second, or for 3.5 in the second step.
pub proof fn law_startup_requests_are_the_documented_ones(index: int)
    requires
        0 <= index < 15,
    ensures
        is_request(startup_request(index), documented_step(index).0, documented_step(index).1),
        startup_timeout_millis(index) == if index == 1 {
            3500u64
        } else {
            1000u64
        },
        startup_command(index) == startup_request(index)[3],
        STARTUP_STEPS == 15,
{
    let prefix = startup_prefix(index);
    let report = startup_request(index);
    let payload = documented_step(index).1;
    lemma_short_sum(prefix.subrange(1, prefix.len() - 1));
    assert(report.subrange(1, 5 + payload.len() as int) =~= prefix.subrange(1, prefix.len() - 1));
    assert(report.subrange(5, 5 + payload.len() as int) =~= payload);
}

/// The proximity query is the request of command `4a` without payload.
pub proof fn law_proximity_query_has_no_payload()
    ensures
        is_request(proximity_query(), 0x4a, seq![]),
{
    law_startup_requests_are_the_documented_ones(11);
    law_proximity_query_is_well_formed();
}

/// An acknowledgement is fixed but for the flags and the version that it repeats with
/// the response flag: command `0b`, payload `01`, their checksum, and zeros. Updates
/// with the same flags and version have the same, whatever else they hold.
pub proof fn law_acknowledgements_are_fixed(a: StatusUpdate, b: StatusUpdate)
    ensures
        ({
            let report = acknowledgement_of(a);
            &&& report.len() == 65
            &&& report[0] == 0
            &&& report[1] == 0xaa
            &&& report[2] == a.flags | a.version | 0x10
            &&& report[3] == 0x0b
            &&& report[4] == 5
            &&& report[5] == 1
            &&& report[6] == checksum(report.subrange(1, 6))
            &&& report[6] == (0xaa + report[2] + 0x0b + 5 + 1) % 256
            &&& forall|i: int| 7 <= i < 65 ==> #[trigger] report[i] == 0
        }),
        a.flags == b.flags && a.version == b.version ==> acknowledgement_of(a)
            == acknowledgement_of(b),
{
    let prefix = acknowledgement_prefix(a.flags, a.version);
    lemma_short_sum(prefix.skip(1));
    assert(acknowledgement_of(a).subrange(1, 6) =~= prefix.skip(1));
}

/// A message begins with its prefix and is filled up with zeros.
pub proof fn law_messages_are_padded_with_zeros(prefix: Seq<u8>)
    requires
        prefix.len() <= 65,
    ensures
        message(prefix).len() == 65,
        message(prefix).take(prefix.len() as int) == prefix,
        forall|i: int| prefix.len() <= i < 65 ==> #[trigger] message(prefix)[i] == 0,
{
    assert(message(prefix).take(prefix.len() as int) =~= prefix);
}

/// What carries a message is that message, to be written within one second.
pub proof fn law_writes_carry_their_message(write: FixedWrite, report: Seq<u8>)
    ensures
        write.carries(report) <==> write.report@ == report && write.millis == 1000,
{
}

} // verus!
