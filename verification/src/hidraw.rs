//! The decisions of nonblocking access to an open node: when to wait, when to try
//! again, and when to stop.
//!
//! A caller performs one system call at a time, tells here what came of it and
//! whether the deadline has passed, and does what is decided.

use crate::error::{io_error, is_io_error, TransportError};
use crate::os::{
    error_flag, hangup_flag, invalid_flag, pollerr, pollhup, pollnval, OsError, OsErrorKind,
};
use crate::protocol::{FixedWrite, MESSAGE_SIZE};
use vstd::prelude::*;

verus! {

/// Nanoseconds in a millisecond.
pub const NANOS_PER_MILLI: u128 = 1_000_000;

/// The number of milliseconds to wait for a time that remains, in nanoseconds.
///
/// Part of a millisecond counts as one, and what exceeds the range of the result is
/// cut off.
pub fn poll_timeout(remaining_nanos: u128) -> (millis: i32)
    ensures
        ({
            let exact = (remaining_nanos + NANOS_PER_MILLI - 1) / NANOS_PER_MILLI as int;
            millis == if exact <= i32::MAX {
                exact
            } else {
                i32::MAX as int
            }
        }),
{
    let whole: u128 = remaining_nanos / NANOS_PER_MILLI;
    let millis: u128 = if remaining_nanos % NANOS_PER_MILLI != 0 {
        whole + 1
    } else {
        whole
    };
    if millis <= i32::MAX as u128 {
        millis as i32
    } else {
        i32::MAX
    }
}

/// How long a message may take to be written, in nanoseconds, where that much time
/// remains until the current deadline and the message has its own time limit.
///
/// Neither is exceeded.
pub fn write_limit(remaining_nanos: u128, write: &FixedWrite) -> (nanos: u128)
    ensures
        nanos == if remaining_nanos <= write.millis * NANOS_PER_MILLI {
            remaining_nanos as int
        } else {
            write.millis * NANOS_PER_MILLI
        },
{
    assert(write.millis * NANOS_PER_MILLI <= u64::MAX * NANOS_PER_MILLI <= u128::MAX);
    let limit: u128 = write.millis as u128 * NANOS_PER_MILLI;
    if remaining_nanos <= limit {
        remaining_nanos
    } else {
        limit
    }
}

/// What came of waiting for a node.
#[derive(Debug, PartialEq, Eq)]
pub enum Polled {
    /// The wait failed.
    Failed(OsError),
    /// Nothing happened.
    Nothing,
    /// These flags were set.
    Flags(i16),
}

/// What to do after waiting.
#[derive(Debug, PartialEq, Eq)]
pub enum PollDecision {
    /// Wait again.
    Again,
    /// The node is ready, or the deadline passed before it was.
    Done(bool),
    /// Stop.
    Fail(TransportError),
}

/// Whether the flags show that the node is gone.
pub open spec fn shows_disconnection(flags: i16) -> bool {
    flags & (error_flag() | hangup_flag() | invalid_flag()) != 0
}

/// Decide after waiting for the `wanted` flags of the node at `path`.
pub fn after_poll(polled: Polled, wanted: i16, expired: bool, path: &str) -> (decision:
    PollDecision)
    ensures
        match polled {
            Polled::Failed(source) => if source.kind == OsErrorKind::Interrupted {
                decision == if expired {
                    PollDecision::Done(false)
                } else {
                    PollDecision::Again
                }
            } else {
                decision matches PollDecision::Fail(error) && is_io_error(
                    error,
                    "poll hidraw node"@,
                    path@,
                    source,
                )
            },
            Polled::Flags(flags) if shows_disconnection(flags) => decision == PollDecision::Fail(
                TransportError::Disconnected,
            ),
            Polled::Flags(flags) if flags & wanted != 0 => decision == PollDecision::Done(true),
            _ => decision == if expired {
                PollDecision::Done(false)
            } else {
                PollDecision::Again
            },
        },
{
    match polled {
        Polled::Failed(source) => {
            if source.kind != OsErrorKind::Interrupted {
                return PollDecision::Fail(io_error("poll hidraw node", path.to_owned(), source));
            }
        },
        Polled::Nothing => {},
        Polled::Flags(flags) => {
            if flags & (pollerr() | pollhup() | pollnval()) != 0 {
                return PollDecision::Fail(TransportError::Disconnected);
            }
            if flags & wanted != 0 {
                return PollDecision::Done(true);
            }
        },
    }
    if expired {
        PollDecision::Done(false)
    } else {
        PollDecision::Again
    }
}

/// What to do after a read.
#[derive(Debug, PartialEq, Eq)]
pub enum ReadDecision {
    /// Wait and read again.
    Again,
    /// A report of this many bytes was read.
    Report(usize),
    /// No report arrived before the deadline.
    Nothing,
    /// Stop.
    Fail(TransportError),
}

/// Decide after a read from the node at `path`.
pub fn after_read(read: Result<usize, OsError>, expired: bool, path: &str) -> (decision:
    ReadDecision)
    ensures
        match read {
            Ok(length) => decision == if length == 0 {
                ReadDecision::Fail(TransportError::Disconnected)
            } else {
                ReadDecision::Report(length)
            },
            Err(source) => if source.kind == OsErrorKind::WouldBlock || source.kind
                == OsErrorKind::Interrupted {
                decision == if expired {
                    ReadDecision::Nothing
                } else {
                    ReadDecision::Again
                }
            } else {
                decision matches ReadDecision::Fail(error) && is_io_error(
                    error,
                    "read hidraw report"@,
                    path@,
                    source,
                )
            },
        },
{
    match read {
        Ok(0) => ReadDecision::Fail(TransportError::Disconnected),
        Ok(length) => ReadDecision::Report(length),
        Err(source) => {
            if source.kind == OsErrorKind::WouldBlock || source.kind == OsErrorKind::Interrupted {
                if expired {
                    ReadDecision::Nothing
                } else {
                    ReadDecision::Again
                }
            } else {
                ReadDecision::Fail(io_error("read hidraw report", path.to_owned(), source))
            }
        },
    }
}

/// What to do after a write.
#[derive(Debug, PartialEq, Eq)]
pub enum WriteDecision {
    /// Write again.
    Again,
    /// Wait until the node can be written, then write again; the deadline passing
    /// first is a write timeout.
    WaitThenAgain,
    /// The message was written.
    Done,
    /// Stop. What was not written is never sent.
    Fail(TransportError),
}

/// Decide after a write to the node at `path`. Only the whole message will do.
pub fn after_write(written: Result<usize, OsError>, expired: bool, path: &str) -> (decision:
    WriteDecision)
    ensures
        match written {
            Ok(actual) => decision == if actual == MESSAGE_SIZE {
                WriteDecision::Done
            } else {
                WriteDecision::Fail(TransportError::ShortWrite { actual })
            },
            Err(source) => if source.kind == OsErrorKind::WouldBlock {
                decision == if expired {
                    WriteDecision::Fail(TransportError::WriteTimeout)
                } else {
                    WriteDecision::WaitThenAgain
                }
            } else if source.kind == OsErrorKind::Interrupted {
                decision == if expired {
                    WriteDecision::Fail(TransportError::WriteTimeout)
                } else {
                    WriteDecision::Again
                }
            } else {
                decision matches WriteDecision::Fail(error) && is_io_error(
                    error,
                    "write fixed hidraw request"@,
                    path@,
                    source,
                )
            },
        },
{
    match written {
        Ok(actual) => {
            if actual == MESSAGE_SIZE {
                WriteDecision::Done
            } else {
                WriteDecision::Fail(TransportError::ShortWrite { actual })
            }
        },
        Err(source) => {
            if source.kind == OsErrorKind::WouldBlock {
                if expired {
                    WriteDecision::Fail(TransportError::WriteTimeout)
                } else {
                    WriteDecision::WaitThenAgain
                }
            } else if source.kind == OsErrorKind::Interrupted {
                if expired {
                    WriteDecision::Fail(TransportError::WriteTimeout)
                } else {
                    WriteDecision::Again
                }
            } else {
                WriteDecision::Fail(io_error("write fixed hidraw request", path.to_owned(), source))
            }
        },
    }
}

/// Decide after waiting for the node to become writable.
pub fn after_wait(ready: Result<bool, TransportError>) -> (decision: WriteDecision)
    ensures
        decision == match ready {
            Ok(true) => WriteDecision::Again,
            Ok(false) => WriteDecision::Fail(TransportError::WriteTimeout),
            Err(error) => WriteDecision::Fail(error),
        },
{
    match ready {
        Ok(true) => WriteDecision::Again,
        Ok(false) => WriteDecision::Fail(TransportError::WriteTimeout),
        Err(error) => WriteDecision::Fail(error),
    }
}

/// Any of the flags for an error, a hangup and a closed descriptor shows that the node
/// is gone, and nothing else does.
pub proof fn law_disconnection_is_shown_by_three_flags(flags: i16)
    ensures
        shows_disconnection(flags) <==> {
            ||| flags & 0x08 != 0
            ||| flags & 0x10 != 0
            ||| flags & 0x20 != 0
        },
{
    assert(flags & (0x08i16 | 0x10i16 | 0x20i16) != 0 <==> (flags & 0x08 != 0 || flags & 0x10 != 0
        || flags & 0x20 != 0)) by (bit_vector);
}

/// A wait never ends early and is less than a millisecond too long, unless the time that
/// remains is more than can be waited for at once; no time left is no wait.
pub proof fn law_waits_are_rounded_up(remaining_nanos: u128, millis: i32)
    requires
        call_ensures(poll_timeout, (remaining_nanos,), millis),
    ensures
        millis >= 0,
        millis == 0 <==> remaining_nanos == 0,
        millis < 0x7fff_ffff ==> remaining_nanos <= millis * 1_000_000,
        remaining_nanos > 0 ==> (millis - 1) * 1_000_000 < remaining_nanos,
{
}

/// A write gets no more time than remains, and no more than its own limit, but as much
/// as both allow.
pub proof fn law_writes_get_the_time_that_both_allow(
    remaining_nanos: u128,
    write: FixedWrite,
    nanos: u128,
)
    requires
        call_ensures(write_limit, (remaining_nanos, &write), nanos),
    ensures
        nanos <= remaining_nanos,
        nanos <= write.millis * 1_000_000,
        nanos == remaining_nanos || nanos == write.millis * 1_000_000,
{
}

/// Waiting goes on exactly while nothing of interest happened, or a signal came, and the
/// deadline has not passed. The node is ready only by a wanted flag, and gone by any of
/// those that say so, whatever else is set.
pub proof fn law_waiting_decides(
    polled: Polled,
    wanted: i16,
    expired: bool,
    path: &str,
    decision: PollDecision,
)
    requires
        call_ensures(after_poll, (polled, wanted, expired, path), decision),
    ensures
        ({
            let idle = match polled {
                Polled::Nothing => true,
                Polled::Failed(source) => source.kind == OsErrorKind::Interrupted,
                Polled::Flags(flags) => !shows_disconnection(flags) && flags & wanted == 0,
            };
            &&& decision is Again <==> idle && !expired
            &&& decision == PollDecision::Done(false) <==> idle && expired
            &&& decision == PollDecision::Done(true) <==> {
                &&& polled matches Polled::Flags(flags)
                &&& !shows_disconnection(flags)
                &&& flags & wanted != 0
            }
            &&& decision == PollDecision::Fail(TransportError::Disconnected) <==> {
                &&& polled matches Polled::Flags(flags)
                &&& shows_disconnection(flags)
            }
            &&& polled is Failed && polled->Failed_0.kind != OsErrorKind::Interrupted ==> decision
                is Fail && is_io_error(
                decision->Fail_0,
                "poll hidraw node"@,
                path@,
                polled->Failed_0,
            )
        }),
{
}

/// Whatever was read is a report of that length, but nothing, which means that the node
/// is gone. A read that would wait or was interrupted is repeated until the deadline;
/// any other failure is told.
pub proof fn law_reading_decides(
    read: Result<usize, OsError>,
    expired: bool,
    path: &str,
    decision: ReadDecision,
)
    requires
        call_ensures(after_read, (read, expired, path), decision),
    ensures
        read matches Ok(length) ==> (length > 0 ==> decision == ReadDecision::Report(length)),
        read == Ok::<usize, OsError>(0) ==> decision == ReadDecision::Fail(
            TransportError::Disconnected,
        ),
        ({
            let repeated = read is Err && (read->Err_0.kind == OsErrorKind::WouldBlock
                || read->Err_0.kind == OsErrorKind::Interrupted);
            &&& decision is Again <==> repeated && !expired
            &&& decision is Nothing <==> repeated && expired
            &&& read is Err && !repeated ==> decision is Fail && is_io_error(
                decision->Fail_0,
                "read hidraw report"@,
                path@,
                read->Err_0,
            )
        }),
{
}

/// Only 65 bytes are a message written. One of which less was accepted is never written
/// again, nor is one that failed, unless it would wait or was interrupted before the
/// deadline.
pub proof fn law_writing_decides(
    written: Result<usize, OsError>,
    expired: bool,
    path: &str,
    decision: WriteDecision,
)
    requires
        call_ensures(after_write, (written, expired, path), decision),
    ensures
        decision is Done <==> written == Ok::<usize, OsError>(65),
        written matches Ok(actual) ==> (actual != 65 ==> decision == WriteDecision::Fail(
            TransportError::ShortWrite { actual },
        )),
        decision is WaitThenAgain <==> written is Err && written->Err_0.kind
            == OsErrorKind::WouldBlock && !expired,
        decision is Again <==> written is Err && written->Err_0.kind == OsErrorKind::Interrupted
            && !expired,
        ({
            let repeated = written is Err && (written->Err_0.kind == OsErrorKind::WouldBlock
                || written->Err_0.kind == OsErrorKind::Interrupted);
            &&& repeated && expired ==> decision == WriteDecision::Fail(
                TransportError::WriteTimeout,
            )
            &&& written is Err && !repeated ==> decision is Fail && is_io_error(
                decision->Fail_0,
                "write fixed hidraw request"@,
                path@,
                written->Err_0,
            )
        }),
{
}

/// A node that became writable is written again; one that did not in time is a write
/// timeout, and a failure to wait is passed on.
pub proof fn law_waiting_to_write_decides(
    ready: Result<bool, TransportError>,
    decision: WriteDecision,
)
    requires
        call_ensures(after_wait, (ready,), decision),
    ensures
        decision is Again <==> ready == Ok::<bool, TransportError>(true),
        ready == Ok::<bool, TransportError>(false) ==> decision == WriteDecision::Fail(
            TransportError::WriteTimeout,
        ),
        ready is Err ==> decision == WriteDecision::Fail(ready->Err_0),
{
}

} // verus!
