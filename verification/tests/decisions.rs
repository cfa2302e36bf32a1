//! When to wait, when to try again, and when to stop.

use vrg9080_protocol::hidraw::{
    after_poll, after_read, after_wait, after_write, poll_timeout, PollDecision, Polled,
    ReadDecision, WriteDecision,
};
use vrg9080_protocol::os::{OsError, OsErrorKind};
use vrg9080_protocol::TransportError;

const NODE: &str = "/dev/hidraw0";

fn os_error(kind: OsErrorKind) -> OsError {
    OsError {
        kind,
        code: None,
        text: "cause".to_string(),
    }
}

fn io_error(operation: &'static str, kind: OsErrorKind) -> TransportError {
    TransportError::Io {
        operation,
        path: NODE.to_string(),
        source: os_error(kind),
    }
}

#[test]
fn waits_are_rounded_up_and_cut_off() {
    for (nanos, millis) in [
        (0, 0),
        (1, 1),
        (999_999, 1),
        (1_000_000, 1),
        (1_000_001, 2),
        (500_000_000, 500),
        (2_147_483_646_000_001, 2_147_483_647),
        (2_147_483_647_000_000, 2_147_483_647),
        (2_147_483_647_000_001, 2_147_483_647),
        (u128::MAX, 2_147_483_647),
    ] {
        assert_eq!(poll_timeout(nanos), millis, "{nanos}");
    }
}

#[test]
fn a_ready_node_is_told_from_a_gone_one() {
    let ready = |flags| after_poll(Polled::Flags(flags), libc::POLLIN, true, NODE);
    assert_eq!(ready(libc::POLLIN), PollDecision::Done(true));
    assert_eq!(ready(libc::POLLIN | libc::POLLOUT), PollDecision::Done(true));
    for gone in [libc::POLLERR, libc::POLLHUP, libc::POLLNVAL] {
        for flags in [gone, gone | libc::POLLIN] {
            assert_eq!(ready(flags), PollDecision::Fail(TransportError::Disconnected));
        }
    }
    assert_eq!(ready(libc::POLLOUT), PollDecision::Done(false));
    assert_eq!(
        after_poll(Polled::Flags(libc::POLLOUT), libc::POLLIN, false, NODE),
        PollDecision::Again
    );
}

#[test]
fn waiting_ends_with_the_deadline() {
    assert_eq!(after_poll(Polled::Nothing, libc::POLLIN, false, NODE), PollDecision::Again);
    assert_eq!(after_poll(Polled::Nothing, libc::POLLIN, true, NODE), PollDecision::Done(false));
    let failed = |kind, expired| after_poll(Polled::Failed(os_error(kind)), libc::POLLIN, expired, NODE);
    assert_eq!(failed(OsErrorKind::Interrupted, false), PollDecision::Again);
    assert_eq!(failed(OsErrorKind::Interrupted, true), PollDecision::Done(false));
    for expired in [false, true] {
        assert_eq!(
            failed(OsErrorKind::WouldBlock, expired),
            PollDecision::Fail(io_error("poll hidraw node", OsErrorKind::WouldBlock))
        );
    }
}

#[test]
fn a_read_gives_a_report_or_is_tried_again() {
    assert_eq!(after_read(Ok(64), true, NODE), ReadDecision::Report(64));
    assert_eq!(after_read(Ok(1), false, NODE), ReadDecision::Report(1));
    assert_eq!(
        after_read(Ok(0), false, NODE),
        ReadDecision::Fail(TransportError::Disconnected)
    );
    for kind in [OsErrorKind::WouldBlock, OsErrorKind::Interrupted] {
        assert_eq!(after_read(Err(os_error(kind)), false, NODE), ReadDecision::Again);
        assert_eq!(after_read(Err(os_error(kind)), true, NODE), ReadDecision::Nothing);
    }
    assert_eq!(
        after_read(Err(os_error(OsErrorKind::Other)), true, NODE),
        ReadDecision::Fail(io_error("read hidraw report", OsErrorKind::Other))
    );
}

#[test]
fn only_a_whole_message_is_written() {
    assert_eq!(after_write(Ok(65), true, NODE), WriteDecision::Done);
    for actual in [0, 64, 66] {
        assert_eq!(
            after_write(Ok(actual), false, NODE),
            WriteDecision::Fail(TransportError::ShortWrite { actual })
        );
    }
    let failed = |kind, expired| after_write(Err(os_error(kind)), expired, NODE);
    assert_eq!(failed(OsErrorKind::WouldBlock, false), WriteDecision::WaitThenAgain);
    assert_eq!(failed(OsErrorKind::Interrupted, false), WriteDecision::Again);
    for kind in [OsErrorKind::WouldBlock, OsErrorKind::Interrupted] {
        assert_eq!(
            failed(kind, true),
            WriteDecision::Fail(TransportError::WriteTimeout)
        );
    }
    assert_eq!(
        failed(OsErrorKind::PermissionDenied, true),
        WriteDecision::Fail(io_error(
            "write fixed hidraw request",
            OsErrorKind::PermissionDenied
        ))
    );
}

#[test]
fn a_write_waits_for_the_node_until_the_deadline() {
    assert_eq!(after_wait(Ok(true)), WriteDecision::Again);
    assert_eq!(
        after_wait(Ok(false)),
        WriteDecision::Fail(TransportError::WriteTimeout)
    );
    assert_eq!(
        after_wait(Err(TransportError::Disconnected)),
        WriteDecision::Fail(TransportError::Disconnected)
    );
}
