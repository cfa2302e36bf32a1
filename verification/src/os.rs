//! What the operating system reports, as plain values.

use vstd::prelude::*;

verus! {

/// The kinds of operating-system error that are told apart.
#[derive(Debug, Clone, Copy, PartialEq, Eq, Structural)]
pub enum OsErrorKind {
    /// No such file or directory.
    NotFound,
    /// The process may not perform the operation.
    PermissionDenied,
    /// A nonblocking operation would have to wait.
    WouldBlock,
    /// A signal interrupted the operation.
    Interrupted,
    /// What was read is not valid text.
    InvalidData,
    /// Any other kind.
    Other,
}

/// An operating-system error.
#[derive(Debug, PartialEq, Eq)]
pub struct OsError {
    /// What kind of error it is.
    pub kind: OsErrorKind,
    /// The error number, where there is one.
    pub code: Option<i32>,
    /// The description that the system gives.
    pub text: String,
}

/// The error number of a device or resource that is busy.
pub open spec fn busy_code() -> i32 {
    16
}

/// Poll result flag: an error condition.
pub open spec fn error_flag() -> i16 {
    0x08
}

/// Poll result flag: the other end hung up.
pub open spec fn hangup_flag() -> i16 {
    0x10
}

/// Poll result flag: the descriptor is not open.
pub open spec fn invalid_flag() -> i16 {
    0x20
}

/// The constant `libc::EBUSY`, which is 16 on Linux.
#[verifier::external_body]
pub(crate) fn ebusy() -> (code: i32)
    ensures
        code == busy_code(),
{
    libc::EBUSY
}

/// The constant `libc::POLLERR`, which is 0x08 on Linux.
#[verifier::external_body]
pub(crate) fn pollerr() -> (flag: i16)
    ensures
        flag == error_flag(),
{
    libc::POLLERR
}

/// The constant `libc::POLLHUP`, which is 0x10 on Linux.
#[verifier::external_body]
pub(crate) fn pollhup() -> (flag: i16)
    ensures
        flag == hangup_flag(),
{
    libc::POLLHUP
}

/// The constant `libc::POLLNVAL`, which is 0x20 on Linux.
#[verifier::external_body]
pub(crate) fn pollnval() -> (flag: i16)
    ensures
        flag == invalid_flag(),
{
    libc::POLLNVAL
}

} // verus!
