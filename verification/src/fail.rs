//! Error values shared by the whole library.

use vstd::prelude::*;

verus! {

/// I/O error.
pub const EIO: i32 = 5;
/// Resource temporarily unavailable.
pub const EAGAIN: i32 = 11;
/// Operation would block (same value as `EAGAIN` on Linux).
pub const EWOULDBLOCK: i32 = 11;
/// Invalid argument.
pub const EINVAL: i32 = 22;
/// Bad message.
pub const EBADMSG: i32 = 74;
/// Operation not supported.
pub const ENOTSUP: i32 = 95;
/// Operation already in progress.
pub const EALREADY: i32 = 114;
/// Operation now in progress.
pub const EINPROGRESS: i32 = 115;

/// A failed operation: an error number and a short description of its cause.
#[derive(Debug)]
pub struct Fail {
    pub errno: i32,
    pub cause: String,
}

impl Fail {
    /// Creates a failure with the given error number and cause.
    pub fn new(errno: i32, cause: &str) -> (r: Fail)
        ensures
            r.errno == errno,
            r.cause@ == cause@,
    {
        Fail { errno, cause: cause.to_owned() }
    }

    /// Creates a failure with the given error number and a cause already
    /// written out.
    pub fn with_cause(errno: i32, cause: String) -> (r: Fail)
        ensures
            r.errno == errno,
            r.cause == cause,
    {
        Fail { errno, cause }
    }
}

/// `format!`: the text `what`, a colon, and the error number, as in
/// "failed to send on socket: 11". Nothing is stated of the text.
#[verifier::external_body]
pub(crate) fn cause_with_errno(what: &str, errno: i32) -> String {
    format!("{}: {:?}", what, errno)
}

/// Whether an operation that failed with `errno` may succeed if tried again later.
pub open spec fn spec_should_retry(errno: i32) -> bool {
    errno == EINPROGRESS || errno == EWOULDBLOCK || errno == EAGAIN || errno == EALREADY
}

/// Tells whether an operation that failed with `errno` should be retried.
pub fn should_retry(errno: i32) -> (r: bool)
    ensures
        r == spec_should_retry(errno),
{
    errno == EINPROGRESS || errno == EWOULDBLOCK || errno == EAGAIN || errno == EALREADY
}

} // verus!
