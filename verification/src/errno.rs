//! Errno classes of a failed grab. Failures are negative errnos, as libdrmtap returns them, in
//! the numbering that Linux has on most machines. Where a machine numbers them otherwise, a
//! failure is renumbered before it is handed in.

use vstd::prelude::*;

verus! {

/// Operation not permitted.
pub const EPERM: i32 = 1;

/// No such file or directory.
pub const ENOENT: i32 = 2;

/// Interrupted system call.
pub const EINTR: i32 = 4;

/// Resource temporarily unavailable.
pub const EAGAIN: i32 = 11;

/// Permission denied.
pub const EACCES: i32 = 13;

/// Device or resource busy.
pub const EBUSY: i32 = 16;

/// No such device.
pub const ENODEV: i32 = 19;

/// Connection timed out.
pub const ETIMEDOUT: i32 = 110;

/// The failures that may go away on a retry: no frame ready, helper busy, interrupted call.
pub open spec fn transient(ret: int) -> bool {
    ret == -EAGAIN || ret == -EBUSY || ret == -EINTR || ret == -ETIMEDOUT
}

/// The failures that mean the helper cannot run at all: denied or missing.
pub open spec fn setup(ret: int) -> bool {
    ret == -EACCES || ret == -EPERM || ret == -ENOENT
}

/// A grab that returns one of these may succeed on a retry. Anything else negative is a
/// permanent failure and must not be retried.
pub fn is_transient_errno(ret: i32) -> (r: bool)
    ensures
        r == transient(ret as int),
{
    ret == -EAGAIN || ret == -EBUSY || ret == -EINTR || ret == -ETIMEDOUT
}

/// Whether the failure is fixed for the lifetime of the process: the helper is denied or
/// missing. Everything else may clear, so it stays retryable.
pub fn is_setup_errno(ret: i32) -> (r: bool)
    ensures
        r == setup(ret as int),
{
    ret == -EACCES || ret == -EPERM || ret == -ENOENT
}

/// A failure is never both worth a retry and fixed for the process.
pub proof fn lemma_errno_classes_disjoint(ret: int)
    ensures
        !(transient(ret) && setup(ret)),
        transient(ret) ==> ret < 0,
        setup(ret) ==> ret < 0,
        !transient(-ENODEV),
        !setup(-ENODEV),
{
}

} // verus!
