//! What can go wrong while counters are opened and a workload is measured.

use vstd::prelude::*;

verus! {

/// Operation not permitted.
pub const EPERM: i32 = 1;

/// No such file or directory: the kernel does not know the event.
pub const ENOENT: i32 = 2;

/// Permission denied.
pub const EACCES: i32 = 13;

/// No such device: the processor lacks the feature behind the event.
pub const ENODEV: i32 = 19;

/// Function not implemented: the kernel has no performance monitoring.
pub const ENOSYS: i32 = 38;

/// Operation not supported: the hardware cannot count the event.
pub const EOPNOTSUPP: i32 = 95;

/// Why a counter or a group could not be opened.
#[derive(Clone, Copy, Debug, PartialEq, Eq, Structural)]
pub enum OpenError {
    /// The hardware or the kernel does not expose the event.
    Unsupported,
    /// The caller lacks the privilege to monitor performance.
    PermissionDenied,
    /// Any other failure of the operating system, with its error number.
    Io(i32),
}

/// Why a measurement could not be completed.
#[derive(Clone, Copy, Debug, PartialEq, Eq, Structural)]
pub enum RunError {
    /// Enabling, disabling or reading a group failed in the operating
    /// system, with its error number.
    Io(i32),
    /// A reading lacked the count of one of the group's counters.
    IncompleteReading,
}

/// Why a group set ended without counts.
#[derive(Clone, Copy, Debug, PartialEq, Eq, Structural)]
pub enum Failure {
    Open(OpenError),
    Run(RunError),
    /// The driver answered an action with an event that cannot follow it.
    Protocol,
}

/// How a failed attempt to open a counter is reported, by the error number
/// of the operating system.
pub open spec fn open_error(errno: i32) -> OpenError {
    if errno == ENOENT || errno == ENODEV || errno == ENOSYS || errno == EOPNOTSUPP {
        OpenError::Unsupported
    } else if errno == EPERM || errno == EACCES {
        OpenError::PermissionDenied
    } else {
        OpenError::Io(errno)
    }
}

/// How a failed attempt to open a counter is reported, by the error number
/// of the operating system.
pub fn classify_open_error(errno: i32) -> (error: OpenError)
    ensures
        error == open_error(errno),
{
    if errno == ENOENT || errno == ENODEV || errno == ENOSYS || errno == EOPNOTSUPP {
        OpenError::Unsupported
    } else if errno == EPERM || errno == EACCES {
        OpenError::PermissionDenied
    } else {
        OpenError::Io(errno)
    }
}

} // verus!
