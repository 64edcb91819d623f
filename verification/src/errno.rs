//! Errors reported by system calls.

use vstd::prelude::*;

verus! {

/// A system-call error.
///
/// `Code` carries the Linux number of an error that a service outside this
/// crate reported and that this crate only passes on.
#[derive(Debug, Clone, Copy, PartialEq, Eq, Structural)]
pub enum AxError {
    /// `EFAULT`: a user address is not accessible.
    BadAddress,
    /// `EBADF`: the descriptor does not denote a suitable file.
    BadFileDescriptor,
    /// `EINTR`: the call was interrupted.
    Interrupted,
    /// `EINVAL`: malformed data.
    InvalidData,
    /// `ENOEXEC`: not an executable image.
    InvalidExecutable,
    /// `EINVAL`: an argument is out of its domain.
    InvalidInput,
    /// `ENAMETOOLONG`: a string or array has no terminator within the limit.
    NameTooLong,
    /// `ECHILD`: there is no child to wait for.
    NoChild,
    /// `ESRCH`: there is no such process.
    NoSuchProcess,
    /// `EPERM`: the caller lacks the privilege.
    OperationNotPermitted,
    /// `EACCES`: the operation is refused.
    PermissionDenied,
    /// Any other error, by its Linux number.
    Code(i32),
}

/// Result of a system call.
pub type AxResult<T> = Result<T, AxError>;

/// The number of `LinuxError::EINTR`, which `ax_errno` takes from the Linux
/// error table: 4.
#[verifier::external_body]
pub(crate) fn eintr_code() -> (code: i32)
    ensures
        code == 4,
{
    ax_errno::LinuxError::EINTR.code()
}

} // verus!
