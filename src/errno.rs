//! Error codes returned by system-call handlers.
use vstd::prelude::*;
use axerrno::LinuxError;

verus! {

/// The errors that the handlers of this crate can report.
#[derive(Clone, Copy, Debug, PartialEq, Eq, Structural)]
pub enum SyscallError {
    /// Operation not permitted.
    EPERM,
    /// No process or thread matches the identifier.
    ESRCH,
    /// The call was interrupted.
    EINTR,
    /// A user address failed validation.
    EFAULT,
    /// An argument violates a documented precondition.
    EINVAL,
}

/// The result of a system-call handler: a non-negative value or an error.
pub type SyscallResult = Result<isize, SyscallError>;

impl SyscallError {
    /// The Linux error number of this error, as `errno.h` defines it.
    pub open spec fn errno_spec(self) -> i32 {
        match self {
            SyscallError::EPERM => 1,
            SyscallError::ESRCH => 3,
            SyscallError::EINTR => 4,
            SyscallError::EFAULT => 14,
            SyscallError::EINVAL => 22,
        }
    }

    /// Relies on `axerrno::LinuxError::code`, which returns the discriminant
    /// that `axerrno` generates from `errno.h` for each variant.
    #[verifier::external_body]
    pub fn code(self) -> (r: i32)
        ensures
            r == self.errno_spec(),
    {
        let e = match self {
            SyscallError::EPERM => LinuxError::EPERM,
            SyscallError::ESRCH => LinuxError::ESRCH,
            SyscallError::EINTR => LinuxError::EINTR,
            SyscallError::EFAULT => LinuxError::EFAULT,
            SyscallError::EINVAL => LinuxError::EINVAL,
        };
        e.code()
    }
}

/// The value a handler's result takes in the return register: the value
/// itself on success, the negated error number on failure.
pub open spec fn return_value_spec(r: SyscallResult) -> int {
    match r {
        Ok(v) => v as int,
        Err(e) => -(e.errno_spec() as int),
    }
}

/// Encodes a handler's result as the value returned to user space.
pub fn return_value(r: SyscallResult) -> (v: isize)
    ensures
        v as int == return_value_spec(r),
{
    match r {
        Ok(v) => v,
        Err(e) => {
            let c = e.code();
            -(c as isize)
        },
    }
}

} // verus!
