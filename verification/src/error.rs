//! Kernel error codes.

use vstd::prelude::*;

verus! {

/// No such file or directory.
pub const ENOENT: i32 = -2;

/// Input/output error.
pub const EIO: i32 = -5;

/// Out of memory.
pub const ENOMEM: i32 = -12;

/// Device or resource busy.
pub const EBUSY: i32 = -16;

/// No such device.
pub const ENODEV: i32 = -19;

/// Invalid argument.
pub const EINVAL: i32 = -22;

/// The largest magnitude that an error code can have.
pub const MAX_ERRNO: i32 = 4095;

/// A kernel error: a negative code.
#[derive(Clone, Copy, Debug, PartialEq, Eq, Structural)]
pub struct Error(pub i32);

pub type Result<T> = core::result::Result<T, Error>;

impl Error {
    /// The error that a C return value stands for: the value itself where it lies in the range of
    /// error codes, `EINVAL` where it does not.
    pub open spec fn of_errno(errno: i32) -> Error {
        if -MAX_ERRNO <= errno < 0 {
            Error(errno)
        } else {
            Error(EINVAL)
        }
    }

    /// Turns the return value of a C function into an error.
    pub fn from_errno(errno: i32) -> (r: Error)
        ensures
            r == Error::of_errno(errno),
    {
        if errno < -MAX_ERRNO || errno >= 0 {
            Error(EINVAL)
        } else {
            Error(errno)
        }
    }

    /// The error as a C return value.
    pub fn to_errno(&self) -> (r: i32)
        ensures
            r == self.0,
    {
        self.0
    }
}

} // verus!
