//! Error taxonomy of the grate.
//!
//! Handler-local failures are plain return values carrying a POSIX-style
//! negative code, so one cage's bad call can never take the grate down.
//! Failures of the lifecycle protocol itself are the only fatal category and
//! are reported as [`GrateError`] values.

use vstd::prelude::*;

verus! {

/// POSIX "bad address": a required cross-space copy failed.
pub const EFAULT: i32 = -14;

/// POSIX "result out of range": the destination buffer is too small.
pub const ERANGE: i32 = -34;

/// POSIX "function not implemented": the fd-relative directory change gap.
pub const ENOSYS: i32 = -38;

/// POSIX "operation not permitted": a denied re-jail attempt.
pub const EPERM: i32 = -1;

/// Errors that can occur while setting up and running a grate.
#[derive(Debug)]
pub enum GrateError {
    /// An OS-level call of the lifecycle protocol failed; carries the failing
    /// operation's name and the OS error text.
    CoordinationError(String),
    /// The interception runtime refused a handler registration; carries its
    /// nonzero return code.
    HandlerRegistrationError(i32),
    /// A cross-space copy failed; carries the runtime's sentinel code.
    CopyDataError(i32),
    /// The call relay reported a negative result; carries that result.
    MakeSyscallError(i32),
}

impl GrateError {
    /// True for the variant that is fatal to the whole grate process.
    pub fn is_coordination_failure(&self) -> (r: bool)
        ensures
            r <==> self matches GrateError::CoordinationError(_),
    {
        match self {
            GrateError::CoordinationError(_) => true,
            _ => false,
        }
    }
}

/// The single sentinel the runtime's cross-space copy reports for every
/// error condition; no further discrimination is available.
pub const COPY_FAILURE_SENTINEL: u32 = 0xE001_0001;

/// Classify a handler-registration code: zero is success, anything else the
/// typed registration failure carrying that code.
pub fn classify_registration(ret: i32) -> (r: Result<(), GrateError>)
    ensures
        ret == 0 <==> r is Ok,
        r matches Err(e) ==> e == GrateError::HandlerRegistrationError(ret),
{
    if ret == 0 {
        Ok(())
    } else {
        Err(GrateError::HandlerRegistrationError(ret))
    }
}

/// Classify a cross-space copy result: only the runtime's sentinel is a
/// failure.
pub fn classify_copy(ret: i32) -> (r: Result<(), GrateError>)
    ensures
        (ret as u32 == COPY_FAILURE_SENTINEL) <==> r is Err,
        r matches Err(e) ==> e == GrateError::CopyDataError(ret),
{
    if ret as u32 == COPY_FAILURE_SENTINEL {
        Err(GrateError::CopyDataError(ret))
    } else {
        Ok(())
    }
}

/// Classify a relay result: negative values are errors of the underlying
/// operation, wrapped as the typed relay failure and otherwise left opaque.
pub fn classify_relay(ret: i32) -> (r: Result<i32, GrateError>)
    ensures
        ret >= 0 <==> r is Ok,
        r matches Ok(v) ==> v == ret,
        r matches Err(e) ==> e == GrateError::MakeSyscallError(ret),
{
    if ret >= 0 {
        Ok(ret)
    } else {
        Err(GrateError::MakeSyscallError(ret))
    }
}

} // verus!
