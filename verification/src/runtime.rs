//! The capability through which the grate touches the outside world.
//!
//! The interception runtime delivers intercepted calls, copies memory between
//! address spaces, performs the real operation a handler asks for, and
//! registers handlers. The verified logic only ever describes what to do with
//! whatever such an operation returns, so it is correct for every
//! implementation of this trait; tests drive it with an in-memory mock.

use vstd::prelude::*;

verus! {

/// The reserved descriptor value meaning "relative to the current working
/// directory" rather than an open directory handle.
pub const AT_FDCWD: i64 = -100;

/// The Unix-domain address family tag (value 1) as it sits in the first two
/// bytes of an address buffer, in the byte order of the supported target.
pub const AF_UNIX_BYTE_LO: u8 = 1;

/// The second byte of the Unix-domain family tag on the supported target.
pub const AF_UNIX_BYTE_HI: u8 = 0;

/// How many bytes a path argument is read with: the traditional maximum path
/// length.
pub const PATH_READ_LEN: usize = 4096;

/// One argument slot of a relayed call.
#[derive(Clone)]
pub enum ArgSlot {
    /// The raw 64-bit value, meaningful in `owner`'s address space.
    Val { v: u64, owner: u64 },
    /// A grate-owned path: the relay passes the address of these bytes with a
    /// terminator appended, owned by the grate itself.
    HostPath { bytes: Vec<u8> },
    /// A grate-owned raw buffer: the relay passes the address of these bytes,
    /// owned by the grate itself.
    Buf { bytes: Vec<u8> },
    /// A fresh grate-owned output buffer of `len` bytes for the operation to
    /// fill.
    OutBuf { len: u64 },
}

/// Everything the relay needs to perform one real operation.
#[derive(Clone)]
pub struct CallFrame {
    /// The numeric call identifier.
    pub call_nr: u64,
    /// The cage on whose behalf the call is made.
    pub caller: u64,
    /// The address space the call is directed at.
    pub target: u64,
    /// The six argument slots.
    pub args: Vec<ArgSlot>,
    /// Passed through to the relay; zero keeps error translation on.
    pub translate_errno: u64,
}

/// A frame carries exactly six argument slots.
pub open spec fn frame_wf(f: &CallFrame) -> bool {
    f.args@.len() == 6
}

/// The effectful operations of the interception runtime. Nothing is assumed
/// of their results: every caller in this crate states what it does for any
/// outcome.
pub trait CageRuntime {
    /// The grate's own address-space identity.
    fn current_id(&self) -> u64;

    /// Copy `len` bytes from `addr` in `cage`'s space into a fresh buffer;
    /// `None` when the copy fails (the runtime reports a single sentinel for
    /// every failure condition).
    fn read_bytes(&mut self, cage: u64, addr: u64, len: usize) -> Option<Vec<u8>>;

    /// Copy `data` into `cage`'s space at `addr`; `false` when the copy
    /// fails.
    fn write_bytes(&mut self, cage: u64, addr: u64, data: &Vec<u8>) -> bool;

    /// Perform the real operation the frame describes and return its signed
    /// result; negative values are errors of the underlying operation.
    fn relay(&mut self, frame: &CallFrame) -> i32;

    /// As `relay`, additionally returning the bytes the operation left in
    /// the frame's output-buffer slot.
    fn relay_with_output(&mut self, frame: &CallFrame) -> (i32, Vec<u8>);
}

/// A cross-space read whose length is checked: a runtime that hands back the
/// wrong number of bytes is treated exactly like a failed copy.
pub fn read_exact<R: CageRuntime>(rt: &mut R, cage: u64, addr: u64, len: usize) -> (r: Option<
    Vec<u8>,
>)
    ensures
        r matches Some(v) ==> v@.len() == len,
{
    match rt.read_bytes(cage, addr, len) {
        Some(v) => {
            if v.len() == len {
                Some(v)
            } else {
                None
            }
        },
        None => None,
    }
}

} // verus!
