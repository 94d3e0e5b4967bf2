//! The ways in which the engine fails.

use vstd::prelude::*;

verus! {

/// Why an operation of the engine failed.
#[derive(Debug, Clone, PartialEq, Eq)]
pub enum NetlinkError {
    /// A system call on the socket failed with this error number.
    Socket { errno: i32 },
    /// A frame is cut short, or a length in it is out of range.
    MalformedMessage,
    /// A reply came from a port other than the kernel's.
    UnexpectedPeer { port: u32 },
    /// A reply carries another sequence number than the request.
    SequenceMismatch { expected: u32, found: u32 },
    /// The kernel refused the request: the error number, its text and the
    /// rest of the error frame.
    KernelError { errno: i32, message: String, tail: Vec<u8> },
    /// Addresses that must agree on their family do not.
    FamilyMismatch,
    /// No payload came back where exactly one was asked for.
    NotFound,
    /// Several payloads came back where exactly one was asked for.
    Ambiguous,
    /// An address attribute is neither four nor sixteen bytes long.
    InvalidArgument,
}

} // verus!
