//! The reasons for which a usercall fails.
use vstd::prelude::*;

verus! {

/// The kind of I/O error that a usercall hands back to the enclave.
#[derive(Clone, Copy, Debug, PartialEq, Eq, Structural)]
pub enum ErrorKind {
    /// The descriptor is not open, or the stream does not go in this direction.
    BrokenPipe,
    /// An argument has no meaning for this usercall.
    InvalidInput,
    /// The call cannot be served now.
    WouldBlock,
    /// The network address is not a string.
    ConnectionRefused,
    /// Anything else, among it the abort of the whole enclave.
    Other,
}

} // verus!
