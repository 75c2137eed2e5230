//! The decode error taxonomy.

use vstd::prelude::*;

verus! {

/// Why a decode attempt failed.
///
/// `UnexpectedEOF` is raised when the stream ends where more data was
/// expected; at a box boundary the tree walker treats it as the normal
/// end-of-input signal rather than an error.
#[derive(Clone, Copy, Debug, PartialEq, Eq, Structural)]
pub enum Error {
    /// Structurally malformed box data.
    InvalidData,
    /// A feature path the decoder does not handle.
    Unsupported,
    /// The stream ended while a structure was still being read.
    UnexpectedEOF,
    /// The byte source reported a read failure.
    Io,
    /// The stream held no movie box.
    NoMoov,
    /// An internal abort was caught at the isolation boundary.
    AssertCaught,
}

} // verus!
