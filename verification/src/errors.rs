//! The ways in which decoding a replay can fail.

use vstd::prelude::*;

verus! {

/// Why a decode was abandoned.
#[derive(Clone, Copy, Debug, PartialEq, Eq, Structural)]
pub enum ParseError {
    /// A read asked for more bytes than were left: of the buffer, or of the
    /// body of the chunk that the read stands in.
    InsufficientBytes,
    /// The fields of a chunk body ended before the length that its header
    /// declares was reached.
    FramingViolation,
    /// The bytes of a length-prefixed string are not valid UTF-8.
    InvalidEncoding,
    /// A command's action-type byte is not the one its decoder expects.
    UnexpectedDiscriminant,
}

} // verus!
