//! The ways in which reading or writing a frame fails.

use vstd::prelude::*;

verus! {

/// Why a frame could not be read or written. Every one of them is fatal for
/// the connection: the stream cannot be resynchronised.
#[derive(Clone, Copy, Debug, PartialEq, Eq, Structural)]
pub enum CodecError {
    /// A frame declared a length above the largest accepted frame.
    FrameTooBig,
    /// A frame declared a length too small to count its own length field.
    InvalidFrameLength,
    /// A frame carried a type byte that names no supported message.
    InvalidMessageType(u8),
    /// A body was malformed: a string without its null byte, text that is
    /// not UTF-8, or a body too short for its fields.
    InvalidInput,
    /// A message to be sent does not fit the wire format.
    MessageTooLarge,
}

} // verus!
