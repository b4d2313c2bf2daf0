//! Error taxonomy of the decoder.
//!
//! Every malformed window is an invalid-input error; the variant names the
//! sub-parser that failed.  Clean end-of-stream between packets is not an
//! error and is reported as `None` by the reader instead.

use vstd::prelude::*;

verus! {

/// Why a window failed to decode.
#[derive(Clone, Copy, Debug, PartialEq, Eq, Structural)]
pub enum DecodeError {
    /// The stream ended in the middle of a 188-byte window.
    UnexpectedEndOfStream,
    /// The first byte of the window is not the sync marker.
    InvalidSyncByte,
    /// The adaptation field's own length byte overruns the window.
    AdaptationFieldTooLong,
    /// A program-association section needs its two leading bytes, and a
    /// declared length that covers the four-byte checksum trailer.
    PatSectionTooShort,
    /// The declared section length overruns the bytes that remain.
    PatSectionLengthMismatch,
    /// The table body is not a whole number of four-byte entries.
    PatEntriesMisaligned,
    /// The checksum trailer does not match the section content.
    PatBadChecksum,
    /// Header plus adaptation field left bytes over although the control
    /// flags promise no payload.
    ResidualBytes,
}

/// Why a packet could not be encoded back into a window.
#[derive(Clone, Copy, Debug, PartialEq, Eq, Structural)]
pub enum EncodeError {
    /// The packet's fields cannot fill one 188-byte window exactly, or its
    /// payload kind contradicts its packet identifier.
    NotEncodable,
}

} // verus!
