//! Errors surfaced when a digest is finalized or a hash string is decoded.

use vstd::prelude::*;

verus! {

/// The failures that can occur while finalizing a digest or decoding a hash
/// string.  Feeding bytes into a builder never fails.
#[derive(Clone, Copy, Debug, PartialEq, Eq, Structural)]
pub enum TlshError {
    /// The stream is longer than the largest tabulated length boundary.
    DataLenOverflow,
    /// The bucket histogram is too flat or too short to quantize: its third
    /// quartile is zero, so no digest can be produced.
    DegenerateHistogram,
    /// The hash string is malformed and cannot be parsed.
    InvalidHashValue,
    /// A character in the hash string is not an uppercase hex digit.
    ParseHexFailed,
}

} // verus!
