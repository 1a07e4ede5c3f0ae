//! Errors surfaced while decoding a revisioned byte stream.

use vstd::prelude::*;

verus! {

/// Why a decode call failed.  Every failure is fatal to the call: the decoder
/// never retries and never falls back to defaults on corrupt input.
#[derive(Clone, Copy, PartialEq, Eq, Structural, Debug)]
pub enum DecodeError {
    /// Malformed byte stream: truncated input, an out-of-range scalar, or
    /// bytes that do not decode under a field's codec.
    Format,
    /// The header revision exceeds the revision this code was built with;
    /// the caller must upgrade before reading the data.
    FutureRevision,
    /// An enumeration tag outside its closed set; never coerced to a default.
    InvalidTag,
    /// A retired field's conversion handler rejected its legacy value.
    Conversion,
}

} // verus!
