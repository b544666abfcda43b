//! The typed error taxonomy shared by the codec and the analyzer.

use vstd::prelude::*;

verus! {

/// Every way a codec or analysis operation can fail.
///
/// These are domain errors, never retried internally:
/// - `FormatError`: a chunk tag does not match its expected ASCII literal.
/// - `UnsupportedFormat`: the fmt chunk is not plain 16-byte PCM.
/// - `TruncatedHeader`: fewer than 44 bytes where a header must be.
/// - `TruncatedPayload`: fewer payload bytes than the data chunk declares.
/// - `SizeMismatch`: an encode-time payload disagrees with its config.
/// - `MalformedPayload`: an odd byte count where 16-bit samples must be.
/// - `NoPeriodFound`: the analysis found no periodic structure; this is an
///   expected outcome for silence or noise, not a structural failure.
#[derive(Clone, Copy, Debug, PartialEq, Eq, Structural)]
pub enum AudioError {
    FormatError,
    UnsupportedFormat,
    TruncatedHeader,
    TruncatedPayload,
    SizeMismatch,
    MalformedPayload,
    NoPeriodFound,
}

} // verus!
