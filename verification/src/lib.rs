//! Mono linear-PCM `.wav` container codec and AMDF pitch estimation.
//!
//! The crate has two halves: [`wav`] packs and parses the fixed 44-byte
//! RIFF/fmt/data header together with a little-endian 16-bit sample payload,
//! and [`analyzer`] estimates the fundamental period of a sample buffer with
//! the average magnitude difference function (AMDF).

pub mod analyzer;
pub mod errors;
pub mod wav;
