//! The failure taxonomy shared by both decompressors.

use vstd::prelude::*;

verus! {

/// Why a decompression call failed.
///
/// Every error is detected at the lowest level — a structural check or the
/// codec's own return value — and surfaced to the caller unchanged: there is
/// no fallback and no partial result.
#[derive(Debug)]
pub enum DecompressError {
    /// The five-byte LZO compatibility header failed its structural check:
    /// the input is shorter than eight bytes or the marker byte lies outside
    /// `0xF0..=0xF1`.
    InvalidHeader,
    /// The LZ4 discovery loop's candidate output capacity would exceed the
    /// one-gibibyte ceiling, so the decode was abandoned before allocating.
    OutputTooLarge,
    /// The compressed payload itself is malformed, or the decoded length does
    /// not match the resolved expected length; the message describes the
    /// cause.
    Decode(String),
}

} // verus!
