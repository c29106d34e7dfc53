//! Tempo estimation: infer the beats-per-minute (BPM) of a recording from a
//! stream of amplitude samples at a known sample rate.
//!
//! The pipeline builds a decimated energy envelope from the sample stream,
//! lays an evenly spaced grid of candidate beat periods over a BPM search
//! range, scores every candidate with a randomized autodifference metric, and
//! converts the minimum-scoring period back to a BPM value.
//!
//! All arithmetic is exact: amplitudes are fixed-point integers with 16
//! fractional bits, and periods and BPM values are exact rationals, so each
//! stage carries a complete functional contract.

pub mod convert;
pub mod envelope;
pub mod estimator;
pub mod grid;
pub mod ratio;
pub mod rng;
pub mod score;
pub mod source;

use vstd::prelude::*;

verus! {

/// Fixed-point scale: amplitude, offset and BPM values carry 16 fractional bits.
pub const Q16: u64 = 65536;

/// Largest accepted BPM bound, in Q16 fixed point (1024 BPM). Keeps every
/// intermediate product of the grid and conversion arithmetic inside `u128`.
pub const MAX_BPM_Q16: u64 = 0x400_0000;

/// Largest accepted sample rate, in Q16 fixed point (65536 Hz).
pub const MAX_RATE_Q16: u64 = 0x1_0000_0000;

/// Largest accepted envelope decimation factor.
pub const MAX_INTERVAL: u64 = 4096;

/// Largest accepted number of candidate periods.
pub const MAX_STEPS: u32 = 2048;

/// Largest accepted number of random probes per candidate.
pub const MAX_PROBES: u32 = 65536;

/// Largest accepted amplitude magnitude, in Q16 fixed point (65536.0; the
/// nominal amplitude range is [-1.0, 1.0]).
pub const MAX_AMP_Q16: i64 = 0x1_0000_0000;

/// Largest accepted number of input samples: a longer recording could not be
/// held in memory, and the cap keeps envelope offsets inside `u64`.
pub const MAX_INPUT_LEN: u64 = 0x4000_0000_0000;

/// Largest candidate period handed to the scorer, in Q16 envelope units
/// (follows from `MAX_RATE_Q16` and a lower BPM bound of at least one Q16
/// step); 32 times this still fits far inside `u64`.
pub const MAX_PERIOD_Q16: u64 = 0x40_0000_0000_0000;

/// Largest probe offset handed to the scorer, in Q16 envelope units
/// (`MAX_INPUT_LEN` envelope entries at most).
pub const MAX_OFFSET_Q16: u64 = 0x4000_0000_0000_0000;

} // verus!
