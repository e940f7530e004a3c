//! Wrapping sums over `u32` arrays under several access strategies, a
//! deterministic xorshift generator that fills the input, and the timing
//! harness that compares the strategies.

pub mod xorshift;
pub mod sums;
pub mod harness;
