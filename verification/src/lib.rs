use vstd::prelude::*;

pub mod color;
pub mod config;
pub mod curve;
pub mod engine;
pub mod parse;
pub mod pixel;
pub mod rng;

verus! {

/// Fixed-point scale: intensities and probabilities are stored in
/// parts-per-million, so `1_000_000` stands for the real value `1.0`.
pub const PPM: u32 = 1_000_000;

} // verus!
