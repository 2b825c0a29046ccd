use vstd::prelude::*;

verus! {

/// rand's standard generator, declared so it can stand in signatures;
/// nothing of its inside is visible to the verifier.
#[verifier::external_type_specification]
#[verifier::external_body]
pub struct ExStdRng(rand::rngs::StdRng);

/// Relies on rand's `Rng::gen_range` over the half-open range
/// `lo..hi`: the sample lies in `[lo, hi)`. `lo < hi` keeps the range
/// non-empty, on which `gen_range` would panic.
#[verifier::external_body]
pub(crate) fn draw_in(rng: &mut rand::rngs::StdRng, lo: u32, hi: u32) -> (r: u32)
    requires
        lo < hi,
    ensures
        lo <= r < hi,
{
    rand::Rng::gen_range(rng, lo..hi)
}

/// Relies on rand's `Rng::gen_range` over the closed range `lo..=hi`:
/// the sample lies in `[lo, hi]`. `lo <= hi` keeps the range
/// non-empty, on which `gen_range` would panic.
#[verifier::external_body]
pub(crate) fn draw_byte(rng: &mut rand::rngs::StdRng, lo: u8, hi: u8) -> (r: u8)
    requires
        lo <= hi,
    ensures
        lo <= r <= hi,
{
    rand::Rng::gen_range(rng, lo..=hi)
}

} // verus!
