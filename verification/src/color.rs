use vstd::prelude::*;
use vstd::arithmetic::div_mod::{lemma_div_is_ordered, lemma_div_multiples_vanish, lemma_div_of0, lemma_div_pos_is_pos};
use crate::PPM;

verus! {

/// An RGB color, one byte per channel.
#[derive(Clone, Copy, Debug, PartialEq, Eq, Structural)]
pub struct Rgb {
    pub red: u8,
    pub green: u8,
    pub blue: u8,
}

impl Rgb {
    /// The null color: every channel is zero.
    pub open spec fn is_black(self) -> bool {
        self.red == 0 && self.green == 0 && self.blue == 0
    }

    pub open spec fn channel_sum(self) -> int {
        self.red + self.green + self.blue
    }

    pub fn black() -> (c: Rgb)
        ensures
            c.is_black(),
    {
        Rgb { red: 0, green: 0, blue: 0 }
    }

    pub fn sum(&self) -> (s: u32)
        ensures
            s == self.channel_sum(),
    {
        self.red as u32 + self.green as u32 + self.blue as u32
    }
}

/// Scaling a channel by an intensity and a ceiling, both in parts per
/// million: the channel value times the two fractions, rounded down.
pub open spec fn scaled_channel(c: u8, intensity: u32, max: u32) -> int {
    (c * intensity * max) / (PPM * PPM)
}

/// A scaled channel never exceeds the channel it came from.
pub proof fn lemma_scaled_channel_bounds(c: u8, intensity: u32, max: u32)
    requires
        intensity <= PPM,
        max <= PPM,
    ensures
        0 <= scaled_channel(c, intensity, max) <= c,
        intensity == 0 ==> scaled_channel(c, intensity, max) == 0,
{
    let p = c * intensity * max;
    let d = (PPM * PPM) as int;
    assert(p <= c * d && p >= 0) by (nonlinear_arith)
        requires
            intensity <= PPM,
            max <= PPM,
            p == c * intensity * max,
            d == PPM * PPM,
    ;
    lemma_div_is_ordered(p, c * d, d);
    lemma_div_multiples_vanish(c as int, d);
    assert(c * d == d * c) by (nonlinear_arith);
    assert(p / d >= 0) by (nonlinear_arith)
        requires
            p >= 0,
            d > 0,
    ;
    if intensity == 0 {
        assert(p == 0) by (nonlinear_arith)
            requires
                p == c * intensity * max,
                intensity == 0,
        ;
        lemma_div_of0(d);
    }
}

pub open spec fn scaled_rgb(c: Rgb, intensity: u32, max: u32) -> Rgb {
    Rgb {
        red: scaled_channel(c.red, intensity, max) as u8,
        green: scaled_channel(c.green, intensity, max) as u8,
        blue: scaled_channel(c.blue, intensity, max) as u8,
    }
}

/// A color scaled by a zero intensity is black.
pub proof fn lemma_scaled_black(c: Rgb, intensity: u32, max: u32)
    requires
        intensity <= PPM,
        max <= PPM,
    ensures
        intensity == 0 ==> scaled_rgb(c, intensity, max).is_black(),
{
    lemma_scaled_channel_bounds(c.red, intensity, max);
    lemma_scaled_channel_bounds(c.green, intensity, max);
    lemma_scaled_channel_bounds(c.blue, intensity, max);
}

fn scale_channel(c: u8, intensity: u32, max: u32) -> (r: u8)
    requires
        intensity <= PPM,
        max <= PPM,
    ensures
        r == scaled_channel(c, intensity, max),
{
    proof {
        lemma_scaled_channel_bounds(c, intensity, max);
        assert((c as int) * (intensity as int) <= 255 * (PPM as int)) by (nonlinear_arith)
            requires
                c <= 255,
                intensity <= PPM,
        ;
        assert((c as int) * (intensity as int) * (max as int)
            <= 255 * (PPM as int) * (PPM as int)) by (nonlinear_arith)
            requires
                c <= 255,
                intensity <= PPM,
                max <= PPM,
        ;
    }
    let p: u64 = (c as u64) * (intensity as u64) * (max as u64);
    let d: u64 = (PPM as u64) * (PPM as u64);
    (p / d) as u8
}

/// Perceptual (gamma 2) correction of a channel: the square of the
/// channel fraction, back on the byte scale, rounded down. A cheap
/// integer stand-in for a fixture's gamma table, used only to judge
/// whether a fading pixel is still visible.
pub open spec fn gamma_channel(c: u8) -> int {
    (c * c) / 255
}

/// The gamma-corrected channel sum of a color: what the visibility
/// floor of the stochastic-rise model is compared against.
pub open spec fn gamma_sum(c: Rgb) -> int {
    gamma_channel(c.red) + gamma_channel(c.green) + gamma_channel(c.blue)
}

/// Sums the gamma-corrected channels of a color.
pub fn gamma_correct_sum(c: &Rgb) -> (s: u32)
    ensures
        s == gamma_sum(*c),
{
    proof {
        lemma_gamma_channel_bounds(c.red);
        lemma_gamma_channel_bounds(c.green);
        lemma_gamma_channel_bounds(c.blue);
    }
    let r = (c.red as u32) * (c.red as u32) / 255;
    let g = (c.green as u32) * (c.green as u32) / 255;
    let b = (c.blue as u32) * (c.blue as u32) / 255;
    r + g + b
}

/// A gamma-corrected channel stays on the byte scale.
pub proof fn lemma_gamma_channel_bounds(c: u8)
    ensures
        0 <= c * c <= 65025,
        0 <= gamma_channel(c) <= 255,
{
    assert(0 <= c * c <= 65025) by (nonlinear_arith)
        requires
            c <= 255,
    ;
    lemma_div_is_ordered(c * c, 65025, 255);
    lemma_div_pos_is_pos(c * c, 255);
}

/// A dimmed variant of a color: each channel scaled by the current
/// intensity and the configured ceiling, both in parts per million.
pub fn scale_rgb(c: &Rgb, intensity: u32, max: u32) -> (r: Rgb)
    requires
        intensity <= PPM,
        max <= PPM,
    ensures
        r == scaled_rgb(*c, intensity, max),
{
    Rgb {
        red: scale_channel(c.red, intensity, max),
        green: scale_channel(c.green, intensity, max),
        blue: scale_channel(c.blue, intensity, max),
    }
}

} // verus!
