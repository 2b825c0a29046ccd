use vstd::prelude::*;
use vstd::arithmetic::div_mod::{
    lemma_div_by_self, lemma_div_is_ordered, lemma_div_multiples_vanish, lemma_div_pos_is_pos,
};
use crate::color::{gamma_correct_sum, gamma_sum, lemma_scaled_black, scale_rgb, scaled_rgb, Rgb};
use crate::config::Model;
use crate::curve::{
    age2intensity, intensity_of_age, lemma_curve_bounds, lemma_curve_positive,
    lemma_curve_vanishes, CURVE_PEAK, EXTINGUISH_AGE,
};
use crate::PPM;

verus! {

/// One fixture's animation state.
#[derive(Clone, Copy, Debug, PartialEq, Eq, Structural)]
pub struct Pixel {
    /// Ticks since ignition; 0 means dark.
    pub age: u32,
    /// Current brightness in parts per million; 0 exactly when dark.
    pub intensity: u32,
    /// The color sampled at ignition, kept so later ticks can re-derive
    /// the rendered value at the current intensity without re-sampling.
    pub color: Rgb,
    /// The last color handed to the renderer.
    pub rendered: Rgb,
}

/// The single canonical dark state.
pub open spec fn dark_pixel() -> Pixel {
    Pixel {
        age: 0,
        intensity: 0,
        color: Rgb { red: 0, green: 0, blue: 0 },
        rendered: Rgb { red: 0, green: 0, blue: 0 },
    }
}

/// Saturating age bump: a pixel that somehow stays lit forever stops
/// counting rather than wrapping around.
pub open spec fn sat_inc(a: u32) -> u32 {
    if a == u32::MAX {
        a
    } else {
        (a + 1) as u32
    }
}

impl Pixel {
    pub open spec fn is_dark(self) -> bool {
        self == dark_pixel()
    }

    /// The ceiling the stored intensity respects: the curve's peak
    /// under the age-driven model, the configured ceiling under the
    /// stochastic one.
    pub open spec fn cap(model: Model, max_intensity: u32) -> u32 {
        match model {
            Model::AgeCurve => CURVE_PEAK,
            Model::StochasticRise => max_intensity,
        }
    }

    /// Well-formedness: dark is one canonical state, a lit pixel has a
    /// positive bounded intensity, and under the age-driven model the
    /// age never outlives the curve.
    pub open spec fn wf(self, model: Model, max_intensity: u32) -> bool {
        &&& (self.age == 0 <==> self.intensity == 0)
        &&& (self.age == 0 ==> self.is_dark())
        &&& self.intensity <= Self::cap(model, max_intensity)
        &&& (model is AgeCurve ==> self.age <= EXTINGUISH_AGE)
    }

    pub fn dark() -> (p: Pixel)
        ensures
            p.is_dark(),
    {
        Pixel { age: 0, intensity: 0, color: Rgb::black(), rendered: Rgb::black() }
    }
}

/// At every tick boundary the dark state is canonical: a pixel is dark
/// exactly when its intensity is zero, and a dark pixel renders the
/// null color.
pub proof fn lemma_dark_canonical(p: Pixel, model: Model, max_intensity: u32)
    requires
        p.wf(model, max_intensity),
    ensures
        p.age == 0 <==> p.intensity == 0,
        p.age == 0 ==> p.rendered.is_black(),
        !p.rendered.is_black() ==> p.age >= 1 && p.intensity >= 1,
{
}

/// A dark pixel stays exactly as it is under every transition that
/// does not ignite it: extinguishing is idempotent.
pub proof fn lemma_dark_is_fixed(p: Pixel, model: Model, max_intensity: u32)
    requires
        p.wf(model, max_intensity),
        p.age == 0,
    ensures
        p == dark_pixel(),
{
}

/// Ignites a dark pixel under the age-driven model: age 1, intensity
/// from the curve, rendered color scaled from the sampled color.
pub fn ignite_a(p: &mut Pixel, color: Rgb, max_intensity: u32)
    requires
        old(p).age == 0,
        max_intensity <= PPM,
    ensures
        final(p).age == 1,
        final(p).intensity == intensity_of_age(1),
        final(p).color == color,
        final(p).rendered == scaled_rgb(color, final(p).intensity, max_intensity),
        final(p).wf(Model::AgeCurve, max_intensity),
{
    proof {
        lemma_curve_bounds(1);
        lemma_curve_positive(1);
    }
    let i = age2intensity(1);
    p.age = 1;
    p.intensity = i;
    p.color = color;
    p.rendered = scale_rgb(&color, i, max_intensity);
}

/// Ignites a dark pixel under the stochastic-rise model with a freshly
/// drawn intensity.
pub fn ignite_b(p: &mut Pixel, color: Rgb, intensity: u32, max_intensity: u32)
    requires
        old(p).age == 0,
        1 <= intensity <= max_intensity <= PPM,
    ensures
        final(p).age == 1,
        final(p).intensity == intensity,
        final(p).color == color,
        final(p).rendered == scaled_rgb(color, intensity, max_intensity),
        final(p).wf(Model::StochasticRise, max_intensity),
{
    p.age = 1;
    p.intensity = intensity;
    p.color = color;
    p.rendered = scale_rgb(&color, intensity, max_intensity);
}

/// One lit tick under the age-driven model: when the curve has faded to
/// zero the pixel extinguishes to the canonical dark state; otherwise
/// it renders the curve's intensity and grows older.
pub open spec fn step_a(p: Pixel, max_intensity: u32) -> Pixel {
    let i = intensity_of_age(p.age);
    if i == 0 {
        dark_pixel()
    } else {
        Pixel {
            age: (p.age + 1) as u32,
            intensity: i as u32,
            color: p.color,
            rendered: scaled_rgb(p.color, i as u32, max_intensity),
        }
    }
}

/// Advances a lit pixel one tick under the age-driven model.
pub fn advance_lit_a(p: &mut Pixel, max_intensity: u32) -> (out: Rgb)
    requires
        1 <= old(p).age <= EXTINGUISH_AGE,
        max_intensity <= PPM,
    ensures
        *final(p) == step_a(*old(p), max_intensity),
        out == final(p).rendered,
        final(p).wf(Model::AgeCurve, max_intensity),
{
    proof {
        lemma_curve_bounds(p.age);
    }
    let i = age2intensity(p.age);
    if i == 0 {
        p.age = 0;
        p.intensity = 0;
        p.color = Rgb::black();
        p.rendered = Rgb::black();
        Rgb::black()
    } else {
        proof {
            if old(p).age >= EXTINGUISH_AGE {
                lemma_curve_vanishes(old(p).age);
            }
        }
        p.intensity = i;
        p.rendered = scale_rgb(&p.color, i, max_intensity);
        p.age = p.age + 1;
        p.rendered
    }
}

/// One lit tick under the stochastic-rise model, decided by two unit
/// draws `u1` and `u2` (parts per million). The chance of falling is
/// `1 - 1/age`, so older lights tend to fall. Falling subtracts
/// `u2 * decay` and extinguishes once the gamma-corrected rendered
/// channels sum below the visibility floor (the "below visibility,
/// stop bothering" cutoff); rising adds `u2 * decay` of the remaining gap
/// to the ceiling, so the climb decelerates near the cap.
pub open spec fn step_b(p: Pixel, decay: u32, max_intensity: u32, floor: u32, u1: u32, u2: u32) -> Pixel {
    let cut = PPM as int / p.age as int;
    if u1 > cut {
        let delta = (u2 * decay) / (PPM as int);
        let ni: u32 = if delta > p.intensity {
            0
        } else {
            (p.intensity - delta) as u32
        };
        let nr = scaled_rgb(p.color, ni, max_intensity);
        if gamma_sum(nr) < floor {
            dark_pixel()
        } else {
            Pixel { age: sat_inc(p.age), intensity: ni, color: p.color, rendered: nr }
        }
    } else {
        let gap = max_intensity - p.intensity;
        let delta = (u2 * decay * gap) / (PPM * PPM);
        let ni = (p.intensity + delta) as u32;
        Pixel {
            age: sat_inc(p.age),
            intensity: ni,
            color: p.color,
            rendered: scaled_rgb(p.color, ni, max_intensity),
        }
    }
}

/// The falling decrement is at most one full decay step.
proof fn lemma_fall_delta_bound(u2: u32, decay: u32)
    requires
        u2 < PPM,
        decay <= PPM,
    ensures
        0 <= (u2 * decay) / (PPM as int) <= PPM,
{
    let d = PPM as int;
    assert(0 <= u2 * decay <= d * d) by (nonlinear_arith)
        requires
            0 <= u2 <= d,
            0 <= decay <= d,
    ;
    lemma_div_pos_is_pos(u2 * decay, d);
    lemma_div_is_ordered(u2 * decay, d * d, d);
    lemma_div_multiples_vanish(d, d);
}

/// The rising increment never overshoots the remaining gap to the
/// ceiling, and is positive exactly when the fixed-point product
/// reaches one part per million squared.
proof fn lemma_rise_delta_bound(u2: u32, decay: u32, gap: int)
    requires
        u2 < PPM,
        decay <= PPM,
        0 <= gap,
    ensures
        0 <= (u2 * decay * gap) / (PPM * PPM) <= gap,
        u2 * decay * gap >= PPM * PPM ==> (u2 * decay * gap) / (PPM * PPM) >= 1,
{
    let d = (PPM * PPM) as int;
    assert(0 <= u2 * decay * gap <= d * gap) by (nonlinear_arith)
        requires
            0 <= u2 <= PPM,
            0 <= decay <= PPM,
            0 <= gap,
            d == PPM * PPM,
    ;
    lemma_div_pos_is_pos(u2 * decay * gap, d);
    lemma_div_is_ordered(u2 * decay * gap, d * gap, d);
    assert(d * gap == gap * d) by (nonlinear_arith);
    lemma_div_multiples_vanish(gap, d);
    if u2 * decay * gap >= d {
        lemma_div_is_ordered(d, u2 * decay * gap, d);
        lemma_div_by_self(d);
    }
}

/// Advances a lit pixel one tick under the stochastic-rise model.
pub fn advance_lit_b(
    p: &mut Pixel,
    decay: u32,
    max_intensity: u32,
    floor: u32,
    u1: u32,
    u2: u32,
) -> (out: Rgb)
    requires
        old(p).age >= 1,
        1 <= old(p).intensity <= max_intensity <= PPM,
        decay <= PPM,
        floor >= 1,
        u1 < PPM,
        u2 < PPM,
    ensures
        *final(p) == step_b(*old(p), decay, max_intensity, floor, u1, u2),
        out == final(p).rendered,
        final(p).wf(Model::StochasticRise, max_intensity),
{
    let cut = PPM / p.age;
    if u1 > cut {
        proof {
            lemma_fall_delta_bound(u2, decay);
        }
        let delta = ((u2 as u64) * (decay as u64) / (PPM as u64)) as u32;
        let ni = if delta > p.intensity {
            0
        } else {
            p.intensity - delta
        };
        let nr = scale_rgb(&p.color, ni, max_intensity);
        let s = gamma_correct_sum(&nr);
        if s < floor {
            p.age = 0;
            p.intensity = 0;
            p.color = Rgb::black();
            p.rendered = Rgb::black();
            Rgb::black()
        } else {
            proof {
                if ni == 0 {
                    lemma_scaled_black(old(p).color, 0, max_intensity);
                }
            }
            p.intensity = ni;
            p.rendered = nr;
            p.age = if p.age == u32::MAX {
                p.age
            } else {
                p.age + 1
            };
            nr
        }
    } else {
        proof {
            lemma_rise_delta_bound(u2, decay, max_intensity - old(p).intensity);
            let g = max_intensity - old(p).intensity;
            assert((u2 as int) * (decay as int) <= 1_000_000_000_000int) by (nonlinear_arith)
                requires
                    u2 <= 1_000_000,
                    decay <= 1_000_000,
            ;
            assert((u2 as int) * (decay as int) * g <= 1_000_000_000_000_000_000int)
                by (nonlinear_arith)
                requires
                    u2 <= 1_000_000,
                    decay <= 1_000_000,
                    0 <= g <= 1_000_000,
            ;
        }
        let gap = max_intensity - p.intensity;
        let prod: u64 = (u2 as u64) * (decay as u64) * (gap as u64);
        let delta = (prod / ((PPM as u64) * (PPM as u64))) as u32;
        p.intensity = p.intensity + delta;
        p.rendered = scale_rgb(&p.color, p.intensity, max_intensity);
        p.age = if p.age == u32::MAX {
            p.age
        } else {
            p.age + 1
        };
        p.rendered
    }
}

/// Law: a rising tick under the stochastic-rise model never lifts the
/// intensity above the ceiling, never widens the gap to it, and
/// narrows the gap strictly whenever the fixed-point increment is
/// nonzero, that is, when the draw, the decay rate and the gap are
/// together large enough that their product reaches one part per
/// million squared.
pub proof fn lemma_rise_narrows_gap(
    p: Pixel,
    decay: u32,
    max_intensity: u32,
    floor: u32,
    u1: u32,
    u2: u32,
)
    requires
        p.age >= 1,
        p.intensity <= max_intensity <= PPM,
        decay <= PPM,
        u2 < PPM,
        u1 <= PPM as int / p.age as int,
    ensures
        ({
            let q = step_b(p, decay, max_intensity, floor, u1, u2);
            &&& q.intensity <= max_intensity
            &&& max_intensity - q.intensity <= max_intensity - p.intensity
            &&& u2 * decay * (max_intensity - p.intensity) >= PPM * PPM
                ==> max_intensity - q.intensity < max_intensity - p.intensity
        }),
{
    lemma_rise_delta_bound(u2, decay, max_intensity - p.intensity);
}

} // verus!
