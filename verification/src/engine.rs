use vstd::prelude::*;
use crate::color::{scaled_rgb, Rgb};
use crate::config::{color_in_range, ConfigError, Model, Params, Zone};
use crate::curve::intensity_of_age;
use crate::pixel::{advance_lit_a, advance_lit_b, ignite_a, ignite_b, step_a, step_b, Pixel};
use crate::rng::draw_in;
use crate::PPM;

verus! {

/// Sum of the animated (body) pixel counts over a zone layout.
pub open spec fn body_total(zs: Seq<Zone>) -> int
    decreases zs.len(),
{
    if zs.len() == 0 {
        0
    } else {
        body_total(zs.drop_last()) + zs.last().body
    }
}

/// A layout counts at least as many pixels as any prefix of it.
pub proof fn lemma_body_total_prefix(zs: Seq<Zone>, i: int)
    requires
        0 <= i <= zs.len(),
    ensures
        body_total(zs.subrange(0, i)) <= body_total(zs),
    decreases zs.len() - i,
{
    if i == zs.len() {
        assert(zs.subrange(0, i) =~= zs);
    } else {
        assert(zs.subrange(0, i + 1).drop_last() =~= zs.subrange(0, i));
        lemma_body_total_prefix(zs, i + 1);
    }
}

/// A freshly ignited pixel: age 1, a color sampled from one of the
/// configured ranges, rendered at its starting intensity.
pub open spec fn is_ignition(p: Pixel, params: Params) -> bool {
    &&& p.age == 1
    &&& exists|j: int|
        0 <= j < params.ranges@.len() && color_in_range(p.color, params.ranges@[j])
    &&& p.rendered == scaled_rgb(p.color, p.intensity, params.max_intensity)
    &&& match params.model {
        Model::AgeCurve => p.intensity == intensity_of_age(1),
        Model::StochasticRise => 1 <= p.intensity <= params.max_intensity,
    }
}

/// How one tick may carry a pixel from `pre` to `post`, emitting `out`.
/// A dark pixel is left exactly as it was — extinguishing is idempotent
/// — unless an ignition draw succeeds; a lit pixel follows its model's
/// transition; the emitted color is always the pixel's rendered color.
/// The threshold extremes are pinned: probability zero never ignites, a
/// probability of one ignites every dark pixel at once.
pub open spec fn pixel_tick_rel(pre: Pixel, post: Pixel, out: Rgb, params: Params) -> bool {
    &&& out == post.rendered
    &&& post.wf(params.model, params.max_intensity)
    &&& (pre.age == 0 ==> post == pre || is_ignition(post, params))
    &&& (pre.age == 0 && params.threshold == 0 ==> post == pre)
    &&& (pre.age == 0 && params.threshold == PPM ==> is_ignition(post, params))
    &&& (pre.age >= 1 ==> match params.model {
        Model::AgeCurve => post == step_a(pre, params.max_intensity),
        Model::StochasticRise => exists|u1: u32, u2: u32|
            u1 < PPM && u2 < PPM && post == step_b(
                pre,
                params.decay,
                params.max_intensity,
                params.floor,
                u1,
                u2,
            ),
    })
}

/// Owns the pixel array and advances every pixel one step per tick.
pub struct AnimationEngine {
    pub pixels: Vec<Pixel>,
    pub params: Params,
}

impl AnimationEngine {
    pub open spec fn wf(self) -> bool {
        &&& self.params.valid()
        &&& forall|i: int|
            0 <= i < self.pixels@.len() ==> (#[trigger] self.pixels@[i]).wf(
                self.params.model,
                self.params.max_intensity,
            )
    }

    /// Builds an engine over a zone layout: one dark pixel per body
    /// slot. A configuration that validation rejects never builds an
    /// engine, and neither does a layout too large for one array.
    pub fn new(zones: &Vec<Zone>, params: Params) -> (r: Result<AnimationEngine, ConfigError>)
        ensures
            r is Ok <==> params.valid() && body_total(zones@) <= usize::MAX,
            r matches Ok(e) ==> e.wf() && e.params == params && e.pixels@.len() == body_total(
                zones@,
            ) && forall|i: int| 0 <= i < e.pixels@.len() ==> (#[trigger] e.pixels@[i]).is_dark(),
            r matches Err(err) ==> (if params.valid() {
                err == ConfigError::LayoutTooLarge && body_total(zones@) > usize::MAX
            } else {
                Some(err) == params.verdict()
            }),
    {
        if let Err(e) = params.validate() {
            return Err(e);
        }
        let nz = zones.len();
        let mut total: usize = 0;
        let mut zi: usize = 0;
        while zi < nz
            invariant
                0 <= zi <= nz,
                nz == zones@.len(),
                params.valid(),
                total == body_total(zones@.subrange(0, zi as int)),
            decreases nz - zi,
        {
            let b = zones[zi].body as usize;
            proof {
                assert(zones@.subrange(0, zi + 1 as int).drop_last() =~= zones@.subrange(
                    0,
                    zi as int,
                ));
            }
            if total > usize::MAX - b {
                proof {
                    let q = zones@.subrange(0, zi + 1 as int);
                    assert(q.last() == zones@[zi as int]);
                    assert(body_total(q) == total + zones@[zi as int].body);
                    lemma_body_total_prefix(zones@, zi + 1 as int);
                }
                return Err(ConfigError::LayoutTooLarge);
            }
            total = total + b;
            zi = zi + 1;
        }
        proof {
            assert(zones@.subrange(0, nz as int) =~= zones@);
        }
        let mut pixels: Vec<Pixel> = Vec::new();
        let mut k: usize = 0;
        while k < total
            invariant
                0 <= k <= total,
                pixels@.len() == k,
                forall|i: int| 0 <= i < k ==> (#[trigger] pixels@[i]).is_dark(),
            decreases total - k,
        {
            pixels.push(Pixel::dark());
            k = k + 1;
        }
        Ok(AnimationEngine { pixels, params })
    }

    /// Advances every pixel exactly once and hands back the color
    /// buffer for the renderer, index-aligned with the pixel array. No
    /// pixel's transition depends on another's state within the tick.
    pub fn tick(&mut self, rng: &mut rand::rngs::StdRng) -> (buf: Vec<Rgb>)
        requires
            old(self).wf(),
        ensures
            final(self).wf(),
            final(self).params == old(self).params,
            final(self).pixels@.len() == old(self).pixels@.len(),
            buf@.len() == old(self).pixels@.len(),
            forall|i: int|
                0 <= i < old(self).pixels@.len() ==> pixel_tick_rel(
                    old(self).pixels@[i],
                    final(self).pixels@[i],
                    buf@[i],
                    old(self).params,
                ),
    {
        let n = self.pixels.len();
        let mut buf: Vec<Rgb> = Vec::new();
        let mut next: Vec<Pixel> = Vec::new();
        let mut i: usize = 0;
        while i < n
            invariant
                0 <= i <= n,
                n == self.pixels@.len(),
                self.pixels@ == old(self).pixels@,
                self.params == old(self).params,
                old(self).wf(),
                next@.len() == i,
                buf@.len() == i,
                forall|k: int|
                    0 <= k < i ==> pixel_tick_rel(
                        old(self).pixels@[k],
                        next@[k],
                        buf@[k],
                        old(self).params,
                    ),
            decreases n - i,
        {
            let p = self.pixels[i];
            let mut np = p;
            let out: Rgb;
            if p.age == 0 {
                let u = draw_in(rng, 0, PPM);
                if u < self.params.threshold {
                    proof {
                        assert(self.params.ranges@.len() <= u32::MAX);
                    }
                    let idx = draw_in(rng, 0, self.params.ranges.len() as u32) as usize;
                    let rg = self.params.ranges[idx];
                    let color = rg.pick(rng);
                    match self.params.model {
                        Model::AgeCurve => {
                            ignite_a(&mut np, color, self.params.max_intensity);
                        },
                        Model::StochasticRise => {
                            let inten = draw_in(rng, 1, self.params.max_intensity + 1);
                            ignite_b(&mut np, color, inten, self.params.max_intensity);
                        },
                    }
                    proof {
                        assert(color_in_range(np.color, self.params.ranges@[idx as int]));
                        assert(is_ignition(np, self.params));
                    }
                }
                out = np.rendered;
            } else {
                match self.params.model {
                    Model::AgeCurve => {
                        out = advance_lit_a(&mut np, self.params.max_intensity);
                    },
                    Model::StochasticRise => {
                        let u1 = draw_in(rng, 0, PPM);
                        let u2 = draw_in(rng, 0, PPM);
                        out = advance_lit_b(
                            &mut np,
                            self.params.decay,
                            self.params.max_intensity,
                            self.params.floor,
                            u1,
                            u2,
                        );
                        proof {
                            assert(u1 < PPM && u2 < PPM && np == step_b(
                                p,
                                self.params.decay,
                                self.params.max_intensity,
                                self.params.floor,
                                u1,
                                u2,
                            ));
                        }
                    },
                }
            }
            next.push(np);
            buf.push(out);
            i = i + 1;
        }
        self.pixels = next;
        buf
    }
}

} // verus!
