use vstd::prelude::*;
use crate::color::Rgb;
use crate::rng::draw_byte;
use crate::PPM;

verus! {

/// Which of the two transition models a run uses: the age-driven decay
/// curve, or the stochastic rise/fall walk.
#[derive(Clone, Copy, Debug, PartialEq, Eq, Structural)]
pub enum Model {
    AgeCurve,
    StochasticRise,
}

/// A color range to sample at ignition: per channel, anything between
/// the two bounds (in either order) may come out.
#[derive(Clone, Copy, Debug, PartialEq, Eq, Structural)]
pub struct RGBRange {
    pub low: Rgb,
    pub high: Rgb,
}

/// `c` lies between `a` and `b`, whichever order they are in.
pub open spec fn chan_between(c: u8, a: u8, b: u8) -> bool {
    if a <= b {
        a <= c <= b
    } else {
        b <= c <= a
    }
}

pub open spec fn color_in_range(c: Rgb, r: RGBRange) -> bool {
    &&& chan_between(c.red, r.low.red, r.high.red)
    &&& chan_between(c.green, r.low.green, r.high.green)
    &&& chan_between(c.blue, r.low.blue, r.high.blue)
}

impl RGBRange {
    /// The all-black range.
    pub fn new() -> (r: RGBRange)
        ensures
            r.low.is_black(),
            r.high.is_black(),
    {
        RGBRange { low: Rgb::black(), high: Rgb::black() }
    }

    fn _u8_in_range(&self, a: u8, b: u8, rng: &mut rand::rngs::StdRng) -> (r: u8)
        ensures
            chan_between(r, a, b),
    {
        if a <= b {
            draw_byte(rng, a, b)
        } else {
            draw_byte(rng, b, a)
        }
    }

    /// Samples a concrete color within the range, one uniform draw per
    /// channel.
    pub fn pick(&self, rng: &mut rand::rngs::StdRng) -> (c: Rgb)
        ensures
            color_in_range(c, *self),
    {
        Rgb {
            red: self._u8_in_range(self.low.red, self.high.red, rng),
            green: self._u8_in_range(self.low.green, self.high.green, rng),
            blue: self._u8_in_range(self.low.blue, self.high.blue, rng),
        }
    }
}

/// A named contiguous run of fixtures: `head` and `tail` count
/// non-animated padding pixels, `body` the animated ones. Layout only;
/// the engine never mutates a zone.
#[derive(Clone, Debug)]
pub struct Zone {
    pub head: u16,
    pub body: u16,
    pub tail: u16,
    pub name: String,
}

/// Why a configuration was rejected.
#[derive(Clone, Copy, Debug, PartialEq, Eq, Structural)]
pub enum ConfigError {
    /// No color source to ignite from.
    NoColorSources,
    /// More color sources than an ignition draw can index.
    TooManyColorSources,
    /// Decay rate above 1.0.
    DecayOutOfRange,
    /// Maximum intensity outside (0, 1.0].
    MaxIntensityOutOfRange,
    /// Ignition threshold above 1.0.
    ThresholdOutOfRange,
    /// A zero visibility floor would keep faded pixels lit forever.
    FloorZero,
    /// The zones name more pixels than an array can hold.
    LayoutTooLarge,
}

/// A run's animation parameters, immutable during the run. All rates
/// and intensities are fractions in parts per million.
#[derive(Clone, Debug)]
pub struct Params {
    /// Per-tick intensity decay rate.
    pub decay: u32,
    /// Brightness ceiling.
    pub max_intensity: u32,
    /// Per-tick probability that a dark pixel ignites.
    pub threshold: u32,
    /// Channel sum under which a falling pixel counts as invisible and
    /// extinguishes (stochastic-rise model only).
    pub floor: u32,
    /// Which transition model the run uses.
    pub model: Model,
    /// The color sources sampled at ignition.
    pub ranges: Vec<RGBRange>,
}

impl Params {
    pub open spec fn valid(self) -> bool {
        &&& 0 < self.ranges@.len() <= u32::MAX
        &&& self.decay <= PPM
        &&& 1 <= self.max_intensity <= PPM
        &&& self.threshold <= PPM
        &&& self.floor >= 1
    }

    /// The error a given configuration is rejected with, if any.
    pub open spec fn verdict(self) -> Option<ConfigError> {
        if self.ranges@.len() == 0 {
            Some(ConfigError::NoColorSources)
        } else if self.ranges@.len() > u32::MAX {
            Some(ConfigError::TooManyColorSources)
        } else if self.decay > PPM {
            Some(ConfigError::DecayOutOfRange)
        } else if self.max_intensity < 1 || self.max_intensity > PPM {
            Some(ConfigError::MaxIntensityOutOfRange)
        } else if self.threshold > PPM {
            Some(ConfigError::ThresholdOutOfRange)
        } else if self.floor < 1 {
            Some(ConfigError::FloorZero)
        } else {
            None
        }
    }

    /// Checks the configuration before any engine is built from it;
    /// accepted exactly when `valid` holds.
    pub fn validate(&self) -> (r: Result<(), ConfigError>)
        ensures
            r is Ok <==> self.valid(),
            r is Err ==> Some(r->Err_0) == self.verdict(),
    {
        if self.ranges.len() == 0 {
            return Err(ConfigError::NoColorSources);
        }
        if self.ranges.len() > u32::MAX as usize {
            return Err(ConfigError::TooManyColorSources);
        }
        if self.decay > PPM {
            return Err(ConfigError::DecayOutOfRange);
        }
        if self.max_intensity < 1 || self.max_intensity > PPM {
            return Err(ConfigError::MaxIntensityOutOfRange);
        }
        if self.threshold > PPM {
            return Err(ConfigError::ThresholdOutOfRange);
        }
        if self.floor < 1 {
            return Err(ConfigError::FloorZero);
        }
        Ok(())
    }
}

/// Converts a brightness byte (1..=255, as the command line gives it)
/// to a ceiling in parts per million.
pub fn max_intensity_of_byte(m: u8) -> (r: u32)
    ensures
        r == (m * PPM) / 255,
        r <= PPM,
{
    proof {
        assert((m * PPM) / 255 <= PPM) by (nonlinear_arith)
            requires
                m <= 255,
                PPM == 1_000_000,
        ;
    }
    ((m as u64) * (PPM as u64) / 255) as u32
}

} // verus!
