use flicker::color::Rgb;
use flicker::config::{ConfigError, Model, Params, RGBRange, Zone};
use flicker::curve::EXTINGUISH_AGE;
use flicker::engine::AnimationEngine;
use flicker::PPM;
use rand::rngs::StdRng;
use rand::SeedableRng;

fn white_range() -> RGBRange {
    RGBRange {
        low: Rgb { red: 255, green: 255, blue: 255 },
        high: Rgb { red: 255, green: 255, blue: 255 },
    }
}

fn params(model: Model, threshold: u32) -> Params {
    Params {
        decay: 2_000,
        max_intensity: PPM,
        threshold,
        floor: 20,
        model,
        ranges: vec![white_range()],
    }
}

fn one_pixel_zone() -> Vec<Zone> {
    vec![Zone { head: 0, body: 1, tail: 0, name: "10".to_string() }]
}

#[test]
fn empty_color_sources_rejected_before_construction() {
    let mut p = params(Model::AgeCurve, 0);
    p.ranges = vec![];
    assert_eq!(p.validate(), Err(ConfigError::NoColorSources));
    assert!(AnimationEngine::new(&one_pixel_zone(), p).is_err());
}

#[test]
fn each_config_error_is_reported() {
    let mut p = params(Model::AgeCurve, 0);
    p.decay = PPM + 1;
    assert_eq!(p.validate(), Err(ConfigError::DecayOutOfRange));

    let mut p = params(Model::AgeCurve, 0);
    p.max_intensity = 0;
    assert_eq!(p.validate(), Err(ConfigError::MaxIntensityOutOfRange));
    let mut p = params(Model::AgeCurve, 0);
    p.max_intensity = PPM + 1;
    assert_eq!(p.validate(), Err(ConfigError::MaxIntensityOutOfRange));

    let mut p = params(Model::AgeCurve, 0);
    p.threshold = PPM + 1;
    assert_eq!(p.validate(), Err(ConfigError::ThresholdOutOfRange));

    let mut p = params(Model::AgeCurve, 0);
    p.floor = 0;
    assert_eq!(p.validate(), Err(ConfigError::FloorZero));

    assert_eq!(params(Model::AgeCurve, 0).validate(), Ok(()));
}

#[test]
fn engine_starts_all_dark_sized_by_zone_bodies() {
    let zones = vec![
        Zone { head: 0, body: 44, tail: 3, name: "10".to_string() },
        Zone { head: 2, body: 91, tail: 3, name: "11a".to_string() },
        Zone { head: 2, body: 43, tail: 0, name: "13".to_string() },
    ];
    let eng = AnimationEngine::new(&zones, params(Model::AgeCurve, 0)).unwrap();
    assert_eq!(eng.pixels.len(), 44 + 91 + 43);
    for p in &eng.pixels {
        assert_eq!(p.age, 0);
        assert_eq!(p.intensity, 0);
        assert_eq!(p.rendered, Rgb { red: 0, green: 0, blue: 0 });
    }
}

#[test]
fn threshold_zero_never_ignites() {
    let mut eng = AnimationEngine::new(&one_pixel_zone(), params(Model::AgeCurve, 0)).unwrap();
    let mut rng = StdRng::seed_from_u64(7);
    for _ in 0..5_000 {
        let buf = eng.tick(&mut rng);
        assert_eq!(buf.len(), 1);
        assert_eq!(eng.pixels[0].age, 0);
        assert_eq!(buf[0], Rgb { red: 0, green: 0, blue: 0 });
    }
}

#[test]
fn threshold_one_ignites_every_dark_pixel() {
    let zones = vec![Zone { head: 0, body: 5, tail: 0, name: "z".to_string() }];
    let mut eng = AnimationEngine::new(&zones, params(Model::AgeCurve, PPM)).unwrap();
    let mut rng = StdRng::seed_from_u64(7);
    let buf = eng.tick(&mut rng);
    for (i, p) in eng.pixels.iter().enumerate() {
        assert_eq!(p.age, 1);
        assert!(p.intensity > 0);
        assert_eq!(buf[i], p.rendered);
    }
}

#[test]
fn buffer_is_index_aligned_with_pixels() {
    let zones = vec![Zone { head: 1, body: 8, tail: 1, name: "z".to_string() }];
    let mut eng = AnimationEngine::new(&zones, params(Model::AgeCurve, PPM / 2)).unwrap();
    let mut rng = StdRng::seed_from_u64(99);
    for _ in 0..200 {
        let buf = eng.tick(&mut rng);
        assert_eq!(buf.len(), eng.pixels.len());
        for (i, p) in eng.pixels.iter().enumerate() {
            assert_eq!(buf[i], p.rendered);
        }
    }
}

#[test]
fn age_curve_full_lifecycle_is_deterministic() {
    // single pixel, certain ignition, one fixed color, full ceiling
    let mut eng = AnimationEngine::new(&one_pixel_zone(), params(Model::AgeCurve, PPM)).unwrap();
    let mut rng = StdRng::seed_from_u64(1);

    let buf = eng.tick(&mut rng);
    assert_eq!(eng.pixels[0].age, 1);
    assert_ne!(buf[0], Rgb { red: 0, green: 0, blue: 0 });
    assert_eq!(buf[0], eng.pixels[0].rendered);

    // the age grows by exactly one per tick while lit, and the pixel
    // returns to the canonical dark state exactly one tick after the
    // curve's zero age is reached
    for tick in 2..=EXTINGUISH_AGE {
        let _ = eng.tick(&mut rng);
        assert_eq!(eng.pixels[0].age, tick);
        assert!(eng.pixels[0].intensity > 0);
    }
    let buf = eng.tick(&mut rng);
    assert_eq!(eng.pixels[0].age, 0);
    assert_eq!(eng.pixels[0].intensity, 0);
    assert_eq!(eng.pixels[0].rendered, Rgb { red: 0, green: 0, blue: 0 });
    assert_eq!(buf[0], Rgb { red: 0, green: 0, blue: 0 });
}

#[test]
fn dark_state_stays_canonical_until_reignition() {
    // stochastic-rise model with a harsh decay so pixels die fast
    let mut p = params(Model::StochasticRise, PPM);
    p.decay = PPM;
    p.floor = 700;
    let mut eng = AnimationEngine::new(&one_pixel_zone(), p).unwrap();
    let mut rng = StdRng::seed_from_u64(5);
    // ignite once
    let _ = eng.tick(&mut rng);
    assert_eq!(eng.pixels[0].age, 1);
    // run until it extinguishes, then hold the threshold at zero
    let mut died = false;
    for _ in 0..100_000 {
        let _ = eng.tick(&mut rng);
        if eng.pixels[0].age == 0 {
            died = true;
            break;
        }
    }
    assert!(died, "a harshly decaying pixel must extinguish");
    eng.params.threshold = 0;
    for _ in 0..1_000 {
        let _ = eng.tick(&mut rng);
        assert_eq!(eng.pixels[0].age, 0);
        assert_eq!(eng.pixels[0].intensity, 0);
        assert_eq!(eng.pixels[0].rendered, Rgb { red: 0, green: 0, blue: 0 });
    }
}

#[test]
fn stochastic_rise_respects_ceiling() {
    let mut p = params(Model::StochasticRise, PPM);
    p.max_intensity = 300_000;
    p.decay = 900_000;
    let mut eng = AnimationEngine::new(&one_pixel_zone(), p).unwrap();
    let mut rng = StdRng::seed_from_u64(11);
    for _ in 0..20_000 {
        let _ = eng.tick(&mut rng);
        assert!(eng.pixels[0].intensity <= 300_000);
    }
}

#[test]
fn ignition_rate_converges_to_threshold() {
    // a dark pixel must ignite at the configured probability; a seeded
    // generator makes the run deterministic
    let threshold = PPM / 4;
    let mut p = params(Model::StochasticRise, threshold);
    p.decay = PPM;
    p.floor = 700;
    let mut eng = AnimationEngine::new(&one_pixel_zone(), p).unwrap();
    let mut rng = StdRng::seed_from_u64(42);
    let mut dark_exposures: u64 = 0;
    let mut ignitions: u64 = 0;
    for _ in 0..400_000 {
        let was_dark = eng.pixels[0].age == 0;
        let _ = eng.tick(&mut rng);
        if was_dark {
            dark_exposures += 1;
            if eng.pixels[0].age == 1 {
                ignitions += 1;
            }
        }
    }
    assert!(dark_exposures > 50_000);
    let rate = ignitions as f64 / dark_exposures as f64;
    let expected = threshold as f64 / PPM as f64;
    assert!(
        (rate - expected).abs() < 0.01,
        "empirical ignition rate {} strays from {}",
        rate,
        expected
    );
}

#[test]
fn picked_colors_stay_between_bounds() {
    let range = RGBRange {
        low: Rgb { red: 200, green: 50, blue: 0 },
        high: Rgb { red: 100, green: 60, blue: 0 },
    };
    let mut p = params(Model::AgeCurve, PPM);
    p.ranges = vec![range];
    let zones = vec![Zone { head: 0, body: 40, tail: 0, name: "z".to_string() }];
    let mut eng = AnimationEngine::new(&zones, p).unwrap();
    let mut rng = StdRng::seed_from_u64(3);
    let _ = eng.tick(&mut rng);
    let mut saw_diverse_reds = std::collections::HashSet::new();
    for px in &eng.pixels {
        // bounds hold in either order
        assert!(100 <= px.color.red && px.color.red <= 200);
        assert!(50 <= px.color.green && px.color.green <= 60);
        assert_eq!(px.color.blue, 0);
        saw_diverse_reds.insert(px.color.red);
    }
    assert!(saw_diverse_reds.len() > 3, "sampling must actually vary");
}
