use flicker::curve::{age2intensity, CURVE_PEAK, EXTINGUISH_AGE};

#[test]
fn curve_exact_values() {
    // the log-normal shape with sigma 0.5, mu 0 at age/4, in ppm
    assert_eq!(age2intensity(0), 0);
    assert_eq!(age2intensity(1), 17087);
    assert_eq!(age2intensity(2), 305228);
    assert_eq!(age2intensity(3), 676168);
    assert_eq!(age2intensity(4), CURVE_PEAK);
    assert_eq!(age2intensity(5), 722255);
    assert_eq!(age2intensity(8), 305228);
    assert_eq!(age2intensity(16), 17087);
}

#[test]
fn curve_rises_then_falls() {
    let mut prev = age2intensity(1);
    for age in 2..=4u32 {
        let v = age2intensity(age);
        assert!(v > prev, "curve must rise strictly up to its peak");
        prev = v;
    }
    let mut prev = age2intensity(4);
    for age in 5..1000u32 {
        let v = age2intensity(age);
        assert!(v <= prev, "curve must never rise past its peak");
        prev = v;
    }
}

#[test]
fn curve_peak_is_single_maximum() {
    let peak = age2intensity(4);
    for age in 1..2000u32 {
        assert!(age2intensity(age) <= peak);
    }
}

#[test]
fn curve_vanishes_exactly_at_extinguish_age() {
    assert_eq!(age2intensity(EXTINGUISH_AGE - 1), 1);
    assert_eq!(age2intensity(EXTINGUISH_AGE), 0);
    assert_eq!(age2intensity(EXTINGUISH_AGE + 1), 0);
    assert_eq!(age2intensity(1_000_000), 0);
}
