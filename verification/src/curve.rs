use vstd::prelude::*;

verus! {

/// Peak of the intensity curve in parts per million: the height of the
/// log-normal-shaped reference curve with sigma 0.5 and mu 0, reached
/// at age 4 (where age / 4 == 1 and the logarithm vanishes).
pub const CURVE_PEAK: u32 = 797_885;

/// First age at which the curve reaches exactly zero (and stays there),
/// so the age at which a lit pixel extinguishes: from here on the
/// reference curve lies below half a part per million.
pub const EXTINGUISH_AGE: u32 = 58;

/// The per-age intensity of a lit pixel, in parts per million: the
/// log-normal-shaped curve 1/(sigma*sqrt(2*pi)) * exp(-(ln(age/4))^2 /
/// (2*sigma^2)) with sigma 0.5 and mu 0, each value rounded to the
/// nearest part per million. It flares quickly to its peak at age 4 and
/// fades with a long tail that reaches exactly zero at `EXTINGUISH_AGE`.
pub open spec fn intensity_of_age(age: u32) -> int {
    if age == 0 {
        0
    } else if age == 1 {
        17087
    } else if age == 2 {
        305228
    } else if age == 3 {
        676168
    } else if age == 4 {
        797885
    } else if age == 5 {
        722255
    } else if age == 6 {
        574305
    } else if age == 7 {
        426505
    } else if age == 8 {
        305228
    } else if age == 9 {
        214165
    } else if age == 10 {
        148827
    } else if age == 11 {
        103058
    } else if age == 12 {
        71383
    } else if age == 13 {
        49576
    } else if age == 14 {
        34575
    } else if age == 15 {
        24237
    } else if age == 16 {
        17087
    } else if age == 17 {
        12119
    } else if age == 18 {
        8649
    } else if age == 19 {
        6211
    } else if age == 20 {
        4488
    } else if age == 21 {
        3263
    } else if age == 22 {
        2386
    } else if age == 23 {
        1755
    } else if age == 24 {
        1298
    } else if age == 25 {
        966
    } else if age == 26 {
        722
    } else if age == 27 {
        543
    } else if age == 28 {
        410
    } else if age == 29 {
        311
    } else if age == 30 {
        237
    } else if age == 31 {
        182
    } else if age == 32 {
        140
    } else if age == 33 {
        108
    } else if age == 34 {
        84
    } else if age == 35 {
        65
    } else if age == 36 {
        51
    } else if age == 37 {
        40
    } else if age == 38 {
        32
    } else if age == 39 {
        25
    } else if age == 40 {
        20
    } else if age == 41 {
        16
    } else if age == 42 {
        13
    } else if age == 43 {
        10
    } else if age == 44 {
        8
    } else if age == 45 {
        7
    } else if age == 46 {
        5
    } else if age == 47 {
        4
    } else if age == 48 {
        3
    } else if age == 49 {
        3
    } else if age == 50 {
        2
    } else if age == 51 {
        2
    } else if age == 52 {
        2
    } else if age == 53 {
        1
    } else if age == 54 {
        1
    } else if age == 55 {
        1
    } else if age == 56 {
        1
    } else if age == 57 {
        1
    } else {
        0
    }
}

/// The curve stays within `[0, CURVE_PEAK]`.
pub proof fn lemma_curve_bounds(age: u32)
    ensures
        0 <= intensity_of_age(age) <= CURVE_PEAK,
{
}

/// The curve rises strictly up to its single peak at age 4.
pub proof fn lemma_curve_rises(a: u32, b: u32)
    requires
        1 <= a < b <= 4,
    ensures
        intensity_of_age(a) < intensity_of_age(b),
{
}

/// One step past the peak never brightens.
pub proof fn lemma_curve_step(k: u32)
    requires
        4 <= k < u32::MAX,
    ensures
        intensity_of_age(k) >= intensity_of_age((k + 1) as u32),
{
}

/// Past the peak the curve never increases.
pub proof fn lemma_curve_falls(a: u32, b: u32)
    requires
        4 <= a <= b,
    ensures
        intensity_of_age(a) >= intensity_of_age(b),
    decreases b - a,
{
    if a < b {
        lemma_curve_step(a);
        lemma_curve_falls((a + 1) as u32, b);
    }
}

/// Age 4 is the single peak: no age is brighter.
pub proof fn lemma_curve_peak(age: u32)
    requires
        age >= 1,
    ensures
        intensity_of_age(age) <= intensity_of_age(4),
{
    if age < 4 {
        lemma_curve_rises(age, 4);
    } else {
        lemma_curve_falls(4, age);
    }
}

/// The curve is strictly positive for every lit age before
/// `EXTINGUISH_AGE`.
pub proof fn lemma_curve_positive(age: u32)
    requires
        1 <= age < EXTINGUISH_AGE,
    ensures
        intensity_of_age(age) >= 1,
{
}

/// From `EXTINGUISH_AGE` on, the curve is exactly zero: the tail has
/// fully faded out.
pub proof fn lemma_curve_vanishes(age: u32)
    requires
        age >= EXTINGUISH_AGE,
    ensures
        intensity_of_age(age) == 0,
{
}

/// Evaluates the intensity curve; zero both for the unlit age 0 and
/// for every age past the end of the tail.
pub fn age2intensity(age: u32) -> (r: u32)
    ensures
        r == intensity_of_age(age),
        r <= CURVE_PEAK,
{
    match age {
        1 => 17087,
        2 => 305228,
        3 => 676168,
        4 => 797885,
        5 => 722255,
        6 => 574305,
        7 => 426505,
        8 => 305228,
        9 => 214165,
        10 => 148827,
        11 => 103058,
        12 => 71383,
        13 => 49576,
        14 => 34575,
        15 => 24237,
        16 => 17087,
        17 => 12119,
        18 => 8649,
        19 => 6211,
        20 => 4488,
        21 => 3263,
        22 => 2386,
        23 => 1755,
        24 => 1298,
        25 => 966,
        26 => 722,
        27 => 543,
        28 => 410,
        29 => 311,
        30 => 237,
        31 => 182,
        32 => 140,
        33 => 108,
        34 => 84,
        35 => 65,
        36 => 51,
        37 => 40,
        38 => 32,
        39 => 25,
        40 => 20,
        41 => 16,
        42 => 13,
        43 => 10,
        44 => 8,
        45 => 7,
        46 => 5,
        47 => 4,
        48 => 3,
        49 => 3,
        50 => 2,
        51 => 2,
        52 => 2,
        53 => 1,
        54 => 1,
        55 => 1,
        56 => 1,
        57 => 1,
        _ => 0,
    }
}

} // verus!
