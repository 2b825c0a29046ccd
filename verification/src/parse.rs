use vstd::prelude::*;
use vstd::slice::slice_subrange;
use crate::color::Rgb;
use crate::config::RGBRange;

verus! {

// ---------------------------------------------------------------------
// Decimal numbers ("2700")
// ---------------------------------------------------------------------

/// ASCII '0' through '9'.
pub open spec fn is_dec_digit(b: u8) -> bool {
    48 <= b <= 57
}

pub open spec fn all_dec_digits(s: Seq<u8>) -> bool {
    forall|i: int| 0 <= i < s.len() ==> is_dec_digit(s[i])
}

/// The number a digit string denotes, most significant digit first.
pub open spec fn dec_val(s: Seq<u8>) -> int
    decreases s.len(),
{
    if s.len() == 0 {
        0
    } else {
        dec_val(s.drop_last()) * 10 + (s.last() - 48)
    }
}

/// A string is accepted as a u16 when it is non-empty, all digits, and
/// its value fits.
pub open spec fn parses_u16(s: Seq<u8>) -> bool {
    s.len() > 0 && all_dec_digits(s) && dec_val(s) <= u16::MAX
}

pub proof fn lemma_dec_val_nonneg(s: Seq<u8>)
    requires
        all_dec_digits(s),
    ensures
        dec_val(s) >= 0,
    decreases s.len(),
{
    if s.len() > 0 {
        assert(all_dec_digits(s.drop_last()));
        lemma_dec_val_nonneg(s.drop_last());
    }
}

/// A digit string is worth at least any of its prefixes: appending
/// digits can only grow the value.
pub proof fn lemma_dec_val_prefix_le(s: Seq<u8>, i: int)
    requires
        0 <= i <= s.len(),
        all_dec_digits(s),
    ensures
        dec_val(s.subrange(0, i)) <= dec_val(s),
    decreases s.len() - i,
{
    if i == s.len() {
        assert(s.subrange(0, i) =~= s);
    } else {
        let p = s.subrange(0, i);
        let q = s.subrange(0, i + 1);
        assert(q.drop_last() =~= p);
        assert(all_dec_digits(p));
        lemma_dec_val_nonneg(p);
        assert(dec_val(q) == dec_val(p) * 10 + (s[i] - 48));
        assert(dec_val(p) * 10 >= dec_val(p)) by (nonlinear_arith)
            requires
                dec_val(p) >= 0,
        ;
        lemma_dec_val_prefix_le(s, i + 1);
    }
}

/// Reads a decimal u16; `None` exactly on the strings that do not
/// denote one (empty, a non-digit byte, or a value over `u16::MAX`).
pub fn parse_u16(s: &[u8]) -> (r: Option<u16>)
    ensures
        r is Some <==> parses_u16(s@),
        parses_u16(s@) ==> r == Some(dec_val(s@) as u16),
{
    let n = s.len();
    if n == 0 {
        return None;
    }
    let mut acc: u32 = 0;
    let mut i: usize = 0;
    while i < n
        invariant
            0 <= i <= n,
            n == s@.len(),
            all_dec_digits(s@.subrange(0, i as int)),
            acc == dec_val(s@.subrange(0, i as int)),
            acc <= 65535,
        decreases n - i,
    {
        let b = s[i];
        if b < 48 || b > 57 {
            return None;
        }
        proof {
            assert(s@.subrange(0, (i + 1) as int).drop_last() =~= s@.subrange(0, i as int));
        }
        acc = acc * 10 + ((b - 48) as u32);
        if acc > 65535 {
            proof {
                if all_dec_digits(s@) {
                    lemma_dec_val_prefix_le(s@, (i + 1) as int);
                }
            }
            return None;
        }
        i += 1;
    }
    proof {
        assert(s@.subrange(0, n as int) =~= s@);
    }
    Some(acc as u16)
}

// ---------------------------------------------------------------------
// Hexadecimal colors ("ff8800")
// ---------------------------------------------------------------------

pub open spec fn is_hex_digit(b: u8) -> bool {
    (48 <= b <= 57) || (97 <= b <= 102) || (65 <= b <= 70)
}

/// Value of an ASCII hex digit; 0 for anything else.
pub open spec fn hex_digit_val(b: u8) -> int {
    if 48 <= b <= 57 {
        b - 48
    } else if 97 <= b <= 102 {
        b - 97 + 10
    } else if 65 <= b <= 70 {
        b - 65 + 10
    } else {
        0
    }
}

/// Value of a two-digit hex channel; a malformed pair falls back to 0
/// rather than failing, so one bad channel cannot take the run down.
pub open spec fn hex_pair_val(hi: u8, lo: u8) -> int {
    if is_hex_digit(hi) && is_hex_digit(lo) {
        16 * hex_digit_val(hi) + hex_digit_val(lo)
    } else {
        0
    }
}

/// The color a hex string "RRGGBB" denotes; bytes past the sixth are
/// ignored.
pub open spec fn hex_rgb_of(s: Seq<u8>) -> Rgb
    recommends
        s.len() >= 6,
{
    Rgb {
        red: hex_pair_val(s[0], s[1]) as u8,
        green: hex_pair_val(s[2], s[3]) as u8,
        blue: hex_pair_val(s[4], s[5]) as u8,
    }
}

fn hex_pair(hi: u8, lo: u8) -> (r: u8)
    ensures
        r == hex_pair_val(hi, lo),
{
    let h: u8 = if 48 <= hi && hi <= 57 {
        hi - 48
    } else if 97 <= hi && hi <= 102 {
        hi - 97 + 10
    } else if 65 <= hi && hi <= 70 {
        hi - 65 + 10
    } else {
        return 0;
    };
    let l: u8 = if 48 <= lo && lo <= 57 {
        lo - 48
    } else if 97 <= lo && lo <= 102 {
        lo - 97 + 10
    } else if 65 <= lo && lo <= 70 {
        lo - 65 + 10
    } else {
        return 0;
    };
    16 * h + l
}

/// Reads the first six bytes of a hex color string as an RGB triple.
pub fn hex2rgb(hex: &[u8]) -> (r: Rgb)
    requires
        hex@.len() >= 6,
    ensures
        r == hex_rgb_of(hex@),
{
    Rgb {
        red: hex_pair(hex[0], hex[1]),
        green: hex_pair(hex[2], hex[3]),
        blue: hex_pair(hex[4], hex[5]),
    }
}

// ---------------------------------------------------------------------
// "LOW:HIGH" ranges
// ---------------------------------------------------------------------

/// Index of the first colon, or the length when there is none.
pub open spec fn min_colon(s: Seq<u8>) -> int
    decreases s.len(),
{
    if s.len() == 0 {
        0
    } else if s[0] == 58 {
        0
    } else {
        1 + min_colon(s.subrange(1, s.len() as int))
    }
}

pub proof fn lemma_min_colon(s: Seq<u8>)
    ensures
        0 <= min_colon(s) <= s.len(),
        min_colon(s) < s.len() ==> s[min_colon(s)] == 58,
        forall|k: int| 0 <= k < min_colon(s) ==> s[k] != 58,
    decreases s.len(),
{
    if s.len() > 0 && s[0] != 58 {
        let t = s.subrange(1, s.len() as int);
        lemma_min_colon(t);
        assert forall|k: int| 0 <= k < min_colon(s) implies s[k] != 58 by {
            if k > 0 {
                assert(s[k] == t[k - 1]);
            }
        }
    }
}

/// A position with a colon and none before it is the first colon; a
/// full scan without one puts `min_colon` at the length.
pub proof fn lemma_min_colon_is(s: Seq<u8>, i: int)
    requires
        0 <= i <= s.len(),
        forall|k: int| 0 <= k < i ==> s[k] != 58,
        i < s.len() ==> s[i] == 58,
    ensures
        min_colon(s) == i,
    decreases s.len(),
{
    if s.len() == 0 {
    } else if i == 0 {
    } else {
        let t = s.subrange(1, s.len() as int);
        assert(s[0] != 58);
        assert forall|k: int| 0 <= k < i - 1 implies t[k] != 58 by {
            assert(t[k] == s[k + 1]);
        }
        assert(i - 1 < t.len() ==> t[i - 1] == s[i]);
        lemma_min_colon_is(t, i - 1);
    }
}

fn find_colon(s: &[u8]) -> (r: usize)
    ensures
        r == min_colon(s@),
        r <= s@.len(),
{
    let n = s.len();
    let mut i: usize = 0;
    while i < n
        invariant
            0 <= i <= n,
            n == s@.len(),
            forall|k: int| 0 <= k < i ==> s@[k] != 58,
        decreases n - i,
    {
        if s[i] == 58 {
            proof {
                lemma_min_colon_is(s@, i as int);
            }
            return i;
        }
        i += 1;
    }
    proof {
        lemma_min_colon_is(s@, n as int);
    }
    n
}

/// What a "LOW:HIGH" kelvin string denotes: both sides of the first
/// colon must read as decimal u16 temperatures.
pub open spec fn temp_range_of(s: Seq<u8>) -> Option<(u16, u16)> {
    let j = min_colon(s);
    if j < s.len() {
        let lo = s.subrange(0, j);
        let hi = s.subrange(j + 1, s.len() as int);
        if parses_u16(lo) && parses_u16(hi) {
            Some((dec_val(lo) as u16, dec_val(hi) as u16))
        } else {
            None
        }
    } else {
        None
    }
}

/// Reads a "LOW:HIGH" color-temperature range in kelvin.
pub fn parse_temp(input: &[u8]) -> (r: Option<(u16, u16)>)
    ensures
        r == temp_range_of(input@),
{
    proof {
        lemma_min_colon(input@);
    }
    let j = find_colon(input);
    if j == input.len() {
        return None;
    }
    let lo = parse_u16(slice_subrange(input, 0, j));
    let hi = parse_u16(slice_subrange(input, j + 1, input.len()));
    match (lo, hi) {
        (Some(a), Some(b)) => Some((a, b)),
        _ => None,
    }
}

/// What a "RRGGBB:RRGGBB" string denotes: both sides of the first
/// colon must hold at least six bytes of hex color.
pub open spec fn color_range_of(s: Seq<u8>) -> Option<RGBRange> {
    let j = min_colon(s);
    if j < s.len() {
        let lo = s.subrange(0, j);
        let hi = s.subrange(j + 1, s.len() as int);
        if lo.len() >= 6 && hi.len() >= 6 {
            Some(RGBRange { low: hex_rgb_of(lo), high: hex_rgb_of(hi) })
        } else {
            None
        }
    } else {
        None
    }
}

/// Reads a "RRGGBB:RRGGBB" hex color range.
pub fn parse_color(input: &[u8]) -> (r: Option<RGBRange>)
    ensures
        r == color_range_of(input@),
{
    proof {
        lemma_min_colon(input@);
    }
    let j = find_colon(input);
    if j == input.len() {
        return None;
    }
    let lo = slice_subrange(input, 0, j);
    let hi = slice_subrange(input, j + 1, input.len());
    if lo.len() < 6 || hi.len() < 6 {
        return None;
    }
    Some(RGBRange { low: hex2rgb(lo), high: hex2rgb(hi) })
}

} // verus!
