use flicker::color::{gamma_correct_sum, scale_rgb, Rgb};
use flicker::config::max_intensity_of_byte;
use flicker::parse::{hex2rgb, parse_color, parse_temp, parse_u16};
use flicker::PPM;

#[test]
fn parse_u16_accepts_digits() {
    assert_eq!(parse_u16(b"0"), Some(0));
    assert_eq!(parse_u16(b"2700"), Some(2700));
    assert_eq!(parse_u16(b"65535"), Some(65535));
}

#[test]
fn parse_u16_rejects_bad_input() {
    assert_eq!(parse_u16(b""), None);
    assert_eq!(parse_u16(b"12a"), None);
    assert_eq!(parse_u16(b"-5"), None);
    assert_eq!(parse_u16(b"65536"), None);
    assert_eq!(parse_u16(b"999999999"), None);
}

#[test]
fn hex2rgb_reads_channels() {
    assert_eq!(
        hex2rgb(b"ff8800"),
        Rgb { red: 255, green: 136, blue: 0 }
    );
    assert_eq!(
        hex2rgb(b"0A0b0C"),
        Rgb { red: 10, green: 11, blue: 12 }
    );
    // bytes past the sixth are ignored
    assert_eq!(
        hex2rgb(b"010203ffff"),
        Rgb { red: 1, green: 2, blue: 3 }
    );
}

#[test]
fn hex2rgb_bad_pair_falls_back_to_zero() {
    assert_eq!(
        hex2rgb(b"gg12ff"),
        Rgb { red: 0, green: 18, blue: 255 }
    );
}

#[test]
fn parse_temp_reads_low_high() {
    assert_eq!(parse_temp(b"2700:5500"), Some((2700, 5500)));
    assert_eq!(parse_temp(b"2700:2700"), Some((2700, 2700)));
}

#[test]
fn parse_temp_rejects_malformed() {
    assert_eq!(parse_temp(b"2700"), None);
    assert_eq!(parse_temp(b""), None);
    assert_eq!(parse_temp(b"2700:"), None);
    assert_eq!(parse_temp(b":5500"), None);
    assert_eq!(parse_temp(b"70000:1"), None);
    assert_eq!(parse_temp(b"27o0:5500"), None);
}

#[test]
fn parse_color_reads_both_sides() {
    let r = parse_color(b"ff8800:00ff00").unwrap();
    assert_eq!(r.low, Rgb { red: 255, green: 136, blue: 0 });
    assert_eq!(r.high, Rgb { red: 0, green: 255, blue: 0 });
}

#[test]
fn parse_color_rejects_short_sides() {
    assert_eq!(parse_color(b"ff880:00ff00"), None);
    assert_eq!(parse_color(b"ff8800:00ff0"), None);
    assert_eq!(parse_color(b"ff8800"), None);
}

#[test]
fn scale_rgb_exact() {
    let c = Rgb { red: 255, green: 128, blue: 10 };
    // 0.5 * 0.8 = 0.4 of each channel, rounded down
    let s = scale_rgb(&c, 500_000, 800_000);
    assert_eq!(s, Rgb { red: 102, green: 51, blue: 4 });
}

#[test]
fn scale_rgb_zero_intensity_is_black() {
    let c = Rgb { red: 255, green: 255, blue: 255 };
    let s = scale_rgb(&c, 0, PPM);
    assert_eq!(s, Rgb { red: 0, green: 0, blue: 0 });
}

#[test]
fn max_intensity_from_byte() {
    assert_eq!(max_intensity_of_byte(255), PPM);
    assert_eq!(max_intensity_of_byte(75), 75 * 1_000_000u32 / 255);
    assert_eq!(max_intensity_of_byte(0), 0);
}

#[test]
fn gamma_corrected_sum_exact() {
    assert_eq!(gamma_correct_sum(&Rgb { red: 0, green: 0, blue: 0 }), 0);
    // 25 * 25 / 255 == 2 per channel
    assert_eq!(gamma_correct_sum(&Rgb { red: 25, green: 25, blue: 25 }), 6);
    assert_eq!(gamma_correct_sum(&Rgb { red: 255, green: 255, blue: 255 }), 765);
    // 100 * 100 / 255 == 39
    assert_eq!(gamma_correct_sum(&Rgb { red: 100, green: 0, blue: 0 }), 39);
}
