use movie_clip::number::{Fraction, Number, Percent, Pixels};

fn num(x: f64) -> Number {
    Number::from_bits(x.to_bits())
}

fn px(x: f64) -> Pixels {
    Pixels { value: num(x), twips: swf::Twips::from_pixels(x).get() }
}

fn pct(x: f64) -> Percent {
    Percent { value: num(x), byte: (x as f32 / 100.0 * 255.0) as u8 }
}

fn fr(x: f64) -> Fraction {
    Fraction { value: num(x), fixed: swf::Fixed8::from_f64(x).get() }
}

fn reference_wrapping(n: f64) -> i32 {
    if !n.is_finite() {
        0
    } else {
        (n.trunc().rem_euclid(4294967296.0) as u32) as i32
    }
}

fn samples() -> Vec<f64> {
    let mut v = vec![
        0.0, -0.0, 1.0, -1.0, 0.5, -0.5, 1.9, -1.9, 2.5, 3.0, 255.0, 255.5, 256.0, 100.0, 99.999,
        4294967295.0, 4294967296.0, 4294967297.0, -4294967296.0, -4294967297.5, 2147483647.0,
        2147483648.0, -2147483648.0, -2147483649.0, 2147483647.9, 1e10, -1e10, 1e15, 9007199254740991.0,
        9007199254740992.0, 1.8446744073709552e19, 1e300, -1e300, 5e-324, -5e-324, 2.2250738585072014e-308,
        f64::MAX, f64::MIN, f64::INFINITY, f64::NEG_INFINITY, f64::NAN, 0.1, 0.05, 16384.0, 65536.75,
        123456789.125, -123456789.875, 6442450944.0, 8589934591.5,
    ];
    let mut x = 1.0f64;
    for _ in 0..80 {
        v.push(x);
        v.push(-x);
        v.push(x + 0.25);
        v.push(x * 1.000000119);
        x *= 2.0;
    }
    v
}

#[test]
fn bits_round_trip() {
    for x in samples() {
        assert_eq!(num(x).to_bits(), x.to_bits());
    }
}

#[test]
fn classification_agrees_with_the_hardware() {
    for x in samples() {
        assert_eq!(num(x).is_nan(), x.is_nan(), "{x}");
        assert_eq!(num(x).is_finite(), x.is_finite(), "{x}");
        assert_eq!(num(x).is_negative(), x.is_sign_negative(), "{x}");
        assert_eq!(num(x).at_most_zero(), x <= 0.0, "{x}");
        assert_eq!(num(x).at_least(255), x >= 255.0, "{x}");
        assert_eq!(num(x).at_least(100), x >= 100.0, "{x}");
        assert_eq!(num(x).at_least(1), x >= 1.0, "{x}");
        assert_eq!(num(x).at_least(0), x >= 0.0, "{x}");
        assert_eq!(num(x).at_least(u32::MAX), x >= 4294967295.0, "{x}");
    }
}

#[test]
fn integral_numbers_have_no_fraction() {
    assert!(num(3.0).is_integral());
    assert!(num(-0.0).is_integral());
    assert!(num(1e300).is_integral());
    assert!(num(9007199254740992.0).is_integral());
    assert!(!num(2.5).is_integral());
    assert!(!num(5e-324).is_integral());
    assert!(!num(f64::NAN).is_integral());
    assert!(!num(f64::INFINITY).is_integral());
    assert!(!num(f64::NEG_INFINITY).is_integral());
    for x in samples() {
        assert_eq!(num(x).is_integral(), x.fract() == 0.0, "{x}");
    }
}

#[test]
fn wrapping_conversion_on_chosen_values() {
    assert_eq!(num(0.0).to_wrapping_i32(), 0);
    assert_eq!(num(1.9).to_wrapping_i32(), 1);
    assert_eq!(num(-1.9).to_wrapping_i32(), -1);
    assert_eq!(num(4294967296.0).to_wrapping_i32(), 0);
    assert_eq!(num(4294967295.0).to_wrapping_i32(), -1);
    assert_eq!(num(4294967297.0).to_wrapping_i32(), 1);
    assert_eq!(num(2147483648.0).to_wrapping_i32(), i32::MIN);
    assert_eq!(num(-2147483649.0).to_wrapping_i32(), i32::MAX);
    assert_eq!(num(2147483647.0).to_wrapping_i32(), i32::MAX);
    assert_eq!(num(1e300).to_wrapping_i32(), 0);
    assert_eq!(num(f64::NAN).to_wrapping_i32(), 0);
    assert_eq!(num(f64::INFINITY).to_wrapping_i32(), 0);
    assert_eq!(num(f64::NEG_INFINITY).to_wrapping_i32(), 0);
}

#[test]
fn wrapping_conversion_agrees_with_the_hardware() {
    for x in samples() {
        assert_eq!(num(x).to_wrapping_i32(), reference_wrapping(x), "{x}");
    }
}

#[test]
fn saturating_conversion_agrees_with_the_cast() {
    assert_eq!(num(7.9).to_saturating_i32(), 7);
    assert_eq!(num(-7.9).to_saturating_i32(), -7);
    assert_eq!(num(1e10).to_saturating_i32(), i32::MAX);
    assert_eq!(num(-1e10).to_saturating_i32(), i32::MIN);
    assert_eq!(num(f64::NAN).to_saturating_i32(), 0);
    assert_eq!(num(f64::INFINITY).to_saturating_i32(), i32::MAX);
    assert_eq!(num(f64::NEG_INFINITY).to_saturating_i32(), i32::MIN);
    for x in samples() {
        assert_eq!(num(x).to_saturating_i32(), x as i32, "{x}");
    }
}

#[test]
fn whole_numbers_become_script_numbers() {
    for v in [0, 1, -1, 2, 7, 16384, -16384, 65535, 1_000_000_007, i32::MAX, i32::MIN, i32::MIN + 1] {
        assert_eq!(Number::from_i32(v).to_bits(), (v as f64).to_bits(), "{v}");
        assert_eq!(Number::from_i32(v).to_wrapping_i32(), v);
        assert!(Number::from_i32(v).is_integral());
    }
}

#[test]
fn ratio_is_clamped_to_a_byte() {
    assert_eq!(num(127.9).clamped_byte(), 127);
    assert_eq!(num(255.0).clamped_byte(), 255);
    assert_eq!(num(300.0).clamped_byte(), 255);
    assert_eq!(num(-5.0).clamped_byte(), 0);
    assert_eq!(num(0.0).clamped_byte(), 0);
    assert_eq!(num(f64::NAN).clamped_byte(), 255);
    assert_eq!(num(f64::INFINITY).clamped_byte(), 255);
    assert_eq!(num(f64::NEG_INFINITY).clamped_byte(), 0);
    for x in samples() {
        assert_eq!(num(x).clamped_byte(), x.min(255.0).max(0.0) as u8, "{x}");
    }
}

#[test]
fn line_width_is_clamped_before_it_is_converted() {
    assert_eq!(px(1.0).line_width(), 20);
    assert_eq!(px(0.5).line_width(), 10);
    assert_eq!(px(255.0).line_width(), 5100);
    assert_eq!(px(300.0).line_width(), 5100);
    assert_eq!(px(-3.0).line_width(), 0);
    assert_eq!(px(0.0).line_width(), 0);
    assert_eq!(px(f64::NAN).line_width(), 5100);
    assert_eq!(px(f64::INFINITY).line_width(), 5100);
    assert_eq!(px(f64::NEG_INFINITY).line_width(), 0);
    assert_eq!(px(40.018).line_width(), 800);
    for x in samples() {
        let expected = swf::Twips::from_pixels(x.min(255.0).max(0.0)).get();
        assert_eq!(px(x).line_width(), expected, "{x}");
    }
}

#[test]
fn alpha_is_clamped_before_it_is_scaled() {
    assert_eq!(pct(100.0).alpha(), 255);
    assert_eq!(pct(50.0).alpha(), 127);
    assert_eq!(pct(0.0).alpha(), 0);
    assert_eq!(pct(150.0).alpha(), 255);
    assert_eq!(pct(-1.0).alpha(), 0);
    assert_eq!(pct(f64::NAN).alpha(), 255);
    assert_eq!(pct(20.0).alpha(), 51);
    for x in samples() {
        let expected = (x.min(100.0).max(0.0) as f32 / 100.0 * 255.0) as u8;
        assert_eq!(pct(x).alpha(), expected, "{x}");
    }
}

#[test]
fn miter_limit_is_clamped_and_saturates() {
    assert_eq!(fr(3.0).miter_limit(), 0x300);
    assert_eq!(fr(0.5).miter_limit(), 0x80);
    assert_eq!(fr(-2.0).miter_limit(), 0);
    assert_eq!(fr(f64::NAN).miter_limit(), 0);
    assert_eq!(fr(300.0).miter_limit(), i16::MAX);
    assert_eq!(fr(255.0).miter_limit(), i16::MAX);
    assert_eq!(fr(200.0).miter_limit(), i16::MAX);
    for x in samples() {
        let expected = swf::Fixed8::from_f64(x.max(0.0).min(255.0)).get();
        assert_eq!(fr(x).miter_limit(), expected, "{x}");
    }
}
