use daikin_homekit::hk::fan::{
    can_map_speed, fan_order, fan_rate_to_percent, percent_to_fan_rate,
};
use daikin_homekit::daikin::mode;
use daikin_homekit::hk::{clamp_cool, clamp_for_mode, clamp_heat, clamp_setpoint};
use daikin_homekit::number::{is_fraction, parse_unsigned_text, push_decimal, to_decimal};
use daikin_homekit::single::Single;
use daikin_homekit::text::{is_blank, is_white_space, trim_text};

/// Bit patterns spread over all numbers.
fn patterns() -> Vec<u32> {
    let mut bits = vec![
        0,
        1,
        0x8000_0000,
        0x8000_0001,
        0x7f80_0000,
        0xff80_0000,
        0x7fc0_0000,
        0xffc0_0000,
        0x7f7f_ffff,
        0xff7f_ffff,
        0x007f_ffff,
        0x0080_0000,
    ];
    let mut x: u32 = 12345;
    for _ in 0..20_000 {
        x = x.wrapping_mul(1_664_525).wrapping_add(1_013_904_223);
        bits.push(x);
    }
    for n in -2000..2000 {
        bits.push((n as f32 / 20.0).to_bits());
        bits.push((n as f32 / 32.0).to_bits());
        bits.push((n as f32 / 100.0).to_bits());
    }
    bits
}

fn single(x: f32) -> Single {
    Single { bits: x.to_bits() }
}

#[test]
fn one_decimal_is_written_like_std_does() {
    for bits in patterns() {
        let x = f32::from_bits(bits);
        assert_eq!(Single { bits }.one_decimal(), format!("{x:.1}"), "{bits:#x}");
    }
    assert_eq!(single(22.0).one_decimal(), "22.0");
    assert_eq!(single(0.25).one_decimal(), "0.2");
    assert_eq!(single(0.75).one_decimal(), "0.8");
    assert_eq!(single(-0.04).one_decimal(), "-0.0");
}

#[test]
fn numbers_compare_like_floats() {
    let some: Vec<u32> = patterns().into_iter().step_by(97).collect();
    for &a in &some {
        for &b in &some {
            let (x, y) = (f32::from_bits(a), f32::from_bits(b));
            let (s, t) = (Single { bits: a }, Single { bits: b });
            assert_eq!(s.less_than(t), x < y);
            assert_eq!(s.equals(t), x == y);
        }
        assert_eq!(Single { bits: a }.is_nan(), f32::from_bits(a).is_nan());
    }
}

#[test]
fn setpoints_are_clamped_like_floats() {
    for bits in patterns() {
        let x = f32::from_bits(bits);
        let s = Single { bits };
        assert_eq!(clamp_heat(s).bits, x.clamp(10.0, 30.0).to_bits());
        assert_eq!(clamp_cool(s).bits, x.clamp(16.0, 32.0).to_bits());
        assert_eq!(clamp_setpoint(s).bits, x.clamp(10.0, 32.0).to_bits());
        assert_eq!(clamp_for_mode(Some(mode::HEAT), s).bits, clamp_heat(s).bits);
        assert_eq!(clamp_for_mode(Some(mode::COOL), s).bits, clamp_cool(s).bits);
        assert_eq!(clamp_for_mode(Some(mode::AUTO), s).bits, clamp_setpoint(s).bits);
        assert_eq!(clamp_for_mode(None, s).bits, clamp_setpoint(s).bits);
    }
    assert_eq!(clamp_heat(single(40.0)).bits, 30.0f32.to_bits());
    assert_eq!(clamp_cool(single(5.0)).bits, 16.0f32.to_bits());
    assert_eq!(clamp_setpoint(single(21.5)).bits, 21.5f32.to_bits());
}

#[test]
fn speeds_map_like_the_float_formula() {
    let order = fan_order();
    let mut bits = patterns();
    for t in [0x41ab_6db7u32, 0x420e_db6e, 0x4248_0000, 0x4280_9249, 0x429d_2492, 0x42b9_b6db] {
        for d in 0..6 {
            bits.push(t - 3 + d);
        }
    }
    for d in 0..6 {
        bits.push(0xd0e4_924a - 3 + d);
    }
    for p in 0..=1000 {
        bits.push((p as f32 / 10.0).to_bits());
    }
    for b in bits {
        let pct = f32::from_bits(b);
        let step = ((pct / 100.0 * 7.0).round() as i32).checked_sub(1);
        assert_eq!(can_map_speed(Single { bits: b }), step.is_some(), "{b:#x}");
        if let Some(step) = step {
            let expected = order[step.clamp(0, 6) as usize];
            assert_eq!(percent_to_fan_rate(Single { bits: b }), expected, "{pct}");
        }
    }
}

#[test]
fn rates_map_like_the_float_formula() {
    let order = fan_order();
    for (i, rate) in order.iter().enumerate() {
        let expected = (((i + 1) as f32 / 7.0) * 100.0).round();
        assert_eq!(fan_rate_to_percent(rate).bits, expected.to_bits());
    }
    assert_eq!(fan_rate_to_percent("?").bits, 100.0f32.to_bits());
    assert_eq!(fan_rate_to_percent("").bits, 100.0f32.to_bits());
    assert_eq!(fan_rate_to_percent("B").bits, 14.0f32.to_bits());
}

#[test]
fn unsigned_numbers_parse_like_std_does() {
    for s in [
        "", "+", "-", "0", "-0", "+0", "7", "+7", "007", "255", "256", "65535", "65536", "1 ",
        " 1", "1_0", "0x1", "1.0", "12a", "٣", "++1", "4294967295", "4294967296",
        "99999999999999999999", "000000000000000000000255", "M", "AUTO",
    ] {
        assert_eq!(parse_unsigned_text(s, 0xff), s.parse::<u8>().ok().map(u32::from), "{s}");
        assert_eq!(parse_unsigned_text(s, 0xffff), s.parse::<u16>().ok().map(u32::from), "{s}");
        assert_eq!(parse_unsigned_text(s, 0xffff_ffff), s.parse::<u32>().ok(), "{s}");
    }
}

#[test]
fn fractions_are_told_like_std_does() {
    for s in [
        "", ".", "+", "-", "e", "0", "22", "22.5", "-22.5", "+.5", "5.", ".e1", "1.e1", ".5e1",
        "1e5", "1E5", "1e+5", "1e-5", "1e", "1e+", "1e+-5", "1e5.0", "--1", "+-1", "1_0", "0x1",
        " 1", "1 ", "inf", "Inf", "INF", "-inf", "+infinity", "iNfInItY", "infinit", "nan", "NaN",
        "-nan", "nanx", "M", "AUTO", "-", "1,5", "٣", "1.2.3", "1e400", "1f32",
    ] {
        assert_eq!(is_fraction(s), s.parse::<f32>().is_ok(), "{s}");
    }
}

#[test]
fn decimals_are_written_like_std_does() {
    for n in [0u64, 1, 9, 10, 99, 100, 12345, u32::MAX as u64, u64::MAX] {
        assert_eq!(to_decimal(n), n.to_string());
        let parsed = if n <= u32::MAX as u64 { Some(n as u32) } else { None };
        assert_eq!(parse_unsigned_text(&to_decimal(n), u32::MAX), parsed);
    }
    let mut s = "n = ".to_string();
    push_decimal(&mut s, u128::MAX);
    assert_eq!(s, format!("n = {}", u128::MAX));
}

#[test]
fn white_space_is_that_of_std() {
    for code in 0..=0x10_ffffu32 {
        if let Some(c) = char::from_u32(code) {
            assert_eq!(is_white_space(c), c.is_whitespace(), "{code:#x}");
        }
    }
}

#[test]
fn text_is_trimmed_like_std_does() {
    for s in ["", " ", "a", " a", "a ", "\t a b \r\n", "\u{a0}x\u{2003}", "\u{200b}x", "è "] {
        assert_eq!(trim_text(s), s.trim());
        assert_eq!(is_blank(s), s.trim().is_empty());
    }
}
