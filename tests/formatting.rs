// Rendering, round trips and the fixed-decimal views.

use ryuu::common::decimal_length;
use ryuu::ieee::{classify_f32, classify_f64, decompose_f64, FloatKind};
use ryuu::{Formatted, FormattedMeta, Formatter};

fn text64(x: f64) -> String {
    Formatter::format_finite_f64(x.to_bits()).as_str().to_string()
}

fn text32(x: f32) -> String {
    Formatter::format_finite_f32(x.to_bits()).as_str().to_string()
}

fn copy(f: &Formatted, n: usize) -> String {
    let mut buf = [0u8; 96];
    let written = match n {
        0 => f.copy_to_bytes::<0>(&mut buf),
        1 => f.copy_to_bytes::<1>(&mut buf),
        2 => f.copy_to_bytes::<2>(&mut buf),
        3 => f.copy_to_bytes::<3>(&mut buf),
        5 => f.copy_to_bytes::<5>(&mut buf),
        8 => f.copy_to_bytes::<8>(&mut buf),
        _ => panic!("unsupported count"),
    }
    .unwrap();
    String::from_utf8(buf[..written].to_vec()).unwrap()
}

fn significant_digits(s: &str) -> usize {
    let mantissa = s.split('e').next().unwrap();
    let digits: String = mantissa.chars().filter(|c| c.is_ascii_digit()).collect();
    let trimmed = digits.trim_start_matches('0').trim_end_matches('0');
    trimmed.len().max(1)
}

fn sample64() -> Vec<f64> {
    let mut v = vec![
        0.0, -0.0, 1.0, -1.0, 0.1, 0.2, 0.3, 1.5, 3.14159, 42.0, 1e16, 1e15, 123456789012345680.0,
        1e-5, 1e-4, 1.0 / 3.0, 2.0 / 3.0, 5e-324, 2.2250738585072014e-308, f64::MAX, f64::MIN,
        f64::EPSILON, 9007199254740993.0, 1.7976931348623157e308, 4.9406564584124654e-324,
        123.456, 0.000123, 9.999999999999999e22, 1e23, 299792458.0,
    ];
    let mut state: u64 = 0x9E37_79B9_7F4A_7C15;
    for _ in 0..20000 {
        state ^= state << 13;
        state ^= state >> 7;
        state ^= state << 17;
        let x = f64::from_bits(state);
        if x.is_finite() {
            v.push(x);
        }
    }
    v
}

fn sample32() -> Vec<f32> {
    let mut v = vec![0.0, -0.0, 1.0, 0.1, 3.14159, 1.234, f32::MAX, f32::MIN_POSITIVE, 1e-45, 16777217.0];
    let mut state: u32 = 0x1234_5678;
    for _ in 0..20000 {
        state ^= state << 13;
        state ^= state >> 17;
        state ^= state << 5;
        let x = f32::from_bits(state);
        if x.is_finite() {
            v.push(x);
        }
    }
    v
}

#[test]
fn round_trip_f64() {
    for x in sample64() {
        let s = text64(x);
        let back: f64 = s.parse().unwrap();
        assert_eq!(back.to_bits(), x.to_bits(), "{s}");
    }
}

#[test]
fn round_trip_f32() {
    for x in sample32() {
        let s = text32(x);
        let back: f32 = s.parse().unwrap();
        assert_eq!(back.to_bits(), x.to_bits(), "{s}");
    }
}

#[test]
fn shortest_digits_f64() {
    for x in sample64() {
        let ours = significant_digits(&text64(x));
        let std_shortest = significant_digits(&format!("{:e}", x));
        assert_eq!(ours, std_shortest, "{x:e}");
    }
}

#[test]
fn shortest_digits_f32() {
    for x in sample32() {
        let ours = significant_digits(&text32(x));
        let std_shortest = significant_digits(&format!("{:e}", x));
        assert_eq!(ours, std_shortest, "{x:e}");
    }
}

#[test]
fn plain_and_scientific_layouts() {
    assert_eq!(text64(3.14159), "3.14159");
    assert_eq!(text64(42.0), "42.0");
    assert_eq!(text64(0.0), "0.0");
    assert_eq!(text64(-0.0), "-0.0");
    assert_eq!(text64(3e20), "3e20");
    assert_eq!(text64(0.000001), "1e-6");
    assert_eq!(text64(0.00001), "0.00001");
    assert_eq!(text64(1e15), "1000000000000000.0");
    assert_eq!(text64(1e16), "1e16");
    assert_eq!(text64(1.0123e16), "1.0123e16");
    assert_eq!(text64(-1.23e-10), "-1.23e-10");
    assert_eq!(text64(f64::MAX), "1.7976931348623157e308");
    assert_eq!(text64(5e-324), "5e-324");
    assert_eq!(text64(1.234), "1.234");
    assert_eq!(text32(1.234), "1.234");
    assert_eq!(text32(0.000001), "0.000001");
    assert_eq!(text32(1e-7), "1e-7");
    assert_eq!(text32(1e12), "1000000000000.0");
    assert_eq!(text32(1e13), "1e13");
    assert_eq!(text32(f32::MAX), "3.4028235e38");
    assert_eq!(text32(1e-45), "1e-45");
}

#[test]
fn nonfinite_texts() {
    assert_eq!(Formatter::format_f64(f64::NAN.to_bits()).as_str(), "NaN");
    assert_eq!(Formatter::format_f64((-f64::NAN).to_bits()).as_str(), "NaN");
    assert_eq!(Formatter::format_f64(f64::INFINITY.to_bits()).as_str(), "inf");
    assert_eq!(Formatter::format_f64(f64::NEG_INFINITY.to_bits()).as_str(), "-inf");
    assert_eq!(Formatter::format_f32(f32::NAN.to_bits()).as_str(), "NaN");
    assert_eq!(Formatter::format_f32(f32::NEG_INFINITY.to_bits()).as_str(), "-inf");
    assert_eq!(Formatter::format(f64::INFINITY.to_bits()).as_str(), "inf");
    assert_eq!(Formatter::format(1.5_f64.to_bits()).as_str(), "1.5");
    assert_eq!(Formatter::format(1.5_f32.to_bits()).as_str(), "1.5");
    assert_eq!(Formatter::format_f64(2.5_f64.to_bits()).as_bytes(), b"2.5");
}

#[test]
fn finite_entry_point_on_nonfinite_input_is_well_formed() {
    let s = Formatter::format_finite_f64(f64::INFINITY.to_bits()).as_str().to_string();
    assert!(s.bytes().all(|b| b.is_ascii_digit() || b == b'.' || b == b'e' || b == b'-'));
    let s = Formatter::format_finite_f32(f32::NAN.to_bits()).as_str().to_string();
    assert!(s.bytes().all(|b| b.is_ascii_digit() || b == b'.' || b == b'e' || b == b'-'));
}

#[test]
fn best_effort_fixed_view() {
    let f = Formatter::format_finite_f64(3.14159_f64.to_bits());
    assert_eq!(f.as_str_fixed_dp::<2>(), "3.14");
    assert_eq!(f.as_str_fixed_dp::<0>(), "3.");
    let f = Formatter::format_finite_f64(3.1_f64.to_bits());
    assert_eq!(f.as_str_fixed_dp::<3>(), "3.1");
    let f = Formatter::format_finite_f64(1.0123e16_f64.to_bits());
    assert_eq!(f.as_str_fixed_dp::<2>(), "1.0123e16");
    let f = Formatter::format_f64(f64::NAN.to_bits());
    assert_eq!(f.as_str_fixed_dp::<2>(), "NaN");
}

#[test]
fn scenario_pi_like() {
    let f = Formatter::format_finite_f64(3.14159_f64.to_bits());
    assert_eq!(f.as_str(), "3.14159");
    assert_eq!(copy(&f, 2), "3.14");
    assert_eq!(copy(&f, 8), "3.14159000");
    let f = Formatter::format_finite_f64((-3.14159_f64).to_bits());
    assert_eq!(copy(&f, 0), "-3");
}

#[test]
fn scenario_scientific() {
    let f = Formatter::format_finite_f64(3e20_f64.to_bits());
    assert_eq!(f.as_str(), "3e20");
    assert_eq!(copy(&f, 2), "3.00e20");
    let f = Formatter::format_finite_f64(0.000001_f64.to_bits());
    assert_eq!(f.as_str(), "1e-6");
    assert_eq!(copy(&f, 8), "1.00000000e-6");
    let f = Formatter::format_finite_f64(1.2345e30_f64.to_bits());
    assert_eq!(copy(&f, 0), "1e30");
    assert_eq!(copy(&f, 2), "1.23e30");
    assert_eq!(copy(&f, 5), "1.23450e30");
    let f = Formatter::format_finite_f64((-4.5e-100_f64).to_bits());
    assert_eq!(copy(&f, 3), "-4.500e-100");
}

#[test]
fn scenario_nonfinite_any_places() {
    for bits in [f64::NAN.to_bits(), f64::INFINITY.to_bits(), f64::NEG_INFINITY.to_bits()] {
        let f = Formatter::format_f64(bits);
        for n in [0, 1, 2, 3, 5, 8] {
            assert_eq!(copy(&f, n), f.as_str());
        }
    }
}

#[test]
fn scenario_integer_padding() {
    let f = Formatter::format_finite_f64(42.0_f64.to_bits());
    assert_eq!(copy(&f, 3), "42.000");
}

#[test]
fn fixed_places_count_exactly() {
    for x in sample64().into_iter().take(3000) {
        let f = Formatter::format_finite_f64(x.to_bits());
        for n in [0usize, 1, 2, 3, 5, 8] {
            let out = copy(&f, n);
            let mantissa = out.split('e').next().unwrap();
            let places = match mantissa.find('.') {
                Some(p) => mantissa.len() - p - 1,
                None => 0,
            };
            assert_eq!(places, n, "{out}");
            // The digits are those of the text, cut or padded with zeros,
            // and the exponent is kept.
            let src = f.as_str();
            let src_mantissa = src.split('e').next().unwrap();
            let src_digits: String = src_mantissa.chars().filter(|c| *c != '.').collect();
            let out_digits: String = mantissa.chars().filter(|c| *c != '.').collect();
            let padded = format!("{}{}", src_digits, "0".repeat(16));
            assert_eq!(out_digits, padded[..out_digits.len()], "{out} {src}");
            assert_eq!(out.split('e').nth(1), src.split('e').nth(1));
        }
    }
}

#[test]
fn buffer_boundary_exact_fit() {
    for x in [3.14159_f64, -2.5, 1e-7, 6.02214076e23, 0.0] {
        let f = Formatter::format_finite_f64(x.to_bits());
        let mut big = [0u8; 64];
        let k = f.copy_to_bytes::<4>(&mut big).unwrap();
        let mut small = vec![7u8; k - 1];
        assert_eq!(f.copy_to_bytes::<4>(&mut small), None);
        assert!(small.iter().all(|&b| b == 7));
        let mut exact = vec![0u8; k];
        assert_eq!(f.copy_to_bytes::<4>(&mut exact), Some(k));
        assert_eq!(&exact[..], &big[..k]);
    }
}

#[test]
fn copy_leaves_the_rest_of_the_buffer() {
    let f = Formatter::format_finite_f64(1.5_f64.to_bits());
    let mut buf = [b'x'; 8];
    assert_eq!(f.copy_to_bytes::<2>(&mut buf), Some(4));
    assert_eq!(&buf, b"1.50xxxx");
}

#[test]
fn decomposition_and_classes() {
    let c = decompose_f64((-1.5_f64).to_bits());
    assert!(c.sign);
    assert_eq!(c.exponent, 1023);
    assert_eq!(c.mantissa, 1u64 << 51);
    assert_eq!(classify_f64(0.0_f64.to_bits()), FloatKind::Zero);
    assert_eq!(classify_f64((-0.0_f64).to_bits()), FloatKind::Zero);
    assert_eq!(classify_f64(5e-324_f64.to_bits()), FloatKind::Finite);
    assert_eq!(classify_f64(f64::NEG_INFINITY.to_bits()), FloatKind::Infinite);
    assert_eq!(classify_f64(f64::NAN.to_bits()), FloatKind::Nan);
    assert_eq!(classify_f32(f32::INFINITY.to_bits()), FloatKind::Infinite);
    assert_eq!(classify_f32(1.0_f32.to_bits()), FloatKind::Finite);
}

#[test]
fn digit_counts() {
    assert_eq!(decimal_length(0), 1);
    assert_eq!(decimal_length(9), 1);
    assert_eq!(decimal_length(10), 2);
    assert_eq!(decimal_length(99999999999999999), 17);
    assert_eq!(decimal_length(u64::MAX), 20);
}

#[test]
fn metadata_matches_text() {
    let f = Formatter::format_finite_f64((-12.75_f64).to_bits());
    assert_eq!(f.meta(), FormattedMeta::Decimal { offset_decimal_point: 3 });
    let f = Formatter::format_finite_f64(1.25e-30_f64.to_bits());
    assert_eq!(
        f.meta(),
        FormattedMeta::Exponent { offset_decimal_point: Some(1), offset_exponent: 4 }
    );
    let f = Formatter::format_finite_f64(1e100_f64.to_bits());
    assert_eq!(
        f.meta(),
        FormattedMeta::Exponent { offset_decimal_point: None, offset_exponent: 1 }
    );
    assert_eq!(Formatter::format_f64(f64::NAN.to_bits()).meta(), FormattedMeta::Nonfinite);
}
