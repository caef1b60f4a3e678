use shovel::double::{clamp, floor, is_nan, to_fixed_point, truncate};

fn samples() -> Vec<f64> {
    let mut values = vec![
        0.0,
        -0.0,
        0.5,
        -0.5,
        0.999_999_999,
        -0.999_999_999,
        1.0,
        -1.0,
        1.5,
        -1.5,
        2.5,
        -2.5,
        4095.999,
        -4095.999,
        2147483646.5,
        2147483647.0,
        2147483647.5,
        2147483648.0,
        -2147483648.0,
        -2147483648.5,
        -2147483649.0,
        1e15,
        -1e15,
        4503599627370495.5,
        9007199254740993.0,
        1e18,
        -1e18,
        1e300,
        -1e300,
        f64::MIN_POSITIVE,
        f64::MAX,
        f64::MIN,
        f64::EPSILON,
        f64::INFINITY,
        f64::NEG_INFINITY,
        f64::NAN,
        5e-324,
        3.0e7,
        -3.0e7,
        2.0e7,
        3.000_000_1e7,
    ];
    let mut seed: u64 = 0x9E37_79B9_7F4A_7C15;
    for _ in 0..2000 {
        seed ^= seed << 13;
        seed ^= seed >> 7;
        seed ^= seed << 17;
        values.push(f64::from_bits(seed));
        values.push((seed as i64 >> 20) as f64 / 4096.0);
        values.push((seed as i64 >> 30) as f64 / 8192.0);
    }
    values
}

#[test]
fn floors_agree_with_the_hardware() {
    for v in samples() {
        assert_eq!(floor(v.to_bits()), v.floor() as i32, "{v:?}");
    }
}

#[test]
fn truncations_agree_with_the_hardware() {
    for v in samples() {
        assert_eq!(truncate(v.to_bits()), v as i32, "{v:?}");
    }
}

#[test]
fn fixed_points_agree_with_the_hardware() {
    for v in samples() {
        assert_eq!(to_fixed_point(v.to_bits()), (v * 4096.0).round() as i64, "{v:?}");
    }
}

#[test]
fn clamps_agree_with_the_hardware() {
    for v in samples() {
        for limit in [3.0e7, 2.0e7, 0.0, 1.5] {
            let clamped = f64::from_bits(clamp(v.to_bits(), f64::to_bits(limit)));
            let expected = v.clamp(-limit, limit);
            assert!(
                clamped == expected || clamped.is_nan() && expected.is_nan(),
                "{v:?} {limit:?}"
            );
        }
    }
}

#[test]
fn numbers_are_told_from_other_patterns() {
    for v in samples() {
        assert_eq!(is_nan(v.to_bits()), v.is_nan());
    }
}
