use rong_server::fixed::{abs, clamp, cos, div_trunc, fmul, isqrt, sin, to_single_bits, ONE, PI_SIXTH, PI_THIRD};

#[test]
fn clamp_limits_to_the_interval() {
    assert_eq!(clamp(5, 0, 10), 5);
    assert_eq!(clamp(-5, 0, 10), 0);
    assert_eq!(clamp(15, 0, 10), 10);
    assert_eq!(clamp(7, 7, 7), 7);
}

#[test]
fn abs_and_div_trunc_round_toward_zero() {
    assert_eq!(abs(-3), 3);
    assert_eq!(abs(3), 3);
    assert_eq!(abs(0), 0);
    assert_eq!(div_trunc(7, 2), 3);
    assert_eq!(div_trunc(-7, 2), -3);
    assert_eq!(div_trunc(-1, 1000), 0);
    assert_eq!(div_trunc(0, 5), 0);
}

#[test]
fn fmul_multiplies_fixed_point_numbers() {
    assert_eq!(fmul(ONE, ONE), ONE);
    assert_eq!(fmul(ONE / 2, ONE / 2), ONE / 4);
    assert_eq!(fmul(0, ONE), 0);
    assert_eq!(fmul(3, 3), 0);
}

#[test]
fn isqrt_is_the_floor_of_the_root() {
    assert_eq!(isqrt(0), 0);
    assert_eq!(isqrt(1), 1);
    assert_eq!(isqrt(15), 3);
    assert_eq!(isqrt(16), 4);
    assert_eq!(isqrt(17), 4);
    assert_eq!(isqrt(5_243 * 5_243), 5_243);
    assert_eq!(isqrt(u64::MAX), 4_294_967_295);
    for n in 0..2_000u64 {
        let r = isqrt(n);
        assert!(r * r <= n && n < (r + 1) * (r + 1));
    }
}

#[test]
fn trigonometry_has_exact_values_at_zero() {
    assert_eq!(sin(0), 0);
    assert_eq!(cos(0), ONE);
}

#[test]
fn trigonometry_follows_the_real_functions() {
    let mut a = -PI_THIRD;
    while a <= PI_THIRD {
        let x = a as f64 / ONE as f64;
        let s = sin(a) as f64 / ONE as f64;
        let c = cos(a) as f64 / ONE as f64;
        assert!((s - x.sin()).abs() < 2e-5, "sin({}) = {} but {}", x, s, x.sin());
        assert!((c - x.cos()).abs() < 2e-5, "cos({}) = {} but {}", x, c, x.cos());
        assert_eq!(sin(-a), -sin(a));
        assert_eq!(cos(-a), cos(a));
        a += 997;
    }
}

#[test]
fn trigonometry_stays_within_its_bounds() {
    for a in [-PI_THIRD, -PI_SIXTH, 0, PI_SIXTH, PI_THIRD] {
        assert!((-ONE..=ONE).contains(&sin(a)));
        assert!((ONE / 2..=ONE).contains(&cos(a)));
    }
    assert!(sin(PI_SIXTH) > 0 && sin(-PI_SIXTH) < 0);
}

#[test]
fn single_bits_of_known_coordinates() {
    assert_eq!(to_single_bits(0), 0);
    assert_eq!(to_single_bits(ONE), 0x3f80_0000);
    assert_eq!(to_single_bits(ONE / 2), 0x3f00_0000);
    assert_eq!(to_single_bits(ONE / 4), 0x3e80_0000);
    assert_eq!(to_single_bits(1), (127 - 20) << 23);
    assert_eq!(to_single_bits(3), ((127 - 19) << 23) | (1 << 22));
}

#[test]
fn single_bits_are_the_exact_quotient() {
    let mut v: i64 = 0;
    while v < 16_777_216 {
        assert_eq!(f32::from_bits(to_single_bits(v)), v as f32 / ONE as f32, "at {}", v);
        v += 4_099;
    }
    assert_eq!(f32::from_bits(to_single_bits(16_777_215)), 16_777_215.0f32 / 1_048_576.0);
}
