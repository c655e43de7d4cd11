use pocketty::binary32;

fn samples() -> Vec<f32> {
    vec![
        0.0,
        -0.0,
        1.0,
        -1.0,
        0.02,
        -0.02,
        0.5,
        -0.5,
        256.0,
        1.0e-40,
        -1.0e-40,
        f32::MIN_POSITIVE,
        f32::MAX,
        f32::MIN,
        f32::INFINITY,
        f32::NEG_INFINITY,
        f32::NAN,
        -f32::NAN,
        f32::EPSILON,
        3.75,
        -3.75,
        6614.0,
    ]
}

#[test]
fn constants_are_the_bits_of_their_values() {
    assert_eq!(binary32::ZERO, 0.0f32.to_bits());
    assert_eq!(binary32::ONE, 1.0f32.to_bits());
    assert_eq!(binary32::NEG_ONE, (-1.0f32).to_bits());
    assert_eq!(binary32::INFINITY, f32::INFINITY.to_bits());
    assert_eq!(binary32::SIGN, (-0.0f32).to_bits());
}

#[test]
fn is_nan_agrees_with_the_hardware() {
    for x in samples() {
        assert_eq!(binary32::is_nan(x.to_bits()), x.is_nan(), "{x}");
    }
    assert!(binary32::is_nan(0x7F80_0001));
    assert!(binary32::is_nan(0xFFFF_FFFF));
    assert!(!binary32::is_nan(0x7F80_0000));
    assert!(!binary32::is_nan(0xFF80_0000));
}

#[test]
fn magnitude_is_the_absolute_value() {
    for x in samples() {
        assert_eq!(binary32::magnitude(x.to_bits()), x.abs().to_bits(), "{x}");
    }
}

#[test]
fn negate_flips_the_sign() {
    for x in samples() {
        assert_eq!(binary32::negate(x.to_bits()), (-x).to_bits(), "{x}");
    }
}

#[test]
fn lt_and_le_agree_with_the_hardware() {
    for a in samples() {
        for b in samples() {
            assert_eq!(binary32::lt(a.to_bits(), b.to_bits()), a < b, "{a} < {b}");
            assert_eq!(binary32::le(a.to_bits(), b.to_bits()), a <= b, "{a} <= {b}");
        }
    }
}

#[test]
fn zeros_of_both_signs_compare_equal() {
    let plus = 0.0f32.to_bits();
    let minus = (-0.0f32).to_bits();
    assert!(!binary32::lt(minus, plus));
    assert!(!binary32::lt(plus, minus));
    assert!(binary32::le(minus, plus));
    assert!(binary32::le(plus, minus));
}

#[test]
fn min_and_max_agree_with_the_hardware() {
    for a in samples() {
        for b in samples() {
            let lo = f32::from_bits(binary32::min(a.to_bits(), b.to_bits()));
            let hi = f32::from_bits(binary32::max(a.to_bits(), b.to_bits()));
            let want_lo = a.min(b);
            let want_hi = a.max(b);
            assert_eq!(lo.is_nan(), want_lo.is_nan(), "min({a}, {b})");
            assert_eq!(hi.is_nan(), want_hi.is_nan(), "max({a}, {b})");
            if !want_lo.is_nan() {
                assert!(lo == want_lo, "min({a}, {b}) = {lo}");
            }
            if !want_hi.is_nan() {
                assert!(hi == want_hi, "max({a}, {b}) = {hi}");
            }
        }
    }
}

#[test]
fn min_lets_a_nan_give_way() {
    let nan = f32::NAN.to_bits();
    let one = 1.0f32.to_bits();
    assert_eq!(binary32::min(nan, one), one);
    assert_eq!(binary32::min(one, nan), one);
    assert_eq!(binary32::max(nan, one), one);
    assert_eq!(binary32::max(one, nan), one);
}

#[test]
fn clamp_agrees_with_the_hardware() {
    let bounds = [(-1.0f32, 1.0f32), (0.0, 1.0), (0.0, 0.0), (0.0, 6614.0), (-0.0, 0.0)];
    for x in samples() {
        for (lo, hi) in bounds {
            let got = binary32::clamp(x.to_bits(), lo.to_bits(), hi.to_bits());
            let want = x.clamp(lo, hi);
            if want.is_nan() {
                assert!(f32::from_bits(got).is_nan());
            } else {
                assert_eq!(got, want.to_bits(), "clamp({x}, {lo}, {hi})");
            }
        }
    }
}

#[test]
fn clamp_keeps_a_nan() {
    let nan = f32::NAN.to_bits();
    assert_eq!(binary32::clamp(nan, binary32::ZERO, binary32::ONE), nan);
}
