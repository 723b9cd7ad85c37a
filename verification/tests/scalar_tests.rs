use objrs::scalar::{Scalar, Scalar64, INFINITY_BITS, SIGN_BIT};

fn s(value: f32) -> Scalar {
    Scalar::from_bits(value.to_bits())
}

fn samples() -> Vec<f32> {
    vec![
        f32::NEG_INFINITY,
        f32::MIN,
        -1.0e10,
        -2.5,
        -1.0,
        -f32::MIN_POSITIVE,
        -1.0e-45,
        -0.0,
        0.0,
        1.0e-45,
        f32::MIN_POSITIVE,
        0.1,
        0.5,
        0.9,
        1.0,
        7.483,
        100.0,
        1.0e10,
        f32::MAX,
        f32::INFINITY,
    ]
}

#[test]
fn bits_round_trip() {
    assert_eq!(Scalar::from_bits(0x3f80_0000).to_bits(), 0x3f80_0000);
    assert_eq!(s(1.0).to_bits(), 0x3f80_0000);
    assert_eq!(s(-2.0).bits, 0xc000_0000);
    assert_eq!(Scalar64::from_bits(0x3ff0_0000_0000_0000).to_bits(), 1.0f64.to_bits());
}

#[test]
fn masks_are_those_of_single_precision() {
    assert_eq!(SIGN_BIT, (-0.0f32).to_bits());
    assert_eq!(INFINITY_BITS, f32::INFINITY.to_bits());
}

#[test]
fn nan_is_told_from_numbers() {
    assert!(s(f32::NAN).is_nan());
    assert!(s(-f32::NAN).is_nan());
    assert!(Scalar::from_bits(0x7f80_0001).is_nan());
    assert!(Scalar::from_bits(0xffff_ffff).is_nan());
    for v in samples() {
        assert!(!s(v).is_nan(), "{} is a number", v);
    }
}

#[test]
fn rank_exact_values() {
    assert_eq!(s(0.0).rank(), 0);
    assert_eq!(s(-0.0).rank(), 0);
    assert_eq!(s(1.0).rank(), 0x3f80_0000);
    assert_eq!(s(-1.0).rank(), -0x3f80_0000);
    assert_eq!(s(f32::INFINITY).rank(), 0x7f80_0000);
    assert_eq!(s(f32::NEG_INFINITY).rank(), -0x7f80_0000);
}

#[test]
fn order_is_that_of_the_numbers() {
    for a in samples() {
        for b in samples() {
            assert_eq!(s(a).lt(s(b)), a < b, "{} < {}", a, b);
            assert_eq!(s(a).le(s(b)), a <= b, "{} <= {}", a, b);
            assert_eq!(s(a).same(s(b)), a == b, "{} == {}", a, b);
            assert_eq!(s(a).rank() < s(b).rank(), a < b, "rank of {} and {}", a, b);
        }
    }
}

#[test]
fn nan_compares_with_nothing() {
    for v in samples() {
        assert!(!s(f32::NAN).lt(s(v)));
        assert!(!s(v).lt(s(f32::NAN)));
        assert!(!s(f32::NAN).le(s(v)));
        assert!(!s(v).le(s(f32::NAN)));
        assert!(!s(v).same(s(f32::NAN)));
    }
    assert!(!s(f32::NAN).same(s(f32::NAN)));
}

#[test]
fn zeros_are_one_number_with_two_patterns() {
    assert!(s(0.0).same(s(-0.0)));
    assert!(s(0.0).le(s(-0.0)));
    assert!(!s(-0.0).lt(s(0.0)));
    assert_ne!(s(0.0), s(-0.0));
}

#[test]
fn min_and_max_are_those_of_the_numbers() {
    for a in samples() {
        for b in samples() {
            if a == b {
                continue;
            }
            assert_eq!(s(a).min(s(b)), s(a.min(b)), "min of {} and {}", a, b);
            assert_eq!(s(a).max(s(b)), s(a.max(b)), "max of {} and {}", a, b);
        }
    }
}

#[test]
fn min_and_max_pass_over_nan() {
    let nan = s(f32::NAN);
    for v in samples() {
        assert_eq!(nan.min(s(v)), s(v));
        assert_eq!(s(v).min(nan), s(v));
        assert_eq!(nan.max(s(v)), s(v));
        assert_eq!(s(v).max(nan), s(v));
        assert_eq!(f32::NAN.min(v), v);
        assert_eq!(v.max(f32::NAN), v);
    }
    assert!(nan.min(nan).is_nan());
    assert!(nan.max(nan).is_nan());
}

#[test]
fn min_and_max_of_equals_keep_the_first() {
    assert_eq!(s(0.0).min(s(-0.0)), s(0.0));
    assert_eq!(s(-0.0).min(s(0.0)), s(-0.0));
    assert_eq!(s(0.0).max(s(-0.0)), s(0.0));
    assert_eq!(s(-0.0).max(s(0.0)), s(-0.0));
    assert_eq!(s(3.0).min(s(3.0)), s(3.0));
}

#[test]
fn min_is_not_its_second_argument() {
    assert_eq!(s(1.0).min(s(2.0)), s(1.0));
    assert_eq!(s(2.0).min(s(1.0)), s(1.0));
    assert_eq!(s(1.0).max(s(2.0)), s(2.0));
    assert_eq!(s(2.0).max(s(1.0)), s(2.0));
    assert_eq!(s(-1.0).min(s(-2.0)), s(-2.0));
    assert_eq!(s(-1.0).max(s(-2.0)), s(-1.0));
}

#[test]
fn doubling_is_exact() {
    for v in samples() {
        assert_eq!(s(v).doubled(), s(v * 2.0), "twice {}", v);
    }
    let more = [
        3.0e-39f32,
        5.9e-39,
        1.1754942e-38,
        1.17549435e-38,
        1.5,
        7.483,
        1.7014117e38,
        1.7014118e38,
        1.701412e38,
        3.0e38,
    ];
    for v in more {
        assert_eq!(s(v).doubled(), s(v * 2.0), "twice {}", v);
        assert_eq!(s(-v).doubled(), s(-v * 2.0), "twice {}", -v);
    }
    assert_eq!(s(0.5).doubled(), s(1.0));
    assert_eq!(s(-0.0).doubled(), s(-0.0));
    assert_eq!(s(f32::MAX).doubled(), s(f32::INFINITY));
    assert_eq!(s(f32::MIN).doubled(), s(f32::NEG_INFINITY));
}

#[test]
fn doubling_keeps_what_is_no_finite_number() {
    assert_eq!(s(f32::INFINITY).doubled(), s(f32::INFINITY));
    assert_eq!(s(f32::NEG_INFINITY).doubled(), s(f32::NEG_INFINITY));
    assert!(s(f32::NAN).doubled().is_nan());
    assert!((f32::NAN * 2.0).is_nan());
    assert_eq!(Scalar::from_bits(0x7fc0_0001).doubled(), Scalar::from_bits(0x7fc0_0001));
}
