//! The bit-level comparisons and negation against real double-precision
//! arithmetic: every pair drawn from a spread of ordinary and special
//! values must agree with the machine's own comparison.
use rlox::numbers::eq_bits;
use rlox::numbers::le_bits;
use rlox::numbers::lt_bits;
use rlox::numbers::nan_bits;
use rlox::numbers::negate_bits;

fn samples() -> Vec<f64> {
    vec![
        0.0,
        -0.0,
        1.0,
        -1.0,
        1.5,
        -1.5,
        0.1,
        123456.789,
        -123456.789,
        1e-320,
        -1e-320,
        f64::MIN_POSITIVE,
        f64::MAX,
        f64::MIN,
        f64::INFINITY,
        f64::NEG_INFINITY,
        f64::NAN,
        -f64::NAN,
    ]
}

#[test]
fn comparisons_agree_with_machine_doubles() {
    for &a in &samples() {
        for &b in &samples() {
            let x = a.to_bits();
            let y = b.to_bits();
            assert_eq!(lt_bits(x, y), a < b, "lt {} {}", a, b);
            assert_eq!(le_bits(x, y), a <= b, "le {} {}", a, b);
            assert_eq!(eq_bits(x, y), a == b, "eq {} {}", a, b);
        }
    }
}

#[test]
fn nan_detection_agrees_with_machine_doubles() {
    for &a in &samples() {
        assert_eq!(nan_bits(a.to_bits()), a.is_nan(), "nan {}", a);
    }
}

#[test]
fn negation_flips_the_sign_bit() {
    for &a in &samples() {
        assert_eq!(negate_bits(a.to_bits()), (-a).to_bits(), "neg {}", a);
    }
}
