use hezen::number::{equal, is_nan, less, less_or_equal, negate};

fn samples() -> Vec<f64> {
    vec![
        0.0,
        -0.0,
        1.0,
        -1.0,
        2.5,
        -2.5,
        1e308,
        -1e308,
        5e-324,
        -5e-324,
        f64::MIN_POSITIVE,
        f64::MAX,
        f64::MIN,
        f64::INFINITY,
        f64::NEG_INFINITY,
        f64::NAN,
        -f64::NAN,
        f64::from_bits(0x7ff0_0000_0000_0001),
        f64::from_bits(0xfff8_0000_0000_0000),
        123456789.125,
        -0.000001,
    ]
}

#[test]
fn equality_is_that_of_doubles() {
    for a in samples() {
        for b in samples() {
            assert_eq!(equal(a.to_bits(), b.to_bits()), a == b, "{a} == {b}");
        }
    }
}

#[test]
fn order_is_that_of_doubles() {
    for a in samples() {
        for b in samples() {
            assert_eq!(less(a.to_bits(), b.to_bits()), a < b, "{a} < {b}");
            assert_eq!(less_or_equal(a.to_bits(), b.to_bits()), a <= b, "{a} <= {b}");
            assert_eq!(less(b.to_bits(), a.to_bits()), a > b, "{a} > {b}");
            assert_eq!(less_or_equal(b.to_bits(), a.to_bits()), a >= b, "{a} >= {b}");
        }
    }
}

#[test]
fn negation_flips_the_sign() {
    for a in samples() {
        assert_eq!(negate(a.to_bits()), (-a).to_bits(), "-{a}");
    }
    assert_eq!(negate(0), 0x8000_0000_0000_0000);
    assert_eq!(negate(0x8000_0000_0000_0000), 0);
}

#[test]
fn not_a_number_is_recognised() {
    for a in samples() {
        assert_eq!(is_nan(a.to_bits()), a.is_nan(), "{a}");
    }
}
