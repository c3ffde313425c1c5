use hessenberg_qr::ieee;

fn samples() -> Vec<f64> {
    vec![
        0.0,
        -0.0,
        1.0,
        -1.0,
        0.5,
        -0.5,
        2.0,
        1.0e-310,
        -1.0e-310,
        5.0e-324,
        -5.0e-324,
        f64::MIN_POSITIVE,
        -f64::MIN_POSITIVE,
        f64::EPSILON,
        3.141592653589793,
        -2.718281828459045,
        1.0e300,
        -1.0e300,
        f64::MAX,
        f64::MIN,
        f64::INFINITY,
        f64::NEG_INFINITY,
        f64::NAN,
        -f64::NAN,
        f64::from_bits(0x7ff0_0000_0000_0001),
        f64::from_bits(0xfff0_0000_0000_0001),
    ]
}

#[test]
fn comparisons_agree_with_the_numbers() {
    for x in samples() {
        for y in samples() {
            let (a, b) = (x.to_bits(), y.to_bits());
            assert_eq!(ieee::eq(a, b), x == y, "{x} == {y}");
            assert_eq!(ieee::lt(a, b), x < y, "{x} < {y}");
            assert_eq!(ieee::le(a, b), x <= y, "{x} <= {y}");
        }
    }
}

#[test]
fn sign_operations_agree_with_the_numbers() {
    for x in samples() {
        let a = x.to_bits();
        assert_eq!(ieee::abs(a), x.abs().to_bits());
        assert_eq!(ieee::neg(a), (-x).to_bits());
        assert_eq!(ieee::is_nan(a), x.is_nan());
        assert_eq!(ieee::is_zero(a), x == 0.0);
    }
}

#[test]
fn constants_are_the_patterns_of_the_numbers() {
    assert_eq!(ieee::ZERO, 0.0f64.to_bits());
    assert_eq!(ieee::ONE, 1.0f64.to_bits());
    assert_eq!(ieee::MIN_POSITIVE, f64::MIN_POSITIVE.to_bits());
    assert_eq!(ieee::MAX, f64::MAX.to_bits());
    assert_eq!(ieee::INFINITY, f64::INFINITY.to_bits());
    assert_eq!(ieee::SIGN_BIT, (-0.0f64).to_bits());
    assert!(f64::from_bits(ieee::NAN).is_nan());
}
