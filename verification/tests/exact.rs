use hessenberg_qr::array::FortranArray;
use hessenberg_qr::dlanv2::dlanv2_settled;
use hessenberg_qr::dlapy2::{dlapy2_case, Hypot};
use hessenberg_qr::dlaqr1::{dlaqr1_case, ShiftVector};
use hessenberg_qr::dlarfg::{is_identity_reflector, is_rescaling_due, MAX_RESCALINGS};

fn b(x: f64) -> u64 {
    x.to_bits()
}

#[test]
fn a_triangular_block_is_standard() {
    let s = dlanv2_settled(b(1.), b(2.), b(0.), b(4.)).unwrap();
    let got = [s.a, s.b, s.c, s.d, s.rt1r, s.rt1i, s.rt2r, s.rt2i, s.cs, s.sn].map(f64::from_bits);
    assert_eq!(got, [1., 2., 0., 4., 1., 0., 4., 0., 1., 0.]);
    let s = dlanv2_settled(b(1.), b(0.), b(-0.), b(4.)).unwrap();
    assert_eq!(s.c, b(-0.));
    assert_eq!((f64::from_bits(s.cs), f64::from_bits(s.sn)), (1., 0.));
}

#[test]
fn a_lower_triangular_block_is_turned() {
    let s = dlanv2_settled(b(1.), b(0.), b(3.), b(4.)).unwrap();
    let got = [s.a, s.b, s.c, s.d, s.rt1r, s.rt1i, s.rt2r, s.rt2i, s.cs, s.sn].map(f64::from_bits);
    assert_eq!(got, [4., -3., 0., 1., 4., 0., 1., 0., 0., 1.]);
    // the rotation applied from both sides gives the same block
    let (a, bb, c, d) = (1.0f64, 0.0f64, 3.0f64, 4.0f64);
    let (cs, sn) = (0.0f64, 1.0f64);
    let (aa, ab, ca, cd) = (a * cs + bb * sn, -a * sn + bb * cs, c * cs + d * sn, -c * sn + d * cs);
    let out = [aa * cs + ca * sn, ab * cs + cd * sn, -aa * sn + ca * cs, -ab * sn + cd * cs];
    assert_eq!(out, [4., -3., 0., 1.]);
    assert_eq!(cs * cs + sn * sn, 1.0);
    assert_eq!(f64::from_bits(s.a) + f64::from_bits(s.d), a + d);
    assert_eq!(
        f64::from_bits(s.a) * f64::from_bits(s.d) - f64::from_bits(s.b) * f64::from_bits(s.c),
        a * d - bb * c
    );
}

#[test]
fn other_blocks_need_arithmetic() {
    assert!(dlanv2_settled(b(1.), b(2.), b(3.), b(4.)).is_none());
    assert!(dlanv2_settled(b(2.), b(3.), b(3.), b(2.)).is_none());
    assert!(dlanv2_settled(b(1.), b(f64::NAN), b(f64::NAN), b(4.)).is_none());
    assert!(dlanv2_settled(b(1.), b(0.), b(f64::NAN), b(4.)).is_some());
}

#[test]
fn test_dlapy2() {
    let cases: [(f64, f64, f64); 10] = [
        (0.0, 0.0, 0.0),
        (3.0, 4.0, 5.0),
        (-3.0, 4.0, 5.0),
        (3.0, -4.0, 5.0),
        (-3.0, -4.0, 5.0),
        (8.0, 15.0, 17.0),
        (0.1, 0.0, 0.1),
        (0.0, 0.1, 0.1),
        (1e-307, 1e-307, 1.414213562373095e-307),
        (1e307, 1e307, 1.4142135623730951e307),
    ];
    for (x, y, expected) in cases {
        let result = match dlapy2_case(b(x), b(y)) {
            Hypot::Exact { value } => f64::from_bits(value),
            Hypot::Scaled { w, z } => {
                let (w, z) = (f64::from_bits(w), f64::from_bits(z));
                assert!(0.0 < z && z <= w && w < f64::INFINITY);
                w * ((1.0 + (z / w).powi(2)).sqrt())
            }
        };
        assert!((expected - result).abs() < f64::EPSILON, "{x} {y}: {result}");
    }
}

#[test]
fn dlapy2_settles_the_special_values() {
    let exact = |x: f64, y: f64| match dlapy2_case(b(x), b(y)) {
        Hypot::Exact { value } => Some(value),
        Hypot::Scaled { .. } => None,
    };
    assert_eq!(exact(0., 0.), Some(b(0.)));
    assert_eq!(exact(-0., -0.), Some(b(0.)));
    assert_eq!(exact(-2., 0.), Some(b(2.)));
    assert_eq!(exact(-0., 3.), Some(b(3.)));
    assert_eq!(exact(f64::INFINITY, 3.), Some(b(f64::INFINITY)));
    assert_eq!(exact(3., f64::NEG_INFINITY), Some(b(f64::INFINITY)));
    assert_eq!(exact(f64::NAN, 3.), Some(b(f64::NAN)));
    assert_eq!(exact(3., f64::NAN), Some(b(f64::NAN)));
    assert_eq!(exact(f64::NAN, f64::INFINITY), Some(b(f64::NAN)));
    assert_eq!(exact(-f64::NAN, f64::NAN), Some(b(-f64::NAN)));
    assert_eq!(exact(3., 4.), None);
    assert_eq!(dlapy2_case(b(-3.), b(4.)), Hypot::Scaled { w: b(4.), z: b(3.) });
    assert_eq!(dlapy2_case(b(4.), b(-3.)), Hypot::Scaled { w: b(4.), z: b(3.) });
    assert_eq!(dlapy2_case(b(-4.), b(4.)), Hypot::Scaled { w: b(4.), z: b(4.) });
    assert_eq!(dlapy2_case(b(5e-324), b(f64::MAX)), Hypot::Scaled { w: b(f64::MAX), z: b(5e-324) });
}

#[test]
fn reflectors_of_nothing_are_the_identity() {
    assert!(is_identity_reflector(1, b(3.)));
    assert!(is_identity_reflector(0, b(3.)));
    assert!(is_identity_reflector(-5, b(f64::NAN)));
    assert!(is_identity_reflector(2, b(0.)));
    assert!(is_identity_reflector(3, b(-0.)));
    assert!(!is_identity_reflector(2, b(3.)));
    assert!(!is_identity_reflector(2, b(5e-324)));
    assert!(!is_identity_reflector(2, b(f64::NAN)));
}

#[test]
fn rescaling_stops_after_twenty_times() {
    let safmin = f64::MIN_POSITIVE / (f64::EPSILON * 0.5);
    assert_eq!(MAX_RESCALINGS, 20);
    assert!(is_rescaling_due(b(safmin / 2.), b(safmin), 0));
    assert!(is_rescaling_due(b(-safmin / 2.), b(safmin), 19));
    assert!(!is_rescaling_due(b(safmin / 2.), b(safmin), 20));
    assert!(!is_rescaling_due(b(safmin), b(safmin), 0));
    assert!(!is_rescaling_due(b(-1.), b(safmin), 0));
    assert!(!is_rescaling_due(b(f64::NAN), b(safmin), 0));
    assert!(is_rescaling_due(b(0.), b(safmin), 1));
}

#[test]
fn a_shift_vector_without_scale_is_zero() {
    let start = FortranArray::vector(&[1.0f64, 2., 3., 4.].map(|x| x.to_bits()));
    let reals = |a: &FortranArray| -> Vec<f64> {
        a.clone().to_vec().iter().map(|x| f64::from_bits(*x)).collect()
    };
    let mut v = start.clone();
    assert_eq!(dlaqr1_case(2, b(0.), &mut v), ShiftVector::Zero);
    assert_eq!(reals(&v), vec![0., 0., 3., 4.]);
    let mut v = start.clone();
    assert_eq!(dlaqr1_case(3, b(-0.), &mut v), ShiftVector::Zero);
    assert_eq!(reals(&v), vec![0., 0., 0., 4.]);
    let mut v = start.clone();
    assert_eq!(dlaqr1_case(3, b(1.5), &mut v), ShiftVector::Scaled);
    assert_eq!(reals(&v), vec![1., 2., 3., 4.]);
    assert_eq!(dlaqr1_case(2, b(f64::NAN), &mut v), ShiftVector::Scaled);
    assert_eq!(dlaqr1_case(1, b(0.), &mut v), ShiftVector::Untouched);
    assert_eq!(dlaqr1_case(4, b(0.), &mut v), ShiftVector::Untouched);
    assert_eq!(dlaqr1_case(0, b(1.), &mut v), ShiftVector::Untouched);
    assert_eq!(reals(&v), vec![1., 2., 3., 4.]);
}
