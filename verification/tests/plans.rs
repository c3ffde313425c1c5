use hessenberg_qr::blas::dgemm::{dgemm_plan, GemmPlan};
use hessenberg_qr::blas::dscal::dscal_plan;
use hessenberg_qr::blas::dtrmm::{dtrmm_plan, TrmmPlan};

fn b(x: f64) -> u64 {
    x.to_bits()
}

#[test]
fn dgemm_reports_the_first_argument_that_is_not_valid() {
    let r = |info| GemmPlan::Rejected { info };
    assert_eq!(dgemm_plan('X', 'N', 2, 2, 2, b(1.), 2, 2, b(1.), 2), r(1));
    assert_eq!(dgemm_plan('X', 'X', -1, -1, -1, b(1.), 0, 0, b(1.), 0), r(1));
    assert_eq!(dgemm_plan('N', 'X', 2, 2, 2, b(1.), 2, 2, b(1.), 2), r(2));
    assert_eq!(dgemm_plan('N', 'N', -1, 2, 2, b(1.), 2, 2, b(1.), 2), r(3));
    assert_eq!(dgemm_plan('N', 'N', 2, -1, 2, b(1.), 2, 2, b(1.), 2), r(4));
    assert_eq!(dgemm_plan('N', 'N', 2, 2, -1, b(1.), 2, 2, b(1.), 2), r(5));
    assert_eq!(dgemm_plan('N', 'N', 3, 2, 2, b(1.), 2, 2, b(1.), 3), r(8));
    assert_eq!(dgemm_plan('T', 'N', 2, 2, 3, b(1.), 2, 3, b(1.), 2), r(8));
    assert_eq!(dgemm_plan('N', 'N', 2, 2, 3, b(1.), 2, 2, b(1.), 2), r(10));
    assert_eq!(dgemm_plan('N', 'T', 2, 3, 2, b(1.), 2, 2, b(1.), 2), r(10));
    assert_eq!(dgemm_plan('N', 'N', 2, 2, 2, b(1.), 2, 2, b(1.), 1), r(13));
    assert_eq!(dgemm_plan('N', 'N', 0, 0, 0, b(1.), 0, 1, b(1.), 1), r(8));
    assert_eq!(dgemm_plan('N', 'N', 0, 0, 0, b(1.), 1, 1, b(1.), 0), r(13));
}

#[test]
fn dgemm_picks_its_case() {
    assert_eq!(dgemm_plan('N', 'N', 0, 2, 2, b(1.), 1, 2, b(0.), 1), GemmPlan::Nothing);
    assert_eq!(dgemm_plan('N', 'N', 2, 0, 2, b(1.), 2, 2, b(0.), 2), GemmPlan::Nothing);
    assert_eq!(dgemm_plan('N', 'N', 2, 2, 0, b(1.), 2, 1, b(1.), 2), GemmPlan::Nothing);
    assert_eq!(dgemm_plan('N', 'N', 2, 2, 2, b(0.), 2, 2, b(1.), 2), GemmPlan::Nothing);
    assert_eq!(dgemm_plan('N', 'N', 2, 2, 2, b(-0.), 2, 2, b(1.), 2), GemmPlan::Nothing);
    assert_eq!(dgemm_plan('N', 'N', 2, 2, 2, b(0.), 2, 2, b(0.), 2), GemmPlan::Clear);
    assert_eq!(dgemm_plan('N', 'N', 2, 2, 2, b(0.), 2, 2, b(-0.), 2), GemmPlan::Clear);
    assert_eq!(dgemm_plan('N', 'N', 2, 2, 2, b(0.), 2, 2, b(0.5), 2), GemmPlan::Scale);
    assert_eq!(dgemm_plan('N', 'N', 2, 2, 2, b(0.), 2, 2, b(f64::NAN), 2), GemmPlan::Scale);
    let p = |nota, notb| GemmPlan::Product { nota, notb };
    assert_eq!(dgemm_plan('N', 'N', 2, 2, 0, b(1.), 2, 1, b(0.), 2), p(true, true));
    assert_eq!(dgemm_plan('N', 'N', 2, 2, 2, b(0.5), 2, 2, b(0.5), 2), p(true, true));
    assert_eq!(dgemm_plan('n', 't', 2, 2, 2, b(0.5), 2, 2, b(0.5), 2), p(true, false));
    assert_eq!(dgemm_plan('T', 'N', 2, 2, 2, b(0.5), 2, 2, b(0.5), 2), p(false, true));
    assert_eq!(dgemm_plan('C', 'c', 2, 2, 2, b(0.5), 2, 2, b(0.5), 2), p(false, false));
    assert_eq!(dgemm_plan('N', 'N', 2, 2, 2, b(f64::NAN), 2, 2, b(1.), 2), p(true, true));
}

#[test]
fn dtrmm_reports_the_first_argument_that_is_not_valid() {
    let r = |info| TrmmPlan::Rejected { info };
    assert_eq!(dtrmm_plan('X', 'U', 'N', 'N', 2, 2, b(1.), 2, 2), r(1));
    assert_eq!(dtrmm_plan('L', 'X', 'N', 'N', 2, 2, b(1.), 2, 2), r(2));
    assert_eq!(dtrmm_plan('L', 'U', 'X', 'N', 2, 2, b(1.), 2, 2), r(3));
    assert_eq!(dtrmm_plan('L', 'U', 'N', 'X', 2, 2, b(1.), 2, 2), r(4));
    assert_eq!(dtrmm_plan('L', 'U', 'N', 'N', -1, 2, b(1.), 2, 2), r(5));
    assert_eq!(dtrmm_plan('L', 'U', 'N', 'N', 2, -1, b(1.), 2, 2), r(6));
    assert_eq!(dtrmm_plan('L', 'U', 'N', 'N', 3, 2, b(1.), 2, 3), r(9));
    assert_eq!(dtrmm_plan('R', 'U', 'N', 'N', 2, 3, b(1.), 2, 2), r(9));
    assert_eq!(dtrmm_plan('R', 'U', 'N', 'N', 3, 2, b(1.), 2, 2), r(11));
    assert_eq!(dtrmm_plan('L', 'U', 'N', 'N', 0, 0, b(1.), 0, 1), r(9));
    assert_eq!(dtrmm_plan('L', 'U', 'N', 'N', 0, 0, b(1.), 1, 0), r(11));
}

#[test]
fn dtrmm_picks_its_case() {
    assert_eq!(dtrmm_plan('L', 'U', 'N', 'N', 0, 2, b(1.), 1, 1), TrmmPlan::Nothing);
    assert_eq!(dtrmm_plan('L', 'U', 'N', 'N', 2, 0, b(1.), 2, 2), TrmmPlan::Nothing);
    assert_eq!(dtrmm_plan('L', 'U', 'N', 'N', 2, 2, b(0.), 2, 2), TrmmPlan::Clear);
    assert_eq!(dtrmm_plan('L', 'U', 'N', 'N', 2, 2, b(-0.), 2, 2), TrmmPlan::Clear);
    let p = |left, upper, plain, nounit| TrmmPlan::Product { left, upper, plain, nounit };
    assert_eq!(dtrmm_plan('L', 'U', 'N', 'N', 2, 2, b(1.), 2, 2), p(true, true, true, true));
    assert_eq!(dtrmm_plan('R', 'U', 'N', 'U', 2, 2, b(2.), 2, 2), p(false, true, true, false));
    assert_eq!(dtrmm_plan('L', 'L', 'T', 'N', 2, 2, b(3.), 2, 2), p(true, false, false, true));
    assert_eq!(dtrmm_plan('r', 'l', 'c', 'u', 2, 2, b(3.), 2, 2), p(false, false, false, false));
}

#[test]
fn option_letters_are_taken_by_their_full_code() {
    assert_eq!(
        dtrmm_plan('\u{14c}', 'U', 'N', 'N', 2, 2, b(1.), 2, 2),
        TrmmPlan::Rejected { info: 1 }
    );
    assert_eq!(
        dtrmm_plan('L', '\u{155}', 'N', 'N', 2, 2, b(1.), 2, 2),
        TrmmPlan::Rejected { info: 2 }
    );
    assert_eq!(
        dgemm_plan('\u{14e}', 'N', 2, 2, 2, b(1.), 2, 2, b(1.), 2),
        GemmPlan::Rejected { info: 1 }
    );
    assert_eq!(
        dgemm_plan('N', '\u{154}', 2, 2, 2, b(1.), 2, 2, b(1.), 2),
        GemmPlan::Rejected { info: 2 }
    );
}

#[test]
fn dscal_names_the_elements_it_reaches() {
    assert_eq!(dscal_plan(0, b(2.), 1), None);
    assert_eq!(dscal_plan(-1, b(2.), 1), None);
    assert_eq!(dscal_plan(5, b(2.), 0), None);
    assert_eq!(dscal_plan(5, b(2.), -1), None);
    assert_eq!(dscal_plan(5, b(1.), 1), None);
    assert_eq!(dscal_plan(5, b(0.), 1), Some((5, 1)));
    assert_eq!(dscal_plan(3, b(5.), 2), Some((3, 2)));
    assert_eq!(dscal_plan(3, b(f64::NAN), 2), Some((3, 2)));
}
