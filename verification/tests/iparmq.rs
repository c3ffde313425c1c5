use hessenberg_qr::iparmq::iparmq;

#[test]
fn test_iparmq() {
    let cases: [(i32, &str, i32, i32, i32); 9] = [
        (12, "test", 5, 5, 75),
        (14, "test", 10, 10, 14),
        (18, "test", 30, 30, -1),
        (15, "CGGHRD", 15, 15, 2),
        (16, "DGGHRD", 20, 20, 1),
        (17, "CHSEQR", 25, 25, 10),
        (15, "CTGEXC", 35, 35, 2),
        (16, "CLAQR0", 40, 40, 0),
        (17, "CHSEQR", 45, 45, 10),
    ];
    for (ispec, name, ilo, ihi, expected) in cases {
        assert_eq!(expected, iparmq(ispec, name, ilo, ihi));
    }
}

#[test]
fn the_window_decides_with_the_name() {
    assert_eq!(iparmq(13, "DHSEQR", 1, 499), 2);
    assert_eq!(iparmq(13, "DHSEQR", 1, 500), 3);
    assert_eq!(iparmq(13, "DHSEQR", i32::MIN, i32::MAX), 3);
    assert_eq!(iparmq(13, "DHSEQR", i32::MAX, i32::MIN), 2);
    assert_eq!(iparmq(16, "DGGHRD", 1, 13), 1);
    assert_eq!(iparmq(16, "DGGHRD", 1, 14), 2);
    assert_eq!(iparmq(16, "DGGHD3", 1, 14), 2);
    assert_eq!(iparmq(16, "DTGEXC", 1, 13), 0);
    assert_eq!(iparmq(16, "DTGEXC", 1, 14), 1);
    assert_eq!(iparmq(16, "DHSEQR", 1, 1000), 0);
    assert_eq!(iparmq(16, "DLAQR5", 1, 1000), 0);
    assert_eq!(iparmq(16, "DGEQRF", 1, 1000), 0);
}

#[test]
fn lower_case_counts_when_the_name_starts_with_it() {
    assert_eq!(iparmq(16, "dgghrd", 1, 14), 2);
    assert_eq!(iparmq(16, "dGgHrD", 1, 14), 2);
    assert_eq!(iparmq(16, "Dgghrd", 1, 14), 0);
    assert_eq!(iparmq(16, "dtgexc", 1, 14), 1);
    assert_eq!(iparmq(16, "DGGHRDX", 1, 14), 2);
}

#[test]
fn short_names_match_nothing() {
    assert_eq!(iparmq(16, "", 1, 14), 0);
    assert_eq!(iparmq(16, "DGGHR", 1, 14), 0);
    assert_eq!(iparmq(16, "DLAQR", 1, 14), 0);
    assert_eq!(iparmq(0, "", 1, 14), -1);
    assert_eq!(iparmq(11, "DGGHRD", 1, 14), -1);
}
