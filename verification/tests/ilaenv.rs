use hessenberg_qr::errors::LapackError;
use hessenberg_qr::ilaenv::{ilaenv, ilaenv_checked, read_key};

#[test]
fn test_ispec_out_of_range() {
    let cases: [(i32, &str, i32, i32, i32, i32, i32); 35] = [
        (-1, "CGGHRD", 0, 0, 0, 0, -1),
        (0, "CGGHRD", 0, 0, 0, 0, -1),
        (1, "CGGHRD", 0, 0, 0, 0, 1),
        (1, "DGGHRD", 0, 0, 0, 0, 1),
        (1, "SGBTRF", 0, 128, 0, 128, 32),
        (1, "DGBTRF", 0, 128, 0, 128, 32),
        (1, "DGEQRF", 0, 0, 0, 0, 32),
        (1, "SGEQRF", 0, 0, 0, 0, 32),
        (2, "CGGHRD", 0, 0, 0, 0, 2),
        (2, "DGGHRD", 0, 0, 0, 0, 2),
        (2, "SGBTRF", 0, 0, 0, 0, 2),
        (2, "DGBTRF", 0, 0, 0, 0, 2),
        (2, "DGEQRF", 0, 0, 0, 0, 2),
        (2, "SGEQRF", 0, 0, 0, 0, 2),
        (3, "CGGHRD", 0, 0, 0, 0, 0),
        (3, "DGGHRD", 0, 0, 0, 0, 0),
        (3, "SGBTRF", 0, 0, 0, 0, 0),
        (3, "DGBTRF", 0, 0, 0, 0, 0),
        (3, "DGEQRF", 0, 0, 0, 0, 128),
        (3, "SGEQRF", 0, 0, 0, 0, 128),
        (4, "CGGHRD", 2, 3, 0, 0, 6),
        (5, "CGGHRD", 2, 3, 0, 0, 2),
        (6, "CGGHRD", 2, 3, 0, 0, 3),
        (7, "CGGHRD", 2, 3, 0, 0, 1),
        (8, "CGGHRD", 2, 3, 0, 0, 50),
        (9, "CGGHRD", 2, 3, 0, 0, 25),
        (10, "CGGHRD", 0, 0, 0, 0, 0),
        (11, "CGGHRD", 0, 0, 0, 0, 1),
        (12, "CGGHRD", 2, 3, 4, 5, 75),
        (13, "CGGHRD", 2, 3, 4, 5, 2),
        (14, "CGGHRD", 2, 3, 4, 5, 14),
        (15, "CGGHRD", 2, 3, 4, 5, 2),
        (16, "CGGHRD", 2, 3, 4, 5, 1),
        (17, "CGGHRD", 2, 3, 4, 5, 10),
        (18, "CGGHRD", 0, 0, 0, 0, -1),
    ];
    for (ispec, name, n1, n2, n3, n4, expected) in cases {
        assert_eq!(expected, ilaenv(ispec, name, "", n1, n2, n3, n4), "{ispec} {name}");
    }
}

#[test]
fn the_singular_value_crossover_is_eight_fifths() {
    for x in [
        -2147483648i32, -2147483647, -1342177280, -1342177281, -1000, -13, -12, -11, -10, -9, -8,
        -7, -6, -5, -4, -3, -2, -1, 0, 1, 2, 3, 4, 5, 6, 7, 8, 9, 10, 11, 12, 13, 99, 100, 1000,
        65535, 1000003, 1342177279, 1342177280, 1342177281, 2147483646, 2147483647,
    ] {
        let expected = (x as f64 * 1.6).round() as i32;
        assert_eq!(ilaenv(6, "", "", x, i32::MAX, 0, 0), expected, "{x}");
        assert_eq!(ilaenv(6, "", "", i32::MAX, x, 0, 0), expected, "{x}");
    }
    let mut x: i64 = -2147483648;
    while x <= 2147483647 {
        let v = x as i32;
        assert_eq!(ilaenv(6, "", "", v, v, 0, 0), (v as f64 * 1.6).round() as i32, "{v}");
        x += 7919 * 13;
    }
}

#[test]
fn block_sizes_go_by_the_name() {
    assert_eq!(ilaenv(1, "DLAORH", "", 0, 0, 0, 0), 192);
    assert_eq!(ilaenv(1, "DSYTRF", "", 0, 0, 0, 0), 64);
    assert_eq!(ilaenv(1, "ZHETRF", "", 0, 0, 0, 0), 64);
    assert_eq!(ilaenv(1, "DSYTRF_RK_2", "", 0, 0, 0, 0), 192);
    assert_eq!(ilaenv(1, "DSYTRF_RK_3", "", 0, 0, 0, 0), 64);
    assert_eq!(ilaenv(1, "DGEHRD", "", 0, 0, 0, 0), 32);
    assert_eq!(ilaenv(1, "DGEBRD", "", 0, 0, 0, 0), 32);
    assert_eq!(ilaenv(1, "DGETRF", "", 0, 0, 0, 0), 1);
    assert_eq!(ilaenv(1, "DORXXX", "", 0, 0, 0, 0), 32);
    assert_eq!(ilaenv(1, "ZORGQR", "", 0, 0, 0, 0), 1);
    assert_eq!(ilaenv(1, "ZUNGQR", "", 0, 0, 0, 0), 32);
    assert_eq!(ilaenv(1, "ZUNMBR", "", 0, 0, 0, 0), 32);
    assert_eq!(ilaenv(1, "ZUNGXX", "", 0, 0, 0, 0), 1);
    assert_eq!(ilaenv(1, "ZUNXQR", "", 0, 0, 0, 0), 1);
    assert_eq!(ilaenv(1, "DUNGQR", "", 0, 0, 0, 0), 1);
    assert_eq!(ilaenv(1, "DGBTRF", "", 0, 64, 0, 64), 1);
    assert_eq!(ilaenv(1, "DPBTRF", "", 0, 65, 0, 0), 32);
    assert_eq!(ilaenv(1, "DPBTRF", "", 0, 0, 0, 65), 32);
    assert_eq!(ilaenv(1, "DTRTRI", "", 0, 0, 0, 0), 64);
    assert_eq!(ilaenv(1, "DTREVC", "", 0, 0, 0, 0), 64);
    assert_eq!(ilaenv(1, "DLAUUM", "", 0, 0, 0, 0), 64);
    assert_eq!(ilaenv(1, "DLATRS", "", 0, 0, 0, 0), 64);
    assert_eq!(ilaenv(1, "DSTEBZ", "", 0, 0, 0, 0), 1);
    assert_eq!(ilaenv(1, "DGGHD3", "", 0, 0, 0, 0), 32);
    assert_eq!(ilaenv(2, "DGGHD3", "", 0, 0, 0, 0), 2);
    assert_eq!(ilaenv(3, "DGGHD3", "", 0, 0, 0, 0), 128);
}

#[test]
fn the_sylvester_block_size_grows_with_the_order() {
    assert_eq!(ilaenv(1, "DTRSYL", "", 100, 200, 0, 0), 48);
    assert_eq!(ilaenv(1, "DTRSYL", "", 300, 200, 0, 0), 48);
    assert_eq!(ilaenv(1, "DTRSYL", "", 1000, 1000, 0, 0), 160);
    assert_eq!(ilaenv(1, "DTRSYL", "", 306, 1000, 0, 0), 48);
    assert_eq!(ilaenv(1, "DTRSYL", "", 307, 1000, 0, 0), 49);
    assert_eq!(ilaenv(1, "DTRSYL", "", 5000, 5000, 0, 0), 240);
    assert_eq!(ilaenv(1, "DTRSYL", "", -5000, 5000, 0, 0), 48);
    assert_eq!(ilaenv(1, "DTRSYL", "", i32::MAX, i32::MAX, 0, 0), 240);
    assert_eq!(ilaenv(1, "DTRSYL", "", i32::MIN, i32::MAX, 0, 0), 48);
    assert_eq!(ilaenv(1, "ZTRSYL", "", 100, 200, 0, 0), 24);
    assert_eq!(ilaenv(1, "ZTRSYL", "", 500, 500, 0, 0), 40);
    assert_eq!(ilaenv(1, "ZTRSYL", "", 5000, 5000, 0, 0), 80);
}

#[test]
fn minimum_block_sizes_and_crossovers_go_by_the_name() {
    assert_eq!(ilaenv(2, "DSYTRF", "", 0, 0, 0, 0), 8);
    assert_eq!(ilaenv(2, "DHETRF", "", 0, 0, 0, 0), 2);
    assert_eq!(ilaenv(2, "DSYTRD", "", 0, 0, 0, 0), 2);
    assert_eq!(ilaenv(2, "DORGQR", "", 0, 0, 0, 0), 2);
    assert_eq!(ilaenv(2, "DORGXX", "", 0, 0, 0, 0), 2);
    assert_eq!(ilaenv(2, "DORMQR", "", 0, 0, 0, 0), 2);
    assert_eq!(ilaenv(2, "DORMXX", "", 0, 0, 0, 0), 1);
    assert_eq!(ilaenv(2, "DORXQR", "", 0, 0, 0, 0), 1);
    assert_eq!(ilaenv(2, "ZUNMLQ", "", 0, 0, 0, 0), 2);
    assert_eq!(ilaenv(3, "DSYTRD", "", 0, 0, 0, 0), 32);
    assert_eq!(ilaenv(3, "ZHETRD", "", 0, 0, 0, 0), 32);
    assert_eq!(ilaenv(3, "DORGQR", "", 0, 0, 0, 0), 128);
    assert_eq!(ilaenv(3, "DORGXX", "", 0, 0, 0, 0), 0);
    assert_eq!(ilaenv(3, "DORMQR", "", 0, 0, 0, 0), 0);
    assert_eq!(ilaenv(3, "ZUNGBR", "", 0, 0, 0, 0), 128);
    assert_eq!(ilaenv(3, "DPOTRF", "", 0, 0, 0, 0), 0);
}

#[test]
fn names_of_no_arithmetic_give_one() {
    for ispec in 1..=3 {
        assert_eq!(ilaenv(ispec, "XGEQRF", "", 0, 0, 0, 0), 1);
        assert_eq!(ilaenv(ispec, "", "", 0, 0, 0, 0), 1);
        assert_eq!(ilaenv(ispec, "1", "", 0, 0, 0, 0), 1);
    }
}

#[test]
fn names_are_folded_when_they_start_in_lower_case() {
    assert_eq!(ilaenv(1, "dgeqrf", "", 0, 0, 0, 0), 32);
    assert_eq!(ilaenv(1, "dGeQrF", "", 0, 0, 0, 0), 32);
    assert_eq!(ilaenv(1, "Dgeqrf", "", 0, 0, 0, 0), 1);
    assert_eq!(ilaenv(1, "dge", "", 0, 0, 0, 0), 1);
    let key = read_key("dsytrf_rk_2");
    assert_eq!((key.c0, key.c1, key.c2, key.c3, key.c4, key.c5), ('D', 'S', 'Y', 'T', 'R', 'F'));
    assert!(key.twostage);
    let short = read_key("ab");
    assert_eq!((short.c0, short.c1, short.c2), ('A', 'B', '\0'));
    assert!(!short.twostage);
}

#[test]
fn the_checked_query_objects_to_what_it_cannot_answer() {
    for ispec in [-1, 0, 18, 100, i32::MIN, i32::MAX] {
        assert_eq!(
            ilaenv_checked(ispec, "DGEQRF", "", 1, 2, 3, 4),
            Err(LapackError::InvalidIspecValue { value: ispec })
        );
        assert_eq!(
            ilaenv_checked(ispec, "", "", 1, 2, 3, 4),
            Err(LapackError::InvalidIspecValue { value: ispec })
        );
    }
    for ispec in [1, 2, 3, 16] {
        assert_eq!(
            ilaenv_checked(ispec, "", "", 1, 2, 3, 4),
            Err(LapackError::CannotBeEmpty { param: "name" })
        );
    }
    for ispec in 1..=17 {
        assert_eq!(
            ilaenv_checked(ispec, "DGEQRF", "", 1, 2, 3, 4),
            Ok(ilaenv(ispec, "DGEQRF", "", 1, 2, 3, 4))
        );
        if ![1, 2, 3, 16].contains(&ispec) {
            assert_eq!(ilaenv_checked(ispec, "", "", 1, 2, 3, 4), Ok(ilaenv(ispec, "", "", 1, 2, 3, 4)));
        }
    }
    assert_eq!(ilaenv_checked(1, "DGEQRF", "", 0, 0, 0, 0), Ok(32));
    assert_eq!(
        ilaenv_checked(0, "DGEQRF", "", 0, 0, 0, 0).unwrap_err().message(),
        "Invalid ISPEC value: 0"
    );
    assert_eq!(
        ilaenv_checked(2, "", "", 0, 0, 0, 0).unwrap_err().message(),
        "Parameter cannot be empty: name"
    );
}
