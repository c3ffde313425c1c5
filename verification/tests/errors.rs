use hessenberg_qr::errors::LapackError;
use hessenberg_qr::xerbla::xerbla_message;

#[test]
fn messages_name_the_fault() {
    assert_eq!(
        LapackError::InvalidIspecValue { value: 18 }.message(),
        format!("{}", "Invalid ISPEC value: 18")
    );
    assert_eq!(LapackError::InvalidIspecValue { value: 0 }.message(), "Invalid ISPEC value: 0");
    assert_eq!(LapackError::InvalidIspecValue { value: -1 }.message(), "Invalid ISPEC value: -1");
    assert_eq!(LapackError::InvalidIspecValue { value: 7 }.message(), "Invalid ISPEC value: 7");
    assert_eq!(LapackError::InvalidIspecValue { value: 10 }.message(), "Invalid ISPEC value: 10");
    assert_eq!(
        LapackError::InvalidIspecValue { value: i32::MAX }.message(),
        "Invalid ISPEC value: 2147483647"
    );
    assert_eq!(
        LapackError::InvalidIspecValue { value: i32::MIN }.message(),
        "Invalid ISPEC value: -2147483648"
    );
    assert_eq!(
        LapackError::CannotBeEmpty { param: "name" }.message(),
        "Parameter cannot be empty: name"
    );
    assert_eq!(LapackError::CannotBeEmpty { param: "" }.message(), "Parameter cannot be empty: ");
}

#[test]
fn messages_agree_with_the_formatted_numbers() {
    for value in [-1000001, -999, -100, -99, -11, -10, -9, 1, 9, 11, 99, 100, 101, 909, 123456789] {
        assert_eq!(
            LapackError::InvalidIspecValue { value }.message(),
            format!("Invalid ISPEC value: {value}")
        );
    }
}

#[test]
fn errors_compare_and_copy() {
    let a = LapackError::InvalidIspecValue { value: 3 };
    let b = a.clone();
    assert_eq!(a, b);
    assert_ne!(a, LapackError::InvalidIspecValue { value: 4 });
    assert_ne!(a, LapackError::CannotBeEmpty { param: "name" });
    assert!(a < LapackError::InvalidIspecValue { value: 4 });
    assert!(a < LapackError::CannotBeEmpty { param: "" });
    assert_eq!(format!("{a:?}"), "InvalidIspecValue { value: 3 }");
}

#[test]
fn the_report_names_routine_and_argument() {
    assert_eq!(
        xerbla_message("DGEMM ", 13),
        "** On entry to DGEMM  parameter number 13 had an illegal value"
    );
    assert_eq!(
        xerbla_message("DTRMM ", 1),
        "** On entry to DTRMM  parameter number 1 had an illegal value"
    );
    assert_eq!(xerbla_message("", -2), "** On entry to  parameter number -2 had an illegal value");
}
