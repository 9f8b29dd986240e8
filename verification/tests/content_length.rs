use upload_gateway::content_length::{parse_content_length, parse_u64_decimal, ContentLengthError};

#[test]
fn missing_header_is_rejected() {
    assert_eq!(parse_content_length(None), Err(ContentLengthError::Missing));
}

#[test]
fn plain_decimal_value_is_accepted_exactly() {
    let v = String::from("1234");
    assert_eq!(parse_content_length(Some(&v)), Ok(1234));
    let zero = String::from("0");
    assert_eq!(parse_content_length(Some(&zero)), Ok(0));
}

#[test]
fn leading_plus_sign_is_accepted() {
    let v = String::from("+42");
    assert_eq!(parse_content_length(Some(&v)), Ok(42));
}

#[test]
fn non_numeric_value_is_rejected() {
    for bad in ["", "+", "abc", "12a", " 12", "12 ", "-1", "1.5", "0x10"] {
        let v = String::from(bad);
        assert_eq!(
            parse_content_length(Some(&v)),
            Err(ContentLengthError::NotANumber),
            "value {:?} should have been rejected",
            bad
        );
    }
}

#[test]
fn largest_size_is_accepted_and_one_more_is_not() {
    assert_eq!(parse_u64_decimal("18446744073709551615"), Some(u64::MAX));
    assert_eq!(parse_u64_decimal("18446744073709551616"), None);
    assert_eq!(parse_u64_decimal("99999999999999999999999999"), None);
}

#[test]
fn leading_zeroes_do_not_change_the_value() {
    assert_eq!(parse_u64_decimal("007"), Some(7));
    assert_eq!(parse_u64_decimal("+000"), Some(0));
}
