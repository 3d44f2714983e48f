use aymond::decimal::{format_signed, format_unsigned, parse_magnitude};

#[test]
fn formats_signed_integers() {
    assert_eq!(format_signed(0), "0");
    assert_eq!(format_signed(518), "518");
    assert_eq!(format_signed(-42), "-42");
    assert_eq!(format_signed(i128::MIN), i128::MIN.to_string());
    assert_eq!(format_signed(i128::MAX), i128::MAX.to_string());
}

#[test]
fn formats_unsigned_integers() {
    assert_eq!(format_unsigned(0), "0");
    assert_eq!(format_unsigned(1100000), "1100000");
    assert_eq!(format_unsigned(u128::MAX), u128::MAX.to_string());
}

#[test]
fn parses_sign_and_magnitude() {
    assert_eq!(parse_magnitude("1964"), Some((false, 1964)));
    assert_eq!(parse_magnitude("-7"), Some((true, 7)));
    assert_eq!(parse_magnitude("+7"), Some((false, 7)));
    assert_eq!(parse_magnitude("007"), Some((false, 7)));
    assert_eq!(parse_magnitude(""), None);
    assert_eq!(parse_magnitude("-"), None);
    assert_eq!(parse_magnitude("+"), None);
    assert_eq!(parse_magnitude("12a"), None);
    assert_eq!(parse_magnitude(" 12"), None);
    assert_eq!(parse_magnitude("340282366920938463463374607431768211455"), Some((false, u128::MAX)));
    assert_eq!(parse_magnitude("340282366920938463463374607431768211456"), None);
}
