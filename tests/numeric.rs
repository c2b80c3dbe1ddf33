use crawler::numeric::{parse_i32, parse_usize, remove_commas};

#[test]
fn parses_signed_numerals() {
    assert_eq!(parse_i32("42"), Some(42));
    assert_eq!(parse_i32("-17"), Some(-17));
    assert_eq!(parse_i32("+8"), Some(8));
    assert_eq!(parse_i32("-0"), Some(0));
    assert_eq!(parse_i32("2147483647"), Some(i32::MAX));
    assert_eq!(parse_i32("-2147483648"), Some(i32::MIN));
}

#[test]
fn refuses_bad_signed_numerals() {
    assert_eq!(parse_i32(""), None);
    assert_eq!(parse_i32("-"), None);
    assert_eq!(parse_i32("+"), None);
    assert_eq!(parse_i32("12a"), None);
    assert_eq!(parse_i32(" 1"), None);
    assert_eq!(parse_i32("2147483648"), None);
    assert_eq!(parse_i32("-2147483649"), None);
    assert_eq!(parse_i32("99999999999999999999999"), None);
}

#[test]
fn parses_unsigned_numerals() {
    assert_eq!(parse_usize("6"), Some(6));
    assert_eq!(parse_usize("+6"), Some(6));
    assert_eq!(parse_usize("-6"), None);
    assert_eq!(parse_usize(""), None);
    assert_eq!(parse_usize("18446744073709551615"), Some(usize::MAX));
    assert_eq!(parse_usize("18446744073709551616"), None);
}

#[test]
fn drops_thousands_separators() {
    assert_eq!(remove_commas("1,234,567"), "1234567");
    assert_eq!(remove_commas(",,"), "");
    assert_eq!(remove_commas("-9"), "-9");
}
