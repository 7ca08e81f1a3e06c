use starlark_bench::checksum::{extract_i64, parse_i64};

#[test]
fn absent_value_coerces_to_zero() {
    assert_eq!(extract_i64(true, None, b""), 0);
    assert_eq!(extract_i64(true, Some(9), b"9"), 0);
}

#[test]
fn native_integer_converts_directly() {
    assert_eq!(extract_i64(false, Some(7), b"ignored"), 7);
    assert_eq!(extract_i64(false, Some(-3), b""), -3);
    assert_eq!(extract_i64(false, Some(i32::MAX), b""), 2147483647);
    assert_eq!(extract_i64(false, Some(i32::MIN), b""), -2147483648);
}

#[test]
fn textual_fallback_parses_decimal() {
    assert_eq!(extract_i64(false, None, b"123"), 123);
    assert_eq!(extract_i64(false, None, b"-45"), -45);
    assert_eq!(extract_i64(false, None, b"+17"), 17);
    assert_eq!(extract_i64(false, None, b"1099511627776"), 1_099_511_627_776);
}

#[test]
fn textual_fallback_defaults_to_zero() {
    assert_eq!(extract_i64(false, None, b"junk"), 0);
    assert_eq!(extract_i64(false, None, b""), 0);
    assert_eq!(extract_i64(false, None, b"12x"), 0);
    assert_eq!(extract_i64(false, None, b"1.5"), 0);
    assert_eq!(extract_i64(false, None, b"99999999999999999999999999"), 0);
    assert_eq!(extract_i64(false, None, b"\"123\""), 0);
}

#[test]
fn parse_i64_bounds() {
    assert_eq!(parse_i64(b"9223372036854775807"), Some(i64::MAX));
    assert_eq!(parse_i64(b"-9223372036854775808"), Some(i64::MIN));
    assert_eq!(parse_i64(b"9223372036854775808"), None);
    assert_eq!(parse_i64(b"-9223372036854775809"), None);
    assert_eq!(parse_i64(b"0"), Some(0));
    assert_eq!(parse_i64(b"007"), Some(7));
    assert_eq!(parse_i64(b"-"), None);
    assert_eq!(parse_i64(b"+"), None);
}
