use lang_basics::parse::parse_i64;

#[test]
fn parse_i64_reads_plain_numbers() {
    assert_eq!(parse_i64(b"0"), Some(0));
    assert_eq!(parse_i64(b"42"), Some(42));
    assert_eq!(parse_i64(b"007"), Some(7));
}

#[test]
fn parse_i64_reads_signed_numbers() {
    assert_eq!(parse_i64(b"-7"), Some(-7));
    assert_eq!(parse_i64(b"+13"), Some(13));
    assert_eq!(parse_i64(b"-0"), Some(0));
}

#[test]
fn parse_i64_handles_range_limits() {
    assert_eq!(parse_i64(b"9223372036854775807"), Some(i64::MAX));
    assert_eq!(parse_i64(b"-9223372036854775808"), Some(i64::MIN));
    assert_eq!(parse_i64(b"9223372036854775808"), None);
    assert_eq!(parse_i64(b"-9223372036854775809"), None);
    assert_eq!(parse_i64(b"99999999999999999999999999"), None);
}

#[test]
fn parse_i64_rejects_malformed_text() {
    assert_eq!(parse_i64(b""), None);
    assert_eq!(parse_i64(b"-"), None);
    assert_eq!(parse_i64(b"+"), None);
    assert_eq!(parse_i64(b"12a"), None);
    assert_eq!(parse_i64(b"one"), None);
    assert_eq!(parse_i64(b" 1"), None);
    assert_eq!(parse_i64(b"1 "), None);
}
