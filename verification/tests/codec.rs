use card_platform::codec::{find_char_from, i64_to_string, parse_u64_range, str_eq, u64_to_string};

#[test]
fn decimal_rendering() {
    assert_eq!(u64_to_string(0), "0");
    assert_eq!(u64_to_string(7), "7");
    assert_eq!(u64_to_string(12_345), "12345");
    assert_eq!(u64_to_string(u64::MAX), "18446744073709551615");

    assert_eq!(i64_to_string(0), "0");
    assert_eq!(i64_to_string(-1), "-1");
    assert_eq!(i64_to_string(-12_345), "-12345");
    assert_eq!(i64_to_string(i64::MIN), "-9223372036854775808");
    assert_eq!(i64_to_string(i64::MAX), "9223372036854775807");
}

#[test]
fn decimal_parsing() {
    let s = "12345";
    assert_eq!(parse_u64_range(s, 0, 5), Some(12_345));
    assert_eq!(parse_u64_range(s, 1, 4), Some(234));
    assert_eq!(parse_u64_range(s, 2, 2), None);

    assert_eq!(parse_u64_range("18446744073709551615", 0, 20), Some(u64::MAX));
    // One past the largest representable value overflows.
    assert_eq!(parse_u64_range("18446744073709551616", 0, 20), None);
    assert_eq!(parse_u64_range("12x45", 0, 5), None);
    assert_eq!(parse_u64_range("-1", 0, 2), None);
}

#[test]
fn character_search_and_comparison() {
    assert_eq!(find_char_from("a.b.c", 0, '.'), Some(1));
    assert_eq!(find_char_from("a.b.c", 2, '.'), Some(3));
    assert_eq!(find_char_from("a.b.c", 4, '.'), None);
    assert_eq!(find_char_from("", 0, '.'), None);

    assert!(str_eq("", ""));
    assert!(str_eq("héllo", "héllo"));
    assert!(!str_eq("héllo", "hello"));
    assert!(!str_eq("abc", "abcd"));
}
