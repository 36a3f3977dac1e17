use laoflchdb::text::{
    ascii_lower_chars, chars_eq, find_chars, i64_to_decimal, join_chars, parse_i32, parse_i64,
    parse_u64, split_chars, starts_with, str_chars, trim_chars, u64_to_decimal,
    u64_to_decimal_padded,
};

fn chars(s: &str) -> Vec<char> {
    s.chars().collect()
}

#[test]
fn decimal_text_roundtrip() {
    assert_eq!(u64_to_decimal(0), chars("0"));
    assert_eq!(u64_to_decimal(1234567890), chars("1234567890"));
    assert_eq!(parse_u64(&u64_to_decimal(u64::MAX)), Some(u64::MAX));
    assert_eq!(u64_to_decimal_padded(42, 5), chars("00042"));
    assert_eq!(u64_to_decimal_padded(123456, 3), chars("123456"));
    assert_eq!(i64_to_decimal(-42), chars("-42"));
    assert_eq!(i64_to_decimal(i64::MIN), chars("-9223372036854775808"));
}

#[test]
fn integer_parsing_follows_str_parse() {
    assert_eq!(parse_u64(&chars("18446744073709551616")), None);
    assert_eq!(parse_u64(&chars("")), None);
    assert_eq!(parse_u64(&chars("+7")), Some(7));
    assert_eq!(parse_u64(&chars("-7")), None);
    assert_eq!(parse_i32(&chars("-2147483648")), Some(i32::MIN));
    assert_eq!(parse_i32(&chars("2147483648")), None);
    assert_eq!(parse_i32(&chars(" 1")), None);
    assert_eq!(parse_i64(&chars("-9223372036854775808")), Some(i64::MIN));
    assert_eq!(parse_i64(&chars("12a")), None);
}

#[test]
fn find_split_join() {
    assert_eq!(find_chars(&chars("a, b, c"), &chars(", "), 0), Some(1));
    assert_eq!(find_chars(&chars("a, b, c"), &chars(", "), 2), Some(4));
    assert_eq!(find_chars(&chars("abc"), &chars("x"), 0), None);
    let parts = split_chars(&chars("a;b;;c"), &chars(";"));
    assert_eq!(parts, vec![chars("a"), chars("b"), chars(""), chars("c")]);
    assert_eq!(join_chars(&parts, &chars("-")), chars("a-b--c"));
    assert!(starts_with(&chars("prefix"), &chars("pre")));
    assert!(chars_eq(&str_chars("é"), &chars("é")));
}

#[test]
fn trim_and_lower() {
    assert_eq!(trim_chars(&chars("\u{3000} a b \n")), chars("a b"));
    assert_eq!(trim_chars(&chars("   ")), chars(""));
    assert_eq!(ascii_lower_chars(&chars("AbC-É")), chars("abc-É"));
}
