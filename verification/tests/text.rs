use cf_zt_cleaner::api::rate_limit_wait;
use cf_zt_cleaner::text::{chars_equal, chars_less, chars_of, parse_i64_chars, parse_u64_chars, push_decimal};

fn decimal(n: u64) -> String {
    let mut s = String::new();
    push_decimal(&mut s, n);
    s
}

fn i64_of(s: &str) -> Option<i64> {
    let c = chars_of(s);
    parse_i64_chars(&c, c.len())
}

#[test]
fn decimal_digits() {
    assert_eq!(decimal(0), "0");
    assert_eq!(decimal(7), "7");
    assert_eq!(decimal(1000), "1000");
    assert_eq!(decimal(u64::MAX), u64::MAX.to_string());
}

#[test]
fn decimal_reads_back() {
    for n in [0u64, 9, 10, 429, 1_000_000, u64::MAX] {
        let text = decimal(n);
        let c = chars_of(&text);
        assert_eq!(parse_u64_chars(&c, c.len()), Some(n));
        assert_eq!(rate_limit_wait(429, Some(&text)), Some(Some(n)));
    }
    assert_eq!(i64_of(&decimal(i64::MAX as u64)), Some(i64::MAX));
}

#[test]
fn signed_parsing_matches_std() {
    for s in ["0", "-0", "+5", "-5", "42", "9223372036854775807", "-9223372036854775808"] {
        assert_eq!(i64_of(s), s.parse::<i64>().ok(), "{s}");
    }
    for s in ["", "-", "+", "9223372036854775808", "-9223372036854775809", "1_0", " 1", "1 ", "--1", "+-1", "x"] {
        assert_eq!(i64_of(s), None, "{s}");
        assert_eq!(s.parse::<i64>().ok(), None, "{s}");
    }
    let c = chars_of("12d");
    assert_eq!(parse_i64_chars(&c, 2), Some(12));
}

#[test]
fn character_order() {
    let a = chars_of("abc");
    let b = chars_of("abd");
    let p = chars_of("ab");
    assert!(chars_less(&a, &b));
    assert!(!chars_less(&b, &a));
    assert!(chars_less(&p, &a));
    assert!(!chars_less(&a, &p));
    assert!(!chars_less(&a, &a));
    assert!(chars_equal(&a, &chars_of("abc")));
    assert!(!chars_equal(&a, &p));
    assert_eq!(chars_of("héllo").len(), 5);
}
