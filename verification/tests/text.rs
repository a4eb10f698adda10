use osmium::text::{
    i64_to_decimal, match_keys, parse_i64, split_char, stable_order_by_text, text_less, trim,
    to_ascii_lowercase, to_ascii_uppercase,
};
use osmium::timestamp::{elapsed_between, minutes_between, parse_rfc3339, UtcTimestamp};

#[test]
fn trimming_and_case() {
    assert_eq!(trim("\t a b \n"), "a b");
    assert_eq!(trim("   "), "");
    assert_eq!(to_ascii_uppercase("zdc-é"), "ZDC-é");
    assert_eq!(to_ascii_lowercase("LIVE"), "live");
}

#[test]
fn integers() {
    assert_eq!(parse_i64("+42"), Some(42));
    assert_eq!(parse_i64("-9223372036854775808"), Some(i64::MIN));
    assert_eq!(parse_i64("9223372036854775808"), None);
    assert_eq!(parse_i64(" 1"), None);
    assert_eq!(parse_i64("-"), None);
    assert_eq!(i64_to_decimal(-120), "-120");
    assert_eq!(i64_to_decimal(i64::MIN), "-9223372036854775808");
}

#[test]
fn splitting() {
    assert_eq!(split_char("a,,b", ','), vec!["a".to_string(), "".to_string(), "b".to_string()]);
    assert_eq!(split_char("", ','), vec!["".to_string()]);
}

#[test]
fn text_order_and_stable_sort() {
    assert!(text_less("1000", "900"));
    assert!(text_less("ab", "abc"));
    assert!(!text_less("abc", "abc"));
    let keys = vec!["b".to_string(), "a".to_string(), "b".to_string(), "a".to_string()];
    assert_eq!(stable_order_by_text(&keys), vec![1, 3, 0, 2]);
}

#[test]
fn key_matching_like_a_map() {
    let wanted = vec!["x".to_string(), "y".to_string(), "x".to_string()];
    let avail = vec!["x".to_string(), "z".to_string(), "x".to_string()];
    let m = match_keys(&wanted, &avail);
    assert_eq!(m.matches, vec![Some(2), None, None]);
    assert_eq!(m.leftover, vec![1]);
}

#[test]
fn timestamps() {
    let t = parse_rfc3339("2026-01-31T23:00:00+01:00").unwrap();
    assert_eq!(t.secs(), 1769896800);
    assert!(parse_rfc3339("2026-01-31").is_none());
    let a = UtcTimestamp::new(0, 0).unwrap();
    let b = UtcTimestamp::new(-150, 0).unwrap();
    assert_eq!(minutes_between(&a, &UtcTimestamp::new(150, 0).unwrap()), 2);
    assert_eq!(minutes_between(&a, &b), -2);
}

#[test]
fn spans_round_toward_zero() {
    let t = |s: i64, n: u32| UtcTimestamp::new(s, n).unwrap();
    assert_eq!(elapsed_between(&t(10, 500_000_000), &t(8, 700_000_000)), (-1, -800_000_000));
    assert_eq!(elapsed_between(&t(8, 700_000_000), &t(10, 500_000_000)), (1, 800_000_000));
    assert_eq!(elapsed_between(&t(8, 0), &t(8, 0)), (0, 0));
    assert_eq!(minutes_between(&t(0, 0), &t(-119, 0)), -1);
}

#[test]
fn representable_instants_follow_chrono_calendar() {
    let first = -96_465_292i64 * 86_400;
    let last = 95_026_236i64 * 86_400 + 86_399;
    assert!(UtcTimestamp::new(first, 0).is_some());
    assert!(UtcTimestamp::new(first - 1, 0).is_none());
    assert!(UtcTimestamp::new(last, 999_999_999).is_some());
    assert!(UtcTimestamp::new(last + 1, 0).is_none());
    assert!(UtcTimestamp::new(59, 1_500_000_000).is_some());
    assert!(UtcTimestamp::new(58, 1_500_000_000).is_none());
    assert!(UtcTimestamp::new(59, 2_000_000_000).is_none());
    assert!(UtcTimestamp::new(1_767_225_600, 0).is_some());
}
