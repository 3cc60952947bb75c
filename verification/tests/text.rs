//! Text helpers, held against what the standard library prints.
use rgsp_cast::text::{
    join_path, push_decimal, push_duration, push_hex_byte, push_signed, same_text, starts_with,
};

#[test]
fn numbers_read_as_usual() {
    for n in [0u64, 7, 10, 99, 100, 12345, u64::MAX] {
        let mut s = String::from("n=");
        push_decimal(&mut s, n);
        assert_eq!(s, format!("n={n}"));
    }
    for n in [0i64, -1, 5, -40, i64::MIN, i64::MAX] {
        let mut s = String::new();
        push_signed(&mut s, n);
        assert_eq!(s, format!("{n}"));
    }
    for b in [0u8, 9, 10, 0x7f, 0xf0, 0xff] {
        let mut s = String::new();
        push_hex_byte(&mut s, b);
        assert_eq!(s, format!("{b:02x}"));
    }
}

#[test]
fn durations_read_as_usual() {
    for ns in [
        0u64, 1, 999, 1_000, 1_500, 999_999, 1_000_000, 1_000_001, 500_000_000, 300_000_000,
        5_000_000_000, 1_234_567_890, 90_000_000_000, 10_000_000_100,
    ] {
        let mut s = String::new();
        push_duration(&mut s, ns);
        assert_eq!(s, format!("{:?}", std::time::Duration::from_nanos(ns)));
    }
}

#[test]
fn paths_get_one_slash() {
    assert_eq!(join_path("/a", "b"), "/a/b");
    assert_eq!(join_path("/a/", "b"), "/a/b");
    assert_eq!(join_path("", "b"), "b");
}

#[test]
fn texts_are_told_apart() {
    assert!(same_text("é", "é") && !same_text("a", "ab") && !same_text("b", "a"));
    assert!(starts_with("abc", "") && starts_with("abc", "ab") && !starts_with("a", "ab"));
    assert!(!starts_with("xbc", "ab"));
}
