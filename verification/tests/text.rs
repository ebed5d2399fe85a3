use bender::lists::{order_newest_first, sort_unique, text_precedes};
use bender::text::{
    bullets, contains, decimal, decimal_of, is_blank, is_plain, is_white, join, lines, lower, parse_number, same_ignoring_case,
    signed_decimal, split_once, starts_with, strip_prefix, take_chars, trim, trim_end_matches, trim_start_matches, truth_text,
    words,
};
use bender::text_map::TextMap;

#[test]
fn white_space_is_that_of_unicode() {
    for n in 0..=0x10FFFFu32 {
        if let Some(c) = char::from_u32(n) {
            assert_eq!(is_white(c), c.is_whitespace(), "{n:x}");
        }
    }
}

#[test]
fn texts_are_trimmed_at_both_ends() {
    for text in ["", " ", " a ", "\u{3000}a b\u{85}", "\na\t"] {
        assert_eq!(trim(text), text.trim());
        assert_eq!(is_blank(text), text.trim().is_empty());
    }
    assert_eq!(trim_end_matches("a//", "/"), "a");
    assert_eq!(trim_start_matches("././a", "./"), "a");
    assert_eq!(strip_prefix("a/b", "a/").as_deref(), Some("b"));
    assert_eq!(strip_prefix("b", "a/"), None);
}

#[test]
fn words_and_lines_are_those_of_std() {
    for text in ["", "a", " a  b ", "a\r\nb\n\nc", "\n", "a\u{a0}b\rc", "x\r\n"] {
        assert_eq!(words(text), text.split_whitespace().collect::<Vec<_>>());
        assert_eq!(lines(text), text.lines().collect::<Vec<_>>());
    }
}

#[test]
fn parts_are_found() {
    assert!(contains("hello", "ell"));
    assert!(contains("hello", ""));
    assert!(!contains("hello", "elo"));
    assert!(starts_with("hello", "he"));
    assert!(!starts_with("h", "he"));
    assert_eq!(split_once("a=b=c", '='), Some(("a".into(), "b=c".into())));
    assert_eq!(split_once("a", '='), None);
    assert_eq!(take_chars("héllo", 2), "hé");
    assert_eq!(lower("AbÉ"), "AbÉ".to_ascii_lowercase());
    assert!(same_ignoring_case("ApproVe", "APPROVE"));
    assert!(is_plain("a-1", "-"));
    assert!(!is_plain("a b", "-"));
}

#[test]
fn numbers_are_written_and_read() {
    for n in [0u64, 9, 10, 1700000000123, u64::MAX] {
        assert_eq!(decimal(n), n.to_string());
        assert_eq!(parse_number(&n.to_string()), Some(n));
    }
    assert_eq!(decimal_of(u128::MAX), u128::MAX.to_string());
    for n in [0i32, -1, i32::MIN, i32::MAX] {
        assert_eq!(signed_decimal(n), n.to_string());
    }
    for text in ["", "+", "-1", "18446744073709551616", "1x", "+7"] {
        assert_eq!(parse_number(text), text.parse::<u64>().ok());
    }
    assert_eq!(truth_text(true), "true");
}

#[test]
fn lists_are_joined() {
    let list = vec!["a".to_string(), "b".to_string()];
    assert_eq!(join(&list, ", "), "a, b");
    assert_eq!(join(&vec![], ", "), "");
    assert_eq!(bullets(&list), "- a\n- b");
}

#[test]
fn lists_are_sorted_once() {
    let list: Vec<String> = ["b", "a", "é", "a", "z", ""].iter().map(|s| s.to_string()).collect();
    let mut expected = list.clone();
    expected.sort();
    expected.dedup();
    assert_eq!(sort_unique(&list), expected);
    assert_eq!(text_precedes("a", "ab"), "a" < "ab");
    assert_eq!(text_precedes("é", "z"), "é" < "z");
    assert_eq!(order_newest_first(&vec![5, 9, 5, 7]), vec![1, 3, 0, 2]);
}

#[test]
fn maps_keep_one_value_for_each_key() {
    let mut map: TextMap<u32> = TextMap::new();
    assert!(map.is_empty());
    map.insert("b".into(), 1);
    map.insert("a".into(), 2);
    map.insert("b".into(), 3);
    assert_eq!(map.get("b"), Some(&3));
    assert_eq!(map.get("c"), None);
    assert_eq!(map.keys(), vec!["a", "b"]);
    assert_eq!(map.remove("a"), Some(2));
    assert!(!map.contains_key("a"));
    assert!(map.contains_key("b"));
}

#[test]
fn stamps_are_the_lower_bits_of_the_milliseconds() {
    assert_eq!(bender::clock::stamp(Some(1_700_000_000_123)), 1_700_000_000_123);
    assert_eq!(bender::clock::stamp(Some((1u128 << 64) + 7)), 7);
    assert_eq!(bender::clock::stamp(None), 0);
    assert!(bender::clock::now() > 0);
}
