use rust_http_server::text::{
    chars_of, decimal_text, index_of, index_of_separator, is_whitespace, parse_decimal,
    skip_token, skip_whitespace, str_eq, trim,
};
use rust_http_server::text_map::TextMap;

#[test]
fn whitespace_is_what_the_standard_library_says() {
    let mut code: u32 = 0;
    while code <= 0x3100 {
        if let Some(c) = char::from_u32(code) {
            assert_eq!(is_whitespace(c), c.is_whitespace(), "U+{:04X}", code);
        }
        code += 1;
    }
    assert!(!is_whitespace('\u{feff}'));
    assert!(!is_whitespace('\u{200b}'));
}

#[test]
fn trim_agrees_with_the_standard_library() {
    for text in ["", " ", "a", "  a b  ", "\r\n", "\u{a0}x\u{3000}", "\t\tkey: value\r\n", "x  "] {
        assert_eq!(trim(text), text.trim());
    }
}

#[test]
fn decimal_text_of_numbers() {
    assert_eq!(decimal_text(0), "0");
    assert_eq!(decimal_text(7), "7");
    assert_eq!(decimal_text(10), "10");
    assert_eq!(decimal_text(1234567890), "1234567890");
    assert_eq!(decimal_text(usize::MAX), usize::MAX.to_string());
}

#[test]
fn parse_decimal_reads_unsigned_numbers() {
    assert_eq!(parse_decimal("0"), Some(0));
    assert_eq!(parse_decimal("007"), Some(7));
    assert_eq!(parse_decimal("+42"), Some(42));
    assert_eq!(parse_decimal(&usize::MAX.to_string()), Some(usize::MAX));
    assert_eq!(parse_decimal(""), None);
    assert_eq!(parse_decimal("+"), None);
    assert_eq!(parse_decimal("++1"), None);
    assert_eq!(parse_decimal("-1"), None);
    assert_eq!(parse_decimal(" 1"), None);
    assert_eq!(parse_decimal("1 "), None);
    assert_eq!(parse_decimal("1_000"), None);
    assert_eq!(parse_decimal("\u{661}"), None);
    assert_eq!(parse_decimal(&format!("{}0", usize::MAX)), None);
    assert_eq!(parse_decimal("18446744073709551616"), "18446744073709551616".parse().ok());
}

#[test]
fn parse_decimal_reads_back_decimal_text() {
    for n in [0, 1, 9, 10, 99, 100, 65535, usize::MAX - 1, usize::MAX] {
        assert_eq!(parse_decimal(&decimal_text(n)), Some(n));
    }
}

#[test]
fn scanning_finds_words_and_characters() {
    let chars = chars_of("  GET /x\r\n");
    assert_eq!(chars.len(), 10);
    assert_eq!(skip_whitespace(&chars, 0), 2);
    assert_eq!(skip_token(&chars, 2), 5);
    assert_eq!(skip_whitespace(&chars, 5), 6);
    assert_eq!(skip_token(&chars, 6), 8);
    assert_eq!(skip_whitespace(&chars, 8), 10);
    assert_eq!(index_of(&chars, '/', 0), 6);
    assert_eq!(index_of(&chars, '/', 7), 10);
    assert_eq!(index_of(&chars, '?', 0), 10);
}

#[test]
fn separator_is_a_colon_then_a_space() {
    assert_eq!(index_of_separator(&chars_of("Host: a")), 4);
    assert_eq!(index_of_separator(&chars_of("a:b: c")), 3);
    assert_eq!(index_of_separator(&chars_of("a:b")), 3);
    assert_eq!(index_of_separator(&chars_of("a:")), 2);
    assert_eq!(index_of_separator(&chars_of("")), 0);
}

#[test]
fn chars_of_counts_characters_not_bytes() {
    assert_eq!(chars_of("h\u{e9}llo \u{1f600}"), vec!['h', '\u{e9}', 'l', 'l', 'o', ' ', '\u{1f600}']);
}

#[test]
fn str_eq_compares_every_character() {
    assert!(str_eq("", ""));
    assert!(str_eq("GET", "GET"));
    assert!(!str_eq("GET", "GETS"));
    assert!(!str_eq("GET", "Get"));
    assert!(!str_eq("a", ""));
}

#[test]
fn text_map_keeps_the_last_value_of_a_key() {
    let mut map = TextMap::new();
    assert!(map.is_empty());
    assert_eq!(map.len(), 0);
    map.insert("a".to_string(), "1".to_string());
    map.insert("b".to_string(), "2".to_string());
    map.insert("a".to_string(), "3".to_string());
    map.insert("A".to_string(), "4".to_string());
    assert!(!map.is_empty());
    assert_eq!(map.len(), 3);
    assert_eq!(map.get("a").unwrap(), "3");
    assert_eq!(map.get("b").unwrap(), "2");
    assert_eq!(map.get("A").unwrap(), "4");
    assert!(map.get("c").is_none());
    assert!(map.contains_key("b"));
    assert!(!map.contains_key("B"));
    let (key, value) = map.entry(0);
    assert_eq!(key, "a");
    assert_eq!(value, "3");
    let (key, value) = map.entry(2);
    assert_eq!(key, "A");
    assert_eq!(value, "4");
}
