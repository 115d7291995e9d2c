use planarwm::text::{
    chars_of, find_ws, is_whitespace, lower_range, parse_i32, range_eq, range_starts_with,
    skip_ws, split_words, sub_chars, trim_range,
};

fn cs(s: &str) -> Vec<char> {
    s.chars().collect()
}

#[test]
fn whitespace_classes() {
    for c in [' ', '\t', '\n', '\r', '\u{b}', '\u{c}', '\u{85}', '\u{a0}', '\u{2003}', '\u{3000}'] {
        assert!(is_whitespace(c), "{:?}", c);
    }
    for c in ['a', '0', '_', '\u{200b}'] {
        assert!(!is_whitespace(c), "{:?}", c);
    }
}

#[test]
fn char_ranges() {
    let s = cs("  hello world  ");
    assert_eq!(chars_of("héllo"), cs("héllo"));
    assert_eq!(sub_chars(&s, 2, 7), cs("hello"));
    assert!(range_eq(&s, 2, 7, "hello"));
    assert!(!range_eq(&s, 2, 8, "hello"));
    assert!(range_starts_with(&s, 2, 15, "hell"));
    assert!(!range_starts_with(&s, 2, 4, "hell"));
    assert_eq!(skip_ws(&s, 0, s.len()), 2);
    assert_eq!(trim_range(&s, 0, s.len()), (2, 13));
    assert_eq!(find_ws(&s, 2, s.len()), 7);
    assert_eq!(find_ws(&s, 8, 13), 13);
}

#[test]
fn words_and_case() {
    let s = cs(" spawn  foot\t-e htop ");
    let ws = split_words(&s, 0, s.len());
    assert_eq!(ws, vec![cs("spawn"), cs("foot"), cs("-e"), cs("htop")]);
    let e = cs("");
    assert!(split_words(&e, 0, 0).is_empty());
    let m = cs("SuPeR+Ä");
    assert_eq!(lower_range(&m, 0, m.len()), cs("super+Ä"));
}

#[test]
fn integers() {
    assert_eq!(parse_i32(&cs("42")), Some(42));
    assert_eq!(parse_i32(&cs("-17")), Some(-17));
    assert_eq!(parse_i32(&cs("+5")), Some(5));
    assert_eq!(parse_i32(&cs("2147483647")), Some(i32::MAX));
    assert_eq!(parse_i32(&cs("-2147483648")), Some(i32::MIN));
    assert_eq!(parse_i32(&cs("2147483648")), None);
    assert_eq!(parse_i32(&cs("")), None);
    assert_eq!(parse_i32(&cs("-")), None);
    assert_eq!(parse_i32(&cs("1x")), None);
}
