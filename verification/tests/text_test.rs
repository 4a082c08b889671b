use vdesk::settings::{is_on, listen_port, text_or, LISTEN_PORT};
use vdesk::text::{
    chars_of, decimal_of, find_from, is_empty, parse_unsigned, part, replace, replace_first, same,
    split, starts_with, string_of, trim, trim_trailing,
};

fn text(v: &Vec<char>) -> String {
    string_of(v)
}

#[test]
fn chars_and_back() {
    let v = chars_of("a\u{1F600}\u{AC00}");
    assert_eq!(v.len(), 3);
    assert_eq!(text(&v), "a\u{1F600}\u{AC00}");
    assert!(is_empty(&String::new()));
    assert!(!is_empty(&"x".to_string()));
}

#[test]
fn part_of_a_text() {
    let v = chars_of("viewer");
    assert_eq!(text(&part(&v, 1, 4)), "iew");
    assert_eq!(text(&part(&v, 6, 6)), "");
}

#[test]
fn same_text() {
    assert!(same(&chars_of("abc"), "abc"));
    assert!(!same(&chars_of("abc"), "abd"));
    assert!(!same(&chars_of("abc"), "abcd"));
}

#[test]
fn trimming_takes_all_white_space() {
    assert_eq!(text(&trim(&chars_of(" \t\r\n box1 \u{3000}"))), "box1");
    assert_eq!(text(&trim(&chars_of("a b"))), "a b");
    assert_eq!(text(&trim(&chars_of("\u{2003}\u{A0}"))), "");
    assert_eq!(text(&trim(&chars_of("\u{200B}x"))), "\u{200B}x");
}

#[test]
fn trimming_agrees_with_std() {
    for c in 0..0x3100u32 {
        if let Some(c) = char::from_u32(c) {
            let s: String = format!("{}x{}", c, c);
            assert_eq!(text(&trim(&chars_of(&s))), s.trim());
        }
    }
}

#[test]
fn trailing_characters() {
    assert_eq!(text(&trim_trailing(&chars_of("a=b///"), '/')), "a=b");
    assert_eq!(text(&trim_trailing(&chars_of("///"), '/')), "");
    assert_eq!(text(&trim_trailing(&chars_of("/a"), '/')), "/a");
}

#[test]
fn finding_a_character() {
    let v = chars_of("a?b?c");
    assert_eq!(find_from(&v, '?', 0), 1);
    assert_eq!(find_from(&v, '?', 2), 3);
    assert_eq!(find_from(&v, '!', 0), 5);
}

#[test]
fn splitting() {
    let pieces: Vec<String> = split(&chars_of("a&&b&"), '&').iter().map(|p| text(p)).collect();
    assert_eq!(pieces, vec!["a", "", "b", ""]);
    let one: Vec<String> = split(&chars_of(""), '&').iter().map(|p| text(p)).collect();
    assert_eq!(one, vec![""]);
}

#[test]
fn replacing() {
    assert_eq!(text(&replace(&chars_of("10%3A20%3A"), "%3A", ":")), "10:20:");
    assert_eq!(text(&replace(&chars_of("aaa"), "aa", "b")), "ba");
    assert_eq!(text(&replace(&chars_of("%3"), "%3A", ":")), "%3");
}

#[test]
fn replacing_the_first() {
    assert_eq!(text(&replace_first(&chars_of("http://a/http://"), "http://", "ws://")), "ws://a/http://");
    assert_eq!(text(&replace_first(&chars_of("ftp://a"), "http://", "ws://")), "ftp://a");
}

#[test]
fn beginning() {
    assert!(starts_with(&chars_of("vdesk://connect"), "vdesk://"));
    assert!(!starts_with(&chars_of("vdesk:/"), "vdesk://"));
}

#[test]
fn parsing_numbers() {
    assert_eq!(parse_unsigned(&chars_of("0"), 9), Some(0));
    assert_eq!(parse_unsigned(&chars_of("+42"), 99), Some(42));
    assert_eq!(parse_unsigned(&chars_of("007"), 99), Some(7));
    assert_eq!(parse_unsigned(&chars_of("18446744073709551615"), u64::MAX), Some(u64::MAX));
    assert_eq!(parse_unsigned(&chars_of("18446744073709551616"), u64::MAX), None);
    assert_eq!(parse_unsigned(&chars_of("65536"), 65535), None);
    assert_eq!(parse_unsigned(&chars_of(""), 9), None);
    assert_eq!(parse_unsigned(&chars_of("+"), 9), None);
    assert_eq!(parse_unsigned(&chars_of("-1"), 9), None);
    assert_eq!(parse_unsigned(&chars_of("1 "), 9), None);
    assert_eq!(parse_unsigned(&chars_of("++1"), 9), None);
}

#[test]
fn numbers_are_read_back() {
    for n in [0u64, 9, 10, 99, 20020, u64::MAX] {
        let s = decimal_of(n);
        assert_eq!(s, n.to_string());
        assert_eq!(parse_unsigned(&chars_of(&s), u64::MAX), Some(n));
    }
}

#[test]
fn settings_have_defaults() {
    assert!(is_on(Some("1")));
    assert!(!is_on(Some("true")));
    assert!(!is_on(None));
    assert_eq!(listen_port(None), LISTEN_PORT);
    assert_eq!(listen_port(Some("7000")), 7000);
    assert_eq!(listen_port(Some("70000")), 20020);
    assert_eq!(text_or(None, "direct"), "direct");
    assert_eq!(text_or(Some("k"), "direct"), "k");
}
