use limitedpanel::decimal::{i64_to_string, parse_i64, parse_u16};
use limitedpanel::scan::{
    find_char, lines_of, skip_prefixes, split_once, starts_with, strip_space, text_starts_with,
};
use limitedpanel::text::{chars_of, string_from, trim_bounds, trimmed_nonblank};

#[test]
fn lines_follow_std_lines() {
    for text in ["", "a", "a\n", "a\nb", "a\r\nb\r\n", "a\rb\n", "\n", "\n\n", "a\n\nb", "last\r", "x\r\n\r\ny", "\r\n", "\r"] {
        let expected: Vec<String> = text.lines().map(|s| s.to_string()).collect();
        assert_eq!(lines_of(text), expected, "{:?}", text);
    }
}

#[test]
fn split_once_parts_at_the_first_match() {
    assert_eq!(split_once("a@b@c", '@'), Some(("a".to_string(), "b@c".to_string())));
    assert_eq!(split_once("@", '@'), Some((String::new(), String::new())));
    assert_eq!(split_once("abc", '@'), None);
    assert_eq!(split_once("", '@'), None);
    assert_eq!(split_once("é:ü", ':'), Some(("é".to_string(), "ü".to_string())));
}

#[test]
fn prefixes_are_matched_and_stripped() {
    assert!(text_starts_with("vmess://x", "vmess://"));
    assert!(text_starts_with("x", ""));
    assert!(!text_starts_with("vmes", "vmess://"));
    assert!(!text_starts_with("Vmess://x", "vmess://"));
    let chars = chars_of("ss://ss://rest");
    assert!(starts_with(&chars, 5, "ss://"));
    assert!(!starts_with(&chars, 1, "ss://"));
    assert!(starts_with(&chars, 14, ""));
    assert!(!starts_with(&chars, 14, "s"));
    assert_eq!(skip_prefixes(&chars, 0, "ss://"), 10);
    assert_eq!(skip_prefixes(&chars, 1, "ss://"), 1);
    assert_eq!(skip_prefixes(&chars, 0, ""), 0);
    assert_eq!("ss://ss://rest".trim_start_matches("ss://"), "rest");
}

#[test]
fn find_char_stays_within_its_range() {
    let chars = chars_of("ab#cd#e");
    assert_eq!(find_char(&chars, 0, 7, '#'), 2);
    assert_eq!(find_char(&chars, 3, 7, '#'), 5);
    assert_eq!(find_char(&chars, 3, 5, '#'), 5);
    assert_eq!(find_char(&chars, 0, 2, '#'), 2);
    assert_eq!(find_char(&chars, 0, 7, '?'), 7);
    assert_eq!(find_char(&chars, 7, 7, '#'), 7);
}

#[test]
fn white_space_is_stripped_everywhere() {
    assert_eq!(strip_space(" a b\tc\n\u{3000}d "), "abcd");
    assert_eq!(strip_space(""), "");
    assert_eq!(strip_space(" \n "), "");
}

#[test]
fn bounds_and_slices_of_characters() {
    let chars = chars_of("  héllo  wörld ");
    assert_eq!(trim_bounds(&chars, 0, chars.len()), (2, 14));
    assert_eq!(trim_bounds(&chars, 7, 9), (9, 9));
    assert_eq!(trim_bounds(&chars, 3, 12), (3, 12));
    assert_eq!(string_from(&chars, 2, 7), "héllo");
    assert_eq!(string_from(&chars, 4, 4), "");
}

#[test]
fn nonblank_lines_are_trimmed() {
    let lines: Vec<String> = vec![" a ", "", "\t", "b c"].into_iter().map(String::from).collect();
    assert_eq!(trimmed_nonblank(&lines), vec!["a", "b c"]);
}

#[test]
fn signed_numerals_follow_std() {
    for s in ["0", "-0", "+0", "-1", "+1", "9223372036854775807", "9223372036854775808", "-9223372036854775808", "-9223372036854775809", "", "-", "+", "--1", "+-1", "-+1", "1-", " 1", "12x", "00012"] {
        assert_eq!(parse_i64(s), s.parse::<i64>().ok(), "{:?}", s);
    }
    for n in [0i64, 1, -1, 42, -42, i64::MAX, i64::MIN, 1_000_000, -9_999] {
        assert_eq!(i64_to_string(n), n.to_string());
        assert_eq!(parse_i64(&i64_to_string(n)), Some(n));
    }
}

#[test]
fn port_numerals_follow_std() {
    for s in ["0", "1", "443", "65535", "65536", "+80", "-1", "", "8o", "99999999999999999999999", "00080"] {
        assert_eq!(parse_u16(s), s.parse::<u16>().ok(), "{:?}", s);
    }
}
