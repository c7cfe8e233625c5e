use limitedpanel::decimal::{parse_u64, u64_to_string};
use limitedpanel::text::{dedup_texts, is_whitespace, same_text, split_items, trim};

#[test]
fn whitespace_covers_ascii_and_unicode_spaces() {
    for c in [' ', '\t', '\n', '\r', '\u{0B}', '\u{0C}', '\u{85}', '\u{A0}', '\u{1680}', '\u{2000}', '\u{200A}', '\u{2028}', '\u{2029}', '\u{202F}', '\u{205F}', '\u{3000}'] {
        assert!(is_whitespace(c), "{:?}", c);
    }
    for c in ['a', '<', ',', '\u{200B}', '\u{FEFF}', '\u{1F}', '0'] {
        assert!(!is_whitespace(c), "{:?}", c);
    }
}

#[test]
fn whitespace_agrees_with_std_on_every_char() {
    let mut n: u32 = 0;
    while n <= 0x10FFFF {
        if let Some(c) = char::from_u32(n) {
            assert_eq!(is_whitespace(c), c.is_whitespace(), "U+{:04X}", n);
        }
        n += 1;
    }
}

#[test]
fn trim_removes_both_ends_only() {
    assert_eq!(trim("  a b \t\n"), "a b");
    assert_eq!(trim(""), "");
    assert_eq!(trim(" \u{3000} "), "");
    assert_eq!(trim("x"), "x");
    assert_eq!(trim("\u{A0}héllo wörld\u{2003}"), "héllo wörld");
}

#[test]
fn same_text_compares_by_characters() {
    assert!(same_text("zzz", "zzz"));
    assert!(!same_text("zzz", "zz"));
    assert!(!same_text("gs", "sr"));
    assert!(same_text("", ""));
}

#[test]
fn split_items_keeps_nonempty_runs() {
    assert_eq!(split_items("a,b;c d"), vec!["a", "b", "c", "d"]);
    assert_eq!(split_items(" ,, ;\t"), Vec::<String>::new());
    assert_eq!(split_items(""), Vec::<String>::new());
    assert_eq!(split_items("http://127.0.0.1:17890,\n http://127.0.0.1:17891 ;"), vec!["http://127.0.0.1:17890", "http://127.0.0.1:17891"]);
    assert_eq!(split_items("one"), vec!["one"]);
}

#[test]
fn split_items_agrees_with_std_split() {
    for raw in ["1, 2;3\u{3000}4", ";;a", "a;;", " a  b ", "x\u{A0}y,z"] {
        let expected: Vec<String> = raw
            .split(|c: char| c == ',' || c == ';' || c.is_whitespace())
            .map(|s| s.trim().to_string())
            .filter(|s| !s.is_empty())
            .collect();
        assert_eq!(split_items(raw), expected);
    }
}

#[test]
fn dedup_keeps_first_occurrences_in_order() {
    let items: Vec<String> = vec!["b", "a", "b", "c", "a"].into_iter().map(String::from).collect();
    assert_eq!(dedup_texts(&items), vec!["b", "a", "c"]);
    assert_eq!(dedup_texts(&Vec::new()), Vec::<String>::new());
}

#[test]
fn parse_u64_accepts_what_std_accepts() {
    assert_eq!(parse_u64("0"), Some(0));
    assert_eq!(parse_u64("100000001"), Some(100000001));
    assert_eq!(parse_u64("+7"), Some(7));
    assert_eq!(parse_u64("007"), Some(7));
    assert_eq!(parse_u64("18446744073709551615"), Some(u64::MAX));
    assert_eq!(parse_u64("18446744073709551616"), None);
    assert_eq!(parse_u64("99999999999999999999999"), None);
    assert_eq!(parse_u64(""), None);
    assert_eq!(parse_u64("+"), None);
    assert_eq!(parse_u64("-1"), None);
    assert_eq!(parse_u64("1_000"), None);
    assert_eq!(parse_u64(" 1"), None);
    assert_eq!(parse_u64("1 "), None);
    assert_eq!(parse_u64("12a"), None);
    assert_eq!(parse_u64("++1"), None);
    assert_eq!(parse_u64("١٢"), None);
    for s in ["0", "+0", "42", "+", "", "-0", "18446744073709551615", "18446744073709551616", "0x10", "1e3"] {
        assert_eq!(parse_u64(s), s.parse::<u64>().ok(), "{:?}", s);
    }
}

#[test]
fn u64_to_string_writes_shortest_decimal() {
    assert_eq!(u64_to_string(0), "0");
    assert_eq!(u64_to_string(9), "9");
    assert_eq!(u64_to_string(10), "10");
    assert_eq!(u64_to_string(429), "429");
    assert_eq!(u64_to_string(100000001), "100000001");
    assert_eq!(u64_to_string(u64::MAX), "18446744073709551615");
}
