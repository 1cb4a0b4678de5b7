//! Texts.
use krust_operator::text;

#[test]
fn white_space_is_that_of_unicode() {
    let mut code: u32 = 0;
    while code <= 0x10FFFF {
        if let Some(c) = char::from_u32(code) {
            assert_eq!(text::is_white(c), c.is_whitespace(), "at {:x}", code);
        }
        code += 1;
    }
}

#[test]
fn trimming_agrees_with_std() {
    for s in ["", " ", "a", " a ", "\t\u{3000}x y\u{85}\n", "no"] {
        assert_eq!(text::trim(s), s.trim());
        assert_eq!(text::trim_start(s), s.trim_start());
        assert_eq!(text::trim_end(s), s.trim_end());
    }
    assert_eq!(text::trim_start_of("\n\n\n a\n", '\n'), " a\n");
}

#[test]
fn searching_agrees_with_std() {
    for (s, p) in [("", ""), ("abc", ""), ("aab", "ab"), ("xaxa", "xa"), ("äöü", "ü"), ("a", "ab")] {
        assert_eq!(text::contains(s, p), s.contains(p));
        assert_eq!(text::starts_with(s, p), s.starts_with(p));
        assert_eq!(text::strip_prefix(s, p), s.strip_prefix(p).map(|t| t.to_string()));
        assert_eq!(text::strip_suffix(s, p), s.strip_suffix(p).map(|t| t.to_string()));
        assert_eq!(
            text::split_once(s, p),
            s.split_once(p).map(|t| (t.0.to_string(), t.1.to_string()))
        );
    }
    assert_eq!(text::find("äab", "b"), Some(2));
    assert_eq!(text::rfind("a}b}c", "}"), Some(3));
}

#[test]
fn splitting_agrees_with_std() {
    for s in ["", "a", "a,b", ",a,,b,", "a, b"] {
        let want: Vec<String> = s.split(',').map(|t| t.to_string()).collect();
        assert_eq!(text::split(s, ","), want);
    }
    for s in ["", "a", "a\n", "a\nb", "\n\n", "a\r\nb\r", "a\r\r\nb"] {
        let want: Vec<String> = s.lines().map(|t| t.to_string()).collect();
        assert_eq!(text::lines(s), want);
    }
    for s in ["", " a  b ", "a\tb\nc", "\u{2003}x"] {
        let want: Vec<String> = s.split_whitespace().map(|t| t.to_string()).collect();
        assert_eq!(text::words(s), want);
    }
}

#[test]
fn joining_and_replacing_agree_with_std() {
    let parts = vec!["a".to_string(), "".to_string(), "b".to_string()];
    assert_eq!(text::join(&parts, ", "), "a, , b");
    assert_eq!(text::join(&vec![], ", "), "");
    assert_eq!(text::replace("aaa", "aa", "b"), "ba");
    assert_eq!(text::replace("x/y/x/", "x/", ""), "y/");
}

#[test]
fn bytes_are_counted_as_utf8() {
    assert!(text::longer_than_bytes("äö", 3));
    assert!(!text::longer_than_bytes("äö", 4));
    assert_eq!(text::take_bytes("äö", 2), Some("ä".to_string()));
    assert_eq!(text::take_bytes("äö", 3), None);
    assert_eq!(text::take_chars("äöü", 2), "äö");
    assert_eq!(text::char_count("äöü"), 3);
}

#[test]
fn numbers_are_written_and_read() {
    assert_eq!(text::decimal_of(0), "0");
    assert_eq!(text::decimal_of(u128::MAX), "340282366920938463463374607431768211455");
    assert_eq!(text::signed_decimal_of(i64::MIN), "-9223372036854775808");
    assert_eq!(text::signed_decimal_of(7), "7");
    for s in ["0", "+5", "007", "18446744073709551615"] {
        assert_eq!(text::parse_u64(s), s.parse::<u64>().ok());
    }
    for s in ["", "+", "-1", "1 ", "0x1", "18446744073709551616", "٣"] {
        assert_eq!(text::parse_u64(s), None);
    }
}

#[test]
fn sorting_agrees_with_std() {
    let parts: Vec<String> = ["b", "a", "ab", "", "é", "Z", "a"].iter().map(|s| s.to_string()).collect();
    let mut want = parts.clone();
    want.sort();
    assert_eq!(text::sort(&parts), want);
    assert!(text::is_before("a", "ab"));
    assert!(!text::is_before("b", "ab"));
}

#[test]
fn quoted_lists_are_those_of_std() {
    let parts = vec!["a\"b".to_string(), "c\n".to_string()];
    assert_eq!(text::quote_list(&parts), format!("{:?}", parts));
    assert_eq!(text::quote_list(&vec![]), "[]");
}
