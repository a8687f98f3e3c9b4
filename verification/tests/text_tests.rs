use chaykin::order::{text_eq, text_order, TextOrder};
use chaykin::text::{
    contains, find_char, is_whitespace_char, matches_at, push_decimal, replace_all, starts_with,
    to_chars, trim,
};

fn chars(s: &str) -> Vec<char> {
    s.chars().collect()
}

#[test]
fn text_order_agrees_with_the_order_of_strings() {
    let samples = [
        "", "a", "A", "ab", "abc", "abd", "b", "z", "\u{7f}", "\u{80}", "\u{e9}", "\u{7ff}", "\u{800}",
        "\u{d7ff}", "\u{e000}", "\u{ffff}", "\u{10000}", "\u{10ffff}", "a\u{e9}", "a\u{10000}", "a\u{ffff}",
    ];
    for a in samples {
        for b in samples {
            let expected = match a.cmp(b) {
                std::cmp::Ordering::Less => TextOrder::Before,
                std::cmp::Ordering::Equal => TextOrder::Same,
                std::cmp::Ordering::Greater => TextOrder::After,
            };
            assert_eq!(text_order(a, b), expected, "{:?} {:?}", a, b);
            assert_eq!(text_eq(a, b), a == b);
        }
    }
}

#[test]
fn text_order_of_a_prefix_is_before() {
    assert_eq!(text_order("http://a", "http://a/"), TextOrder::Before);
    assert_eq!(text_order("http://a/", "http://a"), TextOrder::After);
    assert_eq!(text_order("http://a", "http://a"), TextOrder::Same);
}

#[test]
fn to_chars_lists_the_characters() {
    assert_eq!(to_chars("a\u{e9}\u{1f600}"), vec!['a', '\u{e9}', '\u{1f600}']);
    assert_eq!(to_chars(""), Vec::<char>::new());
}

#[test]
fn starts_with_tests_a_prefix() {
    assert!(starts_with("http://x", "http://"));
    assert!(starts_with("http://", "http://"));
    assert!(starts_with("anything", ""));
    assert!(starts_with("", ""));
    assert!(!starts_with("http:/", "http://"));
    assert!(!starts_with("", "x"));
    assert!(!starts_with("xhttp://", "http://"));
    assert!(starts_with("\u{e9}t\u{e9}", "\u{e9}t"));
    assert!(!starts_with("\u{e9}t\u{e9}", "\u{e8}"));
}

#[test]
fn find_char_gives_the_first_position_in_characters() {
    assert_eq!(find_char(&chars("a?b?c"), '?'), 1);
    assert_eq!(find_char(&chars("?"), '?'), 0);
    assert_eq!(find_char(&chars("abc"), '?'), 3);
    assert_eq!(find_char(&chars(""), '?'), 0);
    assert_eq!(find_char(&chars("\u{e9}\u{1f600}?"), '?'), 2);
}

#[test]
fn matches_at_and_contains_find_a_pattern() {
    assert!(matches_at(&chars("abcabc"), &chars("bc"), 1));
    assert!(matches_at(&chars("abcabc"), &chars("bc"), 4));
    assert!(!matches_at(&chars("abcabc"), &chars("bc"), 0));
    assert!(!matches_at(&chars("abcabc"), &chars("bc"), 5));
    assert!(!matches_at(&chars("abcabc"), &chars("bc"), 6));
    assert!(!matches_at(&chars("abcabc"), &chars("bc"), usize::MAX));
    assert!(matches_at(&chars("abc"), &chars(""), 3));
    assert!(!matches_at(&chars("abc"), &chars(""), 4));
    assert!(!matches_at(&chars("ab"), &chars("abc"), 0));
    assert!(contains(&chars("xxcondensed=truexx"), &chars("condensed=true")));
    assert!(contains(&chars("condensed=true"), &chars("condensed=true")));
    assert!(!contains(&chars("condensed=tru"), &chars("condensed=true")));
    assert!(!contains(&chars(""), &chars("a")));
    assert!(contains(&chars(""), &chars("")));
    assert!(contains(&chars("aab"), &chars("ab")));
}

#[test]
fn replace_all_agrees_with_str_replace() {
    let cases = [
        ("gemini://127.0.0.1:1965/x", "127.0.0.1", "localhost"),
        ("gemini://localhost:1965/x:1965", ":1965", ""),
        ("aaaa", "aa", "b"),
        ("aaa", "aa", "b"),
        ("abab", "ab", "abab"),
        ("", "a", "b"),
        ("a", "abc", "x"),
        ("abc", "abc", ""),
        ("xabcx", "abc", "abc"),
        ("\u{e9}\u{e9}a\u{e9}", "\u{e9}", "e"),
        ("https://a/https://b", "https://", "http://"),
        ("no match here", "zz", "y"),
        ("ends with pat", "pat", "!"),
        ("aab", "ab", "x"),
    ];
    for (text, from, to) in cases {
        assert_eq!(replace_all(text, from, to), text.replace(from, to), "{:?} {:?} {:?}", text, from, to);
    }
    assert_eq!(replace_all("gemini://127.0.0.1:1965/x", "127.0.0.1", "localhost"), "gemini://localhost:1965/x");
    assert_eq!(replace_all("aaaa", "aa", "b"), "bb");
    assert_eq!(replace_all("aaa", "aa", "b"), "ba");
}

#[test]
fn replace_all_of_nothing_changes_nothing() {
    assert_eq!(replace_all("abc", "", "x"), "abc");
    assert_eq!(replace_all("", "", "x"), "");
}

#[test]
fn is_whitespace_char_agrees_with_char() {
    let mut code: u32 = 0;
    while code <= 0x10ffff {
        if let Some(c) = char::from_u32(code) {
            assert_eq!(is_whitespace_char(c), c.is_whitespace(), "U+{:04X}", code);
        }
        code += 1;
    }
}

#[test]
fn trim_agrees_with_str_trim() {
    for text in [
        "", " ", "a", " a", "a ", " a ", "\r\n", "a\r\n", "\t a b \n", " \u{a0}x\u{3000} ", "a  b", "  ",
        "\u{e9}\u{2003}", "\u{2003}\u{e9}\u{2003}\u{e9}\u{2003}",
    ] {
        assert_eq!(trim(text), text.trim(), "{:?}", text);
    }
    assert_eq!(trim("  gemini://localhost/x\r\n"), "gemini://localhost/x");
}

#[test]
fn push_decimal_appends_the_digits() {
    for n in [0u64, 1, 9, 10, 19, 20, 99, 100, 109, 110, 1965, 65535, 4294967296, u64::MAX] {
        let mut out = String::from("n=");
        push_decimal(&mut out, n);
        assert_eq!(out, format!("n={}", n));
    }
    let mut out = String::new();
    push_decimal(&mut out, 1203);
    assert_eq!(out, "1203");
}
