use aur_crawler::numbers::{i32_to_dec_string, is_float_literal, parse_i32};
use aur_crawler::text::{contains_substring, delete_tags, suffix_after_last, trim_string};

#[test]
fn delete_tags_strips_markup() {
    assert_eq!(delete_tags("<b>hello</b> world".to_string()), "hello world");
    assert_eq!(delete_tags("plain".to_string()), "plain");
    assert_eq!(delete_tags("<a href=\"x\">link</a>".to_string()), "link");
}

#[test]
fn delete_tags_joins_trimmed_lines() {
    assert_eq!(delete_tags("  hello  \n  world  ".to_string()), "helloworld");
    assert_eq!(delete_tags("a\r\nb".to_string()), "ab");
}

#[test]
fn delete_tags_drops_non_ascii() {
    assert_eq!(delete_tags("h\u{e9}llo".to_string()), "hllo");
}

#[test]
fn delete_tags_removes_unclosed_tag_to_end() {
    assert_eq!(delete_tags("a<b".to_string()), "a");
    assert_eq!(delete_tags("a>b".to_string()), "a>b");
}

#[test]
fn trim_string_removes_surrounding_whitespace() {
    assert_eq!(trim_string("  a b \t"), "a b");
    assert_eq!(trim_string(""), "");
    assert_eq!(trim_string(" \n "), "");
}

#[test]
fn contains_substring_finds_needles() {
    assert!(contains_substring("already-exists: table", "already-exists"));
    assert!(contains_substring("abc", ""));
    assert!(!contains_substring("abc", "abcd"));
    assert!(!contains_substring("abc", "bd"));
}

#[test]
fn suffix_after_last_splits_on_marker() {
    assert_eq!(suffix_after_last("?PP=250&O=30", '='), "30");
    assert_eq!(suffix_after_last("nomarker", '='), "nomarker");
    assert_eq!(suffix_after_last("x=", '='), "");
}

#[test]
fn parse_i32_accepts_integer_literals() {
    assert_eq!(parse_i32("100"), Some(100));
    assert_eq!(parse_i32("-42"), Some(-42));
    assert_eq!(parse_i32("+7"), Some(7));
    assert_eq!(parse_i32("007"), Some(7));
    assert_eq!(parse_i32("2147483647"), Some(2147483647));
    assert_eq!(parse_i32("-2147483648"), Some(-2147483648));
}

#[test]
fn parse_i32_rejects_bad_literals() {
    assert_eq!(parse_i32(""), None);
    assert_eq!(parse_i32("-"), None);
    assert_eq!(parse_i32("abc"), None);
    assert_eq!(parse_i32("12a"), None);
    assert_eq!(parse_i32("2147483648"), None);
    assert_eq!(parse_i32("-2147483649"), None);
    assert_eq!(parse_i32("99999999999999999999"), None);
}

#[test]
fn decimal_rendering_round_trips() {
    assert_eq!(i32_to_dec_string(0), "0");
    assert_eq!(i32_to_dec_string(100), "100");
    assert_eq!(i32_to_dec_string(-123), "-123");
    assert_eq!(i32_to_dec_string(i32::MIN), "-2147483648");
    assert_eq!(parse_i32(&i32_to_dec_string(i32::MAX)), Some(i32::MAX));
}

#[test]
fn float_literal_grammar_accepts_numbers() {
    for ok in ["6.2", "0", ".5", "1.", "1e5", "1.2e-3", "+4", "-0.0", "2E+8"] {
        assert!(is_float_literal(ok), "{} should parse", ok);
    }
    for special in ["inf", "-inf", "Infinity", "NaN", "nan"] {
        assert!(is_float_literal(special), "{} should parse", special);
    }
}

#[test]
fn float_literal_grammar_rejects_other_text() {
    for bad in ["", "+", "abc", "1.2.3", "e5", "1e", "1e+", ".", "--1", "6,2"] {
        assert!(!is_float_literal(bad), "{} should not parse", bad);
    }
}
