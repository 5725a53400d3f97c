use rssbot::text::{
    char_is_space, first_line, parse_i64, parse_u64, split_words, starts_with,
};

#[test]
fn whitespace_is_unicode_white_space() {
    for u in 0u32..=0x10FFFF {
        if let Some(c) = char::from_u32(u) {
            assert_eq!(char_is_space(c), c.is_whitespace(), "U+{:04X}", u);
        }
    }
}

#[test]
fn split_words_splits_like_split_whitespace() {
    let samples = [
        "",
        "   ",
        "one",
        " @channel  http://example.com/feed ",
        "a\tb\nc\u{3000}d\u{a0}e",
        "display-url",
        "x  y   z",
    ];
    for s in samples.iter() {
        let expected: Vec<String> = s.split_whitespace().map(|w| w.to_string()).collect();
        assert_eq!(split_words(s), expected, "{:?}", s);
    }
}

#[test]
fn first_line_is_first_of_lines() {
    let samples = ["", "\n", "title", "title\nbody", "title\r\nbody", "title\r", "\r\n", "a\rb\nc"];
    for s in samples.iter() {
        let expected = s.lines().next().map(|l| l.to_string());
        assert_eq!(first_line(s), expected, "{:?}", s);
    }
}

#[test]
fn first_line_examples() {
    assert_eq!(first_line("My Feed\nsome item\nhttp://x"), Some("My Feed".to_string()));
    assert_eq!(first_line("My Feed\r\nitem"), Some("My Feed".to_string()));
    assert_eq!(first_line(""), None);
}

#[test]
fn parse_i64_reads_like_from_str() {
    let samples = [
        "", "+", "-", "0", "-0", "+0", "12", "-12", "+12", "1a", " 1", "1 ",
        "9223372036854775807", "9223372036854775808", "-9223372036854775808",
        "-9223372036854775809", "-1001234567890", "00012", "99999999999999999999999",
        "１２", "@chan", "-100-5",
    ];
    for s in samples.iter() {
        assert_eq!(parse_i64(s), s.parse::<i64>().ok(), "{:?}", s);
    }
}

#[test]
fn parse_u64_reads_like_from_str() {
    let samples = [
        "", "+", "-", "0", "-0", "+0", "3600", "-1", "+7", "18446744073709551615",
        "18446744073709551616", "12x", "007",
    ];
    for s in samples.iter() {
        assert_eq!(parse_u64(s), s.parse::<u64>().ok(), "{:?}", s);
    }
}

#[test]
fn starts_with_examples() {
    assert!(starts_with("-100123", "-100"));
    assert!(!starts_with("-10", "-100"));
    assert!(starts_with("@name", "@"));
    assert!(!starts_with("name", "@"));
    assert!(starts_with("anything", ""));
}
