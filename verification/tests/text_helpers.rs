use parsekit::bytes::{has_prefix, has_suffix, parse_number, starts_json, window_contains};
use parsekit::text::{chars_of, describe, is_space, join, push_decimal, to_lower_char, trim};

#[test]
fn trim_agrees_with_the_standard_library() {
    let samples = [
        "",
        " ",
        "  hi  ",
        "hi",
        "\t\n hi there \r\n",
        "\u{a0}x\u{3000}",
        "\u{2003}a b\u{2028}\u{2029}",
        "\u{85}\u{1680}\u{202f}\u{205f}",
        "\u{200b}zero width\u{200b}",
        "\u{feff}bom",
        "a\u{b}",
        "\u{c}a",
        "\u{1c}a\u{1f}",
        "  \u{e9}t\u{e9}  ",
    ];
    for sample in samples {
        assert_eq!(trim(sample), sample.trim(), "{:?}", sample);
    }
}

#[test]
fn whitespace_agrees_with_the_standard_library() {
    for code in 0u32..0x3100 {
        if let Some(c) = char::from_u32(code) {
            assert_eq!(is_space(c), c.is_whitespace(), "{:x}", code);
        }
    }
}

#[test]
fn lowercase_agrees_with_the_standard_library_on_ascii_results() {
    for code in 0u32..0x11000 {
        if let Some(c) = char::from_u32(code) {
            let lowered: String = c.to_lowercase().collect();
            if lowered.is_ascii() {
                assert_eq!(to_lower_char(c).to_string(), lowered, "{:x}", code);
            } else {
                assert!(!to_lower_char(c).is_ascii(), "{:x}", code);
            }
        }
    }
}

#[test]
fn chars_of_lists_the_characters() {
    assert_eq!(chars_of("a\u{e9}\u{1f600}z"), vec!['a', '\u{e9}', '\u{1f600}', 'z']);
    assert_eq!(chars_of(""), Vec::<char>::new());
}

#[test]
fn decimal_numerals() {
    for n in [0usize, 7, 10, 99, 100, 105906176, 104857600, usize::MAX] {
        let mut out = String::from("n=");
        push_decimal(&mut out, n);
        assert_eq!(out, format!("n={}", n));
    }
}

#[test]
fn join_puts_the_separator_between_neighbours() {
    let parts = vec!["a".to_string(), "".to_string(), "b c".to_string()];
    assert_eq!(join(&parts, ", "), "a, , b c");
    assert_eq!(join(&vec!["only".to_string()], "\n\n"), "only");
    assert_eq!(join(&Vec::new(), "\n\n"), "");
}

#[test]
fn describe_joins_context_and_cause() {
    assert_eq!(describe("Failed to parse PDF", "bad xref"), "Failed to parse PDF: bad xref");
}

#[test]
fn numbers_agree_with_the_standard_library() {
    let samples = [
        "", "0", "7", "+7", "-7", "42", "007", "+", "++1", "1+", " 1", "1 ", "1a", "a1", "12345678901",
        "18446744073709551615", "18446744073709551616", "99999999999999999999999", "4294967295",
        "4294967296", "+0", "1_000", "\u{661}",
    ];
    for sample in samples {
        let bytes = sample.as_bytes();
        assert_eq!(parse_number(bytes, 0, bytes.len()), sample.parse::<usize>().ok(), "{:?}", sample);
    }
    assert_eq!(parse_number(b"slide12.xml", 5, 7), Some(12));
    assert_eq!(parse_number(b"slide12.xml", 5, 5), None);
}

#[test]
fn prefixes_and_suffixes() {
    assert!(has_prefix(b"ppt/slides/slide1.xml", b"ppt/"));
    assert!(!has_prefix(b"pp", b"ppt/"));
    assert!(has_prefix(b"abc", b""));
    assert!(has_suffix(b"ppt/slides/slide1.xml", b".xml"));
    assert!(!has_suffix(b"xml", b".xml"));
    assert!(!has_suffix(b"slide1.xmlx", b".xml"));
}

#[test]
fn windows_limit_the_search() {
    assert!(window_contains(b"..<HTML>..", 10, b"<html", true));
    assert!(!window_contains(b"..<HTML>..", 10, b"<html", false));
    assert!(!window_contains(b"..<HTML>..", 6, b"<html", true));
    assert!(window_contains(b"..<HTML>..", 7, b"<html", true));
    assert!(window_contains(b"abc", 100, b"", false));
    assert!(!window_contains(b"ab", 100, b"abc", false));
}

#[test]
fn json_openers() {
    assert!(starts_json(b"\n\n[ ]"));
    assert!(!starts_json(b""));
    assert!(!starts_json(b"a["));
}
