use openring::scan::{count_leading_space, count_trailing_space, is_comment_line, is_space_char, split_lines, trim};
use openring::text::{format_i64, parse_i64};

#[test]
fn parse_i64_reads_what_std_reads() {
    let samples = [
        "0", "7", "120", "-5", "+5", "007", "-0", "+0", "", "+", "-", " 5", "5 ", "1_000", "12a",
        "a12", "--5", "+-5", "9223372036854775807", "9223372036854775808", "-9223372036854775808",
        "-9223372036854775809", "00000000000000000000000000000000000001",
        "99999999999999999999999999999999", "１２", "1.5", "0x10", "٣",
    ];
    for s in samples {
        assert_eq!(parse_i64(s), s.parse::<i64>().ok(), "input {s:?}");
    }
}

#[test]
fn parse_i64_exact_values() {
    assert_eq!(parse_i64("120"), Some(120));
    assert_eq!(parse_i64("-9223372036854775808"), Some(i64::MIN));
    assert_eq!(parse_i64("9223372036854775807"), Some(i64::MAX));
    assert_eq!(parse_i64("9223372036854775808"), None);
    assert_eq!(parse_i64("Wed, 21 Oct 2015 07:28:00 GMT"), None);
}

#[test]
fn format_i64_writes_what_std_writes() {
    for v in [0i64, 1, 9, 10, 11, 99, 100, 14400, -1, -10, -14400, i64::MAX, i64::MIN, i64::MIN + 1] {
        assert_eq!(format_i64(v), v.to_string());
        assert_eq!(parse_i64(&format_i64(v)), Some(v));
    }
}

#[test]
fn white_space_is_what_std_calls_white_space() {
    let mut code: u32 = 0;
    while code <= 0x10FFFF {
        if let Some(c) = char::from_u32(code) {
            assert_eq!(is_space_char(c), c.is_whitespace(), "U+{code:04X}");
        }
        code += 1;
    }
}

#[test]
fn trim_cuts_what_std_cuts() {
    let samples = [
        "", " ", "   ", "a", " a", "a ", "  a b  ", "\t\r\n x \u{a0}\u{3000}", "\u{2003}é\u{2003}",
        "\u{85}\u{1680}mid dle\u{2028}\u{2029}\u{202f}\u{205f}", "no-space", " \u{200b} ",
    ];
    for s in samples {
        assert_eq!(trim(s), s.trim(), "input {s:?}");
        assert_eq!(count_leading_space(s), s.chars().take_while(|c| c.is_whitespace()).count());
        assert_eq!(count_trailing_space(s), s.chars().rev().take_while(|c| c.is_whitespace()).count());
    }
}

#[test]
fn split_lines_splits_as_std_does() {
    let samples = [
        "", "a", "a\n", "a\nb", "a\r\nb\r\n", "\n", "\n\n", "a\n\nb", "a\r", "a\r\n", "\r\n",
        "a\rb\nc", "x\r\r\ny", "é\nü\r\n\u{1F600}", "last line without end",
        "# comment\nhttps://example.com/feed\n// other\n",
    ];
    for s in samples {
        let want: Vec<String> = s.lines().map(String::from).collect();
        assert_eq!(split_lines(s), want, "input {s:?}");
    }
}

#[test]
fn comment_lines_start_with_hash_or_two_slashes() {
    assert!(is_comment_line("# a comment"));
    assert!(is_comment_line("   # indented"));
    assert!(is_comment_line("// a comment"));
    assert!(is_comment_line("\t//"));
    assert!(is_comment_line("#"));
    assert!(!is_comment_line("/ one slash"));
    assert!(!is_comment_line("https://example.com/#fragment"));
    assert!(!is_comment_line(""));
    assert!(!is_comment_line("   "));
    assert!(!is_comment_line("a # b"));
}
