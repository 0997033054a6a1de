use diaspor_vfs::text::{
    byte_length, contains, ends_with, lines, parse_u64, same_text, split_chars, split_whitespace,
    starts_with, strip_prefix, to_decimal, trim,
};

#[test]
fn numbers_parse_as_u64_from_str_does() {
    assert_eq!(parse_u64("42"), Some(42));
    assert_eq!(parse_u64("+5"), Some(5));
    assert_eq!(parse_u64("18446744073709551615"), Some(u64::MAX));
    assert_eq!(parse_u64("18446744073709551616"), None);
    assert_eq!(parse_u64(""), None);
    assert_eq!(parse_u64("+"), None);
    assert_eq!(parse_u64("-1"), None);
    assert_eq!(parse_u64("1a"), None);
    for s in ["0", "7", "+12", "0042", "99999999999"] {
        assert_eq!(parse_u64(s), s.parse::<u64>().ok());
    }
    assert_eq!(to_decimal(0), "0");
    assert_eq!(to_decimal(1234567890), "1234567890");
}

#[test]
fn lines_follow_str_lines() {
    for s in ["a\r\nb\n", "a\n\nb", "", "\n", "x\r", "one"] {
        let expected: Vec<String> = s.lines().map(|l| l.to_string()).collect();
        assert_eq!(lines(s), expected);
    }
}

#[test]
fn words_and_pieces() {
    for s in ["  a  b\tc\n", "", "   ", "one"] {
        let expected: Vec<String> = s.split_whitespace().map(|l| l.to_string()).collect();
        assert_eq!(split_whitespace(s), expected);
    }
    assert_eq!(split_chars("a,b\nc,,", ',', '\n'), vec!["a", "b", "c", "", ""]);
    assert_eq!(split_chars("", ',', ','), vec![""]);
}

#[test]
fn string_helpers() {
    assert_eq!(trim("  x y \t"), "x y");
    assert!(starts_with("prefix-rest", "prefix"));
    assert!(ends_with("file.tmp", ".tmp"));
    assert!(contains("a.part.b", ".part."));
    assert!(!contains("abc", "abd"));
    assert!(same_text("abc", "abc"));
    assert!(!same_text("abc", "abC"));
    assert_eq!(strip_prefix("https://x", "https://").as_deref(), Some("x"));
    assert!(strip_prefix("http://x", "https://").is_none());
    assert!(diaspor_vfs::ollama::OllamaClient::is_transcription_model("WhIsPeR-LARGE"));
    assert!(!diaspor_vfs::ollama::OllamaClient::is_transcription_model("ÄUDIO"));
    assert_eq!(byte_length("é"), 2);
}
