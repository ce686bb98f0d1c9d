use cyberdeck_tui::text;
use cyberdeck_tui::text::{
    chars_of, decimal, hex_digit, hex_encode, pad_left, pad_right, same_str, starts_with,
    string_of, truncate_bytes, truncate_chars,
};

#[test]
fn truncate_chars_counts_characters() {
    assert_eq!(truncate_chars("héllo", 5), "héllo");
    assert_eq!(truncate_chars("héllo wörld", 5), "héll…");
    assert_eq!(truncate_chars("abc", 0), "…");
    assert_eq!(truncate_chars("abc", 1), "…");
    assert_eq!(truncate_chars("", 0), "");
}

#[test]
fn truncate_bytes_counts_bytes() {
    assert_eq!(truncate_bytes("abcdef", 6), "abcdef");
    assert_eq!(truncate_bytes("abcdef", 4), "abc…");
    assert_eq!(truncate_bytes("abcdef", 0), "…");
}

#[test]
fn decimal_matches_display() {
    for n in [0u64, 7, 10, 99, 100, 12345, u64::MAX] {
        assert_eq!(decimal(n), n.to_string());
    }
}

#[test]
fn padding_matches_format() {
    assert_eq!(pad_right("ab", 5), format!("{:<5}", "ab"));
    assert_eq!(pad_left("ab", 5), format!("{:>5}", "ab"));
    assert_eq!(pad_right("abcdef", 3), "abcdef");
    assert_eq!(pad_left("é", 3), "  é");
}

#[test]
fn hex_helpers() {
    assert_eq!(hex_encode(&[]), "");
    assert_eq!(hex_encode(&[0x0f, 0xf0]), "0ff0");
    assert_eq!(hex_digit(11), 'b');
}

#[test]
fn string_helpers() {
    assert_eq!(text::concat("ab", "cd"), "abcd");
    assert!(starts_with("ttyUSB0", "ttyUSB"));
    assert!(!starts_with("tty", "ttyUSB"));
    assert!(same_str("é", "é"));
    assert!(!same_str("a", "ab"));
    assert_eq!(string_of(&chars_of("naïve")), "naïve");
}

#[test]
fn truncation_and_padding_fit_their_width() {
    for n in 1..8usize {
        assert!(truncate_chars("abcdefghij", n).chars().count() <= n);
    }
    assert_eq!(truncate_chars("abc", 8), "abc");
    assert_eq!(pad_right("abc", 6).chars().count(), 6);
    assert_eq!(pad_left("abc", 6), "   abc");
    assert_eq!(pad_right("abcdefgh", 6), "abcdefgh");
}
