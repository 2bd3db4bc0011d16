use archipelag::text::{
    i64_text, is_cut_at_boundary, pad_text, prefix_bytes, span, starts_with, str_eq, u64_text, Line, Style,
};
use archipelag::paint::paint;
use archipelag::text::{prefix_within_bytes, trim_whitespace};

#[test]
fn decimal_numbers() {
    assert_eq!(u64_text(0), "0");
    assert_eq!(u64_text(9), "9");
    assert_eq!(u64_text(10), "10");
    assert_eq!(u64_text(u64::MAX), u64::MAX.to_string());
    assert_eq!(i64_text(-1), "-1");
    assert_eq!(i64_text(i64::MIN), i64::MIN.to_string());
    assert_eq!(i64_text(i64::MAX), i64::MAX.to_string());
}

#[test]
fn padding_counts_characters() {
    assert_eq!(pad_text("ab", 5), "ab   ");
    assert_eq!(pad_text("abcdef", 5), "abcdef");
    assert_eq!(pad_text("é…", 4), format!("{:<4}", "é…"));
}

#[test]
fn comparing_and_cutting() {
    assert!(str_eq("abc", "abc"));
    assert!(!str_eq("abc", "abd"));
    assert!(!str_eq("abc", "ab"));
    assert!(starts_with("ak_123", "ak_"));
    assert!(!starts_with("a", "ak_"));
    assert_eq!(prefix_bytes("héllo", 3), "hé");
    assert!(is_cut_at_boundary("héllo", 3));
    assert!(!is_cut_at_boundary("héllo", 2));
}

#[test]
fn painting_lines() {
    colored::control::set_override(true);
    assert_eq!(paint("x", Style::Bold), "\x1b[1mx\x1b[0m");
    assert_eq!(paint("x", Style::Dimmed), "\x1b[2mx\x1b[0m");
    assert_eq!(paint("x", Style::Yellow), "\x1b[33mx\x1b[0m");
    assert_eq!(paint("x", Style::Plain), "x");
    assert_eq!(paint("a\x1b[0mb", Style::Red), "\x1b[31ma\x1b[0m\x1b[31mb\x1b[0m");
    let l = Line { spans: vec![span("ok", Style::Green, 5), span("|", Style::Plain, 0)] };
    assert_eq!(l.paint(), "\x1b[32mok\x1b[0m|");
    assert_eq!(l.plain_text(), "ok   |");
}

#[test]
fn painting_lines_without_colours() {
    colored::control::set_override(false);
    let l = Line { spans: vec![span("ok", Style::Green, 5), span("|", Style::Plain, 0)] };
    assert_eq!(l.paint(), "ok   |");
}

#[test]
fn trimming_matches_str_trim() {
    for input in ["  ak_123\n", "ak_123", "", "   ", "\t\u{3000}ak x\u{85}\r\n", "\u{a0}é\u{2009}", "a b"] {
        assert_eq!(trim_whitespace(input), input.trim(), "input {:?}", input);
    }
}

#[test]
fn prefix_within_a_byte_budget() {
    assert_eq!(prefix_within_bytes("héllo", 2), "h");
    assert_eq!(prefix_within_bytes("héllo", 3), "hé");
    assert_eq!(prefix_within_bytes("héllo", 100), "héllo");
    assert_eq!(prefix_within_bytes("€uro", 2), "");
    assert_eq!(prefix_within_bytes("😀a", 4), "😀");
    assert_eq!(prefix_within_bytes("", 6), "");
}
