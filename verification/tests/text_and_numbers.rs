use iobitunlocker_shell_bridge::decimal::{push_decimal, push_signed_decimal, read_u32};
use iobitunlocker_shell_bridge::text::{
    ascii_lowercase, chars_of, lines, position, reads, split_once, text_of, trim, white_space,
};
use iobitunlocker_shell_bridge::wide::{from_wide_lossy, to_wide_null};

fn all_chars() -> Vec<char> {
    let mut chars = Vec::new();
    for code in 0..=0x10ffffu32 {
        if let Some(c) = char::from_u32(code) {
            chars.push(c);
        }
    }
    chars
}

fn trimmed(text: &str) -> String {
    text_of(trim(&chars_of(text)))
}

#[test]
fn white_space_is_that_of_the_standard_library() {
    for c in all_chars() {
        assert_eq!(white_space(c), c.is_whitespace(), "{:?}", c);
    }
}

#[test]
fn chars_and_text_are_inverse() {
    for text in ["", "abc", "解锁 \u{1f600}\0x"] {
        assert_eq!(chars_of(text), text.chars().collect::<Vec<char>>());
        assert_eq!(text_of(&chars_of(text)), text);
    }
}

#[test]
fn trim_drops_white_space_at_both_ends_only() {
    for text in ["", " ", "\t\r\n", " a b ", "\u{3000}解 锁\u{a0}", "a", "\r\nx=\u{85}", "\u{200b}x"] {
        assert_eq!(trimmed(text), text.trim());
    }
}

#[test]
fn split_once_splits_at_the_first_separator() {
    let chars = chars_of("a=b=c");
    let (before, after) = split_once(&chars, '=').unwrap();
    assert_eq!(text_of(before), "a");
    assert_eq!(text_of(after), "b=c");
    assert!(split_once(&chars, '|').is_none());
    assert_eq!(position(&chars, '='), 1);
    assert_eq!(position(&chars, 'z'), 5);
}

#[test]
fn lines_are_the_parts_between_line_feeds() {
    let chars = chars_of("a\r\n\nb\n");
    let parts: Vec<String> = lines(&chars).into_iter().map(text_of).collect();
    assert_eq!(parts, ["a\r", "", "b", ""]);
    let empty = chars_of("");
    assert_eq!(lines(&empty).len(), 1);
}

#[test]
fn reads_compares_whole_texts() {
    assert!(reads(&chars_of("path"), "path"));
    assert!(!reads(&chars_of("path "), "path"));
    assert!(!reads(&chars_of("pat"), "path"));
    assert!(!reads(&chars_of("Path"), "path"));
}

#[test]
fn ascii_lowercase_leaves_other_letters() {
    assert_eq!(text_of(&ascii_lowercase(&chars_of("UnLock-ÄZ@["))), "unlock-Äz@[");
}

#[test]
fn decimal_numbers_are_written_like_the_standard_library_writes_them() {
    for n in [0u128, 7, 9, 10, 99, 100, 4294967295, 18446744073709551615, u128::MAX] {
        let mut text = String::from("x");
        push_decimal(&mut text, n);
        assert_eq!(text, format!("x{}", n));
    }
    for n in [0i64, 5, -1, -10, i64::MIN, i64::MAX] {
        let mut text = String::new();
        push_signed_decimal(&mut text, n);
        assert_eq!(text, n.to_string());
    }
}

#[test]
fn numbers_are_read_like_the_standard_library_reads_them() {
    for text in [
        "", "+", "-", "0", "007", "+5", "++5", "-5", "5a", " 5", "5 ", "4294967295", "4294967296",
        "99999999999999999999999", "99999999999999999999999x", "０", "1_0",
    ] {
        assert_eq!(read_u32(&chars_of(text)), text.parse::<u32>().ok(), "{:?}", text);
    }
}

#[test]
fn wide_strings_are_utf_16_with_a_zero_behind() {
    assert_eq!(to_wide_null(""), [0]);
    assert_eq!(to_wide_null("a\u{1f600}"), [0x61, 0xd83d, 0xde00, 0]);
    for c in all_chars() {
        let text = c.to_string();
        let mut expected: Vec<u16> = text.encode_utf16().collect();
        expected.push(0);
        assert_eq!(to_wide_null(&text), expected);
    }
}

#[test]
fn wide_strings_read_back() {
    for c in all_chars() {
        let text = c.to_string();
        let wide = to_wide_null(&text);
        assert_eq!(from_wide_lossy(&wide[..wide.len() - 1]), text);
    }
}

#[test]
fn the_null_ends_a_wide_text_without_null_characters() {
    let wide = to_wide_null("C:\\解锁\\\u{10ffff}");
    assert_eq!(wide.iter().position(|unit| *unit == 0), Some(wide.len() - 1));
}

#[test]
fn stray_surrogates_become_replacement_characters() {
    for units in [
        vec![0xd800u16],
        vec![0xdc00],
        vec![0xd800, 0x41],
        vec![0xd800, 0xd800, 0xdc00],
        vec![0xdc00, 0xd800],
        vec![0xdbff, 0xdfff, 0xd83d],
    ] {
        assert_eq!(from_wide_lossy(&units), String::from_utf16_lossy(&units));
    }
    assert_eq!(from_wide_lossy(&[0x61, 0xd800, 0x62]), "a\u{fffd}b");
}
