//! Text primitives.
use csi_webserver_core::text::{
    chars_of, contains_char, contains_text, list_contains, parse_u32, position_of, push_decimal,
    push_joined, sort_strings, split_chars, str_eq, str_lt, string_of, to_lower, trimmed,
};

fn text(chars: &[char]) -> String {
    chars.iter().collect()
}

#[test]
fn strings_are_taken_apart_and_put_together() {
    let chars = chars_of("aé😀b");
    assert_eq!(chars, vec!['a', 'é', '😀', 'b']);
    assert_eq!(string_of(&chars, 1, 3), "é😀");
    assert_eq!(string_of(&chars, 2, 2), "");
}

#[test]
fn strings_are_compared() {
    assert!(str_eq("é", "é"));
    assert!(!str_eq("é", "e"));
    assert!(!str_eq("a", "ab"));
    assert!(str_eq("", ""));
    assert!(str_lt("a", "b"));
    assert!(str_lt("", "a"));
    assert!(str_lt("a", "ab"));
    assert!(!str_lt("b", "a"));
    assert!(!str_lt("a", "a"));
    assert!(str_lt("z", "é"));
}

#[test]
fn parts_are_found() {
    assert!(contains_char("abc", 'c'));
    assert!(!contains_char("abc", 'd'));
    assert!(contains_text("/dev/ttyUSB0", "ttyUSB"));
    assert!(contains_text("ttyUSB", "ttyUSB"));
    assert!(!contains_text("ttyUS", "ttyUSB"));
    assert!(!contains_text("ttyUxSB", "ttyUSB"));
    assert!(contains_text("aab", "ab"));
    assert!(contains_text("a", ""));
    assert!(contains_text("", ""));
    assert!(!contains_text("", "a"));
    assert_eq!(position_of(&chars_of("a=b=c"), '='), 1);
    assert_eq!(position_of(&chars_of("abc"), '='), 3);
}

#[test]
fn numbers_are_written_and_read() {
    for n in [0u64, 9, 10, 99, 100, u64::MAX] {
        let mut out = "n".to_string();
        push_decimal(&mut out, n);
        assert_eq!(out, format!("n{n}"));
    }
    for n in [0u32, 7, 42, u32::MAX] {
        assert_eq!(parse_u32(&chars_of(&n.to_string())), Some(n));
    }
    assert_eq!(parse_u32(&chars_of("4294967296")), None);
    assert_eq!(parse_u32(&chars_of("++1")), None);
    assert_eq!(parse_u32(&chars_of("٣")), None);
}

#[test]
fn case_and_blanks() {
    assert_eq!(to_lower("AbZ[É"), "abz[É");
    assert_eq!(text(&trimmed(&chars_of("\u{2003} a b\t\r\n"))), "a b");
    assert_eq!(text(&trimmed(&chars_of(" \n "))), "");
}

#[test]
fn lists_are_split_joined_and_sorted() {
    let pieces: Vec<String> =
        split_chars(&chars_of(",a,,b"), ',').iter().map(|p| text(p)).collect();
    assert_eq!(pieces, vec!["", "a", "", "b"]);
    assert_eq!(split_chars(&chars_of(""), ',').len(), 1);
    let mut out = "<".to_string();
    push_joined(&mut out, &vec!["a", "b", "c"], ", ");
    assert_eq!(out, "<a, b, c");
    assert!(list_contains(&["a", "b"], "b"));
    assert!(!list_contains(&["a", "b"], "c"));
    let list = vec!["b".to_string(), "a".to_string(), "b".to_string(), "".to_string()];
    assert_eq!(sort_strings(list), vec!["", "a", "b", "b"]);
}
