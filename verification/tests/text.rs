//! Text as a sequence of characters.

use claude_session::text;

#[test]
fn lines_end_before_their_breaks() {
    let texts = [
        "", "\n", "a", "a\n", "a\r\n", "a\nb", "a\n\nb\n", "a\r", "a\r\r\n", "\r\n\n", "é\n⏺ x\r\nz",
    ];
    for t in texts {
        let wanted: Vec<&str> = t.lines().collect();
        assert_eq!(text::lines(t), wanted, "{t:?}");
    }
}

#[test]
fn white_space_is_that_of_unicode() {
    for n in 0..=0x10ffffu32 {
        if let Some(c) = char::from_u32(n) {
            assert_eq!(text::is_white_space(c), c.is_whitespace(), "{n:x}");
        }
    }
}

#[test]
fn trimming_cuts_both_ends() {
    assert_eq!(text::trim(" \t a b \u{3000}\n"), "a b");
    assert_eq!(text::trim_start("  a "), "a ");
    assert_eq!(text::trim_end("  a "), "  a");
    assert_eq!(text::trim(text::trim("  x  ")), "x");
    assert!(text::is_blank(" \u{a0}\n"));
    assert!(text::is_blank(""));
    assert!(!text::is_blank(" . "));
}

#[test]
fn occurrences_are_found() {
    assert!(text::contains("abcabc", "ca"));
    assert!(text::contains("abc", ""));
    assert!(text::contains("", ""));
    assert!(!text::contains("abc", "abcd"));
    assert_eq!(text::last_occurrence("é (a (b", " ("), Some(4));
    assert_eq!(text::last_occurrence("abc", "d"), None);
    assert_eq!(text::last_occurrence("abc", ""), Some(3));
}

#[test]
fn first_and_last_characters_are_stripped() {
    assert_eq!(text::strip_first("⏺x", '⏺'), Some("x"));
    assert_eq!(text::strip_first("x", '⏺'), None);
    assert_eq!(text::strip_first("", 'a'), None);
    assert_eq!(text::strip_last("xé", 'é'), Some("x"));
    assert_eq!(text::strip_last("x", ')'), None);
    assert_eq!(text::strip_last("", ')'), None);
}

#[test]
fn equal_texts_are_the_same() {
    assert!(text::same("mode", "mode"));
    assert!(!text::same("mode", "model"));
    assert_eq!(text::copy_opt(&Some("a".to_string())), Some("a".to_string()));
    assert_eq!(text::copy_opt(&None), None);
}
