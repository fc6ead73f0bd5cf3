use std::borrow::Cow;
use str_utils::sanitizing::{is_valid_char, sanitize};

#[test]
fn test_is_valid_char() {
    assert!(!is_valid_char('\x1a'));
    assert!(!is_valid_char('\x00'));
    assert!(is_valid_char(' '));
    assert!(is_valid_char('2'));
    assert!(is_valid_char('A'));
    assert!(is_valid_char('\\'));
    assert!(is_valid_char('\n'));
    assert!(is_valid_char('\r'));
    assert!(is_valid_char('\t'));
    assert!(is_valid_char('a'));
    assert!(is_valid_char('à'));
    assert!(is_valid_char('é'));
}

#[test]
fn test_sanitize() {
    assert_eq!(&*sanitize("a\x1ab"), "ab");
    assert_eq!(&*sanitize(" Ab31_ "), " Ab31_ ");
}

#[test]
fn sanitize_borrows_what_it_does_not_change() {
    assert!(matches!(sanitize("plain\ttext\n"), Cow::Borrowed("plain\ttext\n")));
    assert!(matches!(sanitize(""), Cow::Borrowed("")));
    assert!(matches!(sanitize("a\x01"), Cow::Owned(_)));
    assert_eq!(&*sanitize("\x00a\x1fb\x07"), "ab\x07");
    assert!(is_valid_char('\x07'));
    assert!(is_valid_char('\x08'));
    assert!(is_valid_char('\x0B'));
    assert!(is_valid_char('\x0C'));
    assert!(!is_valid_char('\x1f'));
}
