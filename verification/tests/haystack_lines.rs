use ct_regex_internal::haystack::interface::{Haystack, IntoHaystack};
use ct_regex_internal::haystack::{HaystackItem, StrStack};
use ct_regex_internal::hir::Groups;

fn at(text: &str, index: usize) -> StrStack<'_> {
    let mut hay: StrStack = text.into_haystack();
    hay.rollback(index);
    hay
}

#[test]
fn line_starts_and_ends() {
    let text = "a\r\nb\rc\nd";
    assert!(at(text, 0).is_line_start());
    assert!(!at(text, 2).is_line_start());
    assert!(at(text, 3).is_line_start());
    assert!(at(text, 7).is_line_start());
    assert!(!at(text, 1).is_line_end());
    assert!(at(text, 2).is_line_end());
    assert!(at(text, 6).is_line_end());
    assert!(at(text, 8).is_line_end());
}

#[test]
fn crlf_line_starts_and_ends() {
    let text = "a\r\nb\rc\nd";
    assert!(at(text, 0).is_crlf_start());
    assert!(!at(text, 1).is_crlf_start());
    assert!(!at(text, 2).is_crlf_start());
    assert!(at(text, 3).is_crlf_start());
    assert!(at(text, 5).is_crlf_start());
    assert!(!at(text, 0).is_crlf_end());
    assert!(at(text, 1).is_crlf_end());
    assert!(!at(text, 2).is_crlf_end());
    assert!(at(text, 4).is_crlf_end());
    assert!(at(text, 6).is_crlf_end());
    assert!(at(text, 8).is_crlf_end());
}

#[test]
fn reset_returns_to_the_start() {
    let mut hay: StrStack = "xyz".into_haystack();
    hay.progress();
    hay.progress();
    assert_eq!(hay.index(), 2);
    hay.reset();
    assert_eq!(hay.index(), 0);
    assert_eq!(hay.item(), Some('x'));
}

#[test]
fn items_collected_from_text() {
    assert_eq!(char::collect_from_str("h\u{e9}llo"), vec!['h', '\u{e9}', 'l', 'l', 'o']);
    assert_eq!(u8::collect_from_str("h\u{e9}"), vec![b'h', 0xc3, 0xa9]);
}

#[test]
fn group_digits_are_set() {
    let mut groups = Groups::new();
    groups.insert(1, Some("year".to_string()), 0..0);
    groups.set_digits(1, 2..5);
    let list = groups.into_vec();
    assert_eq!(list.len(), 2);
    assert_eq!(list[1].digits, 2..5);
    assert_eq!(list[1].name.as_deref(), Some("year"));
    assert_eq!(list[0].digits, 0..0);
}
