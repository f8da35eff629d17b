use std::ops::ControlFlow::{Break, Continue};

use ct_regex_internal::anchor::{Anchor, EndAndMaxLen, MinLen, Start};
use ct_regex_internal::haystack::interface::{Haystack, HaystackIter, IntoHaystack};
use ct_regex_internal::haystack::{ByteStack, StrStack};
use ct_regex_internal::hir::{check_writable, parse, CastClass, ClassNode, HirExtension, HirNode};

#[test]
fn break_stays_break_as_the_haystack_moves() {
    let mut hay: StrStack = "hay".into_haystack();
    hay.progress();
    assert_eq!(MinLen::<3>::assert_here(&hay), Break(()));
    assert_eq!(Start::assert_here(&hay), Break(()));
    hay.progress();
    assert_eq!(MinLen::<3>::assert_here(&hay), Break(()));
    assert_eq!(Start::assert_here(&hay), Break(()));
    hay.progress();
    assert_eq!(MinLen::<3>::assert_here(&hay), Break(()));
    assert_eq!(Start::assert_here(&hay), Break(()));

    let mut hay: StrStack = "ha".into_haystack();
    assert_eq!(MinLen::<2>::assert_here(&hay), Continue(true));
    hay.progress();
    assert_eq!(MinLen::<2>::assert_here(&hay), Break(()));
    hay.skip(1);
    assert_eq!(MinLen::<2>::assert_here(&hay), Break(()));
    assert_eq!(EndAndMaxLen::<2>::assert_here(&hay), Continue(true));
}

#[test]
fn items_read_and_items_left_make_the_whole_haystack() {
    let text = "a\u{1F600}b\u{e9}";
    for split in 0..=4 {
        let mut hay: StrStack = text.into_haystack();
        let mut read = Vec::new();
        for _ in 0..split {
            read.push(hay.next().unwrap());
        }
        let index = hay.current_index();
        let mut rest = Vec::new();
        while let Some(c) = hay.next() {
            rest.push(c);
        }
        assert_eq!(text[..index].chars().collect::<Vec<_>>(), read);
        read.extend(rest);
        assert_eq!(read, text.chars().collect::<Vec<_>>());
    }

    let bytes: &[u8] = b"ab\xffc";
    let mut hay: ByteStack = bytes.into_haystack();
    hay.next();
    hay.next();
    let mut rest = Vec::new();
    while let Some(b) = hay.next() {
        rest.push(b);
    }
    assert_eq!(rest, b"\xffc".to_vec());
}

#[test]
fn every_group_and_the_whole_match_are_recorded() {
    let hir = parse("(a)(?P<second>b)(?:c)").unwrap();
    let (_text, groups) = hir.into_matcher::<char>();
    assert_eq!(groups.len(), 3);
    assert_eq!(groups[0].name.as_deref(), Some("whole_match"));
    assert!(groups[0].required);
    assert_eq!(groups[1].name, None);
    assert_eq!(groups[2].name.as_deref(), Some("second"));

    let hir = parse("xyz").unwrap();
    let (_text, groups) = hir.into_matcher::<u8>();
    assert_eq!(groups.len(), 1);
    assert_eq!(groups[0].name.as_deref(), Some("whole_match"));
}

#[test]
fn unicode_classes_only_become_byte_classes_when_ascii() {
    let ascii = HirNode::Class(ClassNode::Unicode(vec![('a', 'c'), ('x', 'x')]));
    assert!(check_writable(&ascii, true));
    assert!(check_writable(&ascii, false));
    let wide = HirNode::Class(ClassNode::Unicode(vec![('a', '\u{e9}')]));
    assert!(!check_writable(&wide, true));
    assert!(check_writable(&wide, false));

    match <u8 as CastClass>::cast_class(ClassNode::Unicode(vec![('a', 'c'), ('x', 'x')])) {
        ClassNode::Bytes(ranges) => assert_eq!(ranges, vec![(b'a', b'c'), (b'x', b'x')]),
        ClassNode::Unicode(_) => panic!("expected a byte class"),
    }
    match <char as CastClass>::cast_class(ClassNode::Bytes(vec![(b'0', b'9')])) {
        ClassNode::Unicode(ranges) => assert_eq!(ranges, vec![('0', '9')]),
        ClassNode::Bytes(_) => panic!("expected a unicode class"),
    }
}

#[test]
fn unwritable_expressions_are_refused() {
    let hir = parse("[a-\u{e9}]").unwrap();
    assert!(hir.try_into_matcher::<u8>().is_none());
    let hir = parse("[a-\u{e9}]").unwrap();
    let (text, groups) = hir.try_into_matcher::<char>().unwrap();
    assert!(text.contains("Scalar"));
    assert_eq!(groups.len(), 1);
}
