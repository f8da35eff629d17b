use arcstr::ArcStr;
use bstr::{BStr, BString};
use ecow::{EcoString, EcoVec};

use ct_regex_internal::haystack::interface::{Haystack, HaystackIter, IntoHaystack, OwnedHaystackable};
use ct_regex_internal::haystack::{ArcStrStack, BStrStack, HipBytStack, HipBytes, HipStrStack, HipText};
use hipstr::{HipByt, HipStr};

#[test]
fn bstr_stack_reads_bytes() {
    let text: &BStr = BStr::new(b"a\xffc");
    let mut hay: BStrStack = text.into_haystack();
    assert!(hay.is_start());
    assert_eq!(hay.item(), Some(b'a'));
    assert_eq!(hay.prev_item(), None);
    assert_eq!(hay.next(), Some(b'a'));
    assert_eq!(hay.item(), Some(0xff));
    assert_eq!(hay.prev_item(), Some(b'a'));
    assert_eq!(hay.index(), 1);
    assert_eq!(hay.remainder_as_slice(), BStr::new(b"\xffc"));
    assert_eq!(hay.inner_slice(), BStr::new(b"a\xffc"));
    hay.progress();
    hay.progress();
    assert!(hay.is_end());
    assert_eq!(hay.next(), None);
    hay.rollback(1);
    assert_eq!(hay.item(), Some(0xff));
}

#[test]
fn bstring_replace_range() {
    let mut owned = BString::from("abcd");
    assert_eq!(OwnedHaystackable::len(&owned), 4);
    assert_eq!(owned.as_haystack().inner_slice(), BStr::new(b"abcd"));
    OwnedHaystackable::replace_range(&mut owned, 1..3, BStr::new(b"xyz"));
    assert_eq!(OwnedHaystackable::as_slice(&owned), BStr::new(b"axyzd"));
    assert_eq!(OwnedHaystackable::len(&owned), 5);
}

#[test]
fn arcstr_stack_reads_chars() {
    let text = ArcStr::from("h\u{e9}\u{1F600}!");
    let mut hay: ArcStrStack = text.into_haystack();
    assert_eq!(hay.item(), Some('h'));
    assert_eq!(hay.next(), Some('h'));
    assert_eq!(hay.item(), Some('\u{e9}'));
    assert_eq!(hay.index(), 1);
    assert_eq!(hay.next(), Some('\u{e9}'));
    assert_eq!(hay.index(), 3);
    assert_eq!(hay.prev_item(), Some('\u{e9}'));
    assert_eq!(&*hay.remainder_as_slice(), "\u{1F600}!");
    assert_eq!(&*hay.inner_slice(), "h\u{e9}\u{1F600}!");
    assert_eq!(hay.next(), Some('\u{1F600}'));
    assert_eq!(hay.index(), 7);
    assert_eq!(hay.next(), Some('!'));
    assert!(hay.is_end());
    assert_eq!(hay.next(), None);
    hay.rollback(3);
    assert_eq!(hay.item(), Some('\u{1F600}'));
    assert_eq!(&*hay.slice_with(1..3), "\u{e9}");
}

#[test]
fn ecostring_replace_range() {
    let mut owned = EcoString::from("a\u{1F9D1}c");
    assert_eq!(OwnedHaystackable::<char>::len(&owned), 6);
    OwnedHaystackable::<char>::replace_range(&mut owned, 1..5, "bb");
    assert_eq!(owned.as_str(), "abbc");
    assert_eq!(OwnedHaystackable::<char>::as_slice(&owned), "abbc");
    let mut hay = OwnedHaystackable::<char>::as_haystack(&owned);
    assert_eq!(hay.next(), Some('a'));
    assert_eq!(hay.next(), Some('b'));
}

#[test]
fn ecovec_replace_range() {
    let mut owned: EcoVec<u8> = EcoVec::from(&b"abcdef"[..]);
    OwnedHaystackable::<u8>::replace_range(&mut owned, 2..4, b"X");
    assert_eq!(OwnedHaystackable::<u8>::as_slice(&owned), b"abXef");
    OwnedHaystackable::<u8>::replace_range(&mut owned, 0..1, b"123");
    assert_eq!(OwnedHaystackable::<u8>::as_slice(&owned), b"123bXef");
    assert_eq!(OwnedHaystackable::<u8>::len(&owned), 7);
    let hay = OwnedHaystackable::<u8>::as_haystack(&owned);
    assert_eq!(hay.item(), Some(b'1'));
}

#[test]
fn hipstr_stack_reads_chars() {
    let text = HipText { inner: HipStr::from("h\u{e9}\u{1F600}!") };
    let mut hay: HipStrStack = text.into_haystack();
    assert_eq!(hay.item(), Some('h'));
    assert_eq!(hay.prev_item(), None);
    assert_eq!(hay.next(), Some('h'));
    assert_eq!(hay.next(), Some('\u{e9}'));
    assert_eq!(hay.index(), 3);
    assert_eq!(hay.prev_item(), Some('\u{e9}'));
    assert_eq!(hay.remainder_as_slice().inner.as_str(), "\u{1F600}!");
    assert_eq!(hay.inner_slice().inner.as_str(), "h\u{e9}\u{1F600}!");
    assert_eq!(hay.slice_with(1..3).inner.as_str(), "\u{e9}");
    assert_eq!(hay.next(), Some('\u{1F600}'));
    assert_eq!(hay.next(), Some('!'));
    assert!(hay.is_end());
    assert_eq!(hay.next(), None);
    hay.rollback(3);
    assert_eq!(hay.item(), Some('\u{1F600}'));
}

#[test]
fn hipstr_replace_range() {
    let mut owned: HipText<'static> = HipText { inner: HipStr::from("a\u{1F9D1}c") };
    assert_eq!(OwnedHaystackable::<char>::len(&owned), 6);
    OwnedHaystackable::<char>::replace_range(&mut owned, 1..5, HipText { inner: HipStr::from("bb") });
    assert_eq!(owned.inner.as_str(), "abbc");
    assert_eq!(OwnedHaystackable::<char>::as_slice(&owned).inner.as_str(), "abbc");
    let mut hay = OwnedHaystackable::<char>::as_haystack(&owned);
    assert_eq!(hay.next(), Some('a'));
    assert_eq!(hay.next(), Some('b'));
}

#[test]
fn hipbyt_stack_reads_bytes() {
    let bytes = HipBytes { inner: HipByt::from(&b"a\xffc"[..]) };
    let mut hay: HipBytStack = bytes.into_haystack();
    assert_eq!(hay.item(), Some(b'a'));
    assert_eq!(hay.prev_item(), None);
    assert_eq!(hay.next(), Some(b'a'));
    assert_eq!(hay.item(), Some(0xff));
    assert_eq!(hay.prev_item(), Some(b'a'));
    assert_eq!(hay.remainder_as_slice().inner.as_slice(), b"\xffc");
    assert_eq!(hay.inner_slice().inner.as_slice(), b"a\xffc");
    hay.progress();
    hay.progress();
    assert!(hay.is_end());
    assert_eq!(hay.next(), None);
}

#[test]
fn hipbyt_replace_range() {
    let mut owned: HipBytes<'static> = HipBytes { inner: HipByt::from(&b"abcdef"[..]) };
    OwnedHaystackable::<u8>::replace_range(&mut owned, 2..4, HipBytes { inner: HipByt::from(&b"XYZ"[..]) });
    assert_eq!(owned.inner.as_slice(), b"abXYZef");
    assert_eq!(OwnedHaystackable::<u8>::len(&owned), 7);
    let hay = OwnedHaystackable::<u8>::as_haystack(&owned);
    assert_eq!(hay.item(), Some(b'a'));
}
