use std::ops::Range;

use ct_regex_internal::expr::Delta;
use ct_regex_internal::general::{CaptureFromRanges, IndexedCaptures};
use ct_regex_internal::haystack::Haystack;

// ============================================================================
// INDEXED CAPTURES TESTS
// ============================================================================

#[test]
fn test_indexed_captures_default_is_empty() {
    let caps = IndexedCaptures::default();
    assert!(caps.0.is_empty());
}

#[test]
fn test_indexed_captures_push_single() {
    let mut caps = IndexedCaptures::default();
    caps.push(0, 0..5);

    assert!(!caps.0.is_empty());
    let inner = caps.0.last().unwrap();
    assert_eq!(inner.index, 0);
    assert_eq!(inner.cap, 0..5);
}

#[test]
fn test_indexed_captures_push_multiple() {
    let mut caps = IndexedCaptures::default();
    caps.push(0, 0..10);
    caps.push(1, 0..5);
    caps.push(2, 5..10);

    // Most recent push should be at the front
    let inner = caps.0.last().unwrap();
    assert_eq!(inner.index, 2);
    assert_eq!(inner.cap, 5..10);
}

#[test]
fn test_indexed_captures_into_array_single() {
    let mut caps = IndexedCaptures::default();
    caps.push(0, 0..5);

    let arr: [Option<Range<usize>>; 1] = caps.into_array();
    assert_eq!(arr[0], Some(0..5));
}

#[test]
fn test_indexed_captures_into_array_multiple() {
    let mut caps = IndexedCaptures::default();
    caps.push(0, 0..10);
    caps.push(1, 0..5);
    caps.push(2, 5..10);

    let arr: [Option<Range<usize>>; 3] = caps.into_array();
    assert_eq!(arr[0], Some(0..10));
    assert_eq!(arr[1], Some(0..5));
    assert_eq!(arr[2], Some(5..10));
}

#[test]
fn test_indexed_captures_into_array_with_gaps() {
    let mut caps = IndexedCaptures::default();
    caps.push(0, 0..10);
    caps.push(2, 5..10);
    // index 1 is not pushed

    let arr: [Option<Range<usize>>; 3] = caps.into_array();
    assert_eq!(arr[0], Some(0..10));
    assert_eq!(arr[1], None); // gap
    assert_eq!(arr[2], Some(5..10));
}

#[test]
fn test_indexed_captures_keeps_last_for_duplicates() {
    let mut caps = IndexedCaptures::default();
    caps.push(0, 0..5);
    caps.push(0, 0..10); // duplicate index, pushed later

    let arr: [Option<Range<usize>>; 1] = caps.into_array();
    // Keeps the last one pushed (0..10)
    assert_eq!(arr[0], Some(0..10));
}

#[test]
fn test_indexed_captures_clone_independence() {
    let mut caps = IndexedCaptures::default();
    caps.push(0, 0..5);

    let caps_clone = IndexedCaptures(caps.0.clone());

    caps.push(1, 5..10);

    // The value pushed to should have two captures
    let arr_orig: [Option<Range<usize>>; 2] = caps.into_array();
    assert_eq!(arr_orig[0], Some(0..5));
    assert_eq!(arr_orig[1], Some(5..10));

    // Clone should still only have one
    let arr_clone: [Option<Range<usize>>; 2] = caps_clone.into_array();
    assert_eq!(arr_clone[0], Some(0..5));
    assert_eq!(arr_clone[1], None);
}

// ============================================================================
// FROM CAPTURES TRAIT TESTS
// ============================================================================

// Test captures struct that stores actual capture data
#[derive(Debug)]
struct TestCaptures<'a> {
    hay: Haystack<'a, char>,
    cap0: Range<usize>,
    cap1: Option<Range<usize>>,
}

impl<'a> CaptureFromRanges<'a, char, 2> for TestCaptures<'a> {
    fn from_ranges(captures: [Option<Range<usize>>; 2], hay: Haystack<'a, char>) -> Option<Self> {
        Some(TestCaptures {
            hay,
            cap0: captures[0].clone()?,
            cap1: captures[1].clone(),
        })
    }
}

#[test]
fn test_from_captures_basic() {
    let hay = Haystack::from("hello");
    let captures = [Some(0..5), Some(0..3)];

    let result = TestCaptures::from_ranges(captures, hay);
    assert!(result.is_some());

    let caps = result.unwrap();
    assert_eq!(caps.cap0, 0..5);
    assert_eq!(caps.cap1, Some(0..3));
}

#[test]
fn test_from_captures_with_none() {
    let hay = Haystack::from("hello");
    let captures = [Some(0..5), None];

    let result = TestCaptures::from_ranges(captures, hay);
    assert!(result.is_some());

    let caps = result.unwrap();
    assert_eq!(caps.cap0, 0..5);
    assert_eq!(caps.cap1, None);
}

#[test]
fn test_from_captures_required_missing_returns_none() {
    let hay = Haystack::from("hello");
    let captures = [None, Some(0..3)]; // cap0 is required but None

    let result = TestCaptures::from_ranges(captures, hay);
    assert!(result.is_none());
}

#[test]
fn test_from_captures_slicing() {
    let hay = Haystack::from("hello world");
    let captures = [Some(0..5), Some(6..11)];

    let result = TestCaptures::from_ranges(captures, hay);
    let caps = result.unwrap();

    assert_eq!(caps.hay.slice(caps.cap0.clone()), "hello");
    assert_eq!(caps.hay.slice(caps.cap1.clone().unwrap()), "world");
}

#[test]
fn delta_shifts_later_ranges() {

    let mut delta = Delta::new();
    assert_eq!(delta.0, 0);
    delta.add_diff(12, 10);
    delta.add_diff(7, 10);
    assert_eq!(delta.0, -1);
    let mut range = 5..9;
    delta.apply_to(&mut range);
    assert_eq!(range, 4..8);
}
