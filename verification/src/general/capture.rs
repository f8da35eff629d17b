//! Capture conversion for the simple, item-generic [`Haystack`].
use std::ops::Range;
use vstd::prelude::*;

use crate::haystack::item::HaystackItem;
use crate::haystack::simple::Haystack;

verus! {

/// Converts the array of capture ranges of a match against a [`Haystack`] into a capture type.
pub trait CaptureFromRanges<'a, I: HaystackItem, const N: usize>: Sized {
    /// `None` when a group that every match holds has no range.
    fn from_ranges(ranges: [Option<Range<usize>>; N], hay: Haystack<'a, I>) -> Option<Self>;
}

/// The same conversion as [`CaptureFromRanges`], under the name `from_captures`.
pub trait FromCaptures<'a, I: HaystackItem, const N: usize>: Sized {
    /// `None` when a group that every match holds has no range.
    fn from_captures(captures: [Option<Range<usize>>; N], hay: Haystack<'a, I>) -> Option<Self>;
}

} // verus!
