//! The running offset by which replacements shift the ranges of later matches.
use std::ops::Range;
use vstd::prelude::*;

verus! {

/// The number of bytes by which the replacements made so far have moved the rest of a
/// haystack: positive where they lengthened it, negative where they shortened it.
#[derive(Debug, Clone, Copy)]
pub struct Delta(pub isize);

impl Delta {
    /// No shift.
    pub fn new() -> (r: Delta)
        ensures
            r.0 == 0,
    {
        Delta(0)
    }

    /// Adds the shift of a replacement that turned a haystack of length `to` into one of
    /// length `from`. The difference, and the new total, must fit in an `isize`.
    pub fn add_diff(&mut self, from: usize, to: usize)
        requires
            isize::MIN <= from - to <= isize::MAX,
            isize::MIN <= old(self).0 + (from - to) <= isize::MAX,
        ensures
            final(self).0 == old(self).0 + (from - to),
    {
        let diff: i128 = from as i128 - to as i128;
        let total: i128 = self.0 as i128 + diff;
        self.0 = total as isize;
    }

    /// Shifts both ends of `range` by the total; neither may leave the range of a `usize`.
    pub fn apply_to(&self, range: &mut Range<usize>)
        requires
            0 <= old(range).start + self.0 <= usize::MAX,
            0 <= old(range).end + self.0 <= usize::MAX,
        ensures
            final(range).start == old(range).start + self.0,
            final(range).end == old(range).end + self.0,
    {
        let start: i128 = range.start as i128 + self.0 as i128;
        let end: i128 = range.end as i128 + self.0 as i128;
        range.start = start as usize;
        range.end = end as usize;
    }
}

} // verus!
