//! Recording the ranges of capture groups while matching, and turning them into a fixed-size
//! array with one entry per group.
use std::ops::Range;
use vstd::prelude::*;

use crate::haystack::interface::Haystack;

verus! {

/// The range of the haystack matched by the capture group with number `index`.
#[derive(Debug)]
pub struct IndexedCapture {
    pub index: usize,
    pub cap: Range<usize>,
}

impl Clone for IndexedCapture {
    fn clone(&self) -> (r: Self)
        ensures
            r == *self,
    {
        IndexedCapture { index: self.index, cap: self.cap.start..self.cap.end }
    }
}

/// The captures recorded during a match, in the order they were recorded. A group may be
/// recorded more than once (when it is repeated); the latest record is the one that counts.
#[derive(Debug, Default)]
pub struct IndexedCaptures(pub Vec<IndexedCapture>);

/// The range most recently recorded for group `i` among `caps`, if any.
pub open spec fn latest_capture(caps: Seq<IndexedCapture>, i: int) -> Option<Range<usize>>
    decreases caps.len(),
{
    if caps.len() == 0 {
        None
    } else if caps.last().index == i {
        Some(caps.last().cap)
    } else {
        latest_capture(caps.drop_last(), i)
    }
}

/// `<[T; N]>::try_from(Vec<T>)`: the standard library documents that the conversion succeeds
/// exactly when the vector holds `N` elements, keeping them in order.
#[verifier::external_body]
fn array_from_vec<T, const N: usize>(v: Vec<T>) -> (r: [T; N])
    requires
        v@.len() == N,
    ensures
        r@ == v@,
{
    <[T; N]>::try_from(v).ok().expect("the vector holds exactly N elements")
}

impl IndexedCaptures {
    /// The records, oldest first.
    pub open spec fn spec_records(&self) -> Seq<IndexedCapture> {
        self.0@
    }

    /// Records that group `index` matched the range `cap`.
    pub fn push(&mut self, index: usize, cap: Range<usize>)
        ensures
            final(self).spec_records() == old(self).spec_records().push(
                IndexedCapture { index, cap },
            ),
    {
        self.0.push(IndexedCapture { index, cap });
    }

    /// One entry per group number below `N`: the range most recently recorded for that group,
    /// or `None` for a group that never matched. Every recorded group number must be below
    /// `N`.
    pub fn into_array<const N: usize>(self) -> (r: [Option<Range<usize>>; N])
        requires
            forall|k: int|
                0 <= k < self.spec_records().len() ==> (#[trigger] self.spec_records()[k]).index
                    < N,
        ensures
            forall|i: int| 0 <= i < N ==> #[trigger] r@[i] == latest_capture(self.spec_records(), i),
    {
        let records = self.0;
        let mut res: Vec<Option<Range<usize>>> = Vec::new();
        let mut i: usize = 0;
        while i < N
            invariant
                i <= N,
                res@.len() == i,
                forall|j: int| 0 <= j < i ==> #[trigger] res@[j] == latest_capture(records@, j),
            decreases N - i,
        {
            let mut k: usize = records.len();
            let mut found: Option<Range<usize>> = None;
            assert(records@.subrange(0, k as int) =~= records@);
            while k > 0
                invariant
                    k <= records@.len(),
                    latest_capture(records@, i as int) == (match found {
                        Some(r) => Some(r),
                        None => latest_capture(records@.subrange(0, k as int), i as int),
                    }),
                decreases k,
            {
                let ghost before = records@.subrange(0, k as int);
                assert(before.drop_last() =~= records@.subrange(0, k - 1));
                if found.is_none() && records[k - 1].index == i {
                    let c = &records[k - 1].cap;
                    found = Some(c.start..c.end);
                }
                k = k - 1;
            }
            res.push(found);
            i = i + 1;
        }
        array_from_vec(res)
    }
}

/// Converts the array of capture ranges of a match into a capture type for a haystack slice.
/// Implemented by the capture types that the `regex!` macro generates.
pub trait CaptureFromRanges<'a, H: Haystack<'a>, const N: usize>: Sized {
    /// `None` when a group that every match holds has no range.
    fn from_ranges(ranges: [Option<Range<usize>>; N], hay: H) -> Option<Self>;
}

} // verus!
