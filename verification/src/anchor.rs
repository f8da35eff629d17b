//! Anchors: cheap checks, derived from a pattern's properties, that rule out positions of a
//! haystack before any matching is attempted there.
use std::marker::PhantomData;
use std::ops::ControlFlow;
use vstd::prelude::*;

use crate::haystack::interface::{Haystack, HaystackIter, HaystackSlice};
use crate::haystack::item::HaystackItem;
use crate::sealed::Sealed;

verus! {

broadcast use vstd::seq::group_seq_axioms, vstd::slice::group_slice_axioms;

/// A set of anchors that a match must satisfy. Whether a position passes depends only on
/// whether it is the start of the haystack and on how many bytes remain after it.
pub trait Anchor: Sealed + Copy {
    /// What [`assert_here`](Self::assert_here) returns at a position that is (or is not) the start,
    /// with `remaining` bytes after it.
    spec fn spec_assert(at_start: bool, remaining: int) -> ControlFlow<(), bool>;

    /// What [`assert_fixed`](Self::assert_fixed) returns at a position with `remaining` bytes
    /// after it.
    spec fn spec_assert_fixed(remaining: int) -> bool;

    /// Moving on keeps what an anchor has answered: after a `Break` every later position breaks too,
    /// and after a `Continue(true)` no later position is skipped with `Continue(false)`.
    proof fn lemma_monotone(at_start: bool, remaining: int, later: int)
        requires
            0 <= later <= remaining,
        ensures
            Self::spec_assert(at_start, remaining) is Break ==> Self::spec_assert(false, later) is Break,
            Self::spec_assert(at_start, remaining) == ControlFlow::<(), bool>::Continue(true)
                ==> Self::spec_assert(false, later) != ControlFlow::<(), bool>::Continue(false),
    ;

    /// Asserts that each anchor in this set could possibly succeed at the haystack's position.
    ///
    /// `Break` means that no match can succeed here or at any later position, so searching
    /// should stop. `Continue(false)` means that no match starts here, but the haystack should
    /// be progressed and checked again; `Continue(true)` means that a match should be tried.
    fn assert_here<'a, H: Haystack<'a>>(hay: &H) -> (r: ControlFlow<(), bool>)
        requires
            H::Item::spec_boundary(hay.spec_bytes(), hay.spec_index()),
        ensures
            r == Self::spec_assert(
                hay.spec_index() == 0,
                hay.spec_bytes().len() - hay.spec_index(),
            ),
    ;

    /// Asserts that each anchor in this set could succeed for a match of the whole remainder
    /// of the haystack. A start anchor is not checked here: such searches begin at the start.
    fn assert_fixed<'a, H: Haystack<'a>>(hay: &H) -> (r: bool)
        requires
            H::Item::spec_boundary(hay.spec_bytes(), hay.spec_index()),
        ensures
            r == Self::spec_assert_fixed(hay.spec_bytes().len() - hay.spec_index()),
    ;
}

/// The number of bytes after the haystack's position.
fn remaining_len<'a, H: Haystack<'a>>(hay: &H) -> (r: usize)
    requires
        H::Item::spec_boundary(hay.spec_bytes(), hay.spec_index()),
    ensures
        r == hay.spec_bytes().len() - hay.spec_index(),
{
    proof {
        hay.lemma_valid();
        H::Item::lemma_boundaries(hay.spec_bytes());
    }
    let rem = hay.remainder_as_slice();
    let bytes = rem.as_bytes();
    bytes.len()
}

/// The match must begin at the start of the haystack.
#[derive(Debug, Default, Clone, Copy)]
pub struct Start;

impl Sealed for Start {

}

impl Anchor for Start {
    open spec fn spec_assert(at_start: bool, remaining: int) -> ControlFlow<(), bool> {
        if at_start {
            ControlFlow::Continue(true)
        } else {
            ControlFlow::Break(())
        }
    }

    open spec fn spec_assert_fixed(remaining: int) -> bool {
        true
    }

    proof fn lemma_monotone(at_start: bool, remaining: int, later: int) {
    }

    fn assert_here<'a, H: Haystack<'a>>(hay: &H) -> (r: ControlFlow<(), bool>) {
        if hay.is_start() {
            ControlFlow::Continue(true)
        } else {
            ControlFlow::Break(())
        }
    }

    fn assert_fixed<'a, H: Haystack<'a>>(_hay: &H) -> (r: bool) {
        true
    }
}

/// A match needs at least `N` bytes.
#[derive(Debug, Default, Clone, Copy)]
pub struct MinLen<const N: usize>;

impl<const N: usize> Sealed for MinLen<N> {

}

impl<const N: usize> Anchor for MinLen<N> {
    open spec fn spec_assert(at_start: bool, remaining: int) -> ControlFlow<(), bool> {
        if remaining >= N {
            ControlFlow::Continue(true)
        } else {
            ControlFlow::Break(())
        }
    }

    open spec fn spec_assert_fixed(remaining: int) -> bool {
        remaining >= N
    }

    proof fn lemma_monotone(at_start: bool, remaining: int, later: int) {
    }

    fn assert_here<'a, H: Haystack<'a>>(hay: &H) -> (r: ControlFlow<(), bool>) {
        if remaining_len(hay) >= N {
            ControlFlow::Continue(true)
        } else {
            ControlFlow::Break(())
        }
    }

    fn assert_fixed<'a, H: Haystack<'a>>(hay: &H) -> (r: bool) {
        remaining_len(hay) >= N
    }
}

/// A match spans at most `N` bytes.
#[derive(Debug, Default, Clone, Copy)]
pub struct MaxLen<const N: usize>;

impl<const N: usize> Sealed for MaxLen<N> {

}

impl<const N: usize> Anchor for MaxLen<N> {
    open spec fn spec_assert(at_start: bool, remaining: int) -> ControlFlow<(), bool> {
        ControlFlow::Continue(true)
    }

    open spec fn spec_assert_fixed(remaining: int) -> bool {
        remaining <= N
    }

    proof fn lemma_monotone(at_start: bool, remaining: int, later: int) {
    }

    fn assert_here<'a, H: Haystack<'a>>(_hay: &H) -> (r: ControlFlow<(), bool>) {
        ControlFlow::Continue(true)
    }

    fn assert_fixed<'a, H: Haystack<'a>>(hay: &H) -> (r: bool) {
        remaining_len(hay) <= N
    }
}

/// A match spans at most `N` bytes and must end at the end of the haystack.
#[derive(Debug, Default, Clone, Copy)]
pub struct EndAndMaxLen<const N: usize>;

impl<const N: usize> Sealed for EndAndMaxLen<N> {

}

impl<const N: usize> Anchor for EndAndMaxLen<N> {
    open spec fn spec_assert(at_start: bool, remaining: int) -> ControlFlow<(), bool> {
        ControlFlow::Continue(remaining <= N)
    }

    open spec fn spec_assert_fixed(remaining: int) -> bool {
        remaining <= N
    }

    proof fn lemma_monotone(at_start: bool, remaining: int, later: int) {
    }

    fn assert_here<'a, H: Haystack<'a>>(hay: &H) -> (r: ControlFlow<(), bool>) {
        if remaining_len(hay) <= N {
            ControlFlow::Continue(true)
        } else {
            ControlFlow::Continue(false)
        }
    }

    fn assert_fixed<'a, H: Haystack<'a>>(hay: &H) -> (r: bool) {
        remaining_len(hay) <= N
    }
}

/// No anchor: every position may start a match.
#[derive(Debug, Default, Clone, Copy)]
pub struct AnchorNone;

impl Sealed for AnchorNone {

}

impl Anchor for AnchorNone {
    open spec fn spec_assert(at_start: bool, remaining: int) -> ControlFlow<(), bool> {
        ControlFlow::Continue(true)
    }

    open spec fn spec_assert_fixed(remaining: int) -> bool {
        true
    }

    proof fn lemma_monotone(at_start: bool, remaining: int, later: int) {
    }

    fn assert_here<'a, H: Haystack<'a>>(_hay: &H) -> (r: ControlFlow<(), bool>) {
        ControlFlow::Continue(true)
    }

    fn assert_fixed<'a, H: Haystack<'a>>(_hay: &H) -> (r: bool) {
        true
    }
}

/// Combines two results in order, as `Continue(first? && second?)` does: a `Break` of the
/// first, or a `Continue(false)` of it, decides without the second.
pub open spec fn and_then_spec(
    first: ControlFlow<(), bool>,
    second: ControlFlow<(), bool>,
) -> ControlFlow<(), bool> {
    match first {
        ControlFlow::Break(()) => ControlFlow::Break(()),
        ControlFlow::Continue(false) => ControlFlow::Continue(false),
        ControlFlow::Continue(true) => second,
    }
}

/// Two anchors that must both hold, checked in order.
#[derive(Debug, Default, Copy)]
pub struct AnchorPair<A: Anchor, B: Anchor>(pub PhantomData<(A, B)>);

impl<A: Anchor, B: Anchor> Clone for AnchorPair<A, B> {
    fn clone(&self) -> (r: Self)
        ensures
            r == *self,
    {
        *self
    }
}

impl<A: Anchor, B: Anchor> Sealed for AnchorPair<A, B> {

}

impl<A: Anchor, B: Anchor> Anchor for AnchorPair<A, B> {
    open spec fn spec_assert(at_start: bool, remaining: int) -> ControlFlow<(), bool> {
        and_then_spec(A::spec_assert(at_start, remaining), B::spec_assert(at_start, remaining))
    }

    open spec fn spec_assert_fixed(remaining: int) -> bool {
        A::spec_assert_fixed(remaining) && B::spec_assert_fixed(remaining)
    }

    proof fn lemma_monotone(at_start: bool, remaining: int, later: int) {
        A::lemma_monotone(at_start, remaining, later);
        B::lemma_monotone(at_start, remaining, later);
    }

    fn assert_here<'a, H: Haystack<'a>>(hay: &H) -> (r: ControlFlow<(), bool>) {
        match A::assert_here(hay) {
            ControlFlow::Break(()) => ControlFlow::Break(()),
            ControlFlow::Continue(false) => ControlFlow::Continue(false),
            ControlFlow::Continue(true) => B::assert_here(hay),
        }
    }

    fn assert_fixed<'a, H: Haystack<'a>>(hay: &H) -> (r: bool) {
        A::assert_fixed(hay) && B::assert_fixed(hay)
    }
}

/// Three anchors that must all hold, checked in order.
#[derive(Debug, Default, Copy)]
pub struct AnchorSet<A: Anchor, B: Anchor, C: Anchor>(pub PhantomData<(A, B, C)>);

impl<A: Anchor, B: Anchor, C: Anchor> Clone for AnchorSet<A, B, C> {
    fn clone(&self) -> (r: Self)
        ensures
            r == *self,
    {
        *self
    }
}

impl<A: Anchor, B: Anchor, C: Anchor> Sealed for AnchorSet<A, B, C> {

}

impl<A: Anchor, B: Anchor, C: Anchor> Anchor for AnchorSet<A, B, C> {
    open spec fn spec_assert(at_start: bool, remaining: int) -> ControlFlow<(), bool> {
        and_then_spec(
            A::spec_assert(at_start, remaining),
            and_then_spec(B::spec_assert(at_start, remaining), C::spec_assert(at_start, remaining)),
        )
    }

    open spec fn spec_assert_fixed(remaining: int) -> bool {
        A::spec_assert_fixed(remaining) && B::spec_assert_fixed(remaining)
            && C::spec_assert_fixed(remaining)
    }

    proof fn lemma_monotone(at_start: bool, remaining: int, later: int) {
        A::lemma_monotone(at_start, remaining, later);
        B::lemma_monotone(at_start, remaining, later);
        C::lemma_monotone(at_start, remaining, later);
    }

    fn assert_here<'a, H: Haystack<'a>>(hay: &H) -> (r: ControlFlow<(), bool>) {
        match A::assert_here(hay) {
            ControlFlow::Break(()) => ControlFlow::Break(()),
            ControlFlow::Continue(false) => ControlFlow::Continue(false),
            ControlFlow::Continue(true) => match B::assert_here(hay) {
                ControlFlow::Break(()) => ControlFlow::Break(()),
                ControlFlow::Continue(false) => ControlFlow::Continue(false),
                ControlFlow::Continue(true) => C::assert_here(hay),
            },
        }
    }

    fn assert_fixed<'a, H: Haystack<'a>>(hay: &H) -> (r: bool) {
        A::assert_fixed(hay) && B::assert_fixed(hay) && C::assert_fixed(hay)
    }
}

/// Once an anchor answers `Break`, it answers `Break` at every later position of the
/// haystack (none of which is the start, and none of which has more bytes after it): no
/// match can succeed there, so a search may stop for good.
pub proof fn law_break_is_final<A: Anchor>(at_start: bool, remaining: int, later: int)
    requires
        0 <= later <= remaining,
        A::spec_assert(at_start, remaining) is Break,
    ensures
        A::spec_assert(false, later) is Break,
{
    A::lemma_monotone(at_start, remaining, later);
}

/// A `Break` from an anchor stays a `Break` after the haystack progresses: `progress` keeps
/// the bytes, moves the index forward and never past the end (as its contract states), so the
/// bytes after the index never grow and the start is never reached again.
pub proof fn law_break_stays_after_progress<'a, A: Anchor, H: Haystack<'a>>(before: H, after: H)
    requires
        after.spec_bytes() == before.spec_bytes(),
        0 <= before.spec_index() <= after.spec_index() <= after.spec_bytes().len(),
        A::spec_assert(
            before.spec_index() == 0,
            before.spec_bytes().len() - before.spec_index(),
        ) is Break,
    ensures
        A::spec_assert(
            after.spec_index() == 0,
            after.spec_bytes().len() - after.spec_index(),
        ) is Break,
{
    if after.spec_index() != before.spec_index() {
        A::lemma_monotone(
            before.spec_index() == 0,
            before.spec_bytes().len() - before.spec_index(),
            after.spec_bytes().len() - after.spec_index(),
        );
    }
}

/// `MinLen` passes a position exactly when at least `N` bytes remain after it, and then its
/// fixed check passes too; it never answers `Continue(false)`.
pub proof fn law_min_len_checks_length<const N: usize>(at_start: bool, remaining: int)
    ensures
        MinLen::<N>::spec_assert_fixed(remaining) == (remaining >= N),
        (MinLen::<N>::spec_assert(at_start, remaining) == ControlFlow::<(), bool>::Continue(true))
            == (remaining >= N),
        MinLen::<N>::spec_assert(at_start, remaining) != ControlFlow::<(), bool>::Continue(false),
{
}

} // verus!
