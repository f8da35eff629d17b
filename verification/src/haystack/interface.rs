//! The traits that haystacks implement: stateful cursors over a slice of text or bytes
//! that can report, advance past, and rewind to individual items.
use std::ops::Range;
use vstd::prelude::*;
use vstd::string::StringSliceAdditionalSpecFns;

use crate::haystack::item::{items_before, items_from, HaystackItem};

verus! {

/// A slice of the underlying haystack, of which sub-slices can be taken for capture groups.
/// It is implemented for references such as `&str` and `&[u8]`, so that it can be copied.
pub trait HaystackSlice<'a>: Sized {
    /// The item contained within this slice.
    type Item: HaystackItem;

    /// The bytes that make up this slice.
    spec fn spec_slice_bytes(&self) -> Seq<u8>;

    /// A slice always holds a valid sequence of its items.
    proof fn lemma_slice_valid(&self)
        ensures
            Self::Item::spec_valid(self.spec_slice_bytes()),
    ;

    /// Slices the underlying slice with the provided (half-open) `range`, used for retrieving
    /// values of capture groups. Both ends must lie between items.
    fn slice_with(&self, range: Range<usize>) -> (r: Self)
        requires
            range.start <= range.end,
            Self::Item::spec_boundary(self.spec_slice_bytes(), range.start as int),
            Self::Item::spec_boundary(self.spec_slice_bytes(), range.end as int),
        ensures
            r.spec_slice_bytes() == self.spec_slice_bytes().subrange(
                range.start as int,
                range.end as int,
            ),
    ;

    /// The bytes that make up this slice.
    fn as_bytes(&self) -> (r: &[u8])
        ensures
            r@ == self.spec_slice_bytes(),
    ;
}

/// The required part of a haystack: a cursor over the bytes of a whole haystack, standing at a
/// byte index. Items are read at the index; the index only ever moves to positions between
/// items unless it is set directly with [`go_to`](Self::go_to).
pub trait HaystackIter<'a>: Sized {
    type Item: HaystackItem;

    /// The slice type returned when slicing the underlying haystack.
    type Slice: HaystackSlice<'a, Item = Self::Item>;

    /// The bytes of the whole haystack.
    spec fn spec_bytes(&self) -> Seq<u8>;

    /// The current byte index into the whole haystack.
    spec fn spec_index(&self) -> int;

    /// The bytes of a haystack always hold a valid sequence of its items.
    proof fn lemma_valid(&self)
        ensures
            Self::Item::spec_valid(self.spec_bytes()),
    ;

    /// Returns the item currently being matched in the haystack, `None` at the end.
    fn current_item(&self) -> (r: Option<Self::Item>)
        requires
            Self::Item::spec_boundary(self.spec_bytes(), self.spec_index()),
        ensures
            r == (if items_from::<Self::Item>(self.spec_bytes(), self.spec_index()).len() > 0 {
                Some(items_from::<Self::Item>(self.spec_bytes(), self.spec_index())[0])
            } else {
                None
            }),
    ;

    /// Returns the item last matched in the haystack, `None` at the start.
    fn prev_item(&self) -> (r: Option<Self::Item>)
        requires
            Self::Item::spec_boundary(self.spec_bytes(), self.spec_index()),
        ensures
            r == (if self.spec_index() == 0 {
                None
            } else {
                Some(items_before::<Self::Item>(self.spec_bytes(), self.spec_index()).last())
            }),
    ;

    /// Returns the current byte index into the whole haystack.
    fn current_index(&self) -> (r: usize)
        ensures
            r == self.spec_index(),
    ;

    /// Returns the item at the current index and moves past it; at the end, returns `None`
    /// and stays put.
    fn next(&mut self) -> (r: Option<Self::Item>)
        requires
            Self::Item::spec_boundary(old(self).spec_bytes(), old(self).spec_index()),
        ensures
            final(self).spec_bytes() == old(self).spec_bytes(),
            Self::Item::spec_boundary(final(self).spec_bytes(), final(self).spec_index()),
            match r {
                None => {
                    &&& final(self).spec_index() == old(self).spec_index()
                    &&& old(self).spec_index() == old(self).spec_bytes().len()
                    &&& items_from::<Self::Item>(old(self).spec_bytes(), old(self).spec_index()).len()
                        == 0
                },
                Some(c) => {
                    &&& old(self).spec_index() < final(self).spec_index()
                    &&& items_from::<Self::Item>(old(self).spec_bytes(), old(self).spec_index())
                        == seq![c] + items_from::<Self::Item>(
                        final(self).spec_bytes(),
                        final(self).spec_index(),
                    )
                    &&& items_before::<Self::Item>(
                        final(self).spec_bytes(),
                        final(self).spec_index(),
                    ) == items_before::<Self::Item>(
                        old(self).spec_bytes(),
                        old(self).spec_index(),
                    ).push(c)
                },
            },
    ;

    /// Returns the whole underlying slice, as it was when this haystack was created.
    fn whole_slice(&self) -> (r: Self::Slice)
        ensures
            r.spec_slice_bytes() == self.spec_bytes(),
    ;

    /// Returns the remaining contents of this haystack, from the current index.
    fn remainder_as_slice(&self) -> (r: Self::Slice)
        requires
            Self::Item::spec_boundary(self.spec_bytes(), self.spec_index()),
        ensures
            r.spec_slice_bytes() == self.spec_bytes().subrange(
                self.spec_index(),
                self.spec_bytes().len() as int,
            ),
    ;

    /// Moves the index to `index`. Reading items requires it to lie between two items, as all
    /// indexes produced by this haystack do.
    fn go_to(&mut self, index: usize)
        ensures
            final(self).spec_bytes() == old(self).spec_bytes(),
            final(self).spec_index() == index,
    ;
}

/// The provided part of a haystack, implemented for every [`HaystackIter`]: the operations
/// used when matching, capturing, and checking anchors.
pub trait Haystack<'a>: HaystackIter<'a> {
    /// Returns the item currently being matched in the haystack, `None` at the end.
    fn item(&self) -> (r: Option<Self::Item>)
        requires
            Self::Item::spec_boundary(self.spec_bytes(), self.spec_index()),
        ensures
            r == (if items_from::<Self::Item>(self.spec_bytes(), self.spec_index()).len() > 0 {
                Some(items_from::<Self::Item>(self.spec_bytes(), self.spec_index())[0])
            } else {
                None
            }),
    {
        self.current_item()
    }

    /// Returns the current byte index into the whole haystack.
    fn index(&self) -> (r: usize)
        ensures
            r == self.spec_index(),
    {
        self.current_index()
    }

    /// Moves past the current item, if any: the index moves forward by the item's width, so
    /// the bytes after it never grow.
    fn progress(&mut self)
        requires
            Self::Item::spec_boundary(old(self).spec_bytes(), old(self).spec_index()),
        ensures
            final(self).spec_bytes() == old(self).spec_bytes(),
            Self::Item::spec_boundary(final(self).spec_bytes(), final(self).spec_index()),
            old(self).spec_index() <= final(self).spec_index() <= final(self).spec_bytes().len(),
            items_from::<Self::Item>(old(self).spec_bytes(), old(self).spec_index()).len() > 0
                ==> old(self).spec_index() < final(self).spec_index(),
            items_from::<Self::Item>(old(self).spec_bytes(), old(self).spec_index()).len() == 0
                ==> final(self).spec_index() == old(self).spec_index(),
            items_from::<Self::Item>(old(self).spec_bytes(), old(self).spec_index()).len() > 0
                ==> items_from::<Self::Item>(old(self).spec_bytes(), old(self).spec_index())
                == seq![items_from::<Self::Item>(old(self).spec_bytes(), old(self).spec_index())[0]]
                + items_from::<Self::Item>(final(self).spec_bytes(), final(self).spec_index()),
    {
        let _ = self.next();
        proof {
            self.lemma_valid();
            Self::Item::lemma_boundaries(self.spec_bytes());
        }
    }

    /// Returns the whole underlying slice, as it was when this haystack was created.
    fn inner_slice(&self) -> (r: Self::Slice)
        ensures
            r.spec_slice_bytes() == self.spec_bytes(),
    {
        self.whole_slice()
    }

    /// Slices the whole haystack with the provided (half-open) `range`.
    fn slice_with(&self, range: Range<usize>) -> (r: Self::Slice)
        requires
            range.start <= range.end,
            Self::Item::spec_boundary(self.spec_bytes(), range.start as int),
            Self::Item::spec_boundary(self.spec_bytes(), range.end as int),
        ensures
            r.spec_slice_bytes() == self.spec_bytes().subrange(
                range.start as int,
                range.end as int,
            ),
    {
        self.inner_slice().slice_with(range)
    }

    /// Moves back to the start of the haystack.
    fn reset(&mut self)
        ensures
            final(self).spec_bytes() == old(self).spec_bytes(),
            final(self).spec_index() == 0,
    {
        self.go_to(0);
    }

    /// Restores the index to `state`, previously obtained from [`index`](Self::index).
    fn rollback(&mut self, state: usize)
        ensures
            final(self).spec_bytes() == old(self).spec_bytes(),
            final(self).spec_index() == state,
    {
        self.go_to(state);
    }

    /// Moves the index forward by `count` bytes.
    fn skip(&mut self, count: usize)
        requires
            old(self).spec_index() + count <= usize::MAX,
        ensures
            final(self).spec_bytes() == old(self).spec_bytes(),
            final(self).spec_index() == old(self).spec_index() + count,
    {
        let i = self.index();
        self.go_to(i + count);
    }

    /// Whether the index is at the start of the haystack.
    fn is_start(&self) -> (r: bool)
        ensures
            r == (self.spec_index() == 0),
    {
        self.current_index() == 0
    }

    /// Whether no items remain.
    fn is_end(&self) -> (r: bool)
        requires
            Self::Item::spec_boundary(self.spec_bytes(), self.spec_index()),
        ensures
            r == (items_from::<Self::Item>(self.spec_bytes(), self.spec_index()).len() == 0),
    {
        self.item().is_none()
    }

    /// Whether the index is at the start of a line: at the start, or just after a `\n`.
    fn is_line_start(&self) -> (r: bool)
        requires
            Self::Item::spec_boundary(self.spec_bytes(), self.spec_index()),
        ensures
            r == (self.spec_index() == 0 || items_before::<Self::Item>(
                self.spec_bytes(),
                self.spec_index(),
            ).last().spec_is_newline()),
    {
        match self.prev_item() {
            None => true,
            Some(c) => c.is_newline(),
        }
    }

    /// Whether the index is at the end of a line: at the end, or just before a `\n`.
    fn is_line_end(&self) -> (r: bool)
        requires
            Self::Item::spec_boundary(self.spec_bytes(), self.spec_index()),
        ensures
            r == (items_from::<Self::Item>(self.spec_bytes(), self.spec_index()).len() == 0
                || items_from::<Self::Item>(self.spec_bytes(), self.spec_index())[0].spec_is_newline()),
    {
        match self.item() {
            None => true,
            Some(c) => c.is_newline(),
        }
    }

    /// Whether the index is at the start of a line, where lines may end in `\r\n`, `\n` or
    /// `\r`: never between the two items of a `\r\n`.
    fn is_crlf_start(&self) -> (r: bool)
        requires
            Self::Item::spec_boundary(self.spec_bytes(), self.spec_index()),
        ensures
            r == crlf_start::<Self::Item>(
                self.spec_bytes(),
                self.spec_index(),
            ),
    {
        match self.prev_item() {
            None => true,
            Some(p) => {
                if p.is_newline() {
                    true
                } else if p.is_return() {
                    match self.item() {
                        Some(c) => !c.is_newline(),
                        None => true,
                    }
                } else {
                    false
                }
            },
        }
    }

    /// Whether the index is at the end of a line, where lines may end in `\r\n`, `\n` or
    /// `\r`: never between the two items of a `\r\n`.
    fn is_crlf_end(&self) -> (r: bool)
        requires
            Self::Item::spec_boundary(self.spec_bytes(), self.spec_index()),
        ensures
            r == crlf_end::<Self::Item>(
                self.spec_bytes(),
                self.spec_index(),
            ),
    {
        match self.item() {
            None => true,
            Some(c) => {
                if c.is_newline() {
                    match self.prev_item() {
                        Some(p) => !p.is_return(),
                        None => true,
                    }
                } else {
                    c.is_return()
                }
            },
        }
    }
}

impl<'a, T: HaystackIter<'a>> Haystack<'a> for T {

}

/// Whether byte index `i` of `bytes` starts a line, when lines may end in `\r\n`, `\n` or `\r`.
pub open spec fn crlf_start<I: HaystackItem>(bytes: Seq<u8>, i: int) -> bool {
    if i == 0 {
        true
    } else {
        let prev = items_before::<I>(bytes, i).last();
        let rest = items_from::<I>(bytes, i);
        prev.spec_is_newline() || (prev.spec_is_return() && !(rest.len() > 0
            && rest[0].spec_is_newline()))
    }
}

/// Whether byte index `i` of `bytes` ends a line, when lines may end in `\r\n`, `\n` or `\r`.
pub open spec fn crlf_end<I: HaystackItem>(bytes: Seq<u8>, i: int) -> bool {
    let rest = items_from::<I>(bytes, i);
    if rest.len() == 0 {
        true
    } else if rest[0].spec_is_newline() {
        !(i != 0 && items_before::<I>(bytes, i).last().spec_is_return())
    } else {
        rest[0].spec_is_return()
    }
}

/// A [`Haystack`] whose items are `I`.
pub trait HaystackOf<'a, I: HaystackItem>: Haystack<'a, Item = I> {

}

impl<'a, I: HaystackItem, T: Haystack<'a, Item = I>> HaystackOf<'a, I> for T {

}

/// Converts a value, usually a slice, into a stateful [`Haystack`] of type `H`.
pub trait IntoHaystack<'a, H: Haystack<'a>>: Sized {
    /// Whether `self` can become a haystack: always, but for slice types that limit the
    /// length of what they can hold.
    spec fn spec_fits(self) -> bool;

    /// Whether `h` is a haystack that `self` may become.
    spec fn spec_becomes(self, h: H) -> bool;

    /// Creates a new haystack from `self`.
    fn into_haystack(self) -> (r: H)
        requires
            self.spec_fits(),
        ensures
            self.spec_becomes(r),
    ;
}

impl<'a, H: Haystack<'a>> IntoHaystack<'a, H> for H {
    open spec fn spec_fits(self) -> bool {
        true
    }

    open spec fn spec_becomes(self, h: H) -> bool {
        h == self
    }

    fn into_haystack(self) -> (r: H) {
        self
    }
}

/// An owned, mutable value that can be turned into a [`Haystack`] as required, so that matches
/// can be replaced within it.
pub trait OwnedHaystackable<I: HaystackItem>: Sized {
    /// The haystack created over a borrow of this value.
    type Hay<'a>: Haystack<'a, Item = I> where Self: 'a;

    /// The bytes that this value holds.
    spec fn spec_owned_bytes(&self) -> Seq<u8>;

    /// The bytes of this value always hold a valid sequence of its items.
    proof fn lemma_owned_valid(&self)
        ensures
            I::spec_valid(self.spec_owned_bytes()),
    ;

    /// Replaces the bytes in `range`, whose ends lie between items, with `replacement`.
    fn replace_range<'a>(
        &mut self,
        range: Range<usize>,
        replacement: <Self::Hay<'a> as HaystackIter<'a>>::Slice,
    ) where Self: 'a
        requires
            range.start <= range.end,
            I::spec_boundary(old(self).spec_owned_bytes(), range.start as int),
            I::spec_boundary(old(self).spec_owned_bytes(), range.end as int),
        ensures
            final(self).spec_owned_bytes() == old(self).spec_owned_bytes().subrange(
                0,
                range.start as int,
            ) + replacement.spec_slice_bytes() + old(self).spec_owned_bytes().subrange(
                range.end as int,
                old(self).spec_owned_bytes().len() as int,
            ),
    ;

    /// Creates a haystack over a borrow of this value, at its start.
    fn as_haystack<'a>(&'a self) -> (r: Self::Hay<'a>)
        ensures
            r.spec_bytes() == self.spec_owned_bytes(),
            r.spec_index() == 0,
    ;

    /// Borrows the underlying slice without creating a haystack.
    fn as_slice<'a>(&'a self) -> (r: <Self::Hay<'a> as HaystackIter<'a>>::Slice)
        ensures
            r.spec_slice_bytes() == self.spec_owned_bytes(),
    ;

    /// Returns the length of the underlying slice, in bytes.
    fn len(&self) -> (r: usize)
        ensures
            r == self.spec_owned_bytes().len(),
    ;

    /// Returns true if the underlying slice is empty.
    fn is_empty(&self) -> (r: bool)
        ensures
            r == (self.spec_owned_bytes().len() == 0),
    {
        self.len() == 0
    }
}

/// An owned, mutable value that can be turned into a [`Haystack`], with replacements given as
/// string slices.
pub trait MutIntoHaystack<'a, I: HaystackItem>: Sized {
    /// The haystack created over a borrow of this value.
    type Hay<'b>: HaystackOf<'b, I> where Self: 'b;

    /// The bytes that this value holds.
    spec fn spec_mut_bytes(&self) -> Seq<u8>;

    /// Replaces the bytes in `range`, whose ends lie between items, with the bytes of `with`.
    fn replace_range(&mut self, range: Range<usize>, with: &str)
        requires
            range.start <= range.end,
            I::spec_boundary(old(self).spec_mut_bytes(), range.start as int),
            I::spec_boundary(old(self).spec_mut_bytes(), range.end as int),
        ensures
            final(self).spec_mut_bytes() == old(self).spec_mut_bytes().subrange(
                0,
                range.start as int,
            ) + with.spec_bytes() + old(self).spec_mut_bytes().subrange(
                range.end as int,
                old(self).spec_mut_bytes().len() as int,
            ),
    ;

    /// Creates a haystack over a borrow of this value, at its start.
    fn as_haystack<'b>(&'b self) -> (r: Self::Hay<'b>)
        ensures
            r.spec_bytes() == self.spec_mut_bytes(),
            r.spec_index() == 0,
    ;

    /// Returns the length of the underlying slice, in bytes.
    fn len(&self) -> (r: usize)
        ensures
            r == self.spec_mut_bytes().len(),
    ;
}

} // verus!
