//! Haystacks over raw bytes, whose items are `u8`s.
use std::ops::Range;
use vstd::prelude::*;

use crate::haystack::interface::{HaystackIter, HaystackSlice, IntoHaystack, OwnedHaystackable};
use crate::haystack::item::HaystackItem;

verus! {

broadcast use vstd::seq::group_seq_axioms, vstd::slice::group_slice_axioms;

impl<'a> HaystackSlice<'a> for &'a [u8] {
    type Item = u8;

    open spec fn spec_slice_bytes(&self) -> Seq<u8> {
        (**self)@
    }

    proof fn lemma_slice_valid(&self) {
        assert(u8::spec_valid(self.spec_slice_bytes()));
    }

    fn slice_with(&self, range: Range<usize>) -> (r: &'a [u8]) {
        proof {
            assert(u8::spec_boundary(self.spec_slice_bytes(), range.end as int));
        }
        let whole: &'a [u8] = *self;
        vstd::slice::slice_subrange(whole, range.start, range.end)
    }

    fn as_bytes(&self) -> (r: &[u8]) {
        *self
    }
}

/// A haystack for matching against the `u8`s of a `&[u8]`, standing at a byte index.
#[derive(Debug, Clone, Copy)]
pub struct ByteStack<'a> {
    inner: &'a [u8],
    index: usize,
}

/// The name under which the byte haystack is also known.
pub type ByteIter<'a> = ByteStack<'a>;

impl<'a> ByteStack<'a> {
    /// The bytes that this haystack runs over.
    pub closed spec fn spec_data(&self) -> Seq<u8> {
        self.inner@
    }

    pub closed spec fn spec_pos(&self) -> int {
        self.index as int
    }

    /// A haystack over `inner`, at its start.
    pub fn new(inner: &'a [u8]) -> (r: ByteStack<'a>)
        ensures
            r.spec_data() == inner@,
            r.spec_pos() == 0,
    {
        ByteStack { inner, index: 0 }
    }

    /// Returns the whole slice, as it was when this haystack was created.
    pub fn as_slice(&self) -> (r: &'a [u8])
        ensures
            r@ == self.spec_data(),
    {
        self.inner
    }

    /// Returns the bytes from the current index onwards.
    pub fn rem_as_slice(&self) -> (r: &'a [u8])
        requires
            self.spec_pos() <= self.spec_data().len(),
        ensures
            r@ == self.spec_data().subrange(self.spec_pos(), self.spec_data().len() as int),
    {
        vstd::slice::slice_subrange(self.inner, self.index, self.inner.len())
    }
}

impl<'a> HaystackIter<'a> for ByteStack<'a> {
    type Item = u8;

    type Slice = &'a [u8];

    open spec fn spec_bytes(&self) -> Seq<u8> {
        self.spec_data()
    }

    open spec fn spec_index(&self) -> int {
        self.spec_pos()
    }

    proof fn lemma_valid(&self) {
        assert(u8::spec_valid(self.spec_bytes()));
    }

    fn current_item(&self) -> (r: Option<u8>) {
        if self.index < self.inner.len() {
            assert(self.spec_data().subrange(self.spec_pos(), self.spec_data().len() as int)[0]
                == self.spec_data()[self.spec_pos()]);
            Some(self.inner[self.index])
        } else {
            None
        }
    }

    fn prev_item(&self) -> (r: Option<u8>) {
        proof {
            assert(u8::spec_boundary(self.spec_bytes(), self.spec_index()));
        }
        if self.index == 0 {
            None
        } else {
            Some(self.inner[self.index - 1])
        }
    }

    fn current_index(&self) -> (r: usize) {
        self.index
    }

    fn next(&mut self) -> (r: Option<u8>) {
        proof {
            assert(u8::spec_valid(self.spec_bytes()));
            assert(u8::spec_boundary(self.spec_bytes(), self.spec_index()));
        }
        // The new index stays within the bytes, whose length fits in a `usize`.
        let len = self.inner.len();
        match u8::read_at(self.inner, self.index) {
            Some((c, w)) => {
                assert(self.index + w <= len);
                self.index = self.index + w;
                Some(c)
            },
            None => None,
        }
    }

    fn whole_slice(&self) -> (r: &'a [u8]) {
        self.inner
    }

    fn remainder_as_slice(&self) -> (r: &'a [u8]) {
        proof {
            assert(u8::spec_boundary(self.spec_bytes(), self.spec_index()));
        }
        self.rem_as_slice()
    }

    fn go_to(&mut self, index: usize) {
        self.index = index;
    }
}

impl<'a> From<&'a [u8]> for ByteStack<'a> {
    fn from(value: &'a [u8]) -> (r: ByteStack<'a>) {
        ByteStack { inner: value, index: 0 }
    }
}

impl<'a> vstd::std_specs::convert::FromSpecImpl<&'a [u8]> for ByteStack<'a> {
    open spec fn obeys_from_spec() -> bool {
        true
    }

    closed spec fn from_spec(v: &'a [u8]) -> ByteStack<'a> {
        ByteStack { inner: v, index: 0 }
    }
}

impl<'a> ByteStack<'a> {
    /// Converting bytes with `from` starts the haystack at the first of those bytes.
    pub proof fn lemma_from(v: &'a [u8])
        ensures
            <ByteStack<'a> as vstd::std_specs::convert::FromSpec<&'a [u8]>>::from_spec(v).spec_data() == v@,
            <ByteStack<'a> as vstd::std_specs::convert::FromSpec<&'a [u8]>>::from_spec(v).spec_pos() == 0,
    {
    }
}

impl<'a> IntoHaystack<'a, ByteStack<'a>> for &'a [u8] {
    open spec fn spec_fits(self) -> bool {
        true
    }

    open spec fn spec_becomes(self, h: ByteStack<'a>) -> bool {
        h.spec_data() == self@ && h.spec_pos() == 0
    }

    fn into_haystack(self) -> (r: ByteStack<'a>) {
        ByteStack::new(self)
    }
}

impl<'a> IntoHaystack<'a, ByteStack<'a>> for &'a Vec<u8> {
    open spec fn spec_fits(self) -> bool {
        true
    }

    open spec fn spec_becomes(self, h: ByteStack<'a>) -> bool {
        h.spec_data() == self@ && h.spec_pos() == 0
    }

    fn into_haystack(self) -> (r: ByteStack<'a>) {
        ByteStack::new(self.as_slice())
    }
}

impl OwnedHaystackable<u8> for Vec<u8> {
    type Hay<'b> = ByteStack<'b>;

    open spec fn spec_owned_bytes(&self) -> Seq<u8> {
        self@
    }

    proof fn lemma_owned_valid(&self) {
        assert(u8::spec_valid(self.spec_owned_bytes()));
    }

    fn replace_range<'b>(&mut self, range: Range<usize>, replacement: &'b [u8]) where Self: 'b {
        proof {
            assert(u8::spec_boundary(old(self).spec_owned_bytes(), range.end as int));
        }
        let mut res: Vec<u8> = Vec::new();
        let mut i: usize = 0;
        while i < range.start
            invariant
                i <= range.start <= range.end <= self@.len(),
                res@ == self@.subrange(0, i as int),
            decreases range.start - i,
        {
            res.push(self[i]);
            i = i + 1;
        }
        let mut j: usize = 0;
        while j < replacement.len()
            invariant
                i == range.start <= range.end <= self@.len(),
                j <= replacement@.len(),
                res@ == self@.subrange(0, i as int) + replacement@.subrange(0, j as int),
            decreases replacement@.len() - j,
        {
            res.push(replacement[j]);
            j = j + 1;
        }
        let mut k: usize = range.end;
        let n = self.len();
        while k < n
            invariant
                i == range.start <= range.end <= k <= n,
                n == self@.len(),
                res@ == self@.subrange(0, i as int) + replacement@ + self@.subrange(
                    range.end as int,
                    k as int,
                ),
            decreases n - k,
        {
            res.push(self[k]);
            k = k + 1;
        }
        assert(replacement@.subrange(0, replacement@.len() as int) =~= replacement@);
        *self = res;
    }

    fn as_haystack<'b>(&'b self) -> (r: ByteStack<'b>) {
        ByteStack::new(self.as_slice())
    }

    fn as_slice<'b>(&'b self) -> (r: &'b [u8]) {
        self.as_slice()
    }

    fn len(&self) -> (r: usize) {
        self.len()
    }
}

} // verus!
