//! A haystack over the bytes of a `bstr` byte string.
use bstr::{BStr, BString};
use std::ops::Range;
use vstd::prelude::*;

use crate::haystack::interface::{HaystackIter, HaystackSlice, IntoHaystack, OwnedHaystackable};
use crate::haystack::item::HaystackItem;

verus! {

broadcast use vstd::seq::group_seq_axioms, vstd::slice::group_slice_axioms;

#[verifier::external_type_specification]
#[verifier::external_body]
pub struct ExBStr(bstr::BStr);

#[verifier::external_type_specification]
#[verifier::external_body]
pub struct ExBString(bstr::BString);

/// The name of the bytes that a byte string slice holds.
pub uninterp spec fn bstr_bytes(s: &BStr) -> Seq<u8>;

/// The name of the bytes that an owned byte string holds.
pub uninterp spec fn bstring_bytes(s: &BString) -> Seq<u8>;

/// `<BStr as Deref>::deref`: the bytes that the slice holds.
#[verifier::external_body]
fn bstr_as_bytes(s: &BStr) -> (r: &[u8])
    ensures
        r@ == bstr_bytes(s),
{
    s
}

/// `BStr::new`: a byte string slice holding exactly the given bytes.
#[verifier::external_body]
fn bstr_new(b: &[u8]) -> (r: &BStr)
    ensures
        bstr_bytes(r) == b@,
{
    BStr::new(b)
}

/// `BStr::new` on an owned byte string: a slice of all of its bytes.
#[verifier::external_body]
fn bstring_as_bstr(s: &BString) -> (r: &BStr)
    ensures
        bstr_bytes(r) == bstring_bytes(s),
{
    BStr::new(s)
}

/// `Vec::len` through `<BString as Deref>`: the number of bytes held.
#[verifier::external_body]
fn bstring_len(s: &BString) -> (r: usize)
    ensures
        r == bstring_bytes(s).len(),
{
    Vec::len(s)
}

/// `Vec::splice` through `<BString as DerefMut>`: replaces the bytes in `range` with those
/// of `with`, as the standard library documents. The range must lie within the bytes.
#[verifier::external_body]
fn bstring_splice(s: &mut BString, range: Range<usize>, with: &[u8])
    requires
        range.start <= range.end <= bstring_bytes(old(s)).len(),
    ensures
        bstring_bytes(final(s)) == bstring_bytes(old(s)).subrange(0, range.start as int) + with@
            + bstring_bytes(old(s)).subrange(range.end as int, bstring_bytes(old(s)).len() as int),
{
    s.splice(range, with.iter().copied());
}

impl<'a> HaystackSlice<'a> for &'a BStr {
    type Item = u8;

    open spec fn spec_slice_bytes(&self) -> Seq<u8> {
        bstr_bytes(*self)
    }

    proof fn lemma_slice_valid(&self) {
        assert(u8::spec_valid(self.spec_slice_bytes()));
    }

    fn slice_with(&self, range: Range<usize>) -> (r: &'a BStr) {
        proof {
            assert(u8::spec_boundary(self.spec_slice_bytes(), range.end as int));
        }
        let bytes: &'a [u8] = bstr_as_bytes(*self);
        bstr_new(vstd::slice::slice_subrange(bytes, range.start, range.end))
    }

    fn as_bytes(&self) -> (r: &[u8]) {
        bstr_as_bytes(*self)
    }
}

/// A haystack for matching against the `u8`s of a `&BStr`, standing at a byte index.
#[derive(Debug, Clone, Copy)]
pub struct BStrStack<'a> {
    inner: &'a BStr,
    index: usize,
}

impl<'a> BStrStack<'a> {
    /// The bytes that this haystack runs over.
    pub closed spec fn spec_data(&self) -> Seq<u8> {
        bstr_bytes(self.inner)
    }

    pub closed spec fn spec_pos(&self) -> int {
        self.index as int
    }

    /// A haystack over `inner`, at its start.
    pub fn new(inner: &'a BStr) -> (r: BStrStack<'a>)
        ensures
            r.spec_data() == bstr_bytes(inner),
            r.spec_pos() == 0,
    {
        BStrStack { inner, index: 0 }
    }
}

impl<'a> HaystackIter<'a> for BStrStack<'a> {
    type Item = u8;

    type Slice = &'a BStr;

    open spec fn spec_bytes(&self) -> Seq<u8> {
        self.spec_data()
    }

    open spec fn spec_index(&self) -> int {
        self.spec_pos()
    }

    proof fn lemma_valid(&self) {
        assert(u8::spec_valid(self.spec_bytes()));
    }

    fn current_item(&self) -> (r: Option<u8>) {
        let bytes = bstr_as_bytes(self.inner);
        if self.index < bytes.len() {
            assert(self.spec_data().subrange(self.spec_pos(), self.spec_data().len() as int)[0]
                == self.spec_data()[self.spec_pos()]);
            Some(bytes[self.index])
        } else {
            None
        }
    }

    fn prev_item(&self) -> (r: Option<u8>) {
        proof {
            assert(u8::spec_boundary(self.spec_bytes(), self.spec_index()));
        }
        if self.index == 0 {
            None
        } else {
            let bytes = bstr_as_bytes(self.inner);
            Some(bytes[self.index - 1])
        }
    }

    fn current_index(&self) -> (r: usize) {
        self.index
    }

    fn next(&mut self) -> (r: Option<u8>) {
        proof {
            assert(u8::spec_valid(self.spec_bytes()));
            assert(u8::spec_boundary(self.spec_bytes(), self.spec_index()));
        }
        let bytes = bstr_as_bytes(self.inner);
        // The new index stays within the bytes, whose length fits in a `usize`.
        let len = bytes.len();
        match u8::read_at(bytes, self.index) {
            Some((c, w)) => {
                assert(self.index + w <= len);
                self.index = self.index + w;
                Some(c)
            },
            None => None,
        }
    }

    fn whole_slice(&self) -> (r: &'a BStr) {
        self.inner
    }

    fn remainder_as_slice(&self) -> (r: &'a BStr) {
        proof {
            assert(u8::spec_boundary(self.spec_bytes(), self.spec_index()));
        }
        let bytes: &'a [u8] = bstr_as_bytes(self.inner);
        bstr_new(vstd::slice::slice_subrange(bytes, self.index, bytes.len()))
    }

    fn go_to(&mut self, index: usize) {
        self.index = index;
    }
}

impl<'a> IntoHaystack<'a, BStrStack<'a>> for &'a BStr {
    open spec fn spec_fits(self) -> bool {
        true
    }

    open spec fn spec_becomes(self, h: BStrStack<'a>) -> bool {
        h.spec_data() == bstr_bytes(self) && h.spec_pos() == 0
    }

    fn into_haystack(self) -> (r: BStrStack<'a>) {
        BStrStack::new(self)
    }
}

impl<'a> IntoHaystack<'a, BStrStack<'a>> for &'a BString {
    open spec fn spec_fits(self) -> bool {
        true
    }

    open spec fn spec_becomes(self, h: BStrStack<'a>) -> bool {
        h.spec_data() == bstring_bytes(self) && h.spec_pos() == 0
    }

    fn into_haystack(self) -> (r: BStrStack<'a>) {
        BStrStack::new(bstring_as_bstr(self))
    }
}

impl OwnedHaystackable<u8> for BString {
    type Hay<'b> = BStrStack<'b>;

    open spec fn spec_owned_bytes(&self) -> Seq<u8> {
        bstring_bytes(self)
    }

    proof fn lemma_owned_valid(&self) {
        assert(u8::spec_valid(self.spec_owned_bytes()));
    }

    fn replace_range<'b>(&mut self, range: Range<usize>, replacement: &'b BStr) where Self: 'b {
        proof {
            assert(u8::spec_boundary(old(self).spec_owned_bytes(), range.end as int));
        }
        let with = bstr_as_bytes(replacement);
        bstring_splice(self, range, with);
    }

    fn as_haystack<'b>(&'b self) -> (r: BStrStack<'b>) {
        BStrStack::new(bstring_as_bstr(self))
    }

    fn as_slice<'b>(&'b self) -> (r: &'b BStr) {
        bstring_as_bstr(self)
    }

    fn len(&self) -> (r: usize) {
        bstring_len(self)
    }
}

} // verus!
