//! Haystacks over UTF-8 text, whose items are `char`s.
use std::ops::Range;
use vstd::prelude::*;
use vstd::string::StringSliceAdditionalSpecFns;
use vstd::utf8::*;

use crate::haystack::interface::{
    HaystackIter, HaystackSlice, IntoHaystack, MutIntoHaystack, OwnedHaystackable,
};
use crate::haystack::item::HaystackItem;

verus! {

broadcast use vstd::seq::group_seq_axioms, vstd::slice::group_slice_axioms;

/// A boundary of a valid sequence at or after `i` is a boundary of the part from `i` onwards.
pub proof fn lemma_boundary_in_suffix(b: Seq<u8>, i: int, j: int)
    requires
        valid_utf8(b),
        is_char_boundary(b, i),
        is_char_boundary(b, j),
        0 <= i <= j <= b.len(),
    ensures
        valid_utf8(b.subrange(i, b.len() as int)),
        is_char_boundary(b.subrange(i, b.len() as int), j - i),
{
    valid_utf8_split(b, i);
    let s = b.subrange(i, b.len() as int);
    if j == b.len() {
        is_char_boundary_start_end_of_seq(s);
    } else if j == i {
        is_char_boundary_start_end_of_seq(s);
    } else {
        is_char_boundary_iff_not_is_continuation_byte(b, j);
        is_char_boundary_iff_not_is_continuation_byte(s, j - i);
        assert(s[j - i] == b[j]);
    }
}

impl<'a> HaystackSlice<'a> for &'a str {
    type Item = char;

    open spec fn spec_slice_bytes(&self) -> Seq<u8> {
        (**self).spec_bytes()
    }

    proof fn lemma_slice_valid(&self) {
        encode_utf8_valid_utf8((**self)@);
        assert(char::spec_valid(self.spec_slice_bytes()) == valid_utf8(self.spec_slice_bytes()));
    }

    fn slice_with(&self, range: Range<usize>) -> (r: &'a str) {
        let ghost b = self.spec_slice_bytes();
        proof {
            encode_utf8_valid_utf8((**self)@);
            assert(char::spec_boundary(b, range.start as int) == is_char_boundary(b, range.start as int));
            assert(char::spec_boundary(b, range.end as int) == is_char_boundary(b, range.end as int));
            lemma_boundary_in_suffix(b, range.start as int, range.end as int);
        }
        let whole: &'a str = *self;
        let (_head, tail) = whole.split_at(range.start);
        let (mid, _rest) = tail.split_at(range.end - range.start);
        assert(mid.spec_bytes() =~= b.subrange(range.start as int, range.end as int));
        mid
    }

    fn as_bytes(&self) -> (r: &[u8]) {
        let whole: &'a str = *self;
        whole.as_bytes()
    }
}

/// A haystack for matching against the `char`s of a `&str`, standing at a byte index.
///
/// Calls to [`go_to`](HaystackIter::go_to) should only be made with an index previously
/// produced by this haystack: reading at an index inside a character's encoding is refused.
#[derive(Debug, Clone, Copy)]
pub struct StrStack<'a> {
    inner: &'a str,
    index: usize,
}

/// The name under which the `char` haystack is also known.
pub type StrIter<'a> = StrStack<'a>;

impl<'a> StrStack<'a> {
    /// The text that this haystack runs over.
    pub closed spec fn spec_text(&self) -> &'a str {
        self.inner
    }

    pub closed spec fn spec_pos(&self) -> int {
        self.index as int
    }

    /// A haystack over `inner`, at its start.
    pub fn new(inner: &'a str) -> (r: StrStack<'a>)
        ensures
            r.spec_text() == inner,
            r.spec_pos() == 0,
    {
        StrStack { inner, index: 0 }
    }

    /// Returns the whole text, as it was when this haystack was created.
    pub fn as_slice(&self) -> (r: &'a str)
        ensures
            r == self.spec_text(),
    {
        self.inner
    }

    /// Returns the text from the current index onwards.
    pub fn rem_as_slice(&self) -> (r: &'a str)
        requires
            is_char_boundary(self.spec_text().spec_bytes(), self.spec_pos()),
        ensures
            r.spec_bytes() == self.spec_text().spec_bytes().subrange(
                self.spec_pos(),
                self.spec_text().spec_bytes().len() as int,
            ),
    {
        proof {
            encode_utf8_valid_utf8(self.inner@);
        }
        let (_head, tail) = self.inner.split_at(self.index);
        tail
    }
}

impl<'a> HaystackIter<'a> for StrStack<'a> {
    type Item = char;

    type Slice = &'a str;

    open spec fn spec_bytes(&self) -> Seq<u8> {
        self.spec_text().spec_bytes()
    }

    open spec fn spec_index(&self) -> int {
        self.spec_pos()
    }

    proof fn lemma_valid(&self) {
        encode_utf8_valid_utf8(self.spec_text()@);
        assert(char::spec_valid(self.spec_bytes()) == valid_utf8(self.spec_bytes()));
    }

    fn current_item(&self) -> (r: Option<char>) {
        proof {
            self.lemma_valid();
        }
        match char::read_at(self.inner.as_bytes(), self.index) {
            Some((c, _w)) => Some(c),
            None => None,
        }
    }

    fn prev_item(&self) -> (r: Option<char>) {
        proof {
            self.lemma_valid();
        }
        char::read_before(self.inner.as_bytes(), self.index)
    }

    fn current_index(&self) -> (r: usize) {
        self.index
    }

    fn next(&mut self) -> (r: Option<char>) {
        proof {
            self.lemma_valid();
        }
        let bytes = self.inner.as_bytes();
        // The new index stays within the bytes, whose length fits in a `usize`.
        let len = bytes.len();
        match char::read_at(bytes, self.index) {
            Some((c, w)) => {
                assert(self.index + w <= len);
                self.index = self.index + w;
                Some(c)
            },
            None => None,
        }
    }

    fn whole_slice(&self) -> (r: &'a str) {
        self.inner
    }

    fn remainder_as_slice(&self) -> (r: &'a str) {
        proof {
            assert(char::spec_boundary(self.spec_bytes(), self.spec_index()) == is_char_boundary(
                self.spec_bytes(),
                self.spec_index(),
            ));
        }
        self.rem_as_slice()
    }

    fn go_to(&mut self, index: usize) {
        self.index = index;
    }
}

impl<'a> From<&'a str> for StrStack<'a> {
    fn from(value: &'a str) -> (r: StrStack<'a>) {
        StrStack::new(value)
    }
}

impl<'a> vstd::std_specs::convert::FromSpecImpl<&'a str> for StrStack<'a> {
    open spec fn obeys_from_spec() -> bool {
        true
    }

    closed spec fn from_spec(v: &'a str) -> StrStack<'a> {
        StrStack { inner: v, index: 0 }
    }
}

impl<'a> StrStack<'a> {
    /// Converting text with `from` starts the haystack at the first byte of that text.
    pub proof fn lemma_from(v: &'a str)
        ensures
            <StrStack<'a> as vstd::std_specs::convert::FromSpec<&'a str>>::from_spec(v).spec_text() == v,
            <StrStack<'a> as vstd::std_specs::convert::FromSpec<&'a str>>::from_spec(v).spec_pos() == 0,
    {
    }
}

impl<'a> IntoHaystack<'a, StrStack<'a>> for &'a str {
    open spec fn spec_fits(self) -> bool {
        true
    }

    open spec fn spec_becomes(self, h: StrStack<'a>) -> bool {
        h.spec_text() == self && h.spec_pos() == 0
    }

    fn into_haystack(self) -> (r: StrStack<'a>) {
        StrStack::new(self)
    }
}

impl<'a> IntoHaystack<'a, StrStack<'a>> for &'a String {
    open spec fn spec_fits(self) -> bool {
        true
    }

    open spec fn spec_becomes(self, h: StrStack<'a>) -> bool {
        h.spec_text()@ == self@ && h.spec_pos() == 0
    }

    fn into_haystack(self) -> (r: StrStack<'a>) {
        StrStack::new(self.as_str())
    }
}

/// `String::replace_range`: the standard library documents that it removes the bytes in the
/// range and inserts the replacement in their place, panicking unless both ends lie on `char`
/// boundaries (which the precondition demands).
#[verifier::external_body]
fn string_replace_range(s: &mut String, range: Range<usize>, with: &str)
    requires
        range.start <= range.end,
        is_char_boundary(encode_utf8(old(s)@), range.start as int),
        is_char_boundary(encode_utf8(old(s)@), range.end as int),
    ensures
        encode_utf8(final(s)@) == encode_utf8(old(s)@).subrange(0, range.start as int)
            + with.spec_bytes() + encode_utf8(old(s)@).subrange(
            range.end as int,
            encode_utf8(old(s)@).len() as int,
        ),
{
    s.replace_range(range, with)
}

impl OwnedHaystackable<char> for String {
    type Hay<'b> = StrStack<'b>;

    open spec fn spec_owned_bytes(&self) -> Seq<u8> {
        encode_utf8(self@)
    }

    proof fn lemma_owned_valid(&self) {
        encode_utf8_valid_utf8(self@);
        assert(char::spec_valid(self.spec_owned_bytes()) == valid_utf8(self.spec_owned_bytes()));
    }

    fn replace_range<'b>(&mut self, range: Range<usize>, replacement: &'b str) where Self: 'b {
        proof {
            assert(char::spec_boundary(old(self).spec_owned_bytes(), range.start as int)
                == is_char_boundary(old(self).spec_owned_bytes(), range.start as int));
            assert(char::spec_boundary(old(self).spec_owned_bytes(), range.end as int)
                == is_char_boundary(old(self).spec_owned_bytes(), range.end as int));
        }
        string_replace_range(self, range, replacement);
    }

    fn as_haystack<'b>(&'b self) -> (r: StrStack<'b>) {
        StrStack::new(self.as_str())
    }

    fn as_slice<'b>(&'b self) -> (r: &'b str) {
        self.as_str()
    }

    fn len(&self) -> (r: usize) {
        self.as_str().as_bytes().len()
    }
}

impl<'a> MutIntoHaystack<'a, char> for String {
    type Hay<'b> = StrStack<'b>;

    open spec fn spec_mut_bytes(&self) -> Seq<u8> {
        encode_utf8(self@)
    }

    fn replace_range(&mut self, range: Range<usize>, with: &str) {
        proof {
            assert(char::spec_boundary(old(self).spec_mut_bytes(), range.start as int)
                == is_char_boundary(old(self).spec_mut_bytes(), range.start as int));
            assert(char::spec_boundary(old(self).spec_mut_bytes(), range.end as int)
                == is_char_boundary(old(self).spec_mut_bytes(), range.end as int));
        }
        string_replace_range(self, range, with);
    }

    fn as_haystack<'b>(&'b self) -> (r: StrStack<'b>) {
        StrStack::new(self.as_str())
    }

    fn len(&self) -> (r: usize) {
        self.as_str().as_bytes().len()
    }
}

} // verus!
