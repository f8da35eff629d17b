//! A haystack over the `char`s of an `arcstr` reference-counted string.
use arcstr::{ArcStr, Substr};
use std::marker::PhantomData;
use std::ops::Range;
use vstd::prelude::*;
use vstd::string::StringSliceAdditionalSpecFns;
use vstd::utf8::{encode_utf8, encode_utf8_valid_utf8, is_char_boundary};

use crate::haystack::interface::{HaystackIter, HaystackSlice, IntoHaystack};
use crate::haystack::item::HaystackItem;
use crate::haystack::string::StrStack;

verus! {

broadcast use vstd::seq::group_seq_axioms;

#[verifier::external_type_specification]
#[verifier::external_body]
pub struct ExArcStr(arcstr::ArcStr);

#[verifier::external_type_specification]
#[verifier::external_body]
pub struct ExSubstr(arcstr::Substr);

/// The name of the text that a reference-counted string holds.
pub uninterp spec fn arcstr_text(s: &ArcStr) -> Seq<char>;

/// The name of the text that a substring holds.
pub uninterp spec fn substr_text(s: &Substr) -> Seq<char>;

/// The largest length in bytes that a `Substr` can index.
pub open spec fn substr_limit() -> nat {
    0xffff_ffff
}

/// `ArcStr::as_str`: the text that the string holds.
#[verifier::external_body]
fn arcstr_as_str(s: &ArcStr) -> (r: &str)
    ensures
        r@ == arcstr_text(s),
{
    s.as_str()
}

/// `Substr::as_str`: the text that the substring holds.
#[verifier::external_body]
fn substr_as_str(s: &Substr) -> (r: &str)
    ensures
        r@ == substr_text(s),
{
    s.as_str()
}

/// `ArcStr::clone`: another reference to the same text.
#[verifier::external_body]
fn arcstr_clone(s: &ArcStr) -> (r: ArcStr)
    ensures
        arcstr_text(&r) == arcstr_text(s),
{
    s.clone()
}

/// `Substr::full`: a substring of all of the text. It indexes the text with `u32`s, so the
/// text may hold at most `u32::MAX` bytes.
#[verifier::external_body]
fn substr_full(a: ArcStr) -> (r: Substr)
    requires
        encode_utf8(arcstr_text(&a)).len() <= substr_limit(),
    ensures
        substr_text(&r) == arcstr_text(&a),
{
    Substr::full(a)
}

/// `ArcStr::substr`: the substring of the bytes in `range`, whose ends must lie between
/// `char`s; the text may hold at most `u32::MAX` bytes.
#[verifier::external_body]
fn arcstr_substr(s: &ArcStr, range: Range<usize>) -> (r: Substr)
    requires
        range.start <= range.end <= encode_utf8(arcstr_text(s)).len() <= substr_limit(),
        is_char_boundary(encode_utf8(arcstr_text(s)), range.start as int),
        is_char_boundary(encode_utf8(arcstr_text(s)), range.end as int),
    ensures
        encode_utf8(substr_text(&r)) == encode_utf8(arcstr_text(s)).subrange(
            range.start as int,
            range.end as int,
        ),
{
    s.substr(range)
}

/// `Substr::substr`: the substring of the bytes in `range` of a substring, whose ends must
/// lie between `char`s.
#[verifier::external_body]
fn substr_substr(s: &Substr, range: Range<usize>) -> (r: Substr)
    requires
        range.start <= range.end <= encode_utf8(substr_text(s)).len(),
        is_char_boundary(encode_utf8(substr_text(s)), range.start as int),
        is_char_boundary(encode_utf8(substr_text(s)), range.end as int),
    ensures
        encode_utf8(substr_text(&r)) == encode_utf8(substr_text(s)).subrange(
            range.start as int,
            range.end as int,
        ),
{
    s.substr(range)
}

impl<'a> HaystackSlice<'a> for Substr {
    type Item = char;

    open spec fn spec_slice_bytes(&self) -> Seq<u8> {
        encode_utf8(substr_text(self))
    }

    proof fn lemma_slice_valid(&self) {
        encode_utf8_valid_utf8(substr_text(self));
    }

    fn slice_with(&self, range: Range<usize>) -> (r: Substr) {
        proof {
            encode_utf8_valid_utf8(substr_text(self));
            char::lemma_boundaries(self.spec_slice_bytes());
        }
        substr_substr(self, range)
    }

    fn as_bytes(&self) -> (r: &[u8]) {
        let s = substr_as_str(self);
        s.as_bytes()
    }
}

/// A haystack for matching against the `char`s of an [`ArcStr`], standing at a byte index.
/// Its whole slice and remainder are [`Substr`]s.
#[derive(Debug)]
pub struct ArcStrStack<'a> {
    inner: ArcStr,
    index: usize,
    _phantom: PhantomData<&'a ()>,
}

impl<'a> ArcStrStack<'a> {
    /// A `Substr` can hold all of the text.
    #[verifier::type_invariant]
    spec fn fits(&self) -> bool {
        encode_utf8(arcstr_text(&self.inner)).len() <= substr_limit()
    }

    /// The bytes that this haystack runs over.
    pub closed spec fn spec_data(&self) -> Seq<u8> {
        encode_utf8(arcstr_text(&self.inner))
    }

    pub closed spec fn spec_pos(&self) -> int {
        self.index as int
    }

    /// A haystack over the text as a `&str`, at the same index.
    fn as_str_stack(&self) -> (r: StrStack<'_>)
        ensures
            r.spec_bytes() == self.spec_data(),
            r.spec_index() == self.spec_pos(),
    {
        let mut s = StrStack::new(arcstr_as_str(&self.inner));
        s.go_to(self.index);
        s
    }
}

/// Reads the item at a `&str` haystack's index and returns it with the index after it.
pub(crate) fn step<'b>(s: &StrStack<'b>) -> (r: (Option<char>, usize))
    requires
        char::spec_boundary(s.spec_bytes(), s.spec_index()),
    ensures
        ({
            let (item, index) = r;
            &&& char::spec_boundary(s.spec_bytes(), index as int)
            &&& match item {
                None => {
                    &&& index == s.spec_index()
                    &&& s.spec_index() == s.spec_bytes().len()
                    &&& crate::haystack::item::items_from::<char>(s.spec_bytes(), s.spec_index()).len() == 0
                },
                Some(c) => {
                    &&& s.spec_index() < index
                    &&& crate::haystack::item::items_from::<char>(s.spec_bytes(), s.spec_index())
                        == seq![c] + crate::haystack::item::items_from::<char>(s.spec_bytes(), index as int)
                    &&& crate::haystack::item::items_before::<char>(s.spec_bytes(), index as int)
                        == crate::haystack::item::items_before::<char>(s.spec_bytes(), s.spec_index()).push(c)
                },
            }
        }),
{
    let mut t: StrStack<'b> = *s;
    let item = <StrStack<'b> as HaystackIter<'b>>::next(&mut t);
    (item, t.current_index())
}

impl<'a> Clone for ArcStrStack<'a> {
    fn clone(&self) -> (r: Self)
        ensures
            r.spec_data() == self.spec_data(),
            r.spec_pos() == self.spec_pos(),
    {
        proof {
            use_type_invariant(self);
        }
        ArcStrStack { inner: arcstr_clone(&self.inner), index: self.index, _phantom: PhantomData }
    }
}

impl<'a> HaystackIter<'a> for ArcStrStack<'a> {
    type Item = char;

    type Slice = Substr;

    open spec fn spec_bytes(&self) -> Seq<u8> {
        self.spec_data()
    }

    open spec fn spec_index(&self) -> int {
        self.spec_pos()
    }

    proof fn lemma_valid(&self) {
        encode_utf8_valid_utf8(arcstr_text(&self.inner));
    }

    fn current_item(&self) -> (r: Option<char>) {
        self.as_str_stack().current_item()
    }

    fn prev_item(&self) -> (r: Option<char>) {
        self.as_str_stack().prev_item()
    }

    fn current_index(&self) -> (r: usize) {
        self.index
    }

    fn next(&mut self) -> (r: Option<char>) {
        proof {
            use_type_invariant(&*self);
        }
        let (r, index) = step(&self.as_str_stack());
        self.index = index;
        r
    }

    fn whole_slice(&self) -> (r: Substr) {
        proof {
            use_type_invariant(self);
        }
        substr_full(arcstr_clone(&self.inner))
    }

    fn remainder_as_slice(&self) -> (r: Substr) {
        proof {
            use_type_invariant(self);
            encode_utf8_valid_utf8(arcstr_text(&self.inner));
            char::lemma_boundaries(self.spec_data());
        }
        let len = arcstr_as_str(&self.inner).len();
        arcstr_substr(&self.inner, self.index..len)
    }

    fn go_to(&mut self, index: usize) {
        proof {
            use_type_invariant(&*self);
        }
        self.index = index;
    }
}

impl<'a> IntoHaystack<'a, ArcStrStack<'a>> for ArcStr {
    /// A `Substr` must be able to index all of the text.
    open spec fn spec_fits(self) -> bool {
        encode_utf8(arcstr_text(&self)).len() <= substr_limit()
    }

    open spec fn spec_becomes(self, h: ArcStrStack<'a>) -> bool {
        h.spec_data() == encode_utf8(arcstr_text(&self)) && h.spec_pos() == 0
    }

    fn into_haystack(self) -> (r: ArcStrStack<'a>) {
        ArcStrStack { inner: self, index: 0, _phantom: PhantomData }
    }
}

} // verus!
