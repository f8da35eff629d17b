//! Haystacks over the strings and byte strings of `hipstr`, with its default `Arc` backend.
//!
//! `hipstr`'s types are generic over its sealed `Backend` trait. Each value here is held,
//! with the `Arc` backend, in a struct of this library whose contents are opaque to the
//! proofs: the text or bytes it holds are given by `hip_text` and `hip_bytes`.
use hipstr::bytes::HipByt;
use hipstr::string::HipStr;
use std::ops::Range;
use vstd::prelude::*;
use vstd::string::StringSliceAdditionalSpecFns;
use vstd::utf8::{encode_utf8, encode_utf8_valid_utf8, is_char_boundary};

use crate::haystack::ext::arcstr_stack::step;
use crate::haystack::interface::{HaystackIter, HaystackSlice, IntoHaystack, OwnedHaystackable};
use crate::haystack::item::HaystackItem;
use crate::haystack::string::StrStack;

verus! {

broadcast use vstd::seq::group_seq_axioms, vstd::slice::group_slice_axioms;

/// A `hipstr` string with the `Arc` backend, as a haystack slice of `char`s.
#[verifier::external_body]
#[derive(Debug)]
pub struct HipText<'a> {
    pub inner: HipStr<'a, hipstr::Arc>,
}

/// A `hipstr` byte string with the `Arc` backend, as a haystack slice of bytes.
#[verifier::external_body]
#[derive(Debug)]
pub struct HipBytes<'a> {
    pub inner: HipByt<'a, hipstr::Arc>,
}

/// The name of the text that a `hipstr` string holds.
pub uninterp spec fn hip_text(h: &HipText<'_>) -> Seq<char>;

/// The name of the bytes that a `hipstr` byte string holds.
pub uninterp spec fn hip_bytes(h: &HipBytes<'_>) -> Seq<u8>;

/// `HipStr::as_str`: the text that the string holds.
#[verifier::external_body]
fn hip_text_as_str<'h, 'a>(h: &'h HipText<'a>) -> (r: &'h str)
    ensures
        r@ == hip_text(h),
{
    h.inner.as_str()
}

/// `HipStr::clone`: another string holding the same text.
#[verifier::external_body]
fn hip_text_clone<'a>(h: &HipText<'a>) -> (r: HipText<'a>)
    ensures
        hip_text(&r) == hip_text(h),
{
    HipText { inner: h.inner.clone() }
}

/// `HipStr::slice`: the string of the bytes in `range`, whose ends must lie between `char`s
/// (it panics otherwise).
#[verifier::external_body]
fn hip_text_slice<'a>(h: &HipText<'a>, range: Range<usize>) -> (r: HipText<'a>)
    requires
        range.start <= range.end <= encode_utf8(hip_text(h)).len(),
        is_char_boundary(encode_utf8(hip_text(h)), range.start as int),
        is_char_boundary(encode_utf8(hip_text(h)), range.end as int),
    ensures
        encode_utf8(hip_text(&r)) == encode_utf8(hip_text(h)).subrange(
            range.start as int,
            range.end as int,
        ),
{
    HipText { inner: h.inner.slice(range) }
}

/// `HipStr::mutate` and `String::replace_range`: the bytes in `range`, whose ends must lie
/// between `char`s, are replaced by those of `with`; dropping the guard stores the result.
#[verifier::external_body]
fn hip_text_replace_range(h: &mut HipText<'_>, range: Range<usize>, with: &str)
    requires
        range.start <= range.end <= encode_utf8(hip_text(old(h))).len(),
        is_char_boundary(encode_utf8(hip_text(old(h))), range.start as int),
        is_char_boundary(encode_utf8(hip_text(old(h))), range.end as int),
    ensures
        encode_utf8(hip_text(final(h))) == encode_utf8(hip_text(old(h))).subrange(
            0,
            range.start as int,
        ) + with.spec_bytes() + encode_utf8(hip_text(old(h))).subrange(
            range.end as int,
            encode_utf8(hip_text(old(h))).len() as int,
        ),
{
    h.inner.mutate().replace_range(range, with);
}

/// `HipByt::as_slice`: the bytes that the byte string holds.
#[verifier::external_body]
fn hip_bytes_as_slice<'h, 'a>(h: &'h HipBytes<'a>) -> (r: &'h [u8])
    ensures
        r@ == hip_bytes(h),
{
    h.inner.as_slice()
}

/// `HipByt::clone`: another byte string holding the same bytes.
#[verifier::external_body]
fn hip_bytes_clone<'a>(h: &HipBytes<'a>) -> (r: HipBytes<'a>)
    ensures
        hip_bytes(&r) == hip_bytes(h),
{
    HipBytes { inner: h.inner.clone() }
}

/// `HipByt::slice`: the byte string of the bytes in `range` (it panics on a range out of
/// bounds).
#[verifier::external_body]
fn hip_bytes_slice<'a>(h: &HipBytes<'a>, range: Range<usize>) -> (r: HipBytes<'a>)
    requires
        range.start <= range.end <= hip_bytes(h).len(),
    ensures
        hip_bytes(&r) == hip_bytes(h).subrange(range.start as int, range.end as int),
{
    HipBytes { inner: h.inner.slice(range) }
}

/// `HipByt::mutate` and `Vec::splice`: the bytes in `range` are replaced by those of
/// `with`; dropping the guard stores the result.
#[verifier::external_body]
fn hip_bytes_splice(h: &mut HipBytes<'_>, range: Range<usize>, with: &[u8])
    requires
        range.start <= range.end <= hip_bytes(old(h)).len(),
    ensures
        hip_bytes(final(h)) == hip_bytes(old(h)).subrange(0, range.start as int) + with@
            + hip_bytes(old(h)).subrange(range.end as int, hip_bytes(old(h)).len() as int),
{
    h.inner.mutate().splice(range, with.iter().copied());
}

impl<'a> HaystackSlice<'a> for HipText<'a> {
    type Item = char;

    open spec fn spec_slice_bytes(&self) -> Seq<u8> {
        encode_utf8(hip_text(self))
    }

    proof fn lemma_slice_valid(&self) {
        encode_utf8_valid_utf8(hip_text(self));
    }

    fn slice_with(&self, range: Range<usize>) -> (r: HipText<'a>) {
        proof {
            encode_utf8_valid_utf8(hip_text(self));
            char::lemma_boundaries(self.spec_slice_bytes());
        }
        hip_text_slice(self, range)
    }

    fn as_bytes(&self) -> (r: &[u8]) {
        let s = hip_text_as_str(self);
        s.as_bytes()
    }
}

impl<'a> HaystackSlice<'a> for HipBytes<'a> {
    type Item = u8;

    open spec fn spec_slice_bytes(&self) -> Seq<u8> {
        hip_bytes(self)
    }

    proof fn lemma_slice_valid(&self) {
        assert(u8::spec_valid(self.spec_slice_bytes()));
    }

    fn slice_with(&self, range: Range<usize>) -> (r: HipBytes<'a>) {
        proof {
            assert(u8::spec_boundary(self.spec_slice_bytes(), range.end as int));
        }
        hip_bytes_slice(self, range)
    }

    fn as_bytes(&self) -> (r: &[u8]) {
        hip_bytes_as_slice(self)
    }
}

/// A haystack for matching against the `char`s of a [`HipText`], standing at a byte index.
#[derive(Debug)]
pub struct HipStrStack<'a> {
    inner: HipText<'a>,
    index: usize,
}

impl<'a> HipStrStack<'a> {
    /// The bytes that this haystack runs over.
    pub closed spec fn spec_data(&self) -> Seq<u8> {
        encode_utf8(hip_text(&self.inner))
    }

    pub closed spec fn spec_pos(&self) -> int {
        self.index as int
    }

    /// A haystack over the text as a `&str`, at the same index.
    fn as_str_stack(&self) -> (r: StrStack<'_>)
        ensures
            r.spec_bytes() == self.spec_data(),
            r.spec_index() == self.spec_pos(),
    {
        let mut s = StrStack::new(hip_text_as_str(&self.inner));
        s.go_to(self.index);
        s
    }
}

impl<'a> Clone for HipStrStack<'a> {
    fn clone(&self) -> (r: Self)
        ensures
            r.spec_data() == self.spec_data(),
            r.spec_pos() == self.spec_pos(),
    {
        HipStrStack { inner: hip_text_clone(&self.inner), index: self.index }
    }
}

impl<'a> HaystackIter<'a> for HipStrStack<'a> {
    type Item = char;

    type Slice = HipText<'a>;

    open spec fn spec_bytes(&self) -> Seq<u8> {
        self.spec_data()
    }

    open spec fn spec_index(&self) -> int {
        self.spec_pos()
    }

    proof fn lemma_valid(&self) {
        encode_utf8_valid_utf8(hip_text(&self.inner));
    }

    fn current_item(&self) -> (r: Option<char>) {
        self.as_str_stack().current_item()
    }

    fn prev_item(&self) -> (r: Option<char>) {
        self.as_str_stack().prev_item()
    }

    fn current_index(&self) -> (r: usize) {
        self.index
    }

    fn next(&mut self) -> (r: Option<char>) {
        let (r, index) = step(&self.as_str_stack());
        self.index = index;
        r
    }

    fn whole_slice(&self) -> (r: HipText<'a>) {
        hip_text_clone(&self.inner)
    }

    fn remainder_as_slice(&self) -> (r: HipText<'a>) {
        proof {
            encode_utf8_valid_utf8(hip_text(&self.inner));
            char::lemma_boundaries(self.spec_data());
        }
        let len = hip_text_as_str(&self.inner).as_bytes().len();
        hip_text_slice(&self.inner, self.index..len)
    }

    fn go_to(&mut self, index: usize) {
        self.index = index;
    }
}

impl<'a> IntoHaystack<'a, HipStrStack<'a>> for HipText<'a> {
    open spec fn spec_fits(self) -> bool {
        true
    }

    open spec fn spec_becomes(self, h: HipStrStack<'a>) -> bool {
        h.spec_data() == encode_utf8(hip_text(&self)) && h.spec_pos() == 0
    }

    fn into_haystack(self) -> (r: HipStrStack<'a>) {
        HipStrStack { inner: self, index: 0 }
    }
}

/// Owned strings only: `'static` ones, whose borrowed haystack type holds for every
/// lifetime without a bound on it.
impl OwnedHaystackable<char> for HipText<'static> {
    type Hay<'b> = HipStrStack<'b>;

    open spec fn spec_owned_bytes(&self) -> Seq<u8> {
        encode_utf8(hip_text(self))
    }

    proof fn lemma_owned_valid(&self) {
        encode_utf8_valid_utf8(hip_text(self));
    }

    fn replace_range<'b>(&mut self, range: Range<usize>, replacement: HipText<'b>) where Self: 'b {
        proof {
            encode_utf8_valid_utf8(hip_text(self));
            char::lemma_boundaries(self.spec_owned_bytes());
        }
        let with = hip_text_as_str(&replacement);
        hip_text_replace_range(self, range, with);
    }

    fn as_haystack<'b>(&'b self) -> (r: HipStrStack<'b>) {
        HipStrStack { inner: hip_text_clone(self), index: 0 }
    }

    fn as_slice<'b>(&'b self) -> (r: HipText<'b>) {
        hip_text_clone(self)
    }

    fn len(&self) -> (r: usize) {
        let s = hip_text_as_str(self);
        s.as_bytes().len()
    }
}

/// A haystack for matching against the bytes of a [`HipBytes`], standing at a byte index.
#[derive(Debug)]
pub struct HipBytStack<'a> {
    inner: HipBytes<'a>,
    index: usize,
}

impl<'a> HipBytStack<'a> {
    /// The bytes that this haystack runs over.
    pub closed spec fn spec_data(&self) -> Seq<u8> {
        hip_bytes(&self.inner)
    }

    pub closed spec fn spec_pos(&self) -> int {
        self.index as int
    }
}

impl<'a> Clone for HipBytStack<'a> {
    fn clone(&self) -> (r: Self)
        ensures
            r.spec_data() == self.spec_data(),
            r.spec_pos() == self.spec_pos(),
    {
        HipBytStack { inner: hip_bytes_clone(&self.inner), index: self.index }
    }
}

impl<'a> HaystackIter<'a> for HipBytStack<'a> {
    type Item = u8;

    type Slice = HipBytes<'a>;

    open spec fn spec_bytes(&self) -> Seq<u8> {
        self.spec_data()
    }

    open spec fn spec_index(&self) -> int {
        self.spec_pos()
    }

    proof fn lemma_valid(&self) {
        assert(u8::spec_valid(self.spec_bytes()));
    }

    fn current_item(&self) -> (r: Option<u8>) {
        let bytes = hip_bytes_as_slice(&self.inner);
        if self.index < bytes.len() {
            assert(self.spec_data().subrange(self.spec_pos(), self.spec_data().len() as int)[0]
                == self.spec_data()[self.spec_pos()]);
            Some(bytes[self.index])
        } else {
            None
        }
    }

    fn prev_item(&self) -> (r: Option<u8>) {
        proof {
            assert(u8::spec_boundary(self.spec_bytes(), self.spec_index()));
        }
        if self.index == 0 {
            None
        } else {
            let bytes = hip_bytes_as_slice(&self.inner);
            Some(bytes[self.index - 1])
        }
    }

    fn current_index(&self) -> (r: usize) {
        self.index
    }

    fn next(&mut self) -> (r: Option<u8>) {
        proof {
            assert(u8::spec_valid(self.spec_bytes()));
            assert(u8::spec_boundary(self.spec_bytes(), self.spec_index()));
        }
        let bytes = hip_bytes_as_slice(&self.inner);
        // The new index stays within the bytes, whose length fits in a `usize`.
        let len = bytes.len();
        match u8::read_at(bytes, self.index) {
            Some((c, w)) => {
                assert(self.index + w <= len);
                self.index = self.index + w;
                Some(c)
            },
            None => None,
        }
    }

    fn whole_slice(&self) -> (r: HipBytes<'a>) {
        hip_bytes_clone(&self.inner)
    }

    fn remainder_as_slice(&self) -> (r: HipBytes<'a>) {
        proof {
            assert(u8::spec_boundary(self.spec_bytes(), self.spec_index()));
        }
        let len = hip_bytes_as_slice(&self.inner).len();
        hip_bytes_slice(&self.inner, self.index..len)
    }

    fn go_to(&mut self, index: usize) {
        self.index = index;
    }
}

impl<'a> IntoHaystack<'a, HipBytStack<'a>> for HipBytes<'a> {
    open spec fn spec_fits(self) -> bool {
        true
    }

    open spec fn spec_becomes(self, h: HipBytStack<'a>) -> bool {
        h.spec_data() == hip_bytes(&self) && h.spec_pos() == 0
    }

    fn into_haystack(self) -> (r: HipBytStack<'a>) {
        HipBytStack { inner: self, index: 0 }
    }
}

/// Owned byte strings only: `'static` ones, whose borrowed haystack type holds for every
/// lifetime without a bound on it.
impl OwnedHaystackable<u8> for HipBytes<'static> {
    type Hay<'b> = HipBytStack<'b>;

    open spec fn spec_owned_bytes(&self) -> Seq<u8> {
        hip_bytes(self)
    }

    proof fn lemma_owned_valid(&self) {
        assert(u8::spec_valid(self.spec_owned_bytes()));
    }

    fn replace_range<'b>(&mut self, range: Range<usize>, replacement: HipBytes<'b>) where Self: 'b {
        proof {
            assert(u8::spec_boundary(old(self).spec_owned_bytes(), range.end as int));
        }
        let with = hip_bytes_as_slice(&replacement);
        hip_bytes_splice(self, range, with);
    }

    fn as_haystack<'b>(&'b self) -> (r: HipBytStack<'b>) {
        HipBytStack { inner: hip_bytes_clone(self), index: 0 }
    }

    fn as_slice<'b>(&'b self) -> (r: HipBytes<'b>) {
        hip_bytes_clone(self)
    }

    fn len(&self) -> (r: usize) {
        let bytes = hip_bytes_as_slice(self);
        bytes.len()
    }
}

} // verus!
