//! `ecow`'s copy-on-write string and byte vector as owned haystacks, whose matches can be
//! replaced in place.
use ecow::{EcoString, EcoVec};
use std::ops::Range;
use vstd::prelude::*;
use vstd::string::StringSliceAdditionalSpecFns;
use vstd::utf8::{encode_utf8, encode_utf8_valid_utf8, is_char_boundary};

use crate::haystack::bytes::ByteStack;
use crate::haystack::interface::{HaystackIter, HaystackSlice, OwnedHaystackable};
use crate::haystack::item::HaystackItem;
use crate::haystack::string::StrStack;

verus! {

broadcast use vstd::seq::group_seq_axioms, vstd::slice::group_slice_axioms;

#[verifier::external_type_specification]
#[verifier::external_body]
pub struct ExEcoString(ecow::EcoString);

#[verifier::external_type_specification]
#[verifier::external_body]
#[verifier::reject_recursive_types(T)]
pub struct ExEcoVec<T>(ecow::EcoVec<T>);

/// The name of the text that a copy-on-write string holds.
pub uninterp spec fn ecostring_text(s: &EcoString) -> Seq<char>;

/// The name of the bytes that a copy-on-write byte vector holds.
pub uninterp spec fn ecovec_bytes(v: &EcoVec<u8>) -> Seq<u8>;

/// `EcoString::as_str`: the text that the string holds.
#[verifier::external_body]
fn ecostring_as_str(s: &EcoString) -> (r: &str)
    ensures
        r@ == ecostring_text(s),
{
    s.as_str()
}

/// `EcoString::from(&str)`: a string holding the given text.
#[verifier::external_body]
fn ecostring_from(s: &str) -> (r: EcoString)
    ensures
        ecostring_text(&r) == s@,
{
    EcoString::from(s)
}

/// `EcoString::truncate`: keeps the first `n` bytes, where `n` lies on a `char` boundary.
#[verifier::external_body]
fn ecostring_truncate(s: &mut EcoString, n: usize)
    requires
        n <= encode_utf8(ecostring_text(old(s))).len(),
        is_char_boundary(encode_utf8(ecostring_text(old(s))), n as int),
    ensures
        encode_utf8(ecostring_text(final(s))) == encode_utf8(ecostring_text(old(s))).subrange(
            0,
            n as int,
        ),
{
    s.truncate(n)
}

/// `EcoString::push_str`: appends the given text.
#[verifier::external_body]
fn ecostring_push_str(s: &mut EcoString, t: &str)
    ensures
        ecostring_text(final(s)) == ecostring_text(old(s)) + t@,
{
    s.push_str(t)
}

/// `EcoVec::as_slice`: the bytes that the vector holds.
#[verifier::external_body]
fn ecovec_as_slice(v: &EcoVec<u8>) -> (r: &[u8])
    ensures
        r@ == ecovec_bytes(v),
{
    v.as_slice()
}

/// `EcoVec::from(&[u8])`: a vector holding the given bytes.
#[verifier::external_body]
fn ecovec_from(b: &[u8]) -> (r: EcoVec<u8>)
    ensures
        ecovec_bytes(&r) == b@,
{
    EcoVec::from(b)
}

/// `EcoVec::truncate`: keeps the first `n` bytes.
#[verifier::external_body]
fn ecovec_truncate(v: &mut EcoVec<u8>, n: usize)
    requires
        n <= ecovec_bytes(old(v)).len(),
    ensures
        ecovec_bytes(final(v)) == ecovec_bytes(old(v)).subrange(0, n as int),
{
    v.truncate(n)
}

/// `EcoVec::extend_from_slice`: appends the given bytes.
#[verifier::external_body]
fn ecovec_extend(v: &mut EcoVec<u8>, b: &[u8])
    ensures
        ecovec_bytes(final(v)) == ecovec_bytes(old(v)) + b@,
{
    v.extend_from_slice(b)
}

/// `EcoVec::make_mut`, then a store: byte `i` becomes `x`.
#[verifier::external_body]
fn ecovec_set(v: &mut EcoVec<u8>, i: usize, x: u8)
    requires
        i < ecovec_bytes(old(v)).len(),
    ensures
        ecovec_bytes(final(v)) == ecovec_bytes(old(v)).update(i as int, x),
{
    v.make_mut()[i] = x;
}

/// The bytes of two texts one after the other are the bytes of each, one after the other.
proof fn lemma_encode_concat(a: Seq<char>, b: Seq<char>)
    ensures
        encode_utf8(a + b) == encode_utf8(a) + encode_utf8(b),
    decreases a.len(),
{
    if a.len() > 0 {
        lemma_encode_concat(a.drop_first(), b);
        assert((a + b).drop_first() =~= a.drop_first() + b);
        assert((a + b)[0] == a[0]);
    } else {
        assert(a + b =~= b);
    }
}

impl OwnedHaystackable<char> for EcoString {
    type Hay<'b> = StrStack<'b>;

    open spec fn spec_owned_bytes(&self) -> Seq<u8> {
        encode_utf8(ecostring_text(self))
    }

    proof fn lemma_owned_valid(&self) {
        encode_utf8_valid_utf8(ecostring_text(self));
    }

    fn replace_range<'b>(&mut self, range: Range<usize>, replacement: &'b str) where Self: 'b {
        let ghost old_bytes = encode_utf8(ecostring_text(self));
        proof {
            encode_utf8_valid_utf8(ecostring_text(self));
            char::lemma_boundaries(old_bytes);
            assert(char::spec_boundary(old_bytes, range.end as int) == is_char_boundary(
                old_bytes,
                range.end as int,
            ));
            assert(char::spec_boundary(old_bytes, range.start as int) == is_char_boundary(
                old_bytes,
                range.start as int,
            ));
        }
        let whole = ecostring_as_str(self);
        let (_head, tail_str) = whole.split_at(range.end);
        let tail = ecostring_from(tail_str);
        ecostring_truncate(self, range.start);
        let ghost kept = ecostring_text(self);
        ecostring_push_str(self, replacement);
        let tail_text = ecostring_as_str(&tail);
        ecostring_push_str(self, tail_text);
        proof {
            lemma_encode_concat(kept, replacement@);
            lemma_encode_concat(kept + replacement@, tail_text@);
            assert(ecostring_text(self) == kept + replacement@ + tail_text@);
        }
    }

    fn as_haystack<'b>(&'b self) -> (r: StrStack<'b>) {
        StrStack::new(ecostring_as_str(self))
    }

    fn as_slice<'b>(&'b self) -> (r: &'b str) {
        ecostring_as_str(self)
    }

    fn len(&self) -> (r: usize) {
        let text = ecostring_as_str(self);
        let bytes = text.as_bytes();
        bytes.len()
    }
}

impl OwnedHaystackable<u8> for EcoVec<u8> {
    type Hay<'b> = ByteStack<'b>;

    open spec fn spec_owned_bytes(&self) -> Seq<u8> {
        ecovec_bytes(self)
    }

    proof fn lemma_owned_valid(&self) {
        assert(u8::spec_valid(self.spec_owned_bytes()));
    }

    fn replace_range<'b>(&mut self, range: Range<usize>, replacement: &'b [u8]) where Self: 'b {
        let ghost old_bytes = ecovec_bytes(self);
        proof {
            assert(u8::spec_boundary(old_bytes, range.end as int));
        }
        if range.end - range.start == replacement.len() {
            let mut k: usize = 0;
            while k < replacement.len()
                invariant
                    range.start <= range.end <= old_bytes.len(),
                    range.end - range.start == replacement@.len(),
                    k <= replacement@.len(),
                    ecovec_bytes(self) == old_bytes.subrange(0, range.start as int)
                        + replacement@.subrange(0, k as int) + old_bytes.subrange(
                        range.start + k,
                        old_bytes.len() as int,
                    ),
                decreases replacement@.len() - k,
            {
                let ghost before = ecovec_bytes(self);
                ecovec_set(self, range.start + k, replacement[k]);
                proof {
                    assert(ecovec_bytes(self) =~= old_bytes.subrange(0, range.start as int)
                        + replacement@.subrange(0, k + 1) + old_bytes.subrange(
                        range.start + k + 1,
                        old_bytes.len() as int,
                    ));
                }
                k = k + 1;
            }
            assert(replacement@.subrange(0, replacement@.len() as int) =~= replacement@);
        } else {
            let whole = ecovec_as_slice(self);
            let tail_slice = vstd::slice::slice_subrange(whole, range.end, whole.len());
            let tail = ecovec_from(tail_slice);
            ecovec_truncate(self, range.start);
            ecovec_extend(self, replacement);
            let tail_bytes = ecovec_as_slice(&tail);
            ecovec_extend(self, tail_bytes);
        }
    }

    fn as_haystack<'b>(&'b self) -> (r: ByteStack<'b>) {
        ByteStack::new(ecovec_as_slice(self))
    }

    fn as_slice<'b>(&'b self) -> (r: &'b [u8]) {
        ecovec_as_slice(self)
    }

    fn len(&self) -> (r: usize) {
        ecovec_as_slice(self).len()
    }
}

} // verus!
