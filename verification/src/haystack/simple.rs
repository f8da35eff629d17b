//! A simple haystack that is generic over its item type, created from a `&str` (for `char`s)
//! or a `&[u8]` (for `u8`s), that records whether it has moved away from its start.
use std::marker::PhantomData;
use std::ops::Range;
use vstd::prelude::*;
use vstd::string::StringSliceAdditionalSpecFns;
use vstd::utf8::*;

use crate::haystack::item::{items_before, items_from, HaystackItem};

verus! {

broadcast use vstd::seq::group_seq_axioms, vstd::slice::group_slice_axioms;

/// `std::str::from_utf8`: the standard library documents that it succeeds exactly when the
/// bytes are valid UTF-8, and then returns the text that they encode.
#[verifier::external_body]
pub(crate) fn str_from_utf8(v: &[u8]) -> (r: Option<&str>)
    ensures
        r is Some <==> valid_utf8(v@),
        r matches Some(s) ==> s.spec_bytes() == v@,
{
    std::str::from_utf8(v).ok()
}

/// What a haystack was made from: text, or bytes.
#[derive(Debug, Clone, Copy)]
enum Source<'a> {
    Text(&'a str),
    Bytes(&'a [u8]),
}

/// The bytes of a source.
spec fn source_bytes(s: Source<'_>) -> Seq<u8> {
    match s {
        Source::Text(t) => t.spec_bytes(),
        Source::Bytes(b) => b@,
    }
}

impl<'a> Source<'a> {
    /// The bytes of the source, as a slice.
    fn as_bytes(&self) -> (r: &'a [u8])
        ensures
            r@ == source_bytes(*self),
    {
        match self {
            Source::Text(t) => t.as_bytes(),
            Source::Bytes(b) => b,
        }
    }
}

/// A haystack over the items `I` of a text or byte slice. It stands between two items and
/// remembers whether it has ever been progressed.
#[derive(Debug, Copy)]
pub struct Haystack<'a, I: HaystackItem> {
    source: Source<'a>,
    index: usize,
    start: bool,
    item: PhantomData<I>,
}

impl<'a, I: HaystackItem> Haystack<'a, I> {
    #[verifier::type_invariant]
    spec fn well_formed(self) -> bool {
        &&& I::spec_valid(source_bytes(self.source))
        &&& I::spec_boundary(source_bytes(self.source), self.index as int)
    }

    /// The bytes of the whole haystack.
    pub closed spec fn spec_bytes(&self) -> Seq<u8> {
        source_bytes(self.source)
    }

    /// The current byte index.
    pub closed spec fn spec_index(&self) -> int {
        self.index as int
    }

    /// Whether the haystack has never been progressed.
    pub closed spec fn spec_start(&self) -> bool {
        self.start
    }

    /// The items from the current index onwards.
    pub open spec fn spec_rest(&self) -> Seq<I> {
        items_from::<I>(self.spec_bytes(), self.spec_index())
    }

    /// The items before the current index.
    pub open spec fn spec_consumed(&self) -> Seq<I> {
        items_before::<I>(self.spec_bytes(), self.spec_index())
    }

    fn new(source: Source<'a>) -> (r: Haystack<'a, I>)
        requires
            I::spec_valid(source_bytes(source)),
        ensures
            r == (Haystack::<'a, I> { source, index: 0, start: true, item: PhantomData }),
            r.spec_bytes() == source_bytes(source),
            r.spec_index() == 0,
            r.spec_start(),
    {
        proof {
            I::lemma_boundaries(source_bytes(source));
        }
        Haystack { source, index: 0, start: true, item: PhantomData }
    }

    /// Returns the current item without consuming it, `None` at the end.
    pub fn item(&mut self) -> (r: Option<I>)
        ensures
            *final(self) == *old(self),
            r == (if old(self).spec_rest().len() > 0 {
                Some(old(self).spec_rest()[0])
            } else {
                None
            }),
    {
        proof {
            use_type_invariant(&*self);
        }
        match I::read_at(self.source.as_bytes(), self.index) {
            Some((c, _w)) => Some(c),
            None => None,
        }
    }

    /// Moves past the current item, if there is one, and leaves the start for good.
    pub fn progress(&mut self)
        ensures
            final(self).spec_bytes() == old(self).spec_bytes(),
            !final(self).spec_start(),
            old(self).spec_rest().len() == 0 ==> final(self).spec_index() == old(self).spec_index(),
            old(self).spec_rest().len() > 0 ==> {
                &&& old(self).spec_rest() == seq![old(self).spec_rest()[0]] + final(self).spec_rest()
                &&& final(self).spec_consumed() == old(self).spec_consumed().push(old(self).spec_rest()[0])
            },
    {
        proof {
            use_type_invariant(&*self);
        }
        // The new index stays within the bytes, whose length fits in a `usize`.
        let bytes = self.source.as_bytes();
        let len = bytes.len();
        match I::read_at(bytes, self.index) {
            Some((_c, w)) => {
                assert(self.index + w <= len);
                self.index = self.index + w;
            },
            None => {},
        }
        self.start = false;
    }

    /// Whether the haystack has never been progressed.
    pub fn is_start(&mut self) -> (r: bool)
        ensures
            *final(self) == *old(self),
            r == old(self).spec_start(),
    {
        self.start
    }

    /// Whether no items remain.
    pub fn is_end(&mut self) -> (r: bool)
        ensures
            *final(self) == *old(self),
            r == (old(self).spec_rest().len() == 0),
    {
        self.item().is_none()
    }

    /// The current byte index.
    pub fn index(&self) -> (r: usize)
        ensures
            r == self.spec_index(),
            I::spec_valid(self.spec_bytes()),
            I::spec_boundary(self.spec_bytes(), self.spec_index()),
    {
        proof {
            use_type_invariant(self);
        }
        self.index
    }
}

impl<'a, I: HaystackItem> Clone for Haystack<'a, I> {
    fn clone(&self) -> (r: Self)
        ensures
            r == *self,
    {
        *self
    }
}

impl<'a> Haystack<'a, char> {
    /// Slices the whole text with `range`, whose ends must lie between `char`s.
    pub fn slice(&self, range: Range<usize>) -> (r: &'a str)
        requires
            range.start <= range.end,
            is_char_boundary(self.spec_bytes(), range.start as int),
            is_char_boundary(self.spec_bytes(), range.end as int),
        ensures
            r.spec_bytes() == self.spec_bytes().subrange(range.start as int, range.end as int),
    {
        proof {
            use_type_invariant(self);
            let bytes = self.spec_bytes();
            assert(char::spec_valid(bytes) == valid_utf8(bytes));
            char::lemma_boundaries(bytes);
            assert(char::spec_boundary(bytes, range.end as int) == is_char_boundary(bytes, range.end as int));
            valid_utf8_split(bytes, range.end as int);
            crate::haystack::utf8::lemma_boundary_in_prefix(bytes, range.start as int, range.end as int);
            valid_utf8_split(bytes.subrange(0, range.end as int), range.start as int);
            assert(bytes.subrange(0, range.end as int).subrange(range.start as int, range.end as int)
                =~= bytes.subrange(range.start as int, range.end as int));
        }
        let sub = vstd::slice::slice_subrange(self.source.as_bytes(), range.start, range.end);
        match str_from_utf8(sub) {
            Some(s) => s,
            None => {
                assert(false);
                ""
            },
        }
    }
}

impl<'a> Haystack<'a, u8> {
    /// Slices the whole byte slice with `range`.
    pub fn slice(&self, range: Range<usize>) -> (r: &'a [u8])
        requires
            range.start <= range.end <= self.spec_bytes().len(),
        ensures
            r@ == self.spec_bytes().subrange(range.start as int, range.end as int),
    {
        vstd::slice::slice_subrange(self.source.as_bytes(), range.start, range.end)
    }
}

impl<'a> From<&'a str> for Haystack<'a, char> {
    fn from(value: &'a str) -> (r: Haystack<'a, char>) {
        proof {
            encode_utf8_valid_utf8(value@);
            assert(char::spec_valid(value.spec_bytes()) == valid_utf8(value.spec_bytes()));
        }
        Haystack::new(Source::Text(value))
    }
}

impl<'a> vstd::std_specs::convert::FromSpecImpl<&'a str> for Haystack<'a, char> {
    open spec fn obeys_from_spec() -> bool {
        true
    }

    closed spec fn from_spec(v: &'a str) -> Haystack<'a, char> {
        Haystack { source: Source::Text(v), index: 0, start: true, item: PhantomData }
    }
}

impl<'a> Haystack<'a, char> {
    /// Converting text with `from` gives the haystack over its bytes, at its start and
    /// never progressed, with all of its `char`s still to be read.
    pub proof fn lemma_from_str(v: &'a str)
        ensures
            ({
                let h = <Haystack<'a, char> as vstd::std_specs::convert::FromSpec<&'a str>>::from_spec(v);
                &&& h.spec_bytes() == v.spec_bytes()
                &&& h.spec_index() == 0
                &&& h.spec_start()
                &&& h.spec_rest() == v@
            }),
    {
        encode_utf8_decode_utf8(v@);
        let h = <Haystack<'a, char> as vstd::std_specs::convert::FromSpec<&'a str>>::from_spec(v);
        assert(h.spec_bytes().subrange(0, h.spec_bytes().len() as int) =~= h.spec_bytes());
        assert(char::spec_items(h.spec_bytes()) == decode_utf8(h.spec_bytes()));
    }
}

impl<'a> From<&'a [u8]> for Haystack<'a, u8> {
    fn from(value: &'a [u8]) -> (r: Haystack<'a, u8>) {
        assert(u8::spec_valid(value@));
        Haystack::new(Source::Bytes(value))
    }
}

impl<'a> vstd::std_specs::convert::FromSpecImpl<&'a [u8]> for Haystack<'a, u8> {
    open spec fn obeys_from_spec() -> bool {
        true
    }

    closed spec fn from_spec(v: &'a [u8]) -> Haystack<'a, u8> {
        Haystack { source: Source::Bytes(v), index: 0, start: true, item: PhantomData }
    }
}

impl<'a> Haystack<'a, u8> {
    /// Converting bytes with `from` gives the haystack over them, at its start and never
    /// progressed, with all of them still to be read.
    pub proof fn lemma_from_bytes(v: &'a [u8])
        ensures
            ({
                let h = <Haystack<'a, u8> as vstd::std_specs::convert::FromSpec<&'a [u8]>>::from_spec(v);
                &&& h.spec_bytes() == v@
                &&& h.spec_index() == 0
                &&& h.spec_start()
                &&& h.spec_rest() == v@
            }),
    {
        let h = <Haystack<'a, u8> as vstd::std_specs::convert::FromSpec<&'a [u8]>>::from_spec(v);
        assert(h.spec_bytes().subrange(0, h.spec_bytes().len() as int) =~= h.spec_bytes());
    }
}

/// Creates a haystack over the `char`s of `value`, at its start.
pub fn haystack_of_str<'a>(value: &'a str) -> (r: Haystack<'a, char>)
    ensures
        r.spec_bytes() == value.spec_bytes(),
        r.spec_index() == 0,
        r.spec_start(),
        r.spec_rest() == value@,
{
    proof {
        encode_utf8_valid_utf8(value@);
        encode_utf8_decode_utf8(value@);
        assert(char::spec_valid(value.spec_bytes()) == valid_utf8(value.spec_bytes()));
    }
    let r = Haystack::new(Source::Text(value));
    assert(r.spec_bytes().subrange(0, r.spec_bytes().len() as int) =~= r.spec_bytes());
    assert(char::spec_items(r.spec_bytes()) == decode_utf8(r.spec_bytes()));
    r
}

/// Creates a haystack over the `u8`s of `value`, at its start.
pub fn haystack_of_bytes<'a>(value: &'a [u8]) -> (r: Haystack<'a, u8>)
    ensures
        r.spec_bytes() == value@,
        r.spec_index() == 0,
        r.spec_start(),
        r.spec_rest() == value@,
{
    assert(u8::spec_valid(value@));
    let r = Haystack::new(Source::Bytes(value));
    assert(r.spec_bytes().subrange(0, r.spec_bytes().len() as int) =~= r.spec_bytes());
    r
}

} // verus!
