//! The individual items that a haystack is made of: `char`s of UTF-8 text and raw `u8`s.
use vstd::prelude::*;
use vstd::string::StringSliceAdditionalSpecFns;
use vstd::utf8::*;

use crate::haystack::utf8::{chars_before, chars_from, first_char_at, lemma_advance, lemma_previous};
use crate::sealed::Sealed;

verus! {

broadcast use vstd::seq::group_seq_axioms, vstd::slice::group_slice_axioms;

/// The items of type `I` encoded by `bytes` from index `i` onwards.
pub open spec fn items_from<I: HaystackItem>(bytes: Seq<u8>, i: int) -> Seq<I> {
    I::spec_items(bytes.subrange(i, bytes.len() as int))
}

/// The items of type `I` encoded by `bytes` before index `i`.
pub open spec fn items_before<I: HaystackItem>(bytes: Seq<u8>, i: int) -> Seq<I> {
    I::spec_items(bytes.subrange(0, i))
}

/// An individual item that can be matched against a regular expression. The two (and only)
/// implementers are `char`, read from UTF-8 text, and `u8`, read from raw bytes.
///
/// Every haystack is a byte sequence: `spec_items` says which items it holds, and
/// `spec_boundary` which byte positions lie between two items.
pub trait HaystackItem: Sized + Copy + Sealed {
    /// Whether `bytes` can be read as a sequence of these items.
    spec fn spec_valid(bytes: Seq<u8>) -> bool;

    /// Whether byte position `i` lies between two items of `bytes` (or at either end).
    spec fn spec_boundary(bytes: Seq<u8>, i: int) -> bool;

    /// The items encoded by `bytes`.
    spec fn spec_items(bytes: Seq<u8>) -> Seq<Self>;

    spec fn spec_is_newline(self) -> bool;

    spec fn spec_is_return(self) -> bool;

    /// Boundaries lie within the sequence, and both ends are boundaries.
    proof fn lemma_boundaries(bytes: Seq<u8>)
        requires
            Self::spec_valid(bytes),
        ensures
            Self::spec_boundary(bytes, 0),
            Self::spec_boundary(bytes, bytes.len() as int),
            forall|i: int| #[trigger] Self::spec_boundary(bytes, i) ==> 0 <= i <= bytes.len(),
    ;

    /// The items before a boundary followed by the items after it are all the items.
    proof fn lemma_items_split(bytes: Seq<u8>, i: int)
        requires
            Self::spec_valid(bytes),
            Self::spec_boundary(bytes, i),
        ensures
            Self::spec_items(bytes.subrange(0, i)) + Self::spec_items(
                bytes.subrange(i, bytes.len() as int),
            ) == Self::spec_items(bytes),
    ;

    /// The text of every `&str` can be read as these items.
    proof fn lemma_str_valid(s: &str)
        ensures
            Self::spec_valid(s.spec_bytes()),
    ;

    /// Creates a `Vec` of this item from the provided `&str`, used to convert string literals
    /// into individual items that can be matched in a haystack.
    fn vec_from_str(value: &str) -> (r: Vec<Self>)
        ensures
            r@ == Self::spec_items(value.spec_bytes()),
    ;

    /// The same as [`vec_from_str`](Self::vec_from_str).
    fn collect_from_str(value: &str) -> (r: Vec<Self>)
        ensures
            r@ == Self::spec_items(value.spec_bytes()),
    {
        Self::vec_from_str(value)
    }

    /// Creates a `Vec` of this item from the provided bytes, which must encode such items.
    fn collect_from_bytes(value: &[u8]) -> (r: Vec<Self>)
        requires
            Self::spec_valid(value@),
        ensures
            r@ == Self::spec_items(value@),
    ;

    /// An iterator over the items of the provided `&str`.
    fn iter_from_str(value: &str) -> (r: std::vec::IntoIter<Self>)
        ensures
            vstd::std_specs::iter::IteratorSpec::remaining(&r) == Self::spec_items(value.spec_bytes()),
    {
        broadcast use vstd::std_specs::vec::axiom_spec_into_iter;

        Self::vec_from_str(value).into_iter()
    }

    fn is_newline(self) -> (r: bool)
        ensures
            r == self.spec_is_newline(),
    ;

    fn is_return(self) -> (r: bool)
        ensures
            r == self.spec_is_return(),
    ;

    /// Reads the item that starts at boundary `at`, with its width in bytes; `None` at the end.
    fn read_at(bytes: &[u8], at: usize) -> (r: Option<(Self, usize)>)
        requires
            Self::spec_valid(bytes@),
            Self::spec_boundary(bytes@, at as int),
        ensures
            match r {
                None => at == bytes@.len() && Self::spec_items(bytes@.subrange(at as int, bytes@.len() as int)).len() == 0,
                Some((c, w)) => {
                    &&& at < bytes@.len()
                    &&& 1 <= w
                    &&& at + w <= bytes@.len()
                    &&& Self::spec_boundary(bytes@, at + w)
                    &&& Self::spec_items(bytes@.subrange(at as int, bytes@.len() as int)) == seq![c] + Self::spec_items(bytes@.subrange(at + w, bytes@.len() as int))
                    &&& Self::spec_items(bytes@.subrange(0, at + w)) == Self::spec_items(bytes@.subrange(0, at as int)).push(c)
                },
            },
    ;

    /// Reads the item that ends at boundary `at`; `None` at the start.
    fn read_before(bytes: &[u8], at: usize) -> (r: Option<Self>)
        requires
            Self::spec_valid(bytes@),
            Self::spec_boundary(bytes@, at as int),
        ensures
            r == (if at == 0 {
                None
            } else {
                Some(Self::spec_items(bytes@.subrange(0, at as int)).last())
            }),
    ;
}

/// A helper for getting the first `char` of a provided `&str`. Returns the width of the
/// character in bytes (zero for an empty string) and the character itself.
pub fn first_char_and_width(value: &str) -> (r: (usize, Option<char>))
    ensures
        value@.len() == 0 ==> r == (0usize, None::<char>),
        value@.len() > 0 ==> r == (encode_scalar(value@[0] as u32).len() as usize, Some(
            value@[0],
        )),
{
    broadcast use vstd::string::group_string_axioms;

    let mut it = value.chars();
    match it.next() {
        None => (0, None),
        Some(c) => {
            let v = c as u32;
            proof {
                vstd::utf8::char_is_scalar(c);
            }
            let w: usize = if v <= 0x7f {
                1
            } else if v <= 0x7ff {
                2
            } else if v <= 0xffff {
                3
            } else {
                4
            };
            (w, Some(c))
        },
    }
}

/// Returns the first `char` of the provided `&str`, if any.
pub fn first_char(value: &str) -> (r: Option<char>)
    ensures
        r == (if value@.len() == 0 {
            None
        } else {
            Some(value@[0])
        }),
{
    broadcast use vstd::string::group_string_axioms;

    let mut it = value.chars();
    it.next()
}

/// The same as [`first_char_and_width`].
pub fn get_first_char(value: &str) -> (r: (usize, Option<char>))
    ensures
        value@.len() == 0 ==> r == (0usize, None::<char>),
        value@.len() > 0 ==> r == (encode_scalar(value@[0] as u32).len() as usize, Some(
            value@[0],
        )),
{
    let (width, first) = first_char_and_width(value);
    match first {
        Some(c) => (width, Some(get_item((0usize, c)))),
        None => (width, None),
    }
}

/// Drops the position from an indexed item.
pub fn get_item<I>(pair: (usize, I)) -> (r: I)
    ensures
        r == pair.1,
{
    pair.1
}

impl Sealed for char {}

impl HaystackItem for char {
    open spec fn spec_valid(bytes: Seq<u8>) -> bool {
        valid_utf8(bytes)
    }

    open spec fn spec_boundary(bytes: Seq<u8>, i: int) -> bool {
        is_char_boundary(bytes, i)
    }

    open spec fn spec_items(bytes: Seq<u8>) -> Seq<char> {
        decode_utf8(bytes)
    }

    open spec fn spec_is_newline(self) -> bool {
        self == '\n'
    }

    open spec fn spec_is_return(self) -> bool {
        self == '\r'
    }

    proof fn lemma_boundaries(bytes: Seq<u8>) {
        assert(char::spec_valid(bytes) == valid_utf8(bytes));
        assert(char::spec_valid(bytes));
        assert(valid_utf8(bytes));
        is_char_boundary_start_end_of_seq(bytes);
        assert(is_char_boundary(bytes, 0));
        assert(is_char_boundary(bytes, bytes.len() as int));
        assert(char::spec_boundary(bytes, 0));
        assert(char::spec_boundary(bytes, bytes.len() as int));
        assert forall|i: int| #[trigger] char::spec_boundary(bytes, i) implies 0 <= i
            <= bytes.len() by {
            assert(is_char_boundary(bytes, i));
        }
    }

    proof fn lemma_str_valid(s: &str) {
        encode_utf8_valid_utf8(s@);
    }

    proof fn lemma_items_split(bytes: Seq<u8>, i: int) {
        assert(char::spec_valid(bytes) == valid_utf8(bytes));
        assert(char::spec_boundary(bytes, i) == is_char_boundary(bytes, i));
        decode_utf8_split(bytes, i);
    }

    fn vec_from_str(value: &str) -> (r: Vec<char>) {
        proof {
            encode_utf8_valid_utf8(value@);
        }
        char::collect_from_bytes(value.as_bytes())
    }

    fn collect_from_bytes(value: &[u8]) -> (r: Vec<char>) {
        let mut res: Vec<char> = Vec::new();
        let mut at: usize = 0;
        proof {
            char::lemma_boundaries(value@);
            assert(value@.subrange(0, 0) =~= Seq::<u8>::empty());
        }
        while at < value.len()
            invariant
                valid_utf8(value@),
                is_char_boundary(value@, at as int),
                at <= value@.len(),
                res@ == chars_before(value@, at as int),
            decreases value@.len() - at,
        {
            proof {
                lemma_advance(value@, at as int);
            }
            let (c, w) = first_char_at(value, at);
            res.push(c);
            at = at + w;
        }
        assert(value@.subrange(0, value@.len() as int) =~= value@);
        res
    }

    fn is_newline(self) -> (r: bool) {
        self == '\n'
    }

    fn is_return(self) -> (r: bool) {
        self == '\r'
    }

    fn read_at(bytes: &[u8], at: usize) -> (r: Option<(char, usize)>) {
        if at >= bytes.len() {
            proof {
                char::lemma_boundaries(bytes@);
                assert(bytes@.subrange(at as int, bytes@.len() as int) =~= Seq::<u8>::empty());
            }
            None
        } else {
            proof {
                lemma_advance(bytes@, at as int);
            }
            let (c, w) = first_char_at(bytes, at);
            Some((c, w))
        }
    }

    fn read_before(bytes: &[u8], at: usize) -> (r: Option<char>) {
        if at == 0 {
            None
        } else {
            proof {
                char::lemma_boundaries(bytes@);
                is_char_boundary_start_end_of_seq(bytes@);
            }
            let mut i: usize = at - 1;
            while !is_boundary(bytes, i)
                invariant
                    valid_utf8(bytes@),
                    i < at <= bytes@.len(),
                    forall|k: int| i < k < at ==> !is_char_boundary(bytes@, k),
                decreases i,
            {
                i = i - 1;
            }
            proof {
                lemma_previous(bytes@, i as int, at as int);
                lemma_advance(bytes@, i as int);
            }
            let (c, _w) = first_char_at(bytes, i);
            Some(c)
        }
    }
}

/// Whether byte position `i` of valid UTF-8 starts a character (or is the end).
fn is_boundary(bytes: &[u8], i: usize) -> (r: bool)
    requires
        valid_utf8(bytes@),
        i <= bytes@.len(),
    ensures
        r == is_char_boundary(bytes@, i as int),
{
    if i == 0 {
        proof {
            is_char_boundary_start_end_of_seq(bytes@);
        }
        true
    } else if i == bytes.len() {
        proof {
            is_char_boundary_start_end_of_seq(bytes@);
        }
        true
    } else {
        proof {
            is_char_boundary_iff_not_is_continuation_byte(bytes@, i as int);
        }
        let b = bytes[i];
        !(0x80 <= b && b <= 0xbf)
    }
}

impl Sealed for u8 {}

impl HaystackItem for u8 {
    open spec fn spec_valid(bytes: Seq<u8>) -> bool {
        true
    }

    open spec fn spec_boundary(bytes: Seq<u8>, i: int) -> bool {
        0 <= i <= bytes.len()
    }

    open spec fn spec_items(bytes: Seq<u8>) -> Seq<u8> {
        bytes
    }

    open spec fn spec_is_newline(self) -> bool {
        self == 10u8
    }

    open spec fn spec_is_return(self) -> bool {
        self == 13u8
    }

    proof fn lemma_boundaries(bytes: Seq<u8>) {
    }

    proof fn lemma_str_valid(s: &str) {
    }

    proof fn lemma_items_split(bytes: Seq<u8>, i: int) {
        assert(u8::spec_boundary(bytes, i) ==> 0 <= i <= bytes.len());
        assert(bytes.subrange(0, i) + bytes.subrange(i, bytes.len() as int) =~= bytes);
    }

    fn vec_from_str(value: &str) -> (r: Vec<u8>) {
        let b = value.as_bytes();
        assert(u8::spec_valid(b@));
        u8::collect_from_bytes(b)
    }

    fn collect_from_bytes(value: &[u8]) -> (r: Vec<u8>) {
        vstd::slice::slice_to_vec(value)
    }

    fn is_newline(self) -> (r: bool) {
        self == 10u8
    }

    fn is_return(self) -> (r: bool) {
        self == 13u8
    }

    fn read_at(bytes: &[u8], at: usize) -> (r: Option<(u8, usize)>) {
        if at >= bytes.len() {
            assert(bytes@.subrange(at as int, bytes@.len() as int) =~= Seq::<u8>::empty());
            None
        } else {
            let c = bytes[at];
            assert(bytes@.subrange(at as int, bytes@.len() as int) =~= seq![c]
                + bytes@.subrange(at + 1, bytes@.len() as int));
            assert(bytes@.subrange(0, at + 1) =~= bytes@.subrange(0, at as int).push(c));
            Some((c, 1))
        }
    }

    fn read_before(bytes: &[u8], at: usize) -> (r: Option<u8>) {
        if at == 0 {
            None
        } else {
            Some(bytes[at - 1])
        }
    }
}

/// The items read before a position between two items, followed by the items still to be
/// read from it, are all the items of the haystack: a haystack neither loses nor repeats an
/// item as it moves.
pub proof fn law_items_split<I: HaystackItem>(bytes: Seq<u8>, i: int)
    requires
        I::spec_valid(bytes),
        I::spec_boundary(bytes, i),
    ensures
        items_before::<I>(bytes, i) + items_from::<I>(bytes, i) == I::spec_items(bytes),
{
    I::lemma_items_split(bytes, i);
}

} // verus!
