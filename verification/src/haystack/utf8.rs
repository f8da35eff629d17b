//! Reading UTF-8 encoded scalars out of byte slices, proved against the model of
//! UTF-8 in `vstd::utf8`.
use vstd::prelude::*;
use vstd::utf8::*;

verus! {

broadcast use vstd::seq::group_seq_axioms;

/// `char::from_u32`: the standard library documents that it returns `Some` exactly for
/// Unicode scalar values (at most `0x10FFFF` and outside the surrogate range), holding
/// that value as a `char`, and `None` otherwise.
#[verifier::external_body]
fn char_from_u32(v: u32) -> (r: Option<char>)
    ensures
        r == (if is_scalar(v) { Some(v as char) } else { None::<char> }),
{
    char::from_u32(v)
}

proof fn lemma_width_2_bound(b0: u8, b1: u8)
    by (bit_vector)
    ensures
        (((b0 & 0x1f) as u32) << 6u32) | ((b1 & 0x3f) as u32) <= 0x7ffu32,
{
}

proof fn lemma_width_3_bound(b0: u8, b1: u8, b2: u8)
    by (bit_vector)
    ensures
        (((b0 & 0x0f) as u32) << 12u32) | (((b1 & 0x3f) as u32) << 6u32) | ((b2 & 0x3f) as u32)
            <= 0xffffu32,
{
}

/// The first scalar of a well-formed encoding is a Unicode scalar value.
pub proof fn lemma_first_scalar_is_scalar(s: Seq<u8>)
    requires
        valid_first_scalar(s),
    ensures
        is_scalar(decode_first_scalar(s)),
{
    if is_leading_byte_width_2(s[0]) {
        lemma_width_2_bound(s[0], s[1]);
    } else if is_leading_byte_width_3(s[0]) {
        lemma_width_3_bound(s[0], s[1], s[2]);
    }
}

/// The value and byte length of the scalar whose encoding starts at `at`.
pub fn first_scalar(bytes: &[u8], at: usize) -> (r: (u32, usize))
    requires
        at < bytes@.len(),
        valid_first_scalar(bytes@.subrange(at as int, bytes@.len() as int)),
    ensures
        r.0 == decode_first_scalar(bytes@.subrange(at as int, bytes@.len() as int)),
        r.1 == length_of_first_scalar(bytes@.subrange(at as int, bytes@.len() as int)),
        1 <= r.1 <= 4,
        at + r.1 <= bytes@.len(),
{
    let ghost s = bytes@.subrange(at as int, bytes@.len() as int);
    let b0 = bytes[at];
    if b0 <= 0x7f {
        ((b0 & 0x7f) as u32, 1)
    } else if 0xc0 <= b0 && b0 <= 0xdf {
        assert(s[1] == bytes@[at + 1]);
        let b1 = bytes[at + 1];
        ((((b0 & 0x1f) as u32) << 6u32) | ((b1 & 0x3f) as u32), 2)
    } else if 0xe0 <= b0 && b0 <= 0xef {
        assert(s[1] == bytes@[at + 1] && s[2] == bytes@[at + 2]);
        let b1 = bytes[at + 1];
        let b2 = bytes[at + 2];
        ((((b0 & 0x0f) as u32) << 12u32) | (((b1 & 0x3f) as u32) << 6u32) | ((b2 & 0x3f) as u32), 3)
    } else {
        assert(s[1] == bytes@[at + 1] && s[2] == bytes@[at + 2] && s[3] == bytes@[at + 3]);
        let b1 = bytes[at + 1];
        let b2 = bytes[at + 2];
        let b3 = bytes[at + 3];
        (
            (((b0 & 0x07) as u32) << 18u32) | (((b1 & 0x3f) as u32) << 12u32) | (((b2 & 0x3f) as u32)
                << 6u32) | ((b3 & 0x3f) as u32),
            4,
        )
    }
}

/// The `char` whose encoding starts at `at`, and the byte length of that encoding.
pub fn first_char_at(bytes: &[u8], at: usize) -> (r: (char, usize))
    requires
        at < bytes@.len(),
        valid_first_scalar(bytes@.subrange(at as int, bytes@.len() as int)),
    ensures
        r.0 == decode_first_scalar(bytes@.subrange(at as int, bytes@.len() as int)) as char,
        r.1 == length_of_first_scalar(bytes@.subrange(at as int, bytes@.len() as int)),
        1 <= r.1 <= 4,
        at + r.1 <= bytes@.len(),
{
    let (v, w) = first_scalar(bytes, at);
    proof {
        lemma_first_scalar_is_scalar(bytes@.subrange(at as int, bytes@.len() as int));
    }
    match char_from_u32(v) {
        Some(c) => (c, w),
        None => {
            assert(false);
            ('\0', w)
        },
    }
}


/// The characters encoded by the bytes from index `i` onwards.
pub open spec fn chars_from(b: Seq<u8>, i: int) -> Seq<char> {
    decode_utf8(b.subrange(i, b.len() as int))
}

/// The characters encoded by the bytes before index `i`.
pub open spec fn chars_before(b: Seq<u8>, i: int) -> Seq<char> {
    decode_utf8(b.subrange(0, i))
}

/// A single well-formed scalar encoding decodes to exactly one character.
pub proof fn lemma_single_scalar(s: Seq<u8>)
    requires
        valid_first_scalar(s),
    ensures
        valid_utf8(take_first_scalar(s)),
        decode_utf8(take_first_scalar(s)) == seq![decode_first_scalar(s) as char],
{
    let t = take_first_scalar(s);
    let l = length_of_first_scalar(s);
    assert(t.len() == l);
    assert(forall|k: int| 0 <= k < l ==> t[k] == s[k]);
    assert(valid_first_scalar(t));
    assert(length_of_first_scalar(t) == l);
    assert(decode_first_scalar(t) == decode_first_scalar(s));
    assert(pop_first_scalar(t) =~= Seq::<u8>::empty());
    assert(valid_utf8(pop_first_scalar(t)));
    assert(valid_utf8(t));
    assert(decode_utf8(pop_first_scalar(t)) =~= Seq::<char>::empty());
    assert(decode_utf8(t) =~= seq![decode_first_scalar(s) as char]);
}

/// A boundary of a valid sequence that lies inside a prefix is also a boundary of that prefix.
pub proof fn lemma_boundary_in_prefix(b: Seq<u8>, i: int, j: int)
    requires
        valid_utf8(b),
        is_char_boundary(b, i),
        is_char_boundary(b, j),
        0 <= i <= j <= b.len(),
    ensures
        valid_utf8(b.subrange(0, j)),
        is_char_boundary(b.subrange(0, j), i),
{
    valid_utf8_split(b, j);
    let p = b.subrange(0, j);
    if i == 0 {
    } else if i == j {
        is_char_boundary_start_end_of_seq(p);
    } else {
        is_char_boundary_iff_not_is_continuation_byte(b, i);
        is_char_boundary_iff_not_is_continuation_byte(p, i);
        assert(p[i] == b[i]);
    }
}

/// Stepping over the character at a boundary lands on the next boundary, and moves that
/// character from the remaining characters to the consumed ones.
pub proof fn lemma_advance(b: Seq<u8>, i: int)
    requires
        valid_utf8(b),
        is_char_boundary(b, i),
        0 <= i < b.len(),
    ensures
        valid_first_scalar(b.subrange(i, b.len() as int)),
        ({
            let s = b.subrange(i, b.len() as int);
            let l = length_of_first_scalar(s);
            let c = decode_first_scalar(s) as char;
            &&& 1 <= l
            &&& i + l <= b.len()
            &&& is_char_boundary(b, i + l)
            &&& chars_from(b, i) == seq![c] + chars_from(b, i + l)
            &&& chars_before(b, i + l) == chars_before(b, i).push(c)
        }),
{
    let n = b.len() as int;
    valid_utf8_split(b, i);
    let s = b.subrange(i, n);
    assert(valid_utf8(s));
    assert(valid_first_scalar(s));
    let l = length_of_first_scalar(s);
    let rest = pop_first_scalar(s);
    assert(valid_utf8(rest));
    assert(rest =~= b.subrange(i + l, n));
    if i + l == n {
        is_char_boundary_start_end_of_seq(b);
    } else {
        assert(valid_first_scalar(rest));
        assert(rest[0] == b[i + l]);
        is_char_boundary_iff_not_is_continuation_byte(b, i + l);
    }
    let c = decode_first_scalar(s) as char;
    assert(chars_from(b, i) == seq![c] + chars_from(b, i + l));
    lemma_boundary_in_prefix(b, i, i + l);
    let p = b.subrange(0, i + l);
    decode_utf8_split(p, i);
    assert(p.subrange(0, i) =~= b.subrange(0, i));
    assert(p.subrange(i, i + l) =~= take_first_scalar(s));
    lemma_single_scalar(s);
    assert(chars_before(b, i + l) =~= chars_before(b, i).push(c));
}

/// When no boundary lies strictly between the boundaries `i < j`, the bytes between them
/// encode exactly one character.
pub proof fn lemma_previous(b: Seq<u8>, i: int, j: int)
    requires
        valid_utf8(b),
        is_char_boundary(b, i),
        is_char_boundary(b, j),
        0 <= i < j <= b.len(),
        forall|k: int| i < k < j ==> !is_char_boundary(b, k),
    ensures
        valid_first_scalar(b.subrange(i, b.len() as int)),
        i + length_of_first_scalar(b.subrange(i, b.len() as int)) == j,
        chars_before(b, j) == chars_before(b, i).push(
            decode_first_scalar(b.subrange(i, b.len() as int)) as char,
        ),
{
    let n = b.len() as int;
    lemma_advance(b, i);
    let s = b.subrange(i, n);
    let l = length_of_first_scalar(s);
    if i + l > j {
        assert(is_continuation_byte(s[j - i]));
        assert(s[j - i] == b[j]);
        if j < n {
            is_char_boundary_iff_not_is_continuation_byte(b, j);
        }
        assert(false);
    }
    if i + l < j {
        assert(!is_char_boundary(b, i + l));
        assert(false);
    }
}

} // verus!
