//! Writes the matcher type of an expression tree as the text of a Rust type.
use vstd::prelude::*;
use vstd::string::StringSliceAdditionalSpecFns;
use vstd::utf8::{decode_utf8, encode_utf8_decode_utf8, valid_utf8};

use crate::haystack::simple::str_from_utf8;
use crate::haystack::HaystackItem;
use crate::hir::groups::Groups;
use crate::hir::node::{ClassNode, HirNode, LookKind};
use crate::hir::spec::{
    all_writable, ascii_ranges, canonical, chunked, class_codes, class_writable, commas,
    concat_text, first_repetition, scalar_range_codes, byte_range_codes, generic, item_text, item_type, lemma_all_writable,
    lemma_first_repetition_at, lemma_seq_groups_append, lemma_seq_groups_single, literal_codes, matcher_path, node_groups,
    node_text, node_texts, quoted_scalar, range_text, seq_groups, writable,
};
use crate::hir::text::{
    decimal, extend_string, hexadecimal, push_all, push_decimal, push_hexadecimal, push_str,
};

verus! {

broadcast use vstd::seq::group_seq_axioms;

/// The contents of a list of text buffers.
pub open spec fn views(s: Seq<Vec<char>>) -> Seq<Seq<char>> {
    s.map(|i: int, v: Vec<char>| v@)
}

proof fn lemma_commas_push(items: Seq<Seq<char>>, x: Seq<char>)
    ensures
        commas(items.push(x)) == commas(items) + ","@ + x,
{
    assert(items.push(x).drop_last() =~= items);
}

/// A new buffer holding the characters of `s`.
pub(crate) fn text_of(s: &str) -> (r: Vec<char>)
    ensures
        r@ == s@,
{
    let mut r: Vec<char> = Vec::new();
    push_str(&mut r, s);
    assert(r@ =~= s@);
    r
}

/// A copy of a buffer.
pub(crate) fn copy_text(s: &Vec<char>) -> (r: Vec<char>)
    ensures
        r@ == s@,
{
    let mut r: Vec<char> = Vec::new();
    push_all(&mut r, s);
    assert(r@ =~= s@);
    r
}

/// Copies of the buffers `ts[lo..hi]`.
fn copy_texts(ts: &Vec<Vec<char>>, lo: usize, hi: usize) -> (r: Vec<Vec<char>>)
    requires
        lo <= hi <= ts.len(),
    ensures
        views(r@) == views(ts@.subrange(lo as int, hi as int)),
{
    let mut r: Vec<Vec<char>> = Vec::new();
    let mut i = lo;
    while i < hi
        invariant
            lo <= i <= hi <= ts.len(),
            views(r@) == views(ts@.subrange(lo as int, i as int)),
        decreases hi - i,
    {
        let t = copy_text(&ts[i]);
        let ghost prev = r@;
        let ghost tv = t@;
        r.push(t);
        proof {
            assert(views(r@) =~= views(prev).push(tv));
            assert(views(ts@.subrange(lo as int, i + 1)) =~= views(
                ts@.subrange(lo as int, i as int),
            ).push(ts@[i as int]@));
        }
        i = i + 1;
    }
    r
}

/// The text of a generic matcher type with the given name and arguments.
pub(crate) fn generic_text(name: &Vec<char>, first: &Vec<char>, rest: &Vec<Vec<char>>) -> (r: Vec<char>)
    ensures
        r@ == generic(name@, first@, views(rest@)),
{
    let mut out: Vec<char> = Vec::new();
    push_str(&mut out, "::ct_regex::internal::matcher::");
    push_all(&mut out, name);
    push_str(&mut out, "<");
    push_all(&mut out, first);
    let ghost head = out@;
    assert(head =~= matcher_path() + name@ + "<"@ + first@);
    let mut i: usize = 0;
    while i < rest.len()
        invariant
            i <= rest.len(),
            out@ == head + commas(views(rest@.subrange(0, i as int))),
        decreases rest.len() - i,
    {
        let ghost before = out@;
        push_str(&mut out, ",");
        push_all(&mut out, &rest[i]);
        proof {
            let prev = views(rest@.subrange(0, i as int));
            lemma_commas_push(prev, rest@[i as int]@);
            assert(views(rest@.subrange(0, i + 1)) =~= prev.push(rest@[i as int]@));
            assert(out@ =~= head + commas(views(rest@.subrange(0, i + 1))));
        }
        i = i + 1;
    }
    push_str(&mut out, ">");
    assert(rest@.subrange(0, rest.len() as int) =~= rest@);
    assert(out@ =~= generic(name@, first@, views(rest@)));
    out
}

/// Two buffers as a list.
pub(crate) fn pair(a: Vec<char>, b: Vec<char>) -> (r: Vec<Vec<char>>)
    ensures
        views(r@) == seq![a@, b@],
{
    let mut r: Vec<Vec<char>> = Vec::new();
    r.push(a);
    r.push(b);
    assert(views(r@) =~= seq![a@, b@]);
    r
}

/// One buffer as a list.
pub(crate) fn single(a: Vec<char>) -> (r: Vec<Vec<char>>)
    ensures
        views(r@) == seq![a@],
{
    let mut r: Vec<Vec<char>> = Vec::new();
    r.push(a);
    assert(views(r@) =~= seq![a@]);
    r
}

/// The name of the item type.
pub(crate) fn item_type_text(byte: bool) -> (r: Vec<char>)
    ensures
        r@ == item_type(byte),
{
    if byte {
        text_of("u8")
    } else {
        text_of("char")
    }
}

/// The decimal numeral of `n`.
pub(crate) fn decimal_text(n: u64) -> (r: Vec<char>)
    ensures
        r@ == decimal(n as nat),
{
    let mut r: Vec<char> = Vec::new();
    push_decimal(&mut r, n);
    assert(r@ =~= decimal(n as nat));
    r
}

/// A `char` literal with the Unicode escape of `code`.
fn quoted_scalar_text(code: u32) -> (r: Vec<char>)
    ensures
        r@ == quoted_scalar(code as nat),
{
    let mut r: Vec<char> = Vec::new();
    push_str(&mut r, "'\\u{");
    push_hexadecimal(&mut r, code as u64);
    push_str(&mut r, "}'");
    assert(r@ =~= quoted_scalar(code as nat));
    r
}

/// The matcher of a single item.
pub(crate) fn item_matcher(byte: bool, code: u32) -> (r: Vec<char>)
    ensures
        r@ == item_text(byte, code as nat),
{
    let empty: Vec<Vec<char>> = Vec::new();
    assert(views(empty@) =~= seq![]);
    if byte {
        generic_text(&text_of("Byte"), &decimal_text(code as u64), &empty)
    } else {
        generic_text(&text_of("Scalar"), &quoted_scalar_text(code), &empty)
    }
}

/// The matcher of a range of items.
fn range_matcher(byte: bool, lo: u32, hi: u32) -> (r: Vec<char>)
    ensures
        r@ == range_text(byte, lo as nat, hi as nat),
{
    if lo == hi {
        item_matcher(byte, lo)
    } else if byte {
        generic_text(&text_of("ByteRange"), &decimal_text(lo as u64), &single(decimal_text(hi as u64)))
    } else {
        generic_text(
            &text_of("ScalarRange"),
            &quoted_scalar_text(lo),
            &single(quoted_scalar_text(hi)),
        )
    }
}

/// `base` followed by the decimal numeral of `n`, as in `Then4`.
fn numbered_name(base: &Vec<char>, n: u64) -> (r: Vec<char>)
    ensures
        r@ == base@ + decimal(n as nat),
{
    let mut r = copy_text(base);
    push_decimal(&mut r, n);
    r
}

/// Combines the matchers `ts[lo..hi]` with the combinator `base`, in chunks.
pub(crate) fn chunked_matcher(base: &Vec<char>, byte: bool, ts: &Vec<Vec<char>>, lo: usize, hi: usize) -> (r:
    Vec<char>)
    requires
        lo < hi <= ts.len(),
    ensures
        r@ == chunked(base@, byte, views(ts@.subrange(lo as int, hi as int))),
    decreases hi - lo,
{
    let ghost items = views(ts@.subrange(lo as int, hi as int));
    let n = hi - lo;
    let ty = item_type_text(byte);
    if n == 1 {
        copy_text(&ts[lo])
    } else if n == 2 {
        let rest = pair(copy_text(&ts[lo]), copy_text(&ts[lo + 1]));
        assert(views(rest@) =~= seq![items[0], items[1]]);
        generic_text(base, &ty, &rest)
    } else if n == 3 {
        let tail = chunked_matcher(base, byte, ts, lo + 1, hi);
        assert(views(ts@.subrange(lo + 1, hi as int)) =~= items.subrange(1, 3));
        let rest = pair(copy_text(&ts[lo]), tail);
        generic_text(base, &ty, &rest)
    } else if n == 4 || n == 8 || n == 16 {
        let name = numbered_name(base, n as u64);
        let rest = copy_texts(ts, lo, hi);
        generic_text(&name, &ty, &rest)
    } else {
        let c: usize = if n > 16 {
            16
        } else if n > 8 {
            8
        } else {
            4
        };
        let name = numbered_name(base, c as u64);
        let chunk = generic_text(&name, &ty, &copy_texts(ts, lo, lo + c));
        assert(views(ts@.subrange(lo as int, lo + c)) =~= items.subrange(0, c as int));
        let tail = chunked_matcher(base, byte, ts, lo + c, hi);
        assert(views(ts@.subrange(lo + c, hi as int)) =~= items.subrange(c as int, n as int));
        generic_text(base, &ty, &pair(chunk, tail))
    }
}

/// Three buffers as a list.
pub(crate) fn triple(a: Vec<char>, b: Vec<char>, c: Vec<char>) -> (r: Vec<Vec<char>>)
    ensures
        views(r@) == seq![a@, b@, c@],
{
    let mut r: Vec<Vec<char>> = Vec::new();
    r.push(a);
    r.push(b);
    r.push(c);
    assert(views(r@) =~= seq![a@, b@, c@]);
    r
}

/// A matcher type without generic arguments.
pub(crate) fn plain_matcher(name: &str) -> (r: Vec<char>)
    ensures
        r@ == matcher_path() + name@,
{
    let mut r: Vec<char> = Vec::new();
    push_str(&mut r, "::ct_regex::internal::matcher::");
    push_str(&mut r, name);
    assert(r@ =~= matcher_path() + name@);
    r
}

/// The item types that a matcher can be written for, and the conversion of a class to
/// the kind of class that holds such items.
pub trait CastClass: HaystackItem {
    /// Whether the items are bytes (else they are `char`s).
    spec fn spec_is_byte() -> bool;

    fn is_byte() -> (r: bool)
        ensures
            r == Self::spec_is_byte(),
    ;

    /// Converts `value` to a class of these items, range for range; a class of the other
    /// kind must lie within ASCII.
    fn cast_class(value: ClassNode) -> (r: ClassNode)
        requires
            class_writable(value, Self::spec_is_byte()),
        ensures
            class_codes(r) == class_codes(value),
            (r is Bytes) == Self::spec_is_byte(),
    ;
}

impl CastClass for u8 {
    open spec fn spec_is_byte() -> bool {
        true
    }

    fn is_byte() -> (r: bool) {
        true
    }

    fn cast_class(value: ClassNode) -> (r: ClassNode) {
        match value {
            ClassNode::Unicode(ranges) => {
                let ghost codes = class_codes(ClassNode::Unicode(ranges));
                let mut out: Vec<(u8, u8)> = Vec::new();
                let mut i: usize = 0;
                while i < ranges.len()
                    invariant
                        i <= ranges.len(),
                        codes == scalar_range_codes(ranges@),
                        canonical(codes),
                        ascii_ranges(codes),
                        byte_range_codes(out@) == codes.subrange(0, i as int),
                    decreases ranges.len() - i,
                {
                    let (lo, hi) = ranges[i];
                    assert(codes[i as int].0 <= codes[i as int].1 <= 0x7f);
                    let lo_code = lo as u32;
                    let hi_code = hi as u32;
                    let ghost prev = out@;
                    out.push((lo_code as u8, hi_code as u8));
                    proof {
                        assert(byte_range_codes(out@) =~= byte_range_codes(prev).push(codes[i as int]));
                        assert(codes.subrange(0, i + 1) =~= codes.subrange(0, i as int).push(codes[i as int]));
                    }
                    i = i + 1;
                }
                let r = ClassNode::Bytes(out);
                assert(codes.subrange(0, ranges.len() as int) =~= codes);
                r
            },
            ClassNode::Bytes(ranges) => ClassNode::Bytes(ranges),
        }
    }
}

impl CastClass for char {
    open spec fn spec_is_byte() -> bool {
        false
    }

    fn is_byte() -> (r: bool) {
        false
    }

    fn cast_class(value: ClassNode) -> (r: ClassNode) {
        match value {
            ClassNode::Bytes(ranges) => {
                let ghost codes = class_codes(ClassNode::Bytes(ranges));
                let mut out: Vec<(char, char)> = Vec::new();
                let mut i: usize = 0;
                while i < ranges.len()
                    invariant
                        i <= ranges.len(),
                        codes == byte_range_codes(ranges@),
                        scalar_range_codes(out@) == codes.subrange(0, i as int),
                    decreases ranges.len() - i,
                {
                    let (lo, hi) = ranges[i];
                    let lo_char = lo as char;
                    let hi_char = hi as char;
                    assert((lo_char as u32) == lo as u32 && (hi_char as u32) == hi as u32);
                    let ghost prev = out@;
                    out.push((lo_char, hi_char));
                    proof {
                        assert(scalar_range_codes(out@) =~= scalar_range_codes(prev).push(codes[i as int]));
                        assert(codes.subrange(0, i + 1) =~= codes.subrange(0, i as int).push(codes[i as int]));
                    }
                    i = i + 1;
                }
                let r = ClassNode::Unicode(out);
                assert(codes.subrange(0, ranges.len() as int) =~= codes);
                r
            },
            ClassNode::Unicode(ranges) => ClassNode::Unicode(ranges),
        }
    }
}

/// The matcher of a literal: its items in sequence.
fn literal_matcher(bytes: &Vec<u8>, byte: bool) -> (r: Vec<char>)
    requires
        valid_utf8(bytes@),
        bytes@.len() > 0,
    ensures
        r@ == chunked("Then"@, byte, literal_codes(bytes@, byte).map(|i: int, c: nat| item_text(byte, c))),
{
    let ghost target = literal_codes(bytes@, byte).map(|i: int, c: nat| item_text(byte, c));
    let mut ts: Vec<Vec<char>> = Vec::new();
    if byte {
        let mut i: usize = 0;
        while i < bytes.len()
            invariant
                byte,
                i <= bytes.len(),
                target == literal_codes(bytes@, byte).map(|i: int, c: nat| item_text(byte, c)),
                views(ts@) == target.subrange(0, i as int),
            decreases bytes.len() - i,
        {
            let t = item_matcher(true, bytes[i] as u32);
            let ghost prev = ts@;
            let ghost tv = t@;
            ts.push(t);
            proof {
                assert(views(ts@) =~= views(prev).push(tv));
                assert(target.subrange(0, i + 1) =~= target.subrange(0, i as int).push(target[i as int]));
            }
            i = i + 1;
        }
        assert(target.subrange(0, bytes.len() as int) =~= target);
    } else {
        match str_from_utf8(bytes.as_slice()) {
            Some(s) => {
                proof {
                    encode_utf8_decode_utf8(s@);
                }
                assert(s@ == decode_utf8(bytes@));
                let n = s.unicode_len();
                let mut i: usize = 0;
                while i < n
                    invariant
                        !byte,
                        i <= n,
                        n == s@.len(),
                        s@ == decode_utf8(bytes@),
                        target == literal_codes(bytes@, byte).map(|i: int, c: nat| item_text(byte, c)),
                        views(ts@) == target.subrange(0, i as int),
                    decreases n - i,
                {
                    let c = s.get_char(i);
                    let t = item_matcher(false, c as u32);
                    let ghost prev = ts@;
                    let ghost tv = t@;
                    ts.push(t);
                    proof {
                        assert(views(ts@) =~= views(prev).push(tv));
                        assert(target.subrange(0, i + 1) =~= target.subrange(0, i as int).push(target[i as int]));
                    }
                    i = i + 1;
                }
                assert(target.subrange(0, n as int) =~= target);
                if n == 0 {
                    assert(s.spec_bytes() =~= Seq::<u8>::empty());
                }
            },
            None => {},
        }
    }
    assert(ts@.subrange(0, ts.len() as int) =~= ts@);
    chunked_matcher(&text_of("Then"), byte, &ts, 0, ts.len())
}

/// The matcher of a class: its ranges as alternatives.
fn class_matcher(c: &ClassNode, byte: bool) -> (r: Vec<char>)
    requires
        class_codes(*c).len() > 0,
    ensures
        r@ == chunked("Or"@, byte, class_codes(*c).map(|i: int, r: (nat, nat)| range_text(byte, r.0, r.1))),
{
    let ghost codes = class_codes(*c);
    let ghost target = codes.map(|i: int, r: (nat, nat)| range_text(byte, r.0, r.1));
    let mut ts: Vec<Vec<char>> = Vec::new();
    match c {
        ClassNode::Unicode(ranges) => {
            let mut i: usize = 0;
            while i < ranges.len()
                invariant
                    i <= ranges.len(),
                    codes == scalar_range_codes(ranges@),
                    target == codes.map(|i: int, r: (nat, nat)| range_text(byte, r.0, r.1)),
                    views(ts@) == target.subrange(0, i as int),
                decreases ranges.len() - i,
            {
                let (lo, hi) = ranges[i];
                let t = range_matcher(byte, lo as u32, hi as u32);
                let ghost prev = ts@;
                let ghost tv = t@;
                ts.push(t);
                proof {
                    assert(views(ts@) =~= views(prev).push(tv));
                    assert(target.subrange(0, i + 1) =~= target.subrange(0, i as int).push(target[i as int]));
                }
                i = i + 1;
            }
            assert(target.subrange(0, ranges.len() as int) =~= target);
        },
        ClassNode::Bytes(ranges) => {
            let mut i: usize = 0;
            while i < ranges.len()
                invariant
                    i <= ranges.len(),
                    codes == byte_range_codes(ranges@),
                    target == codes.map(|i: int, r: (nat, nat)| range_text(byte, r.0, r.1)),
                    views(ts@) == target.subrange(0, i as int),
                decreases ranges.len() - i,
            {
                let (lo, hi) = ranges[i];
                let t = range_matcher(byte, lo as u32, hi as u32);
                let ghost prev = ts@;
                let ghost tv = t@;
                ts.push(t);
                proof {
                    assert(views(ts@) =~= views(prev).push(tv));
                    assert(target.subrange(0, i + 1) =~= target.subrange(0, i as int).push(target[i as int]));
                }
                i = i + 1;
            }
            assert(target.subrange(0, ranges.len() as int) =~= target);
        },
    }
    assert(ts@.subrange(0, ts.len() as int) =~= ts@);
    chunked_matcher(&text_of("Or"), byte, &ts, 0, ts.len())
}

/// Whether a node is a repetition.
pub(crate) fn is_repetition(n: &HirNode) -> (r: bool)
    ensures
        r == (*n is Repetition),
{
    match n {
        HirNode::Repetition { .. } => true,
        _ => false,
    }
}

/// What a writer keeps of the groups: the mode and the digit flag, and the groups as given
/// by `groups`.
pub open spec fn groups_after(
    before: Groups,
    after: Groups,
    groups: Map<u32, crate::hir::groups::GroupView>,
) -> bool {
    &&& after.groups_view() == groups
    &&& after.required == before.required
    &&& after.only_digits == before.only_digits
}

/// Writes the matcher of `n`, recording its capture groups in `caps`.
pub(crate) fn node_matcher<I: CastClass>(n: &HirNode, caps: &mut Groups) -> (r: Vec<char>)
    requires
        writable(*n, I::spec_is_byte()),
    ensures
        r@ == node_text(*n, I::spec_is_byte()),
        groups_after(
            *old(caps),
            *final(caps),
            node_groups(*n, old(caps).required, old(caps).groups_view()),
        ),
    decreases n, 0int, 0int,
{
    let byte = I::is_byte();
    match n {
        HirNode::Empty => plain_matcher("Always"),
        HirNode::Literal(bytes) => literal_matcher(bytes, byte),
        HirNode::Class(c) => class_matcher(c, byte),
        HirNode::Look(k) => match k {
            LookKind::Start => plain_matcher("Beginning"),
            _ => plain_matcher("End"),
        },
        HirNode::Repetition { min, max, greedy, sub } => {
            let required = caps.required;
            if *min == 0 {
                caps.required = false;
            }
            let sub_text = node_matcher::<I>(sub, caps);
            if *min == 0 {
                caps.required = required;
            }
            let ty = item_type_text(byte);
            match max {
                None => generic_text(
                    &text_of("QuantifierNOrMore"),
                    &ty,
                    &pair(sub_text, decimal_text(*min as u64)),
                ),
                Some(m) => if *m == *min {
                    generic_text(
                        &text_of("QuantifierN"),
                        &ty,
                        &pair(sub_text, decimal_text(*min as u64)),
                    )
                } else {
                    generic_text(
                        &text_of("QuantifierNToM"),
                        &ty,
                        &triple(sub_text, decimal_text(*min as u64), decimal_text(*m as u64)),
                    )
                },
            }
        },
        HirNode::Capture { index, name, sub } => {
            let name_copy = match name {
                Some(text) => Some(text.clone()),
                None => None,
            };
            caps.insert(*index, name_copy, 0..0);
            let sub_text = node_matcher::<I>(sub, caps);
            let ty = item_type_text(byte);
            generic_text(
                &text_of("CaptureGroup"),
                &ty,
                &pair(sub_text, decimal_text(*index as u64)),
            )
        },
        HirNode::Concat(v) => {
            proof {
                lemma_all_writable(v@, byte);
                assert(v@.subrange(0, v@.len() as int) =~= v@);
            }
            concat_matcher::<I>(v, 0, caps)
        },
        HirNode::Alternation(v) => {
            proof {
                lemma_all_writable(v@, byte);
                assert(v@.subrange(0, v@.len() as int) =~= v@);
            }
            let required = caps.required;
            caps.required = false;
            let ts = each_matcher::<I>(v, 0, v.len(), caps);
            caps.required = required;
            assert(ts@.subrange(0, ts.len() as int) =~= ts@);
            chunked_matcher(&text_of("Or"), byte, &ts, 0, ts.len())
        },
    }
}

/// Writes the matchers of `v[lo..hi]` one by one, in order.
fn each_matcher<I: CastClass>(v: &Vec<HirNode>, lo: usize, hi: usize, caps: &mut Groups) -> (r: Vec<Vec<char>>)
    requires
        lo <= hi <= v.len(),
        forall|j: int| lo <= j < hi ==> #[trigger] writable(v@[j], I::spec_is_byte()),
    ensures
        views(r@) == node_texts(v@.subrange(lo as int, hi as int), I::spec_is_byte()),
        r.len() == hi - lo,
        groups_after(
            *old(caps),
            *final(caps),
            seq_groups(v@.subrange(lo as int, hi as int), old(caps).required, old(caps).groups_view()),
        ),
    decreases v@, 0int, 0int,
{
    let ghost byte = I::spec_is_byte();
    let ghost req = caps.required;
    let ghost m = caps.groups_view();
    let ghost digits = caps.only_digits;
    let mut ts: Vec<Vec<char>> = Vec::new();
    let mut i = lo;
    while i < hi
        invariant
            lo <= i <= hi <= v.len(),
            byte == I::spec_is_byte(),
            forall|j: int| lo <= j < hi ==> #[trigger] writable(v@[j], byte),
            views(ts@) == node_texts(v@.subrange(lo as int, i as int), byte),
            ts.len() == i - lo,
            caps.groups_view() == seq_groups(v@.subrange(lo as int, i as int), req, m),
            caps.required == req,
            caps.only_digits == digits,
        decreases hi - i,
    {
        let t = node_matcher::<I>(&v[i], caps);
        let ghost prev = ts@;
        let ghost tv = t@;
        ts.push(t);
        proof {
            let s = v@.subrange(lo as int, i + 1);
            assert(s.drop_last() =~= v@.subrange(lo as int, i as int));
            assert(s.last() == v@[i as int]);
            assert(views(ts@) =~= views(prev).push(tv));
        }
        i = i + 1;
    }
    ts
}

/// Writes the matcher of the concatenation `v[lo..]`.
fn concat_matcher<I: CastClass>(v: &Vec<HirNode>, lo: usize, caps: &mut Groups) -> (r: Vec<char>)
    requires
        lo < v.len(),
        forall|j: int| lo <= j < v.len() ==> #[trigger] writable(v@[j], I::spec_is_byte()),
        !(lo + 1 == v.len() && v@[lo as int] is Repetition),
    ensures
        r@ == concat_text(v@.subrange(lo as int, v.len() as int), I::spec_is_byte()),
        groups_after(
            *old(caps),
            *final(caps),
            seq_groups(v@.subrange(lo as int, v.len() as int), old(caps).required, old(caps).groups_view()),
        ),
    decreases v@, 1int, v.len() - lo,
{
    let byte = I::is_byte();
    let n = v.len();
    let ghost s = v@.subrange(lo as int, n as int);
    let ghost req = caps.required;
    let ghost m = caps.groups_view();
    let mut k = lo;
    while k < n && !is_repetition(&v[k])
        invariant
            lo <= k <= n,
            n == v.len(),
            forall|j: int| lo <= j < k ==> !(#[trigger] v@[j] is Repetition),
        decreases n - k,
    {
        k = k + 1;
    }
    proof {
        assert forall|j: int| 0 <= j < k - lo implies !(#[trigger] s[j] is Repetition) by {
            assert(s[j] == v@[lo + j]);
        }
        lemma_first_repetition_at(s, k - lo);
    }
    let ty = item_type_text(byte);
    if k == n {
        let ts = each_matcher::<I>(v, lo, n, caps);
        assert(ts@.subrange(0, ts.len() as int) =~= ts@);
        chunked_matcher(&text_of("Then"), byte, &ts, 0, ts.len())
    } else {
        let ghost pre = v@.subrange(lo as int, k as int);
        let ghost rest = v@.subrange(k + 1, n as int);
        let prefix = each_matcher::<I>(v, lo, k, caps);
        let ghost m1 = caps.groups_view();
        let rep = node_matcher::<I>(&v[k], caps);
        let ghost m2 = caps.groups_view();
        assert(s[k - lo] == v@[k as int]);
        let back = if k + 1 == n {
            rep
        } else if k + 2 == n {
            let then = node_matcher::<I>(&v[k + 1], caps);
            assert(s[k - lo + 1] == v@[k + 1]);
            proof {
                assert(rest =~= seq![v@[k + 1]]);
                lemma_seq_groups_single(v@[k + 1], req, m2);
            }
            generic_text(&text_of("QuantifierThen"), &ty, &pair(rep, then))
        } else {
            let then = concat_matcher::<I>(v, k + 1, caps);
            assert(s.subrange(k - lo + 1, s.len() as int) =~= rest);
            generic_text(&text_of("QuantifierThen"), &ty, &pair(rep, then))
        };
        proof {
            assert(s =~= pre + seq![v@[k as int]] + rest);
            assert(seq![v@[k as int]].drop_last() =~= Seq::<HirNode>::empty());
            lemma_seq_groups_append(pre, seq![v@[k as int]], req, m);
            lemma_seq_groups_append(pre + seq![v@[k as int]], rest, req, m);
            assert(m1 == seq_groups(pre, req, m));
            lemma_seq_groups_single(v@[k as int], req, m1);
            assert(seq_groups(pre + seq![v@[k as int]], req, m) == m2);
            if k + 1 == n {
                assert(rest =~= Seq::<HirNode>::empty());
                assert(seq_groups(rest, req, m2) == m2);
            }
            assert(caps.groups_view() == seq_groups(rest, req, m2));
        }
        if k == lo {
            assert(pre =~= Seq::<HirNode>::empty());
            back
        } else {
            assert(prefix@.subrange(0, prefix.len() as int) =~= prefix@);
            assert(s.subrange(0, k - lo) =~= pre);
            let p = chunked_matcher(&text_of("Then"), byte, &prefix, 0, prefix.len());
            generic_text(&text_of("Then"), &ty, &pair(p, back))
        }
    }
}

#[verifier::external_type_specification]
#[verifier::external_body]
pub struct ExFmtError(core::fmt::Error);

/// A part of an expression whose matcher type can be written as text.
pub trait WriteMatcher: Sized {
    /// Whether the matcher can be written for items of type `u8` (`byte`) or `char`.
    spec fn spec_writable(&self, byte: bool) -> bool;

    /// The text of the matcher type.
    spec fn spec_matcher(&self, byte: bool) -> Seq<char>;

    /// The groups after writing, from groups `m` in required mode `req`.
    spec fn spec_groups(&self, req: bool, m: Map<u32, crate::hir::groups::GroupView>) -> Map<
        u32,
        crate::hir::groups::GroupView,
    >;

    /// Appends the matcher type to `out` and records the capture groups met in `caps`.
    /// Writing to a `String` never fails.
    fn write_matcher<I: CastClass>(self, out: &mut String, caps: &mut Groups) -> (r: Result<
        (),
        core::fmt::Error,
    >)
        requires
            self.spec_writable(I::spec_is_byte()),
        ensures
            r is Ok,
            final(out)@ == old(out)@ + self.spec_matcher(I::spec_is_byte()),
            groups_after(
                *old(caps),
                *final(caps),
                self.spec_groups(old(caps).required, old(caps).groups_view()),
            ),
    ;
}

impl WriteMatcher for HirNode {
    open spec fn spec_writable(&self, byte: bool) -> bool {
        writable(*self, byte)
    }

    open spec fn spec_matcher(&self, byte: bool) -> Seq<char> {
        node_text(*self, byte)
    }

    open spec fn spec_groups(&self, req: bool, m: Map<u32, crate::hir::groups::GroupView>) -> Map<
        u32,
        crate::hir::groups::GroupView,
    > {
        node_groups(*self, req, m)
    }

    fn write_matcher<I: CastClass>(self, out: &mut String, caps: &mut Groups) -> (r: Result<
        (),
        core::fmt::Error,
    >) {
        let text = node_matcher::<I>(&self, caps);
        extend_string(out, &text);
        Ok(())
    }
}

impl WriteMatcher for ClassNode {
    open spec fn spec_writable(&self, byte: bool) -> bool {
        class_writable(*self, byte)
    }

    open spec fn spec_matcher(&self, byte: bool) -> Seq<char> {
        node_text(HirNode::Class(*self), byte)
    }

    open spec fn spec_groups(&self, req: bool, m: Map<u32, crate::hir::groups::GroupView>) -> Map<
        u32,
        crate::hir::groups::GroupView,
    > {
        m
    }

    fn write_matcher<I: CastClass>(self, out: &mut String, caps: &mut Groups) -> (r: Result<
        (),
        core::fmt::Error,
    >) {
        let class = I::cast_class(self);
        let text = class_matcher(&class, I::is_byte());
        extend_string(out, &text);
        Ok(())
    }
}

impl WriteMatcher for u8 {
    /// A byte is written only for byte items.
    open spec fn spec_writable(&self, byte: bool) -> bool {
        byte
    }

    open spec fn spec_matcher(&self, byte: bool) -> Seq<char> {
        item_text(true, *self as nat)
    }

    open spec fn spec_groups(&self, req: bool, m: Map<u32, crate::hir::groups::GroupView>) -> Map<
        u32,
        crate::hir::groups::GroupView,
    > {
        m
    }

    fn write_matcher<I: CastClass>(self, out: &mut String, caps: &mut Groups) -> (r: Result<
        (),
        core::fmt::Error,
    >) {
        let text = item_matcher(true, self as u32);
        extend_string(out, &text);
        Ok(())
    }
}

impl WriteMatcher for char {
    /// A `char` is written only for `char` items.
    open spec fn spec_writable(&self, byte: bool) -> bool {
        !byte
    }

    open spec fn spec_matcher(&self, byte: bool) -> Seq<char> {
        item_text(false, (*self as u32) as nat)
    }

    open spec fn spec_groups(&self, req: bool, m: Map<u32, crate::hir::groups::GroupView>) -> Map<
        u32,
        crate::hir::groups::GroupView,
    > {
        m
    }

    fn write_matcher<I: CastClass>(self, out: &mut String, caps: &mut Groups) -> (r: Result<
        (),
        core::fmt::Error,
    >) {
        let text = item_matcher(false, self as u32);
        extend_string(out, &text);
        Ok(())
    }
}

} // verus!
