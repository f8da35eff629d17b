//! What the matcher type written for an expression is: the text of a Rust type built from
//! the matcher types of `ct_regex::internal::matcher`, and the capture groups met on the way.
use vstd::prelude::*;
use vstd::utf8::*;

use crate::hir::groups::{name_view, GroupView};
use crate::hir::node::{ClassNode, HirNode, LookKind};
use crate::hir::text::{decimal, hexadecimal};

verus! {

broadcast use vstd::seq::group_seq_axioms;

/// The path under which every matcher type is written.
pub open spec fn matcher_path() -> Seq<char> {
    "::ct_regex::internal::matcher::"@
}

/// Each item preceded by a comma, without spaces.
pub open spec fn commas(items: Seq<Seq<char>>) -> Seq<char>
    decreases items.len(),
{
    if items.len() == 0 {
        Seq::empty()
    } else {
        commas(items.drop_last()) + ","@ + items.last()
    }
}

/// A generic matcher type: path, name, and the arguments in angle brackets, separated by
/// commas.
pub open spec fn generic(name: Seq<char>, first: Seq<char>, rest: Seq<Seq<char>>) -> Seq<char> {
    matcher_path() + name + "<"@ + first + commas(rest) + ">"@
}

/// The name of the item type: `u8` for bytes, `char` for scalars.
pub open spec fn item_type(byte: bool) -> Seq<char> {
    if byte {
        "u8"@
    } else {
        "char"@
    }
}

/// A `char` literal written with its Unicode escape, as `char::escape_unicode` does.
pub open spec fn quoted_scalar(code: nat) -> Seq<char> {
    "'\\u{"@ + hexadecimal(code) + "}'"@
}

/// The matcher of a single item with numeric value `code`.
pub open spec fn item_text(byte: bool, code: nat) -> Seq<char> {
    if byte {
        generic("Byte"@, decimal(code), seq![])
    } else {
        generic("Scalar"@, quoted_scalar(code), seq![])
    }
}

/// The matcher of the items from `lo` to `hi`, both included.
pub open spec fn range_text(byte: bool, lo: nat, hi: nat) -> Seq<char> {
    if lo == hi {
        item_text(byte, lo)
    } else if byte {
        generic("ByteRange"@, decimal(lo), seq![decimal(hi)])
    } else {
        generic("ScalarRange"@, quoted_scalar(lo), seq![quoted_scalar(hi)])
    }
}

/// The size of the chunk taken first from a list of `n` matchers that no single chunk fits.
pub open spec fn chunk_size(n: int) -> int {
    if n > 16 {
        16
    } else if n > 8 {
        8
    } else {
        4
    }
}

/// Combines the matchers `ts` with the binary combinator `base` (`Then` or `Or`): two as
/// one pair, three as a pair whose second half is the other two, exactly 4, 8 or 16 with
/// the combinator of that width (`Then4`, ...), and otherwise the largest such chunk
/// paired with the rest.
pub open spec fn chunked(base: Seq<char>, byte: bool, ts: Seq<Seq<char>>) -> Seq<char>
    decreases ts.len(),
{
    let n = ts.len() as int;
    let ty = item_type(byte);
    if n == 0 {
        Seq::empty()
    } else if n == 1 {
        ts[0]
    } else if n == 2 {
        generic(base, ty, seq![ts[0], ts[1]])
    } else if n == 3 {
        generic(base, ty, seq![ts[0], chunked(base, byte, ts.subrange(1, 3))])
    } else if n == 4 || n == 8 || n == 16 {
        generic(base + decimal(n as nat), ty, ts)
    } else {
        let c = chunk_size(n);
        generic(
            base,
            ty,
            seq![
                generic(base + decimal(c as nat), ty, ts.subrange(0, c)),
                chunked(base, byte, ts.subrange(c, n)),
            ],
        )
    }
}

/// The numeric values of the items of a literal: its bytes, or the scalars they encode.
pub open spec fn literal_codes(bytes: Seq<u8>, byte: bool) -> Seq<nat> {
    if byte {
        bytes.map(|i: int, b: u8| b as nat)
    } else {
        decode_utf8(bytes).map(|i: int, c: char| (c as u32) as nat)
    }
}

/// Ranges of scalars as pairs of numeric values.
pub open spec fn scalar_range_codes(r: Seq<(char, char)>) -> Seq<(nat, nat)> {
    r.map(|i: int, p: (char, char)| ((p.0 as u32) as nat, (p.1 as u32) as nat))
}

/// Ranges of bytes as pairs of numeric values.
pub open spec fn byte_range_codes(r: Seq<(u8, u8)>) -> Seq<(nat, nat)> {
    r.map(|i: int, p: (u8, u8)| (p.0 as nat, p.1 as nat))
}

/// The ranges of a class as pairs of numeric values.
pub open spec fn class_codes(c: ClassNode) -> Seq<(nat, nat)> {
    match c {
        ClassNode::Unicode(r) => scalar_range_codes(r@),
        ClassNode::Bytes(r) => byte_range_codes(r@),
    }
}

/// Ranges in the canonical form of `regex_syntax`: each in order, sorted, neither
/// overlapping nor adjacent.
pub open spec fn canonical(r: Seq<(nat, nat)>) -> bool {
    &&& forall|i: int| 0 <= i < r.len() ==> #[trigger] r[i].0 <= r[i].1
    &&& forall|i: int, j: int| 0 <= i < j < r.len() ==> #[trigger] r[i].1 + 1 < #[trigger] r[j].0
}

/// Every range lies within ASCII.
pub open spec fn ascii_ranges(r: Seq<(nat, nat)>) -> bool {
    forall|i: int| 0 <= i < r.len() ==> #[trigger] r[i].1 <= 0x7f
}

/// A class can be written for the item type: it is not empty, and where it must be
/// converted to the other kind of class (with `to_byte_class` or `to_unicode_class`) it is
/// canonical and within ASCII, as the conversion demands.
pub open spec fn class_writable(c: ClassNode, byte: bool) -> bool {
    let r = class_codes(c);
    &&& r.len() > 0
    &&& (c is Unicode) == byte ==> canonical(r) && ascii_ranges(r)
}

/// The index of the first repetition in `s`, or its length if there is none.
pub open spec fn first_repetition(s: Seq<HirNode>) -> int
    decreases s.len(),
{
    if s.len() == 0 {
        0
    } else if s[0] is Repetition {
        0
    } else {
        1 + first_repetition(s.drop_first())
    }
}

/// The matcher type written for `n`, with items of type `u8` (`byte`) or `char`.
pub open spec fn node_text(n: HirNode, byte: bool) -> Seq<char>
    decreases n, 0int,
{
    let ty = item_type(byte);
    match n {
        HirNode::Empty => matcher_path() + "Always"@,
        HirNode::Literal(bytes) => chunked(
            "Then"@,
            byte,
            literal_codes(bytes@, byte).map(|i: int, c: nat| item_text(byte, c)),
        ),
        HirNode::Class(c) => chunked(
            "Or"@,
            byte,
            class_codes(c).map(|i: int, r: (nat, nat)| range_text(byte, r.0, r.1)),
        ),
        HirNode::Look(k) => if k == LookKind::Start {
            matcher_path() + "Beginning"@
        } else {
            matcher_path() + "End"@
        },
        HirNode::Repetition { min, max, greedy, sub } => match max {
            None => generic(
                "QuantifierNOrMore"@,
                ty,
                seq![node_text(*sub, byte), decimal(min as nat)],
            ),
            Some(m) => if m == min {
                generic("QuantifierN"@, ty, seq![node_text(*sub, byte), decimal(min as nat)])
            } else {
                generic(
                    "QuantifierNToM"@,
                    ty,
                    seq![node_text(*sub, byte), decimal(min as nat), decimal(m as nat)],
                )
            },
        },
        HirNode::Capture { index, name, sub } => generic(
            "CaptureGroup"@,
            ty,
            seq![node_text(*sub, byte), decimal(index as nat)],
        ),
        HirNode::Concat(v) => concat_text(v@, byte),
        HirNode::Alternation(v) => chunked("Or"@, byte, node_texts(v@, byte)),
    }
}

/// The matcher types written for each of `s`, in order.
pub open spec fn node_texts(s: Seq<HirNode>, byte: bool) -> Seq<Seq<char>>
    decreases s, 0int,
{
    if s.len() == 0 {
        Seq::empty()
    } else {
        node_texts(s.drop_last(), byte).push(node_text(s.last(), byte))
    }
}

/// The matcher type written for the concatenation `s`. Up to its first repetition it is a
/// plain sequence; the repetition and what follows it become a `QuantifierThen`, which
/// lets the repetition give back items to the rest.
pub open spec fn concat_text(s: Seq<HirNode>, byte: bool) -> Seq<char>
    decreases s, 1int,
{
    let ty = item_type(byte);
    let k = first_repetition(s);
    if k < 0 || k >= s.len() {
        chunked("Then"@, byte, node_texts(s, byte))
    } else {
        let back = if k + 1 == s.len() {
            node_text(s[k], byte)
        } else if k + 2 == s.len() {
            generic("QuantifierThen"@, ty, seq![node_text(s[k], byte), node_text(s[k + 1], byte)])
        } else {
            generic(
                "QuantifierThen"@,
                ty,
                seq![node_text(s[k], byte), concat_text(s.subrange(k + 1, s.len() as int), byte)],
            )
        };
        if k == 0 {
            back
        } else {
            generic(
                "Then"@,
                ty,
                seq![chunked("Then"@, byte, node_texts(s.subrange(0, k), byte)), back],
            )
        }
    }
}

/// The groups after writing `n` from groups `m`, in required mode `req`: every capture
/// group is recorded, required unless it lies under an alternation or a repetition that
/// may match zero times.
pub open spec fn node_groups(n: HirNode, req: bool, m: Map<u32, GroupView>) -> Map<u32, GroupView>
    decreases n, 0int,
{
    match n {
        HirNode::Repetition { min, sub, .. } => node_groups(*sub, req && min != 0, m),
        HirNode::Capture { index, name, sub } => node_groups(
            *sub,
            req,
            m.insert(index, (name_view(name), req, 0usize, 0usize)),
        ),
        HirNode::Concat(v) => seq_groups(v@, req, m),
        HirNode::Alternation(v) => seq_groups(v@, false, m),
        _ => m,
    }
}

/// The groups after writing each of `s` in order.
pub open spec fn seq_groups(s: Seq<HirNode>, req: bool, m: Map<u32, GroupView>) -> Map<
    u32,
    GroupView,
>
    decreases s, 0int,
{
    if s.len() == 0 {
        m
    } else {
        node_groups(s.last(), req, seq_groups(s.drop_last(), req, m))
    }
}

/// Whether a matcher can be written for `n`: every literal is valid UTF-8 and not empty,
/// every class can be written, the only assertions are `^` and `$`, every repetition is
/// greedy, no alternation or concatenation is empty, and no concatenation is a lone
/// repetition. On any other expression the writer stops.
pub open spec fn writable(n: HirNode, byte: bool) -> bool
    decreases n, 0int,
{
    match n {
        HirNode::Empty => true,
        HirNode::Literal(bytes) => valid_utf8(bytes@) && bytes@.len() > 0,
        HirNode::Class(c) => class_writable(c, byte),
        HirNode::Look(k) => k == LookKind::Start || k == LookKind::End,
        HirNode::Repetition { greedy, sub, .. } => greedy && writable(*sub, byte),
        HirNode::Capture { sub, .. } => writable(*sub, byte),
        HirNode::Concat(v) => v@.len() > 0 && !(v@.len() == 1 && v@[0] is Repetition)
            && all_writable(v@, byte),
        HirNode::Alternation(v) => v@.len() > 0 && all_writable(v@, byte),
    }
}

/// Whether a matcher can be written for each of `s`.
pub open spec fn all_writable(s: Seq<HirNode>, byte: bool) -> bool
    decreases s, 0int,
{
    if s.len() == 0 {
        true
    } else {
        all_writable(s.drop_last(), byte) && writable(s.last(), byte)
    }
}

/// `first_repetition` is the least index holding a repetition, or the length.
pub proof fn lemma_first_repetition(s: Seq<HirNode>)
    ensures
        0 <= first_repetition(s) <= s.len(),
        first_repetition(s) < s.len() ==> s[first_repetition(s)] is Repetition,
        forall|j: int| 0 <= j < first_repetition(s) ==> !(#[trigger] s[j] is Repetition),
    decreases s.len(),
{
    if s.len() > 0 && !(s[0] is Repetition) {
        lemma_first_repetition(s.drop_first());
        assert forall|j: int| 0 <= j < first_repetition(s) implies !(#[trigger] s[j] is Repetition) by {
            if j > 0 {
                assert(s[j] == s.drop_first()[j - 1]);
            }
        }
    }
}

/// An index with no repetition before it, and a repetition at it unless it is the length,
/// is `first_repetition`.
pub proof fn lemma_first_repetition_at(s: Seq<HirNode>, k: int)
    requires
        0 <= k <= s.len(),
        k < s.len() ==> s[k] is Repetition,
        forall|j: int| 0 <= j < k ==> !(#[trigger] s[j] is Repetition),
    ensures
        first_repetition(s) == k,
{
    lemma_first_repetition(s);
    let f = first_repetition(s);
    if f < k {
        assert(!(s[f] is Repetition));
    } else if k < f {
        assert(!(s[k] is Repetition));
    }
}

/// Writing `a` and then `b` records the groups of `a + b`.
pub proof fn lemma_seq_groups_append(
    a: Seq<HirNode>,
    b: Seq<HirNode>,
    req: bool,
    m: Map<u32, GroupView>,
)
    ensures
        seq_groups(a + b, req, m) == seq_groups(b, req, seq_groups(a, req, m)),
    decreases b.len(),
{
    if b.len() == 0 {
        assert(a + b =~= a);
    } else {
        lemma_seq_groups_append(a, b.drop_last(), req, m);
        assert((a + b).drop_last() =~= a + b.drop_last());
        assert((a + b).last() == b.last());
    }
}

/// Writing a single node records its groups.
pub proof fn lemma_seq_groups_single(x: HirNode, req: bool, m: Map<u32, GroupView>)
    ensures
        seq_groups(seq![x], req, m) == node_groups(x, req, m),
{
    assert(seq![x].drop_last() =~= Seq::<HirNode>::empty());
    assert(seq_groups(Seq::<HirNode>::empty(), req, m) == m);
    assert(seq![x].last() == x);
}

/// `all_writable` says that each of the sequence is writable.
pub proof fn lemma_all_writable(s: Seq<HirNode>, byte: bool)
    ensures
        all_writable(s, byte) <==> forall|i: int| 0 <= i < s.len() ==> #[trigger] writable(s[i], byte),
    decreases s.len(),
{
    if s.len() > 0 {
        lemma_all_writable(s.drop_last(), byte);
        if forall|i: int| 0 <= i < s.len() ==> #[trigger] writable(s[i], byte) {
            assert forall|i: int| 0 <= i < s.drop_last().len() implies #[trigger] writable(
                s.drop_last()[i],
                byte,
            ) by {
                assert(s.drop_last()[i] == s[i]);
                assert(writable(s[i], byte));
            }
            assert(writable(s[s.len() - 1], byte));
        }
        if all_writable(s, byte) {
            assert forall|i: int| 0 <= i < s.len() implies #[trigger] writable(s[i], byte) by {
                if i < s.len() - 1 {
                    assert(s.drop_last()[i] == s[i]);
                }
            }
        }
    }
}

/// The numbers of the capture groups in `n`.
pub open spec fn capture_indices(n: HirNode) -> Set<u32>
    decreases n, 0int,
{
    match n {
        HirNode::Repetition { sub, .. } => capture_indices(*sub),
        HirNode::Capture { index, sub, .. } => capture_indices(*sub).insert(index),
        HirNode::Concat(v) => seq_capture_indices(v@),
        HirNode::Alternation(v) => seq_capture_indices(v@),
        _ => Set::empty(),
    }
}

/// The numbers of the capture groups in each of `s`.
pub open spec fn seq_capture_indices(s: Seq<HirNode>) -> Set<u32>
    decreases s, 0int,
{
    if s.len() == 0 {
        Set::empty()
    } else {
        seq_capture_indices(s.drop_last()).union(capture_indices(s.last()))
    }
}

/// Writing `n` records exactly its capture groups, and leaves every other group as it was.
pub proof fn lemma_node_groups_frame(n: HirNode, req: bool, m: Map<u32, GroupView>)
    ensures
        node_groups(n, req, m).dom() == m.dom().union(capture_indices(n)),
        forall|k: u32|
            !capture_indices(n).contains(k) && m.contains_key(k) ==> #[trigger] node_groups(n, req, m)[k]
                == m[k],
    decreases n, 0int,
{
    match n {
        HirNode::Repetition { min, sub, .. } => {
            lemma_node_groups_frame(*sub, req && min != 0, m);
        },
        HirNode::Capture { index, name, sub } => {
            let m2 = m.insert(index, (name_view(name), req, 0usize, 0usize));
            lemma_node_groups_frame(*sub, req, m2);
            assert(node_groups(n, req, m).dom() =~= m.dom().union(capture_indices(n)));
        },
        HirNode::Concat(v) => {
            lemma_seq_groups_frame(v@, req, m);
        },
        HirNode::Alternation(v) => {
            lemma_seq_groups_frame(v@, false, m);
        },
        _ => {
            assert(node_groups(n, req, m).dom() =~= m.dom().union(capture_indices(n)));
        },
    }
}

/// Writing each of `s` records exactly their capture groups, and leaves every other group
/// as it was.
pub proof fn lemma_seq_groups_frame(s: Seq<HirNode>, req: bool, m: Map<u32, GroupView>)
    ensures
        seq_groups(s, req, m).dom() == m.dom().union(seq_capture_indices(s)),
        forall|k: u32|
            !seq_capture_indices(s).contains(k) && m.contains_key(k) ==> #[trigger] seq_groups(s, req, m)[k]
                == m[k],
    decreases s, 0int,
{
    if s.len() == 0 {
        assert(seq_groups(s, req, m).dom() =~= m.dom().union(seq_capture_indices(s)));
    } else {
        let m1 = seq_groups(s.drop_last(), req, m);
        lemma_seq_groups_frame(s.drop_last(), req, m);
        lemma_node_groups_frame(s.last(), req, m1);
        assert(seq_groups(s, req, m).dom() =~= m.dom().union(seq_capture_indices(s)));
    }
}

/// A concatenation whose first repetition is not its first part is written as `Then` of
/// the part before that repetition and the part from it on, in that order: the items before
/// the repetition are matched first.
pub proof fn law_concat_prefix_first(s: Seq<HirNode>, k: int, byte: bool)
    requires
        1 <= k < s.len(),
        s[k] is Repetition,
        forall|j: int| 0 <= j < k ==> !(#[trigger] s[j] is Repetition),
    ensures
        concat_text(s, byte) == generic(
            "Then"@,
            item_type(byte),
            seq![concat_text(s.subrange(0, k), byte), concat_text(s.subrange(k, s.len() as int), byte)],
        ),
{
    let head = s.subrange(0, k);
    let tail = s.subrange(k, s.len() as int);
    lemma_first_repetition_at(s, k);
    assert forall|j: int| 0 <= j < k implies !(#[trigger] head[j] is Repetition) by {
        assert(head[j] == s[j]);
    }
    lemma_first_repetition_at(head, k);
    assert(tail[0] == s[k]);
    lemma_first_repetition_at(tail, 0);
    if k + 2 < s.len() {
        assert(tail.subrange(1, tail.len() as int) =~= s.subrange(k + 1, s.len() as int));
    } else if k + 2 == s.len() {
        assert(tail[1] == s[k + 1]);
    }
}

/// Two parts, the first of them no repetition, are written as `Then` of the first part's
/// matcher and the second part's matcher, in that order.
pub proof fn law_concat_of_two(a: HirNode, b: HirNode, byte: bool)
    requires
        !(a is Repetition),
    ensures
        concat_text(seq![a, b], byte) == generic("Then"@, item_type(byte), seq![node_text(a, byte), node_text(b, byte)]),
{
    let s = seq![a, b];
    if b is Repetition {
        lemma_first_repetition_at(s, 1);
        assert(s.subrange(0, 1) =~= seq![a]);
        assert(seq![a].drop_last() =~= Seq::<HirNode>::empty());
        assert(node_texts(Seq::<HirNode>::empty(), byte) =~= Seq::<Seq<char>>::empty());
        assert(seq![a].last() == a);
        assert(node_texts(seq![a], byte) =~= seq![node_text(a, byte)]);
    } else {
        lemma_first_repetition_at(s, 2);
        assert(node_texts(s, byte) =~= seq![node_text(a, byte), node_text(b, byte)]) by {
            assert(s.drop_last() =~= seq![a]);
            assert(seq![a].drop_last() =~= Seq::<HirNode>::empty());
        assert(node_texts(Seq::<HirNode>::empty(), byte) =~= Seq::<Seq<char>>::empty());
        assert(seq![a].last() == a);
            assert(node_texts(seq![a], byte) =~= seq![node_text(a, byte)]);
        }
    }
}

} // verus!
