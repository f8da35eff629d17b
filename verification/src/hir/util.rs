//! Converting a whole expression, checking whether it can be converted, and the short
//! names of types.
use vstd::prelude::*;
use vstd::string::StringSliceAdditionalSpecFns;

use crate::haystack::simple::str_from_utf8;
use crate::hir::groups::{whole_match_group, Group, GroupView, Groups};
use crate::hir::node::{ClassNode, HirNode, LookKind};
use crate::hir::spec::{
    all_writable, ascii_ranges, canonical, capture_indices, class_codes, class_writable,
    lemma_all_writable, lemma_node_groups_frame, node_groups, node_text, writable,
};
use crate::hir::write_matcher::{node_matcher, CastClass};
use crate::hir::text::extend_string;

verus! {

broadcast use vstd::seq::group_seq_axioms, vstd::std_specs::hash::group_hash_axioms;

/// The groups that converting `n` records, starting from the whole match.
pub open spec fn expression_groups(n: HirNode) -> Map<u32, GroupView> {
    node_groups(n, true, map![0u32 => whole_match_group()])
}

/// Every capture group of an expression is recorded, as well as the whole match; and the
/// whole match stays group `0` unless the expression numbers one of its own groups `0`.
pub proof fn law_groups_of_expression(n: HirNode)
    ensures
        expression_groups(n).dom() == capture_indices(n).insert(0),
        !capture_indices(n).contains(0) ==> expression_groups(n)[0] == whole_match_group(),
{
    let m = map![0u32 => whole_match_group()];
    lemma_node_groups_frame(n, true, m);
    assert(m.dom().union(capture_indices(n)) =~= capture_indices(n).insert(0));
}

/// The recorded group indices are exactly `0..k` for the number `k` of groups.
pub open spec fn contiguous(g: Map<u32, GroupView>) -> bool {
    &&& g.dom().finite()
    &&& g.len() < u32::MAX
    &&& forall|i: u32| i < g.len() ==> #[trigger] g.contains_key(i)
}

/// Converting a whole parsed expression into the text of its matcher type.
pub trait HirExtension: Sized {
    /// Whether the expression can be converted for items of the given kind (`byte` for
    /// `u8`), with its capture groups numbered without a gap.
    spec fn spec_convertible(self, byte: bool) -> bool;

    /// Whether `r` holds the text of the expression's matcher type, for items of the given
    /// kind, and its capture groups in order of their index.
    spec fn spec_converted(self, byte: bool, r: (String, Vec<Group>)) -> bool;

    /// Converts the expression into the text of its matcher type, for items `I`, and its
    /// capture groups in order of their index (group `0` being the whole match).
    fn into_matcher<I: CastClass>(self) -> (r: (String, Vec<Group>))
        requires
            self.spec_convertible(I::spec_is_byte()),
        ensures
            self.spec_converted(I::spec_is_byte(), r),
    ;
}

impl HirExtension for HirNode {
    open spec fn spec_convertible(self, byte: bool) -> bool {
        writable(self, byte) && contiguous(expression_groups(self))
    }

    open spec fn spec_converted(self, byte: bool, r: (String, Vec<Group>)) -> bool {
        &&& r.0@ == node_text(self, byte)
        &&& r.1.len() == expression_groups(self).len()
        &&& forall|i: int| 0 <= i < r.1.len() ==> #[trigger] r.1[i]@ == expression_groups(self)[i as u32]
    }

    fn into_matcher<I: CastClass>(self) -> (r: (String, Vec<Group>)) {
        let mut caps = Groups::new();
        let text = node_matcher::<I>(&self, &mut caps);
        let mut out = String::new();
        extend_string(&mut out, &text);
        assert(out@ =~= text@);
        assert(caps.map@.dom() =~= caps.groups_view().dom());
        (out, caps.into_vec())
    }
}

impl HirNode {
    /// Converts the expression as [`HirExtension::into_matcher`] does, or gives
    /// `None` where it cannot be converted: where it is not writable for `I`, or where its
    /// capture groups are not numbered `1..k` without a gap.
    pub fn try_into_matcher<I: CastClass>(self) -> (r: Option<(String, Vec<Group>)>)
        ensures
            r is Some <==> writable(self, I::spec_is_byte()) && contiguous(
                expression_groups(self),
            ),
            r matches Some(p) ==> {
                &&& p.0@ == node_text(self, I::spec_is_byte())
                &&& p.1.len() == expression_groups(self).len()
                &&& forall|i: int| 0 <= i < p.1.len() ==> #[trigger] p.1[i]@ == expression_groups(self)[i as u32]
            },
    {
        if !check_writable(&self, I::is_byte()) {
            return None;
        }
        let mut caps = Groups::new();
        let text = node_matcher::<I>(&self, &mut caps);
        assert(caps.map@.dom() =~= caps.groups_view().dom());
        let n = caps.map.len();
        if n >= 0xffff_ffffusize {
            return None;
        }
        let mut i: usize = 0;
        while i < n
            invariant
                i <= n,
                n == caps.map@.len(),
                n < u32::MAX,
                caps.groups_view() == expression_groups(self),
                caps.map@.dom() == caps.groups_view().dom(),
                forall|j: u32| j < i ==> #[trigger] caps.map@.contains_key(j),
            decreases n - i,
        {
            if !caps.map.contains_key(&(i as u32)) {
                assert(!expression_groups(self).contains_key(i as u32));
                return None;
            }
            i = i + 1;
        }
        let mut out = String::new();
        extend_string(&mut out, &text);
        assert(out@ =~= text@);
        Some((out, caps.into_vec()))
    }
}

/// Whether `ranges` are canonical and within ASCII.
pub(crate) fn check_ascii_canonical(codes: &Vec<(u32, u32)>) -> (r: bool)
    ensures
        r == (canonical(codes@.map(|i: int, p: (u32, u32)| (p.0 as nat, p.1 as nat))) && ascii_ranges(
            codes@.map(|i: int, p: (u32, u32)| (p.0 as nat, p.1 as nat)),
        )),
{
    let ghost s = codes@.map(|i: int, p: (u32, u32)| (p.0 as nat, p.1 as nat));
    let mut i: usize = 0;
    while i < codes.len()
        invariant
            i <= codes.len(),
            s == codes@.map(|i: int, p: (u32, u32)| (p.0 as nat, p.1 as nat)),
            canonical(s.subrange(0, i as int)),
            ascii_ranges(s.subrange(0, i as int)),
        decreases codes.len() - i,
    {
        let (lo, hi) = codes[i];
        if lo > hi || hi > 0x7f {
            assert(s[i as int] == (lo as nat, hi as nat));
            return false;
        }
        if i > 0 {
            let (_, prev_hi) = codes[i - 1];
            if prev_hi as u64 + 1 >= lo as u64 {
                assert(s[i - 1].1 == prev_hi as nat);
                assert(s[i as int].0 == lo as nat);
                return false;
            }
        }
        proof {
            let t = s.subrange(0, i + 1);
            assert forall|a: int, b: int| 0 <= a < b < t.len() implies #[trigger] t[a].1 + 1 < #[trigger] t[b].0 by {
                if b < i {
                    assert(s.subrange(0, i as int)[a] == t[a]);
                    assert(s.subrange(0, i as int)[b] == t[b]);
                } else if a < i - 1 {
                    assert(s.subrange(0, i as int)[a] == t[a]);
                    assert(s.subrange(0, i as int)[i - 1] == t[i - 1]);
                    assert(s.subrange(0, i as int)[a].1 + 1 < s.subrange(0, i as int)[i - 1].0);
                }
            }
            assert forall|a: int| 0 <= a < t.len() implies #[trigger] t[a].0 <= t[a].1 by {
                if a < i {
                    assert(s.subrange(0, i as int)[a] == t[a]);
                }
            }
            assert forall|a: int| 0 <= a < t.len() implies #[trigger] t[a].1 <= 0x7f by {
                if a < i {
                    assert(s.subrange(0, i as int)[a] == t[a]);
                }
            }
        }
        i = i + 1;
    }
    assert(s.subrange(0, codes.len() as int) =~= s);
    true
}

/// The ranges of a class as pairs of numbers.
pub(crate) fn class_code_pairs(c: &ClassNode) -> (r: Vec<(u32, u32)>)
    ensures
        r@.map(|i: int, p: (u32, u32)| (p.0 as nat, p.1 as nat)) == class_codes(*c),
{
    let mut out: Vec<(u32, u32)> = Vec::new();
    let ghost codes = class_codes(*c);
    match c {
        ClassNode::Unicode(ranges) => {
            let mut i: usize = 0;
            while i < ranges.len()
                invariant
                    i <= ranges.len(),
                    codes == class_codes(*c),
                    codes == crate::hir::spec::scalar_range_codes(ranges@),
                    out@.map(|i: int, p: (u32, u32)| (p.0 as nat, p.1 as nat)) == codes.subrange(0, i as int),
                decreases ranges.len() - i,
            {
                let (lo, hi) = ranges[i];
                let ghost prev = out@;
                out.push((lo as u32, hi as u32));
                proof {
                    assert(out@.map(|i: int, p: (u32, u32)| (p.0 as nat, p.1 as nat)) =~= prev.map(
                        |i: int, p: (u32, u32)| (p.0 as nat, p.1 as nat),
                    ).push(codes[i as int]));
                    assert(codes.subrange(0, i + 1) =~= codes.subrange(0, i as int).push(codes[i as int]));
                }
                i = i + 1;
            }
            assert(codes.subrange(0, ranges.len() as int) =~= codes);
        },
        ClassNode::Bytes(ranges) => {
            let mut i: usize = 0;
            while i < ranges.len()
                invariant
                    i <= ranges.len(),
                    codes == class_codes(*c),
                    codes == crate::hir::spec::byte_range_codes(ranges@),
                    out@.map(|i: int, p: (u32, u32)| (p.0 as nat, p.1 as nat)) == codes.subrange(0, i as int),
                decreases ranges.len() - i,
            {
                let (lo, hi) = ranges[i];
                let ghost prev = out@;
                out.push((lo as u32, hi as u32));
                proof {
                    assert(out@.map(|i: int, p: (u32, u32)| (p.0 as nat, p.1 as nat)) =~= prev.map(
                        |i: int, p: (u32, u32)| (p.0 as nat, p.1 as nat),
                    ).push(codes[i as int]));
                    assert(codes.subrange(0, i + 1) =~= codes.subrange(0, i as int).push(codes[i as int]));
                }
                i = i + 1;
            }
            assert(codes.subrange(0, ranges.len() as int) =~= codes);
        },
    }
    out
}

/// Whether a matcher can be written for `n`, with items of type `u8` (`byte`) or `char`.
pub fn check_writable(n: &HirNode, byte: bool) -> (r: bool)
    ensures
        r == writable(*n, byte),
    decreases n,
{
    match n {
        HirNode::Empty => true,
        HirNode::Literal(bytes) => bytes.len() > 0 && str_from_utf8(bytes.as_slice()).is_some(),
        HirNode::Class(c) => {
            let codes = class_code_pairs(c);
            if codes.len() == 0 {
                return false;
            }
            let converts = match c {
                ClassNode::Unicode(_) => byte,
                ClassNode::Bytes(_) => !byte,
            };
            !converts || check_ascii_canonical(&codes)
        },
        HirNode::Look(k) => match k {
            LookKind::Start => true,
            LookKind::End => true,
            _ => false,
        },
        HirNode::Repetition { greedy, sub, .. } => *greedy && check_writable(sub, byte),
        HirNode::Capture { sub, .. } => check_writable(sub, byte),
        HirNode::Concat(v) => {
            if v.len() == 0 {
                return false;
            }
            if v.len() == 1 {
                if let HirNode::Repetition { .. } = &v[0] {
                    return false;
                }
            }
            check_all_writable(v, byte)
        },
        HirNode::Alternation(v) => v.len() > 0 && check_all_writable(v, byte),
    }
}

/// Whether a matcher can be written for each of `v`.
fn check_all_writable(v: &Vec<HirNode>, byte: bool) -> (r: bool)
    ensures
        r == all_writable(v@, byte),
    decreases v@,
{
    proof {
        lemma_all_writable(v@, byte);
    }
    let mut i: usize = 0;
    while i < v.len()
        invariant
            i <= v.len(),
            forall|j: int| 0 <= j < i ==> #[trigger] writable(v@[j], byte),
        decreases v.len() - i,
    {
        if !check_writable(&v[i], byte) {
            proof {
                lemma_all_writable(v@, byte);
            }
            assert(!writable(v@[i as int], byte));
            return false;
        }
        i = i + 1;
    }
    true
}

/// The index of the first `<` in `s`, or its length.
pub open spec fn first_angle(s: Seq<char>) -> int
    decreases s.len(),
{
    if s.len() == 0 {
        0
    } else if s[0] == '<' {
        0
    } else {
        1 + first_angle(s.drop_first())
    }
}

/// The index just after the last `::` in `s`, or `0`.
pub open spec fn after_last_separator(s: Seq<char>) -> int
    decreases s.len(),
{
    if s.len() < 2 {
        0
    } else if s[s.len() - 2] == ':' && s[s.len() - 1] == ':' {
        s.len() as int
    } else {
        after_last_separator(s.drop_last())
    }
}

/// The short name in a full type name: the text before the generic arguments, after the
/// last path separator.
pub open spec fn short_name(full: Seq<char>) -> Seq<char> {
    let head = full.subrange(0, first_angle(full));
    head.subrange(after_last_separator(head), head.len() as int)
}

proof fn lemma_first_angle(s: Seq<char>)
    ensures
        0 <= first_angle(s) <= s.len(),
        forall|j: int| 0 <= j < first_angle(s) ==> #[trigger] s[j] != '<',
    decreases s.len(),
{
    if s.len() > 0 && s[0] != '<' {
        lemma_first_angle(s.drop_first());
        assert forall|j: int| 0 <= j < first_angle(s) implies #[trigger] s[j] != '<' by {
            if j > 0 {
                assert(s[j] == s.drop_first()[j - 1]);
            }
        }
    }
}

proof fn lemma_after_last_separator(s: Seq<char>)
    ensures
        0 <= after_last_separator(s) <= s.len(),
        forall|j: int| after_last_separator(s) <= j < s.len() - 1 ==> !(#[trigger] s[j] == ':' && s[j + 1] == ':'),
    decreases s.len(),
{
    if s.len() >= 2 && !(s[s.len() - 2] == ':' && s[s.len() - 1] == ':') {
        lemma_after_last_separator(s.drop_last());
        assert forall|j: int| after_last_separator(s) <= j < s.len() - 1 implies !(#[trigger] s[j] == ':' && s[j + 1] == ':') by {
            if j < s.len() - 2 {
                assert(s[j] == s.drop_last()[j]);
                assert(s[j + 1] == s.drop_last()[j + 1]);
            }
        }
    }
}

/// The short name of a type, from its full name `full` (as the standard library's
/// `any::type_name` gives it): the text before its generic arguments, after the last `::`.
/// It holds neither `<` nor `::`.
pub fn short_type_name(full: &str) -> (r: &str)
    ensures
        r@ == short_name(full@),
        forall|i: int| 0 <= i < r@.len() ==> #[trigger] r@[i] != '<',
        forall|i: int| 0 <= i < r@.len() - 1 ==> !(#[trigger] r@[i] == ':' && r@[i + 1] == ':'),
{
    let n = full.unicode_len();
    let mut end: usize = 0;
    while end < n && full.get_char(end) != '<'
        invariant
            end <= n,
            n == full@.len(),
            forall|j: int| 0 <= j < end ==> #[trigger] full@[j] != '<',
        decreases n - end,
    {
        end = end + 1;
    }
    proof {
        lemma_first_angle(full@);
        lemma_first_angle_hit(full@);
        lemma_short_name(full@);
        let f = first_angle(full@);
        if f < end {
            assert(full@[f] != '<');
        }
        if end < f {
            assert(full@[end as int] == '<');
        }
    }
    let head = full.substring_char(0, end);
    let mut start: usize = end;
    assert(head@.subrange(0, start as int) =~= head@);
    while start >= 2 && !(head.get_char(start - 2) == ':' && head.get_char(start - 1) == ':')
        invariant
            start <= end,
            head@.len() == end,
            after_last_separator(head@.subrange(0, start as int)) == after_last_separator(head@),
        decreases start,
    {
        proof {
            let t = head@.subrange(0, start as int);
            assert(t.drop_last() =~= head@.subrange(0, start - 1));
        }
        start = start - 1;
    }
    proof {
        let t = head@.subrange(0, start as int);
        if start < 2 {
            assert(after_last_separator(t) == 0);
        }
    }
    let first = if start >= 2 {
        start
    } else {
        0
    };
    let r = head.substring_char(first, end);
    assert forall|i: int| 0 <= i < r@.len() - 1 implies !(#[trigger] r@[i] == ':' && r@[i + 1] == ':') by {
        assert(r@[i] == short_name(full@)[i]);
        assert(r@[i + 1] == short_name(full@)[i + 1]);
    }
    r
}

proof fn lemma_first_angle_hit(s: Seq<char>)
    ensures
        first_angle(s) < s.len() ==> s[first_angle(s)] == '<',
    decreases s.len(),
{
    if s.len() > 0 && s[0] != '<' {
        lemma_first_angle_hit(s.drop_first());
        lemma_first_angle(s.drop_first());
        if first_angle(s) < s.len() {
            assert(s[first_angle(s)] == s.drop_first()[first_angle(s.drop_first())]);
        }
    }
}

/// What `short_name` leaves holds neither `<` nor `::`.
pub proof fn lemma_short_name(full: Seq<char>)
    ensures
        forall|i: int| 0 <= i < short_name(full).len() ==> #[trigger] short_name(full)[i] != '<',
        forall|i: int| 0 <= i < short_name(full).len() - 1 ==> !(#[trigger] short_name(full)[i] == ':' && short_name(full)[i + 1] == ':'),
{
    lemma_first_angle(full);
    let head = full.subrange(0, first_angle(full));
    lemma_after_last_separator(head);
    let a = after_last_separator(head);
    let r = short_name(full);
    assert forall|i: int| 0 <= i < r.len() implies #[trigger] r[i] != '<' by {
        assert(r[i] == head[a + i]);
        assert(head[a + i] == full[a + i]);
    }
    assert forall|i: int| 0 <= i < r.len() - 1 implies !(#[trigger] r[i] == ':' && r[i + 1] == ':') by {
        assert(r[i] == head[a + i]);
        assert(r[i + 1] == head[a + i + 1]);
    }
}

} // verus!
