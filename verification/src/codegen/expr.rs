//! Converts an expression tree into the text of its matcher type, with literals and classes
//! given types of their own in the expression's metadata.
use vstd::prelude::*;

use crate::codegen::metadata::{
    class_id, class_views, entry_order, literal_id, literal_views, ClassEntry, ExprMetadata,
};
use crate::hir::node::{ClassNode, HirNode, LookKind};
use crate::hir::spec::{
    ascii_ranges, canonical, chunked, class_codes, generic, item_type, matcher_path, node_groups,
    seq_groups,
};
use crate::hir::text::decimal;
use crate::hir::write_matcher::{
    chunked_matcher, decimal_text, generic_text, item_type_text, pair, plain_matcher, single,
    text_of, triple, views, CastClass,
};

verus! {

broadcast use vstd::seq::group_seq_axioms;

/// The entries of one range: its lower bound, and its upper bound if it holds more than
/// one item.
pub open spec fn range_entries(r: (nat, nat)) -> Seq<ClassEntry> {
    if r.0 == r.1 {
        seq![ClassEntry { value: r.0 as u32, is_upper_bound: false }]
    } else {
        seq![
            ClassEntry { value: r.0 as u32, is_upper_bound: false },
            ClassEntry { value: r.1 as u32, is_upper_bound: true },
        ]
    }
}

/// The entries of a list of ranges, range after range.
pub open spec fn class_entries(codes: Seq<(nat, nat)>) -> Seq<ClassEntry>
    decreases codes.len(),
{
    if codes.len() == 0 {
        Seq::empty()
    } else {
        class_entries(codes.drop_last()) + range_entries(codes.last())
    }
}

/// The literals of `n`, in order.
pub open spec fn expr_literals(n: HirNode) -> Seq<Seq<u8>>
    decreases n, 0int,
{
    match n {
        HirNode::Literal(bytes) => seq![bytes@],
        HirNode::Repetition { sub, .. } => expr_literals(*sub),
        HirNode::Capture { sub, .. } => expr_literals(*sub),
        HirNode::Concat(v) => seq_literals(v@),
        HirNode::Alternation(v) => seq_literals(v@),
        _ => Seq::empty(),
    }
}

/// The literals of each of `s`, in order.
pub open spec fn seq_literals(s: Seq<HirNode>) -> Seq<Seq<u8>>
    decreases s, 0int,
{
    if s.len() == 0 {
        Seq::empty()
    } else {
        seq_literals(s.drop_last()) + expr_literals(s.last())
    }
}

/// The classes of `n`, in order, each as its sorted entries.
pub open spec fn expr_classes(n: HirNode) -> Seq<Seq<ClassEntry>>
    decreases n, 0int,
{
    match n {
        HirNode::Class(c) => seq![class_entries(class_codes(c)).sort_by(entry_order())],
        HirNode::Repetition { sub, .. } => expr_classes(*sub),
        HirNode::Capture { sub, .. } => expr_classes(*sub),
        HirNode::Concat(v) => seq_classes(v@),
        HirNode::Alternation(v) => seq_classes(v@),
        _ => Seq::empty(),
    }
}

/// The classes of each of `s`, in order.
pub open spec fn seq_classes(s: Seq<HirNode>) -> Seq<Seq<ClassEntry>>
    decreases s, 0int,
{
    if s.len() == 0 {
        Seq::empty()
    } else {
        seq_classes(s.drop_last()) + expr_classes(s.last())
    }
}

/// The matcher of an assertion.
pub open spec fn look_text(k: LookKind) -> Seq<char> {
    matcher_path() + match k {
        LookKind::Start => "Start"@,
        LookKind::End => "End"@,
        LookKind::StartLF => "LineStart"@,
        LookKind::EndLF => "LineEnd"@,
        LookKind::StartCRLF => "CRLFStart"@,
        _ => "CRLFEnd"@,
    }
}

/// A quantifier made lazy unless it is greedy.
pub open spec fn lazy_text(greedy: bool, byte: bool, t: Seq<char>) -> Seq<char> {
    if greedy {
        t
    } else {
        generic("Lazy"@, item_type(byte), seq![t])
    }
}

/// The matcher type of `n` for items `u8` (`byte`) or `char`, in the expression `name`
/// whose earlier parts hold `lits` literals and `classes` classes.
pub open spec fn expr_text(n: HirNode, byte: bool, name: Seq<char>, lits: nat, classes: nat) -> Seq<char>
    decreases n, 0int,
{
    let ty = item_type(byte);
    match n {
        HirNode::Empty => matcher_path() + "Always"@,
        HirNode::Literal(_) => generic("LiteralMatcher"@, literal_id(name, lits), seq![]),
        HirNode::Class(_) => generic("ClassMatcher"@, ty, seq![class_id(name, byte, classes)]),
        HirNode::Look(k) => look_text(k),
        HirNode::Repetition { min, max, greedy, sub } => {
            let t = expr_text(*sub, byte, name, lits, classes);
            match max {
                None => lazy_text(
                    greedy,
                    byte,
                    generic("QuantifierNOrMore"@, ty, seq![t, decimal(min as nat)]),
                ),
                Some(m) => if m == min {
                    generic("QuantifierN"@, ty, seq![t, decimal(min as nat)])
                } else {
                    lazy_text(
                        greedy,
                        byte,
                        generic("QuantifierNToM"@, ty, seq![t, decimal(min as nat), decimal(m as nat)]),
                    )
                },
            }
        },
        HirNode::Capture { index, sub, .. } => generic(
            "CaptureGroup"@,
            ty,
            seq![expr_text(*sub, byte, name, lits, classes), decimal(index as nat)],
        ),
        HirNode::Concat(v) => chunked("Then"@, byte, expr_texts(v@, byte, name, lits, classes)),
        HirNode::Alternation(v) => chunked("Or"@, byte, expr_texts(v@, byte, name, lits, classes)),
    }
}

/// The matcher types of each of `s`, in order, each numbering its literals and classes
/// after those of the ones before it.
pub open spec fn expr_texts(s: Seq<HirNode>, byte: bool, name: Seq<char>, lits: nat, classes: nat) -> Seq<
    Seq<char>,
>
    decreases s, 0int,
{
    if s.len() == 0 {
        Seq::empty()
    } else {
        let before = s.drop_last();
        expr_texts(before, byte, name, lits, classes).push(
            expr_text(
                s.last(),
                byte,
                name,
                lits + seq_literals(before).len(),
                classes + seq_classes(before).len(),
            ),
        )
    }
}

/// Whether `n` can be converted: every class that must change kind lies within ASCII and is
/// canonical, no assertion is a word boundary, and no concatenation or alternation is empty.
pub open spec fn expr_convertible(n: HirNode, byte: bool) -> bool
    decreases n, 0int,
{
    match n {
        HirNode::Class(c) => (c is Unicode) == byte ==> canonical(class_codes(c)) && ascii_ranges(
            class_codes(c),
        ),
        HirNode::Look(k) => k != LookKind::Word,
        HirNode::Repetition { sub, .. } => expr_convertible(*sub, byte),
        HirNode::Capture { sub, .. } => expr_convertible(*sub, byte),
        HirNode::Concat(v) => v@.len() > 0 && all_convertible(v@, byte),
        HirNode::Alternation(v) => v@.len() > 0 && all_convertible(v@, byte),
        _ => true,
    }
}

/// Whether each of `s` can be converted.
pub open spec fn all_convertible(s: Seq<HirNode>, byte: bool) -> bool
    decreases s, 0int,
{
    if s.len() == 0 {
        true
    } else {
        all_convertible(s.drop_last(), byte) && expr_convertible(s.last(), byte)
    }
}

/// `all_convertible` says that each of the sequence can be converted.
pub proof fn lemma_all_convertible(s: Seq<HirNode>, byte: bool)
    ensures
        all_convertible(s, byte) <==> forall|i: int| 0 <= i < s.len() ==> #[trigger] expr_convertible(s[i], byte),
    decreases s.len(),
{
    if s.len() > 0 {
        lemma_all_convertible(s.drop_last(), byte);
        if forall|i: int| 0 <= i < s.len() ==> #[trigger] expr_convertible(s[i], byte) {
            assert forall|i: int| 0 <= i < s.drop_last().len() implies #[trigger] expr_convertible(
                s.drop_last()[i],
                byte,
            ) by {
                assert(s.drop_last()[i] == s[i]);
                assert(expr_convertible(s[i], byte));
            }
            assert(expr_convertible(s[s.len() - 1], byte));
        }
        if all_convertible(s, byte) {
            assert forall|i: int| 0 <= i < s.len() implies #[trigger] expr_convertible(s[i], byte) by {
                if i < s.len() - 1 {
                    assert(s.drop_last()[i] == s[i]);
                }
            }
        }
    }
}

/// What converting `n` does to the metadata `before`, giving `after`.
pub open spec fn converted(n: HirNode, byte: bool, before: ExprMetadata, after: ExprMetadata) -> bool {
    &&& literal_views(after.literals@) == literal_views(before.literals@) + expr_literals(n)
    &&& class_views(after.classes@) == class_views(before.classes@) + expr_classes(n)
    &&& after.groups.groups_view() == node_groups(n, before.groups.required, before.groups.groups_view())
    &&& after.groups.required == before.groups.required
    &&& after.groups.only_digits == before.groups.only_digits
    &&& after.name == before.name
}

/// What converting each of `s` in order does to the metadata.
pub open spec fn converted_seq(s: Seq<HirNode>, before: ExprMetadata, after: ExprMetadata) -> bool {
    &&& literal_views(after.literals@) == literal_views(before.literals@) + seq_literals(s)
    &&& class_views(after.classes@) == class_views(before.classes@) + seq_classes(s)
    &&& after.groups.groups_view() == seq_groups(s, before.groups.required, before.groups.groups_view())
    &&& after.groups.required == before.groups.required
    &&& after.groups.only_digits == before.groups.only_digits
    &&& after.name == before.name
}

/// The entries of a class, range after range.
fn class_entry_list(c: &ClassNode) -> (r: Vec<ClassEntry>)
    ensures
        r@ == class_entries(class_codes(*c)),
{
    let ghost codes = class_codes(*c);
    let mut out: Vec<ClassEntry> = Vec::new();
    let n = match c {
        ClassNode::Unicode(r) => r.len(),
        ClassNode::Bytes(r) => r.len(),
    };
    let mut i: usize = 0;
    while i < n
        invariant
            i <= n,
            n == codes.len(),
            codes == class_codes(*c),
            out@ == class_entries(codes.subrange(0, i as int)),
        decreases n - i,
    {
        let (lo, hi): (u32, u32) = match c {
            ClassNode::Unicode(r) => (r[i].0 as u32, r[i].1 as u32),
            ClassNode::Bytes(r) => (r[i].0 as u32, r[i].1 as u32),
        };
        assert(codes[i as int] == (lo as nat, hi as nat));
        out.push(ClassEntry { value: lo, is_upper_bound: false });
        if lo != hi {
            out.push(ClassEntry { value: hi, is_upper_bound: true });
        }
        proof {
            let t = codes.subrange(0, i + 1);
            assert(t.drop_last() =~= codes.subrange(0, i as int));
            assert(t.last() == codes[i as int]);
        }
        i = i + 1;
    }
    assert(codes.subrange(0, n as int) =~= codes);
    out
}

/// Converts `n` into the text of its matcher type, recording its literals, classes and
/// capture groups in `meta`.
pub fn expr_matcher<I: CastClass>(n: &HirNode, meta: &mut ExprMetadata) -> (r: Vec<char>)
    requires
        expr_convertible(*n, I::spec_is_byte()),
    ensures
        r@ == expr_text(
            *n,
            I::spec_is_byte(),
            old(meta).name@,
            old(meta).literals@.len(),
            old(meta).classes@.len(),
        ),
        converted(*n, I::spec_is_byte(), *old(meta), *final(meta)),
    decreases n, 0int,
{
    let byte = I::is_byte();
    let ghost before = *meta;
    match n {
        HirNode::Empty => {
            assert(literal_views(meta.literals@) =~= literal_views(before.literals@) + Seq::empty());
            assert(class_views(meta.classes@) =~= class_views(before.classes@) + Seq::empty());
            plain_matcher("Always")
        },
        HirNode::Literal(bytes) => {
            let copy = copy_bytes(bytes);
            let id = meta.insert_literal(copy);
            assert(literal_views(meta.literals@) =~= literal_views(before.literals@) + seq![bytes@]);
            assert(class_views(meta.classes@) =~= class_views(before.classes@) + Seq::empty());
            let empty: Vec<Vec<char>> = Vec::new();
            assert(views(empty@) =~= seq![]);
            generic_text(&text_of("LiteralMatcher"), &id, &empty)
        },
        HirNode::Class(c) => {
            let entries = class_entry_list(c);
            let ghost e = entries@;
            let id = meta.insert_class(entries, byte);
            assert(class_views(meta.classes@) =~= class_views(before.classes@) + seq![e.sort_by(entry_order())]);
            assert(literal_views(meta.literals@) =~= literal_views(before.literals@) + Seq::empty());
            generic_text(&text_of("ClassMatcher"), &item_type_text(byte), &single(id))
        },
        HirNode::Look(k) => {
            assert(literal_views(meta.literals@) =~= literal_views(before.literals@) + Seq::empty());
            assert(class_views(meta.classes@) =~= class_views(before.classes@) + Seq::empty());
            match k {
                LookKind::Start => plain_matcher("Start"),
                LookKind::End => plain_matcher("End"),
                LookKind::StartLF => plain_matcher("LineStart"),
                LookKind::EndLF => plain_matcher("LineEnd"),
                LookKind::StartCRLF => plain_matcher("CRLFStart"),
                _ => plain_matcher("CRLFEnd"),
            }
        },
        HirNode::Repetition { min, max, greedy, sub } => {
            let required = meta.groups.required;
            if *min == 0 {
                meta.groups.required = false;
            }
            let sub_text = expr_matcher::<I>(sub, meta);
            if *min == 0 {
                meta.groups.required = required;
            }
            let ty = item_type_text(byte);
            let quantified = match max {
                None => generic_text(
                    &text_of("QuantifierNOrMore"),
                    &ty,
                    &pair(sub_text, decimal_text(*min as u64)),
                ),
                Some(m) => {
                    if *m == *min {
                        return generic_text(
                            &text_of("QuantifierN"),
                            &ty,
                            &pair(sub_text, decimal_text(*min as u64)),
                        );
                    }
                    generic_text(
                        &text_of("QuantifierNToM"),
                        &ty,
                        &triple(sub_text, decimal_text(*min as u64), decimal_text(*m as u64)),
                    )
                },
            };
            if *greedy {
                quantified
            } else {
                generic_text(&text_of("Lazy"), &ty, &single(quantified))
            }
        },
        HirNode::Capture { index, name, sub } => {
            let name_copy = match name {
                Some(text) => Some(text.clone()),
                None => None,
            };
            meta.insert_group(*index, name_copy);
            let sub_text = expr_matcher::<I>(sub, meta);
            let ty = item_type_text(byte);
            generic_text(
                &text_of("CaptureGroup"),
                &ty,
                &pair(sub_text, decimal_text(*index as u64)),
            )
        },
        HirNode::Concat(v) => {
            proof {
                lemma_all_convertible(v@, byte);
            }
            let ts = each_expr_matcher::<I>(v, meta);
            assert(ts@.subrange(0, ts.len() as int) =~= ts@);
            chunked_matcher(&text_of("Then"), byte, &ts, 0, ts.len())
        },
        HirNode::Alternation(v) => {
            proof {
                lemma_all_convertible(v@, byte);
            }
            let required = meta.groups.required;
            meta.groups.required = false;
            let ts = each_expr_matcher::<I>(v, meta);
            meta.groups.required = required;
            assert(ts@.subrange(0, ts.len() as int) =~= ts@);
            chunked_matcher(&text_of("Or"), byte, &ts, 0, ts.len())
        },
    }
}

/// A copy of a literal's bytes.
fn copy_bytes(bytes: &Vec<u8>) -> (r: Vec<u8>)
    ensures
        r@ == bytes@,
{
    let mut r: Vec<u8> = Vec::new();
    let mut i: usize = 0;
    while i < bytes.len()
        invariant
            i <= bytes.len(),
            r@ == bytes@.subrange(0, i as int),
        decreases bytes.len() - i,
    {
        r.push(bytes[i]);
        i = i + 1;
    }
    assert(r@ =~= bytes@);
    r
}

/// Converts each of `v` in order.
fn each_expr_matcher<I: CastClass>(v: &Vec<HirNode>, meta: &mut ExprMetadata) -> (r: Vec<Vec<char>>)
    requires
        forall|i: int| 0 <= i < v@.len() ==> #[trigger] expr_convertible(v@[i], I::spec_is_byte()),
    ensures
        views(r@) == expr_texts(
            v@,
            I::spec_is_byte(),
            old(meta).name@,
            old(meta).literals@.len(),
            old(meta).classes@.len(),
        ),
        r.len() == v.len(),
        converted_seq(v@, *old(meta), *final(meta)),
    decreases v@, 0int,
{
    let ghost byte = I::spec_is_byte();
    let ghost start = *meta;
    let ghost lits = meta.literals@.len();
    let ghost classes = meta.classes@.len();
    let mut ts: Vec<Vec<char>> = Vec::new();
    let mut i: usize = 0;
    assert(literal_views(meta.literals@) =~= literal_views(start.literals@) + Seq::empty());
    assert(class_views(meta.classes@) =~= class_views(start.classes@) + Seq::empty());
    while i < v.len()
        invariant
            i <= v.len(),
            byte == I::spec_is_byte(),
            lits == start.literals@.len(),
            classes == start.classes@.len(),
            forall|j: int| 0 <= j < v@.len() ==> #[trigger] expr_convertible(v@[j], byte),
            views(ts@) == expr_texts(v@.subrange(0, i as int), byte, start.name@, lits, classes),
            ts.len() == i,
            converted_seq(v@.subrange(0, i as int), start, *meta),
        decreases v.len() - i,
    {
        let ghost mid = *meta;
        let ghost s = v@.subrange(0, i as int);
        proof {
            assert(literal_views(mid.literals@).len() == mid.literals@.len());
            assert(class_views(mid.classes@).len() == mid.classes@.len());
        }
        let t = expr_matcher::<I>(&v[i], meta);
        let ghost prev = ts@;
        let ghost tv = t@;
        ts.push(t);
        proof {
            let s1 = v@.subrange(0, i + 1);
            assert(s1.drop_last() =~= s);
            assert(s1.last() == v@[i as int]);
            assert(views(ts@) =~= views(prev).push(tv));
            assert(literal_views(meta.literals@) =~= literal_views(start.literals@) + seq_literals(s1));
            assert(class_views(meta.classes@) =~= class_views(start.classes@) + seq_classes(s1));
        }
        i = i + 1;
    }
    assert(v@.subrange(0, v.len() as int) =~= v@);
    ts
}

/// Whether `n` can be converted for items `u8` (`byte`) or `char`.
pub fn check_convertible(n: &HirNode, byte: bool) -> (r: bool)
    ensures
        r == expr_convertible(*n, byte),
    decreases n,
{
    match n {
        HirNode::Class(c) => {
            let converts = match c {
                ClassNode::Unicode(_) => byte,
                ClassNode::Bytes(_) => !byte,
            };
            if !converts {
                return true;
            }
            let codes = crate::hir::util::class_code_pairs(c);
            crate::hir::util::check_ascii_canonical(&codes)
        },
        HirNode::Look(k) => match k {
            LookKind::Word => false,
            _ => true,
        },
        HirNode::Repetition { sub, .. } => check_convertible(sub, byte),
        HirNode::Capture { sub, .. } => check_convertible(sub, byte),
        HirNode::Concat(v) => v.len() > 0 && check_all_convertible(v, byte),
        HirNode::Alternation(v) => v.len() > 0 && check_all_convertible(v, byte),
        _ => true,
    }
}

/// Whether each of `v` can be converted.
fn check_all_convertible(v: &Vec<HirNode>, byte: bool) -> (r: bool)
    ensures
        r == all_convertible(v@, byte),
    decreases v@,
{
    proof {
        lemma_all_convertible(v@, byte);
    }
    let mut i: usize = 0;
    while i < v.len()
        invariant
            i <= v.len(),
            forall|j: int| 0 <= j < i ==> #[trigger] expr_convertible(v@[j], byte),
        decreases v.len() - i,
    {
        if !check_convertible(&v[i], byte) {
            proof {
                lemma_all_convertible(v@, byte);
            }
            assert(!expr_convertible(v@[i as int], byte));
            return false;
        }
        i = i + 1;
    }
    true
}

/// Each assertion is written as the matcher of the same assertion: `^` as `Start`, `$` as
/// `End`, and in multi-line mode a line start as `LineStart` and a line end as `LineEnd`
/// (`CRLFStart` and `CRLFEnd` where lines may end in `\r\n`), whatever the item type and
/// whatever came before in the expression.
pub proof fn law_assertions_keep_their_meaning(byte: bool, name: Seq<char>, lits: nat, classes: nat)
    ensures
        expr_text(HirNode::Look(LookKind::Start), byte, name, lits, classes)
            == "::ct_regex::internal::matcher::Start"@,
        expr_text(HirNode::Look(LookKind::End), byte, name, lits, classes)
            == "::ct_regex::internal::matcher::End"@,
        expr_text(HirNode::Look(LookKind::StartLF), byte, name, lits, classes)
            == "::ct_regex::internal::matcher::LineStart"@,
        expr_text(HirNode::Look(LookKind::EndLF), byte, name, lits, classes)
            == "::ct_regex::internal::matcher::LineEnd"@,
        expr_text(HirNode::Look(LookKind::StartCRLF), byte, name, lits, classes)
            == "::ct_regex::internal::matcher::CRLFStart"@,
        expr_text(HirNode::Look(LookKind::EndCRLF), byte, name, lits, classes)
            == "::ct_regex::internal::matcher::CRLFEnd"@,
{
    reveal_strlit("::ct_regex::internal::matcher::");
    reveal_strlit("::ct_regex::internal::matcher::Start");
    reveal_strlit("::ct_regex::internal::matcher::End");
    reveal_strlit("::ct_regex::internal::matcher::LineStart");
    reveal_strlit("::ct_regex::internal::matcher::LineEnd");
    reveal_strlit("::ct_regex::internal::matcher::CRLFStart");
    reveal_strlit("::ct_regex::internal::matcher::CRLFEnd");
    reveal_strlit("Start");
    reveal_strlit("End");
    reveal_strlit("LineStart");
    reveal_strlit("LineEnd");
    reveal_strlit("CRLFStart");
    reveal_strlit("CRLFEnd");
    assert(matcher_path() + "Start"@ =~= "::ct_regex::internal::matcher::Start"@);
    assert(matcher_path() + "End"@ =~= "::ct_regex::internal::matcher::End"@);
    assert(matcher_path() + "LineStart"@ =~= "::ct_regex::internal::matcher::LineStart"@);
    assert(matcher_path() + "LineEnd"@ =~= "::ct_regex::internal::matcher::LineEnd"@);
    assert(matcher_path() + "CRLFStart"@ =~= "::ct_regex::internal::matcher::CRLFStart"@);
    assert(matcher_path() + "CRLFEnd"@ =~= "::ct_regex::internal::matcher::CRLFEnd"@);
}

} // verus!
