//! From a pattern to the type expressions of its matcher and anchors.
use vstd::prelude::*;

use crate::codegen::expr::{
    check_convertible, expr_classes, expr_convertible, expr_literals, expr_matcher, expr_text,
    lemma_all_convertible,
};
use crate::codegen::metadata::{class_views, literal_views, ExprMetadata};
use crate::hir::groups::whole_match_group;
use crate::hir::spec::{lemma_node_groups_frame, node_groups};
use crate::hir::text::extend_string;
use crate::codegen::config::{parse_prepared, prepared, ConfigExt};
use crate::hir::node::{HirNode, LookKind, ParsedRegex};
use crate::hir::text::{decimal, push_all, push_decimal, push_str};
use crate::hir::write_matcher::CastClass;

verus! {

broadcast use vstd::seq::group_seq_axioms;

/// The path under which the anchor types are written.
pub open spec fn anchor_path() -> Seq<char> {
    "::ct_regex::internal::anchor::"@
}

/// The anchors that the properties of an expression call for, in order: `Start` where
/// every match starts at the start of the haystack, `MinLen` where matches have a nonzero
/// minimum length, and `EndAndMaxLen` or `MaxLen` where they have a maximum length
/// (the first where every match ends at the end of the haystack).
pub open spec fn anchor_list(p: ParsedRegex) -> Seq<Seq<char>> {
    let a: Seq<Seq<char>> = if p.prefix_start {
        seq![anchor_path() + "Start"@]
    } else {
        seq![]
    };
    let b = match p.minimum_len {
        Some(min) => if min != 0 {
            a.push(anchor_path() + "MinLen<"@ + decimal(min as nat) + ">"@)
        } else {
            a
        },
        None => a,
    };
    match p.maximum_len {
        Some(max) => b.push(
            anchor_path() + (if p.suffix_end {
                "EndAndMaxLen<"@
            } else {
                "MaxLen<"@
            }) + decimal(max as nat) + ">"@,
        ),
        None => b,
    }
}

/// The anchor type for a list of anchors: none, the one, a pair or a set of three.
pub open spec fn anchor_text(a: Seq<Seq<char>>) -> Seq<char> {
    if a.len() == 0 {
        anchor_path() + "AnchorNone"@
    } else if a.len() == 1 {
        a[0]
    } else if a.len() == 2 {
        anchor_path() + "AnchorPair<"@ + a[0] + ","@ + a[1] + ">"@
    } else {
        anchor_path() + "AnchorSet<"@ + a[0] + ","@ + a[1] + ","@ + a[2] + ">"@
    }
}

/// `new` is `old` without the start assertions that the anchors already check: a lone `^`
/// becomes the empty expression, a concatenation loses a leading `^` (a concatenation of
/// one other part becoming that part, of none the empty expression), and a capture group
/// has the same removed from inside it.
pub open spec fn lookarounds_removed(old: HirNode, new: HirNode) -> bool
    decreases old,
{
    match old {
        HirNode::Look(LookKind::Start) => new == HirNode::Empty,
        HirNode::Concat(v) => if v@.len() >= 1 && v@[0] == HirNode::Look(LookKind::Start) {
            if v@.len() == 1 {
                new == HirNode::Empty
            } else if v@.len() == 2 {
                new == v@[1]
            } else {
                new matches HirNode::Concat(w) && w@ == v@.drop_first()
            }
        } else {
            new == old
        },
        HirNode::Capture { index, name, sub } => match new {
            HirNode::Capture { index: i2, name: n2, sub: s2 } => i2 == index && n2 == name
                && lookarounds_removed(*sub, *s2),
            _ => false,
        },
        _ => new == old,
    }
}

fn is_start(n: &HirNode) -> (r: bool)
    ensures
        r == (*n == HirNode::Look(LookKind::Start)),
{
    match n {
        HirNode::Look(LookKind::Start) => true,
        _ => false,
    }
}

/// The type expressions of a parsed expression: its matcher, its anchors, and the metadata
/// collected while writing the matcher.
#[derive(Debug)]
pub struct TypeExpressions {
    pub matcher: String,
    pub anchors: String,
    pub meta: ExprMetadata,
}

/// Whether `meta` is what converting `h` for items `u8` (`byte`) or `char` collects in
/// the expression `name`, starting from nothing but the whole match.
pub open spec fn collected(h: HirNode, byte: bool, name: Seq<char>, meta: ExprMetadata) -> bool {
    &&& literal_views(meta.literals@) == expr_literals(h)
    &&& class_views(meta.classes@) == expr_classes(h)
    &&& meta.groups.groups_view() == node_groups(h, true, map![0u32 => whole_match_group()])
    &&& meta.groups.required
    &&& meta.name@ == name
}

/// Whether `t` is what [`TypeExpressions::create`] makes of `p` for items `u8` (`byte`)
/// or `char` in the expression `name`: the anchors of its properties, and the matcher and
/// metadata of its whole tree. The start assertions stay in the matcher: the regular
/// expression types have no place for the anchors, so the matcher must check them itself.
pub open spec fn created(p: ParsedRegex, byte: bool, name: Seq<char>, t: TypeExpressions) -> bool {
    &&& t.anchors@ == anchor_text(anchor_list(p))
    &&& t.matcher@ == expr_text(p.hir, byte, name, 0, 0)
    &&& collected(p.hir, byte, name, t.meta)
}

/// Two creations from one parse record the same groups and the same literals.
pub proof fn lemma_created_agree(p: ParsedRegex, byte: bool, name: Seq<char>, t1: TypeExpressions, t2: TypeExpressions)
    requires
        created(p, byte, name, t1),
        created(p, byte, name, t2),
    ensures
        t1.meta.groups.groups_view() == t2.meta.groups.groups_view(),
        literal_views(t1.meta.literals@) == literal_views(t2.meta.literals@),
        t1.meta.groups.groups_view().contains_key(0),
{
    let m = map![0u32 => whole_match_group()];
    lemma_node_groups_frame(p.hir, true, m);
    assert(m.dom().contains(0));
}

impl TypeExpressions {
    /// Writes the anchor type that the properties of `p` call for.
    pub fn create_anchor_expression(p: &ParsedRegex) -> (r: Vec<char>)
        ensures
            r@ == anchor_text(anchor_list(*p)),
    {
        let mut anchors: Vec<Vec<char>> = Vec::new();
        if p.prefix_start {
            let mut a: Vec<char> = Vec::new();
            push_str(&mut a, "::ct_regex::internal::anchor::");
            push_str(&mut a, "Start");
            anchors.push(a);
        }
        match p.minimum_len {
            Some(min) => if min != 0 {
                let mut a: Vec<char> = Vec::new();
                push_str(&mut a, "::ct_regex::internal::anchor::");
                push_str(&mut a, "MinLen<");
                push_decimal(&mut a, min as u64);
                push_str(&mut a, ">");
                anchors.push(a);
            },
            None => {},
        }
        match p.maximum_len {
            Some(max) => {
                let mut a: Vec<char> = Vec::new();
                push_str(&mut a, "::ct_regex::internal::anchor::");
                if p.suffix_end {
                    push_str(&mut a, "EndAndMaxLen<");
                } else {
                    push_str(&mut a, "MaxLen<");
                }
                push_decimal(&mut a, max as u64);
                push_str(&mut a, ">");
                anchors.push(a);
            },
            None => {},
        }
        let ghost list = anchor_list(*p);
        assert(anchors@.len() == list.len());
        assert(forall|i: int| 0 <= i < list.len() ==> anchors@[i]@ =~= #[trigger] list[i]);
        let mut out: Vec<char> = Vec::new();
        let n = anchors.len();
        if n == 0 {
            push_str(&mut out, "::ct_regex::internal::anchor::");
            push_str(&mut out, "AnchorNone");
        } else if n == 1 {
            push_all(&mut out, &anchors[0]);
        } else if n == 2 {
            push_str(&mut out, "::ct_regex::internal::anchor::");
            push_str(&mut out, "AnchorPair<");
            push_all(&mut out, &anchors[0]);
            push_str(&mut out, ",");
            push_all(&mut out, &anchors[1]);
            push_str(&mut out, ">");
        } else {
            push_str(&mut out, "::ct_regex::internal::anchor::");
            push_str(&mut out, "AnchorSet<");
            push_all(&mut out, &anchors[0]);
            push_str(&mut out, ",");
            push_all(&mut out, &anchors[1]);
            push_str(&mut out, ",");
            push_all(&mut out, &anchors[2]);
            push_str(&mut out, ">");
        }
        assert(out@ =~= anchor_text(list));
        out
    }

    /// Removes the start assertions that anchors checked beside the matcher would cover.
    /// [`create`](Self::create) keeps them, since the regular expression types carry no
    /// anchors.
    pub fn remove_redundant_lookarounds(hir: HirNode) -> (r: HirNode)
        ensures
            lookarounds_removed(hir, r),
        decreases hir,
    {
        match hir {
            HirNode::Look(LookKind::Start) => HirNode::Empty,
            HirNode::Concat(v) => {
                if v.len() >= 1 && is_start(&v[0]) {
                    let ghost old_v = v@;
                    let mut w = v;
                    w.remove(0);
                    assert(w@ =~= old_v.drop_first());
                    if w.len() == 0 {
                        HirNode::Empty
                    } else if w.len() == 1 {
                        match w.pop() {
                            Some(x) => x,
                            None => HirNode::Empty,
                        }
                    } else {
                        HirNode::Concat(w)
                    }
                } else {
                    HirNode::Concat(v)
                }
            },
            HirNode::Capture { index, name, sub } => {
                let inner = Self::remove_redundant_lookarounds(*sub);
                HirNode::Capture { index, name, sub: Box::new(inner) }
            },
            other => other,
        }
    }

    /// Writes the type expressions of `p` for items `I` in the expression `name`.
    pub fn create<I: CastClass>(p: ParsedRegex, name: &String) -> (r: TypeExpressions)
        requires
            expr_convertible(p.hir, I::spec_is_byte()),
        ensures
            created(p, I::spec_is_byte(), name@, r),
    {
        let anchors_text = Self::create_anchor_expression(&p);
        let mut anchors = String::new();
        extend_string(&mut anchors, &anchors_text);
        let hir = p.hir;
        let mut meta = ExprMetadata::new(name.clone());
        let ghost before = meta;
        let text = expr_matcher::<I>(&hir, &mut meta);
        let mut matcher = String::new();
        extend_string(&mut matcher, &text);
        proof {
            assert(literal_views(before.literals@) =~= Seq::empty());
            assert(class_views(before.classes@) =~= Seq::empty());
            assert(literal_views(meta.literals@) =~= expr_literals(hir));
            assert(class_views(meta.classes@) =~= expr_classes(hir));
            assert(anchors@ =~= anchors_text@);
            assert(matcher@ =~= text@);
        }
        let r = TypeExpressions { matcher, anchors, meta };
        r
    }

    /// Parses `pat` with `config` and writes its type expressions for items `I` in the
    /// expression `name`; `None` where the parser refuses the pattern or its tree cannot
    /// be converted.
    pub fn parse_regex<I: CastClass>(name: &String, pat: &str, config: ConfigExt) -> (r: Option<
        TypeExpressions,
    >)
        ensures
            r is Some <==> (prepared(pat@, config) matches Some(p) && expr_convertible(
                p.hir,
                I::spec_is_byte(),
            )),
            r matches Some(t) ==> created(prepared(pat@, config)->Some_0, I::spec_is_byte(), name@, t),
    {
        match parse_prepared(pat, config) {
            None => None,
            Some(p) => {
                if check_convertible(&p.hir, I::is_byte()) {
                    Some(TypeExpressions::create::<I>(p, name))
                } else {
                    None
                }
            },
        }
    }
}


/// Where every match has a longest length `n`, the last anchor checks it: it is
/// `EndAndMaxLen<n>`, which also holds each match to the end of the haystack, exactly when
/// every match ends there (`suffix_end`), and `MaxLen<n>` otherwise, whatever holds of the
/// start.
pub proof fn law_end_anchor_follows_suffix_end(p: ParsedRegex)
    requires
        p.maximum_len is Some,
    ensures
        anchor_list(p).len() > 0,
        anchor_list(p).last() == "::ct_regex::internal::anchor::EndAndMaxLen<"@ + decimal(
            p.maximum_len->0 as nat,
        ) + ">"@ <==> p.suffix_end,
        !p.suffix_end ==> anchor_list(p).last() == "::ct_regex::internal::anchor::MaxLen<"@
            + decimal(p.maximum_len->0 as nat) + ">"@,
{
    reveal_strlit("::ct_regex::internal::anchor::");
    reveal_strlit("::ct_regex::internal::anchor::EndAndMaxLen<");
    reveal_strlit("::ct_regex::internal::anchor::MaxLen<");
    reveal_strlit("EndAndMaxLen<");
    reveal_strlit("MaxLen<");
    let d = decimal(p.maximum_len->0 as nat);
    let with_end = "::ct_regex::internal::anchor::EndAndMaxLen<"@ + d + ">"@;
    let without = "::ct_regex::internal::anchor::MaxLen<"@ + d + ">"@;
    assert(anchor_path() + "EndAndMaxLen<"@ + d + ">"@ =~= with_end);
    assert(anchor_path() + "MaxLen<"@ + d + ">"@ =~= without);
    assert(with_end[30] == 'E');
    assert(without[30] == 'M');
    assert(with_end != without);
}

/// Where every match starts at the start of the haystack (`prefix_start`), the anchors
/// begin with `Start`, and the rest are those of the same properties without it: the start
/// changes nothing else.
pub proof fn law_start_anchor_follows_prefix_start(p: ParsedRegex)
    ensures
        anchor_list(p) == (if p.prefix_start {
            seq!["::ct_regex::internal::anchor::Start"@]
        } else {
            Seq::<Seq<char>>::empty()
        }) + anchor_list(ParsedRegex { prefix_start: false, ..p }),
{
    reveal_strlit("::ct_regex::internal::anchor::");
    reveal_strlit("::ct_regex::internal::anchor::Start");
    reveal_strlit("Start");
    assert(anchor_path() + "Start"@ =~= "::ct_regex::internal::anchor::Start"@);
    let q = ParsedRegex { prefix_start: false, ..p };
    let head: Seq<Seq<char>> = if p.prefix_start {
        seq!["::ct_regex::internal::anchor::Start"@]
    } else {
        Seq::<Seq<char>>::empty()
    };
    let b = match p.minimum_len {
        Some(min) => if min != 0 {
            seq![anchor_path() + "MinLen<"@ + decimal(min as nat) + ">"@]
        } else {
            Seq::<Seq<char>>::empty()
        },
        None => Seq::<Seq<char>>::empty(),
    };
    let c = match p.maximum_len {
        Some(max) => seq![
            anchor_path() + (if p.suffix_end {
                "EndAndMaxLen<"@
            } else {
                "MaxLen<"@
            }) + decimal(max as nat) + ">"@,
        ],
        None => Seq::<Seq<char>>::empty(),
    };
    assert(anchor_list(q) =~= b + c);
    assert(anchor_list(p) =~= head + b + c);
}

} // verus!
