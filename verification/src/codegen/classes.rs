//! Rewriting Perl classes (`\d`, `\s`, `\w` and their negations) into the ASCII classes of
//! the same names, on the syntax tree of a pattern, before it is translated.
//!
//! The tree is the library's own model of `regex_syntax`'s abstract syntax tree: the nodes
//! that the rewriting walks through are held as plain values, and every other node is kept
//! as `regex_syntax` produced it.
use regex_syntax::ast::parse::ParserBuilder;
use regex_syntax::ast::{
    self, Ast, ClassAsciiKind, ClassPerlKind, ClassSet, ClassSetBinaryOpKind, ClassSetItem, GroupKind,
    RepetitionOp, Span,
};
use regex_syntax::hir::translate::TranslatorBuilder;
use vstd::prelude::*;

use crate::hir::node::{parsed_from_hir, ParsedRegex, SyntaxConfig};

verus! {

#[verifier::external_type_specification]
#[verifier::external_body]
pub struct ExAst(regex_syntax::ast::Ast);

#[verifier::external_type_specification]
#[verifier::external_body]
pub struct ExClassAscii(regex_syntax::ast::ClassAscii);

#[verifier::external_type_specification]
#[verifier::external_body]
pub struct ExClassPerl(regex_syntax::ast::ClassPerl);

#[verifier::external_type_specification]
#[verifier::external_body]
pub struct ExClassSet(regex_syntax::ast::ClassSet);

#[verifier::external_type_specification]
#[verifier::external_body]
pub struct ExClassSetItem(regex_syntax::ast::ClassSetItem);

#[verifier::external_type_specification]
#[verifier::external_body]
pub struct ExClassSetBinaryOpKind(regex_syntax::ast::ClassSetBinaryOpKind);

#[verifier::external_type_specification]
#[verifier::external_body]
pub struct ExGroupKind(regex_syntax::ast::GroupKind);

#[verifier::external_type_specification]
#[verifier::external_body]
pub struct ExAstRepetition(regex_syntax::ast::Repetition);

#[verifier::external_type_specification]
#[verifier::external_body]
pub struct ExRepetitionOp(regex_syntax::ast::RepetitionOp);

#[verifier::external_type_specification]
#[verifier::external_body]
pub struct ExSpan(regex_syntax::ast::Span);

/// The kind of a Perl class, and of the ASCII class that replaces it.
#[derive(Debug, Clone, Copy, PartialEq, Eq, Structural)]
pub enum PerlKind {
    Digit,
    Space,
    Word,
}

/// A Perl class: `\d`, `\s` or `\w`, or its negation.
#[derive(Clone, Copy)]
pub struct PerlClass {
    pub span: Span,
    pub kind: PerlKind,
    pub negated: bool,
}

/// An ASCII class: `[:digit:]`, `[:space:]` or `[:word:]`, or its negation.
#[derive(Clone, Copy)]
pub struct AsciiClass {
    pub span: Span,
    pub kind: PerlKind,
    pub negated: bool,
}

/// An item of a bracketed class.
pub enum SetItemAst {
    Perl(PerlClass),
    Ascii(AsciiClass),
    Bracketed { span: Span, negated: bool, set: Box<SetAst> },
    Union { span: Span, items: Vec<SetItemAst> },
    /// Any other item, as parsed.
    Other(ClassSetItem),
}

/// The contents of a bracketed class.
pub enum SetAst {
    Item(SetItemAst),
    BinaryOp { span: Span, kind: ClassSetBinaryOpKind, lhs: Box<SetAst>, rhs: Box<SetAst> },
}

/// A node of a pattern's syntax tree.
pub enum PatternAst {
    Perl(PerlClass),
    Bracketed { span: Span, negated: bool, set: SetAst },
    Repetition { span: Span, op: RepetitionOp, greedy: bool, sub: Box<PatternAst> },
    Group { span: Span, kind: GroupKind, sub: Box<PatternAst> },
    Alternation { span: Span, asts: Vec<PatternAst> },
    Concat { span: Span, asts: Vec<PatternAst> },
    /// Any other node, as parsed.
    Other(Ast),
}

/// A class item as a mathematical value: the lists of items as sequences.
pub enum ItemView {
    Perl(PerlClass),
    Ascii(AsciiClass),
    Bracketed { span: Span, negated: bool, set: Box<SetView> },
    Union { span: Span, items: Seq<ItemView> },
    Other(ClassSetItem),
}

/// The contents of a bracketed class as a mathematical value.
pub enum SetView {
    Item(ItemView),
    BinaryOp { span: Span, kind: ClassSetBinaryOpKind, lhs: Box<SetView>, rhs: Box<SetView> },
}

/// A syntax tree as a mathematical value: the lists of sub-expressions as sequences.
pub enum PatternView {
    Perl(PerlClass),
    Bracketed { span: Span, negated: bool, set: SetView },
    Repetition { span: Span, op: RepetitionOp, greedy: bool, sub: Box<PatternView> },
    Group { span: Span, kind: GroupKind, sub: Box<PatternView> },
    Alternation { span: Span, asts: Seq<PatternView> },
    Concat { span: Span, asts: Seq<PatternView> },
    Other(Ast),
}

pub open spec fn item_view(i: SetItemAst) -> ItemView
    decreases i,
{
    match i {
        SetItemAst::Perl(p) => ItemView::Perl(p),
        SetItemAst::Ascii(a) => ItemView::Ascii(a),
        SetItemAst::Bracketed { span, negated, set } => ItemView::Bracketed {
            span,
            negated,
            set: Box::new(set_view(*set)),
        },
        SetItemAst::Union { span, items } => ItemView::Union { span, items: items_view(items@) },
        SetItemAst::Other(x) => ItemView::Other(x),
    }
}

pub open spec fn items_view(s: Seq<SetItemAst>) -> Seq<ItemView>
    decreases s,
{
    if s.len() == 0 {
        Seq::empty()
    } else {
        items_view(s.drop_last()).push(item_view(s.last()))
    }
}

pub open spec fn set_view(s: SetAst) -> SetView
    decreases s,
{
    match s {
        SetAst::Item(i) => SetView::Item(item_view(i)),
        SetAst::BinaryOp { span, kind, lhs, rhs } => SetView::BinaryOp {
            span,
            kind,
            lhs: Box::new(set_view(*lhs)),
            rhs: Box::new(set_view(*rhs)),
        },
    }
}

pub open spec fn pattern_view(a: PatternAst) -> PatternView
    decreases a,
{
    match a {
        PatternAst::Perl(p) => PatternView::Perl(p),
        PatternAst::Bracketed { span, negated, set } => PatternView::Bracketed {
            span,
            negated,
            set: set_view(set),
        },
        PatternAst::Repetition { span, op, greedy, sub } => PatternView::Repetition {
            span,
            op,
            greedy,
            sub: Box::new(pattern_view(*sub)),
        },
        PatternAst::Group { span, kind, sub } => PatternView::Group {
            span,
            kind,
            sub: Box::new(pattern_view(*sub)),
        },
        PatternAst::Alternation { span, asts } => PatternView::Alternation {
            span,
            asts: patterns_view(asts@),
        },
        PatternAst::Concat { span, asts } => PatternView::Concat { span, asts: patterns_view(asts@) },
        PatternAst::Other(x) => PatternView::Other(x),
    }
}

pub open spec fn patterns_view(s: Seq<PatternAst>) -> Seq<PatternView>
    decreases s,
{
    if s.len() == 0 {
        Seq::empty()
    } else {
        patterns_view(s.drop_last()).push(pattern_view(s.last()))
    }
}

/// The ASCII class that replaces a Perl class: same place, kind and negation.
pub open spec fn ascii_of(p: PerlClass) -> AsciiClass {
    AsciiClass { span: p.span, kind: p.kind, negated: p.negated }
}

/// An item with every Perl class in it replaced by its ASCII class.
pub open spec fn item_simplified(i: ItemView) -> ItemView
    decreases i,
{
    match i {
        ItemView::Perl(p) => ItemView::Ascii(ascii_of(p)),
        ItemView::Bracketed { span, negated, set } => ItemView::Bracketed {
            span,
            negated,
            set: Box::new(set_simplified(*set)),
        },
        ItemView::Union { span, items } => ItemView::Union { span, items: items_simplified(items) },
        _ => i,
    }
}

pub open spec fn items_simplified(s: Seq<ItemView>) -> Seq<ItemView>
    decreases s,
{
    if s.len() == 0 {
        Seq::empty()
    } else {
        items_simplified(s.drop_last()).push(item_simplified(s.last()))
    }
}

/// A class set with every Perl class in it replaced by its ASCII class.
pub open spec fn set_simplified(s: SetView) -> SetView
    decreases s,
{
    match s {
        SetView::Item(i) => SetView::Item(item_simplified(i)),
        SetView::BinaryOp { span, kind, lhs, rhs } => SetView::BinaryOp {
            span,
            kind,
            lhs: Box::new(set_simplified(*lhs)),
            rhs: Box::new(set_simplified(*rhs)),
        },
    }
}

/// A syntax tree with every Perl class replaced by its ASCII class: one that stands alone
/// becomes a bracketed class holding just that ASCII class.
pub open spec fn simplified(a: PatternView) -> PatternView
    decreases a,
{
    match a {
        PatternView::Perl(p) => PatternView::Bracketed {
            span: p.span,
            negated: false,
            set: SetView::Item(ItemView::Ascii(ascii_of(p))),
        },
        PatternView::Bracketed { span, negated, set } => PatternView::Bracketed {
            span,
            negated,
            set: set_simplified(set),
        },
        PatternView::Repetition { span, op, greedy, sub } => PatternView::Repetition {
            span,
            op,
            greedy,
            sub: Box::new(simplified(*sub)),
        },
        PatternView::Group { span, kind, sub } => PatternView::Group {
            span,
            kind,
            sub: Box::new(simplified(*sub)),
        },
        PatternView::Alternation { span, asts } => PatternView::Alternation {
            span,
            asts: all_simplified(asts),
        },
        PatternView::Concat { span, asts } => PatternView::Concat { span, asts: all_simplified(asts) },
        PatternView::Other(_) => a,
    }
}

pub open spec fn all_simplified(s: Seq<PatternView>) -> Seq<PatternView>
    decreases s,
{
    if s.len() == 0 {
        Seq::empty()
    } else {
        all_simplified(s.drop_last()).push(simplified(s.last()))
    }
}

proof fn lemma_items_view(s: Seq<SetItemAst>)
    ensures
        items_view(s).len() == s.len(),
        forall|j: int| 0 <= j < s.len() ==> #[trigger] items_view(s)[j] == item_view(s[j]),
    decreases s.len(),
{
    if s.len() > 0 {
        lemma_items_view(s.drop_last());
    }
}

proof fn lemma_items_simplified(s: Seq<ItemView>)
    ensures
        items_simplified(s).len() == s.len(),
        forall|j: int| 0 <= j < s.len() ==> #[trigger] items_simplified(s)[j] == item_simplified(s[j]),
    decreases s.len(),
{
    if s.len() > 0 {
        lemma_items_simplified(s.drop_last());
    }
}

proof fn lemma_patterns_view(s: Seq<PatternAst>)
    ensures
        patterns_view(s).len() == s.len(),
        forall|j: int| 0 <= j < s.len() ==> #[trigger] patterns_view(s)[j] == pattern_view(s[j]),
    decreases s.len(),
{
    if s.len() > 0 {
        lemma_patterns_view(s.drop_last());
    }
}

proof fn lemma_all_simplified(s: Seq<PatternView>)
    ensures
        all_simplified(s).len() == s.len(),
        forall|j: int| 0 <= j < s.len() ==> #[trigger] all_simplified(s)[j] == simplified(s[j]),
    decreases s.len(),
{
    if s.len() > 0 {
        lemma_all_simplified(s.drop_last());
    }
}

/// Whether an item holds no Perl class.
pub open spec fn item_no_perl(i: ItemView) -> bool
    decreases i,
{
    match i {
        ItemView::Perl(_) => false,
        ItemView::Bracketed { set, .. } => set_no_perl(*set),
        ItemView::Union { items, .. } => items_no_perl(items),
        _ => true,
    }
}

pub open spec fn items_no_perl(s: Seq<ItemView>) -> bool
    decreases s,
{
    if s.len() == 0 {
        true
    } else {
        items_no_perl(s.drop_last()) && item_no_perl(s.last())
    }
}

/// Whether a class set holds no Perl class.
pub open spec fn set_no_perl(s: SetView) -> bool
    decreases s,
{
    match s {
        SetView::Item(i) => item_no_perl(i),
        SetView::BinaryOp { lhs, rhs, .. } => set_no_perl(*lhs) && set_no_perl(*rhs),
    }
}

/// Whether a syntax tree holds no Perl class.
pub open spec fn no_perl(a: PatternView) -> bool
    decreases a,
{
    match a {
        PatternView::Perl(_) => false,
        PatternView::Bracketed { set, .. } => set_no_perl(set),
        PatternView::Repetition { sub, .. } => no_perl(*sub),
        PatternView::Group { sub, .. } => no_perl(*sub),
        PatternView::Alternation { asts, .. } => all_no_perl(asts),
        PatternView::Concat { asts, .. } => all_no_perl(asts),
        PatternView::Other(_) => true,
    }
}

pub open spec fn all_no_perl(s: Seq<PatternView>) -> bool
    decreases s,
{
    if s.len() == 0 {
        true
    } else {
        all_no_perl(s.drop_last()) && no_perl(s.last())
    }
}

proof fn lemma_item_cleared(i: ItemView)
    ensures
        item_no_perl(item_simplified(i)),
        item_no_perl(i) ==> item_simplified(i) == i,
    decreases i,
{
    match i {
        ItemView::Bracketed { set, .. } => lemma_set_cleared(*set),
        ItemView::Union { items, .. } => lemma_items_cleared(items),
        _ => {},
    }
}

proof fn lemma_items_cleared(s: Seq<ItemView>)
    ensures
        items_no_perl(items_simplified(s)),
        items_no_perl(s) ==> items_simplified(s) == s,
    decreases s,
{
    if s.len() > 0 {
        lemma_items_cleared(s.drop_last());
        lemma_item_cleared(s.last());
        let t = items_simplified(s);
        assert(t.drop_last() =~= items_simplified(s.drop_last()));
        assert(s.drop_last().push(s.last()) =~= s);
    }
}

proof fn lemma_set_cleared(s: SetView)
    ensures
        set_no_perl(set_simplified(s)),
        set_no_perl(s) ==> set_simplified(s) == s,
    decreases s,
{
    match s {
        SetView::Item(i) => lemma_item_cleared(i),
        SetView::BinaryOp { lhs, rhs, .. } => {
            lemma_set_cleared(*lhs);
            lemma_set_cleared(*rhs);
        },
    }
}

proof fn lemma_all_cleared(s: Seq<PatternView>)
    ensures
        all_no_perl(all_simplified(s)),
        all_no_perl(s) ==> all_simplified(s) == s,
    decreases s,
{
    if s.len() > 0 {
        lemma_all_cleared(s.drop_last());
        lemma_cleared(s.last());
        let t = all_simplified(s);
        assert(t.drop_last() =~= all_simplified(s.drop_last()));
        assert(s.drop_last().push(s.last()) =~= s);
    }
}

proof fn lemma_cleared(a: PatternView)
    ensures
        no_perl(simplified(a)),
        no_perl(a) ==> simplified(a) == a,
    decreases a,
{
    match a {
        PatternView::Perl(p) => {
            assert(item_no_perl(ItemView::Ascii(ascii_of(p))));
        },
        PatternView::Bracketed { set, .. } => lemma_set_cleared(set),
        PatternView::Repetition { sub, .. } => lemma_cleared(*sub),
        PatternView::Group { sub, .. } => lemma_cleared(*sub),
        PatternView::Alternation { asts, .. } => lemma_all_cleared(asts),
        PatternView::Concat { asts, .. } => lemma_all_cleared(asts),
        _ => {},
    }
}

/// Simplifying the classes of a syntax tree leaves no Perl class in it, and a tree that
/// holds no Perl class is left as it is; so simplifying twice is simplifying once.
pub proof fn law_no_perl_class_left(a: PatternView)
    ensures
        no_perl(simplified(a)),
        no_perl(a) ==> simplified(a) == a,
        simplified(simplified(a)) == simplified(a),
{
    lemma_cleared(a);
    lemma_cleared(simplified(a));
}

/// Whether the ASCII character `c` is one that the Perl class `p` matches: `\d` the digits,
/// `\s` the whitespace `[\t\n\v\f\r ]`, `\w` the letters, digits and `_`; `\D`, `\S` and
/// `\W` every other character.
pub open spec fn perl_class_holds(p: PerlClass, c: char) -> bool {
    let member = match p.kind {
        PerlKind::Digit => '0' <= c <= '9',
        PerlKind::Space => c == ' ' || c == '\t' || c == '\n' || c == '\x0B' || c == '\x0C'
            || c == '\r',
        PerlKind::Word => ('0' <= c <= '9') || ('a' <= c <= 'z') || ('A' <= c <= 'Z') || c == '_',
    };
    if p.negated {
        !member
    } else {
        member
    }
}

/// Whether the ASCII character `c` is one that the ASCII class `a` matches, by the code
/// ranges of `[:digit:]`, `[:space:]` and `[:word:]`, or of their negations.
pub open spec fn ascii_class_holds(a: AsciiClass, c: char) -> bool {
    let n = c as u32;
    let member = match a.kind {
        PerlKind::Digit => 0x30 <= n <= 0x39,
        PerlKind::Space => (0x09 <= n <= 0x0D) || n == 0x20,
        PerlKind::Word => (0x30 <= n <= 0x39) || (0x41 <= n <= 0x5A) || n == 0x5F || (0x61 <= n
            <= 0x7A),
    };
    member != a.negated
}

/// The ASCII class that replaces a Perl class matches the same ASCII characters, and keeps
/// its place, kind and negation (`\D` becomes `[^[:digit:]]`); so does the class that
/// replaces a Perl class inside a bracketed class, and the bracketed class that replaces
/// one that stands alone, which is itself not negated.
pub proof fn law_perl_class_keeps_its_characters(p: PerlClass, c: char)
    requires
        (c as u32) < 0x80,
    ensures
        ascii_class_holds(ascii_of(p), c) == perl_class_holds(p, c),
        ascii_of(p).negated == p.negated,
        ascii_of(p).kind == p.kind,
        ascii_of(p).span == p.span,
        item_simplified(ItemView::Perl(p)) matches ItemView::Ascii(a) && a.negated == p.negated
            && ascii_class_holds(a, c) == perl_class_holds(p, c),
        simplified(PatternView::Perl(p)) matches PatternView::Bracketed {
            negated: false,
            set: SetView::Item(ItemView::Ascii(a)),
            ..
        } && a.negated == p.negated && ascii_class_holds(a, c) == perl_class_holds(p, c),
{
}

/// The first `k` of `out` are the first `k` of `orig` with their classes simplified.
spec fn items_done(out: Seq<SetItemAst>, orig: Seq<SetItemAst>) -> bool {
    forall|j: int| 0 <= j < out.len() ==> #[trigger] item_view(out[j]) == item_simplified(item_view(orig[j]))
}

/// The first `k` of `out` are the first `k` of `orig` with their classes simplified.
spec fn patterns_done(out: Seq<PatternAst>, orig: Seq<PatternAst>) -> bool {
    forall|j: int| 0 <= j < out.len() ==> #[trigger] pattern_view(out[j]) == simplified(pattern_view(orig[j]))
}

/// The ASCII class that replaces a Perl class.
pub fn replace_perl_class(class: &PerlClass) -> (r: AsciiClass)
    ensures
        r == ascii_of(*class),
{
    AsciiClass { span: class.span, kind: class.kind, negated: class.negated }
}

/// A class set with every Perl class in it replaced by its ASCII class.
pub fn replace_in_class(class: SetAst) -> (r: SetAst)
    ensures
        set_view(r) == set_simplified(set_view(class)),
    decreases class,
{
    match class {
        SetAst::BinaryOp { span, kind, lhs, rhs } => SetAst::BinaryOp {
            span,
            kind,
            lhs: Box::new(replace_in_class(*lhs)),
            rhs: Box::new(replace_in_class(*rhs)),
        },
        SetAst::Item(item) => SetAst::Item(replace_in_class_set_item(item)),
    }
}

/// A class item with every Perl class in it replaced by its ASCII class.
pub fn replace_in_class_set_item(item: SetItemAst) -> (r: SetItemAst)
    ensures
        item_view(r) == item_simplified(item_view(item)),
    decreases item,
{
    match item {
        SetItemAst::Perl(class) => SetItemAst::Ascii(replace_perl_class(&class)),
        SetItemAst::Bracketed { span, negated, set } => SetItemAst::Bracketed {
            span,
            negated,
            set: Box::new(replace_in_class(*set)),
        },
        SetItemAst::Union { span, items } => SetItemAst::Union { span, items: replace_in_items(items) },
        _ => item,
    }
}

/// The items, each with its Perl classes replaced, in order.
fn replace_in_items(items: Vec<SetItemAst>) -> (r: Vec<SetItemAst>)
    ensures
        items_view(r@) == items_simplified(items_view(items@)),
    decreases items,
{
    let ghost orig = items@;
    let n = items.len();
    let mut rest = items;
    let mut out: Vec<SetItemAst> = Vec::new();
    let mut k: usize = 0;
    while k < n
        invariant
            k <= n == orig.len(),
            orig == items@,
            rest@ == orig.subrange(k as int, n as int),
            out@.len() == k,
            items_done(out@, orig),
        decreases n - k,
    {
        let x = rest.remove(0);
        proof {
            assert(x == orig[k as int]);
            assert(decreases_to!(items => items[k as int]));
        }
        out.push(replace_in_class_set_item(x));
        k = k + 1;
    }
    proof {
        lemma_items_view(out@);
        lemma_items_view(orig);
        lemma_items_simplified(items_view(orig));
        assert(items_view(out@) =~= items_simplified(items_view(orig)));
    }
    out
}

/// The tree with every Perl class replaced by its ASCII class; one that stands alone becomes
/// a bracketed class holding just that ASCII class.
pub fn simplify_classes(ast: PatternAst) -> (r: PatternAst)
    ensures
        pattern_view(r) == simplified(pattern_view(ast)),
    decreases ast,
{
    match ast {
        PatternAst::Perl(class) => {
            let replacement = replace_perl_class(&class);
            let set = SetAst::Item(SetItemAst::Ascii(replacement));
            assert(item_view(SetItemAst::Ascii(replacement)) == ItemView::Ascii(replacement));
            assert(set_view(set) == SetView::Item(ItemView::Ascii(ascii_of(class))));
            PatternAst::Bracketed {
                span: class.span,
                negated: false,
                set,
            }
        },
        PatternAst::Bracketed { span, negated, set } => PatternAst::Bracketed {
            span,
            negated,
            set: replace_in_class(set),
        },
        PatternAst::Repetition { span, op, greedy, sub } => PatternAst::Repetition {
            span,
            op,
            greedy,
            sub: Box::new(simplify_classes(*sub)),
        },
        PatternAst::Group { span, kind, sub } => PatternAst::Group {
            span,
            kind,
            sub: Box::new(simplify_classes(*sub)),
        },
        PatternAst::Alternation { span, asts } => PatternAst::Alternation {
            span,
            asts: simplify_each(asts),
        },
        PatternAst::Concat { span, asts } => PatternAst::Concat { span, asts: simplify_each(asts) },
        PatternAst::Other(x) => PatternAst::Other(x),
    }
}

/// The sub-expressions, each with its classes simplified, in order.
fn simplify_each(asts: Vec<PatternAst>) -> (r: Vec<PatternAst>)
    ensures
        patterns_view(r@) == all_simplified(patterns_view(asts@)),
    decreases asts,
{
    let ghost orig = asts@;
    let n = asts.len();
    let mut rest = asts;
    let mut out: Vec<PatternAst> = Vec::new();
    let mut k: usize = 0;
    while k < n
        invariant
            k <= n == orig.len(),
            orig == asts@,
            rest@ == orig.subrange(k as int, n as int),
            out@.len() == k,
            patterns_done(out@, orig),
        decreases n - k,
    {
        let x = rest.remove(0);
        proof {
            assert(x == orig[k as int]);
            assert(decreases_to!(asts => asts[k as int]));
        }
        out.push(simplify_classes(x));
        k = k + 1;
    }
    proof {
        lemma_patterns_view(out@);
        lemma_patterns_view(orig);
        lemma_all_simplified(patterns_view(orig));
        assert(patterns_view(out@) =~= all_simplified(patterns_view(orig)));
    }
    out
}

/// Converts a Perl class of `regex_syntax` into the library's model.
#[verifier::external_body]
fn perl_from_ast(c: &ast::ClassPerl) -> PerlClass {
    let kind = match c.kind {
        ClassPerlKind::Digit => PerlKind::Digit,
        ClassPerlKind::Space => PerlKind::Space,
        ClassPerlKind::Word => PerlKind::Word,
    };
    PerlClass { span: c.span, kind, negated: c.negated }
}

/// Converts a syntax tree of `regex_syntax` into the library's model, node for node.
#[verifier::external_body]
fn pattern_from_ast(a: &Ast) -> PatternAst {
    match a {
        Ast::ClassPerl(c) => PatternAst::Perl(perl_from_ast(c)),
        Ast::ClassBracketed(c) => PatternAst::Bracketed { span: c.span, negated: c.negated, set: set_from_ast(&c.kind) },
        Ast::Repetition(r) => repetition_from_ast(r),
        Ast::Group(g) => PatternAst::Group { span: g.span, kind: g.kind.clone(), sub: Box::new(pattern_from_ast(&g.ast)) },
        Ast::Alternation(x) => PatternAst::Alternation { span: x.span, asts: patterns_from_asts(&x.asts) },
        Ast::Concat(x) => PatternAst::Concat { span: x.span, asts: patterns_from_asts(&x.asts) },
        _ => PatternAst::Other(a.clone()),
    }
}

/// Converts a repetition of `regex_syntax` into the library's model.
#[verifier::external_body]
fn repetition_from_ast(r: &ast::Repetition) -> PatternAst {
    PatternAst::Repetition { span: r.span, op: r.op.clone(), greedy: r.greedy, sub: Box::new(pattern_from_ast(&r.ast)) }
}

/// Converts a list of syntax trees of `regex_syntax` into the library's model, in order.
#[verifier::external_body]
fn patterns_from_asts(v: &Vec<Ast>) -> Vec<PatternAst> {
    v.iter().map(pattern_from_ast).collect()
}

/// Converts the contents of a bracketed class of `regex_syntax` into the library's model.
#[verifier::external_body]
fn set_from_ast(s: &ClassSet) -> SetAst {
    match s {
        ClassSet::Item(i) => SetAst::Item(item_from_ast(i)),
        ClassSet::BinaryOp(b) => SetAst::BinaryOp { span: b.span, kind: b.kind, lhs: Box::new(set_from_ast(&b.lhs)), rhs: Box::new(set_from_ast(&b.rhs)) },
    }
}

/// Converts an item of a bracketed class of `regex_syntax` into the library's model.
#[verifier::external_body]
fn item_from_ast(i: &ClassSetItem) -> SetItemAst {
    match i {
        ClassSetItem::Perl(c) => SetItemAst::Perl(perl_from_ast(c)),
        ClassSetItem::Bracketed(b) => SetItemAst::Bracketed { span: b.span, negated: b.negated, set: Box::new(set_from_ast(&b.kind)) },
        ClassSetItem::Union(u) => SetItemAst::Union { span: u.span, items: u.items.iter().map(item_from_ast).collect() },
        _ => SetItemAst::Other(i.clone()),
    }
}

/// Converts the model of a Perl class back into `regex_syntax`'s.
#[verifier::external_body]
fn perl_to_ast(c: PerlClass) -> ast::ClassPerl {
    let kind = match c.kind {
        PerlKind::Digit => ClassPerlKind::Digit,
        PerlKind::Space => ClassPerlKind::Space,
        PerlKind::Word => ClassPerlKind::Word,
    };
    ast::ClassPerl { span: c.span, kind, negated: c.negated }
}

/// Converts the model of an ASCII class into `regex_syntax`'s.
#[verifier::external_body]
fn ascii_to_ast(c: AsciiClass) -> ast::ClassAscii {
    let kind = match c.kind {
        PerlKind::Digit => ClassAsciiKind::Digit,
        PerlKind::Space => ClassAsciiKind::Space,
        PerlKind::Word => ClassAsciiKind::Word,
    };
    ast::ClassAscii { span: c.span, kind, negated: c.negated }
}

/// Converts the model of a syntax tree back into `regex_syntax`'s, node for node.
#[verifier::external_body]
fn pattern_to_ast(p: PatternAst) -> Ast {
    match p {
        PatternAst::Perl(c) => Ast::class_perl(perl_to_ast(c)),
        PatternAst::Bracketed { span, negated, set } => Ast::class_bracketed(ast::ClassBracketed { span, negated, kind: set_to_ast(set) }),
        PatternAst::Repetition { span, op, greedy, sub } => Ast::repetition(ast::Repetition { span, op, greedy, ast: Box::new(pattern_to_ast(*sub)) }),
        PatternAst::Group { span, kind, sub } => Ast::group(ast::Group { span, kind, ast: Box::new(pattern_to_ast(*sub)) }),
        PatternAst::Alternation { span, asts } => Ast::alternation(ast::Alternation { span, asts: patterns_to_asts(asts) }),
        PatternAst::Concat { span, asts } => Ast::concat(ast::Concat { span, asts: patterns_to_asts(asts) }),
        PatternAst::Other(a) => a,
    }
}

/// Converts a list of syntax trees of the model back into `regex_syntax`'s, in order.
#[verifier::external_body]
fn patterns_to_asts(v: Vec<PatternAst>) -> Vec<Ast> {
    v.into_iter().map(pattern_to_ast).collect()
}

/// Converts the model of the contents of a bracketed class back into `regex_syntax`'s.
#[verifier::external_body]
fn set_to_ast(s: SetAst) -> ClassSet {
    match s {
        SetAst::Item(i) => ClassSet::Item(item_to_ast(i)),
        SetAst::BinaryOp { span, kind, lhs, rhs } => ClassSet::BinaryOp(ast::ClassSetBinaryOp { span, kind, lhs: Box::new(set_to_ast(*lhs)), rhs: Box::new(set_to_ast(*rhs)) }),
    }
}

/// Converts the model of an item of a bracketed class back into `regex_syntax`'s.
#[verifier::external_body]
fn item_to_ast(i: SetItemAst) -> ClassSetItem {
    match i {
        SetItemAst::Perl(c) => ClassSetItem::Perl(perl_to_ast(c)),
        SetItemAst::Ascii(c) => ClassSetItem::Ascii(ascii_to_ast(c)),
        SetItemAst::Bracketed { span, negated, set } => ClassSetItem::Bracketed(Box::new(ast::ClassBracketed { span, negated, kind: set_to_ast(*set) })),
        SetItemAst::Union { span, items } => ClassSetItem::Union(ast::ClassSetUnion { span, items: items.into_iter().map(item_to_ast).collect() }),
        SetItemAst::Other(x) => x,
    }
}

/// The name of the syntax tree that `regex_syntax`'s syntax parser makes of `pattern`, with
/// whitespace ignored or not; `None` where the parser refuses the pattern.
pub uninterp spec fn parsed_ast(pattern: Seq<char>, ignore_whitespace: bool) -> Option<PatternView>;

/// `regex_syntax::ast::parse::ParserBuilder` with `ignore_whitespace`, then `Parser::parse`:
/// the syntax tree of `pattern` in the library's model, or `None` where the parser returns
/// an error. Nothing is claimed of the tree beyond that it is the one the parser produces
/// for these arguments.
#[verifier::external_body]
pub(crate) fn parse_ast(pattern: &str, ignore_whitespace: bool) -> (r: Option<PatternAst>)
    ensures
        match r {
            Some(a) => parsed_ast(pattern@, ignore_whitespace) == Some(pattern_view(a)),
            None => parsed_ast(pattern@, ignore_whitespace) is None,
        },
{
    let mut builder = ParserBuilder::new();
    builder.ignore_whitespace(ignore_whitespace);
    match builder.build().parse(pattern) {
        Ok(a) => Some(pattern_from_ast(&a)),
        Err(_) => None,
    }
}

/// The name of what `regex_syntax`'s translator makes of the syntax tree `ast` of `pattern`
/// under the options of `config`: its expression tree and properties, or `None` where the
/// translator returns an error.
pub uninterp spec fn translated(pattern: Seq<char>, ast: PatternView, config: SyntaxConfig) -> Option<ParsedRegex>;

/// `regex_syntax::hir::translate::TranslatorBuilder` with the options of `config` (all but
/// `ignore_whitespace`, which only the syntax parser reads), then `Translator::translate`.
/// Nothing is claimed of the result beyond that it is the translator's for these arguments.
#[verifier::external_body]
pub(crate) fn translate_ast(pattern: &str, ast: PatternAst, config: SyntaxConfig) -> (r: Option<ParsedRegex>)
    ensures
        r == translated(pattern@, pattern_view(ast), config),
{
    let mut builder = TranslatorBuilder::new();
    builder.case_insensitive(config.case_insensitive).multi_line(config.multi_line)
        .dot_matches_new_line(config.dot_matches_new_line).crlf(config.crlf)
        .swap_greed(config.swap_greed).unicode(config.unicode).utf8(config.utf8);
    builder.build().translate(pattern, &pattern_to_ast(ast)).ok().map(parsed_from_hir)
}

} // verus!
