//! The code written for a `regex!` invocation: a module holding the regular expression's
//! type, its matcher types for bytes and for `char`s, its literal and class types, and its
//! capture type.
use vstd::prelude::*;

use crate::codegen::args::{Flags, known_flag};
use crate::codegen::capture::{captures_text, impl_captures};
use crate::codegen::expr::{expr_classes, expr_convertible, expr_literals, expr_text};
use crate::codegen::items::{
    class_item, impl_class, impl_literal, literal_item, push_string_literal, string_literal,
};
use crate::codegen::metadata::{class_views, literal_views, ClassEntry};
use crate::codegen::parse::{collected, created, lemma_created_agree, TypeExpressions};
use crate::hir::groups::{Group, GroupView, Groups};
use crate::codegen::config::{prepared, ConfigExt};
use crate::hir::node::{HirNode, LookKind, SyntaxConfig};
use crate::hir::spec::node_groups;
use crate::hir::text::{decimal, extend_string, push_all, push_decimal, push_str};
use crate::hir::util::contiguous;

verus! {

broadcast use vstd::seq::group_seq_axioms, vstd::std_specs::hash::group_hash_axioms;

/// The literal types of expression `name`, in order.
pub open spec fn literal_items(name: Seq<char>, lits: Seq<Seq<u8>>) -> Seq<char>
    decreases lits.len(),
{
    if lits.len() == 0 {
        Seq::empty()
    } else {
        literal_items(name, lits.drop_last()) + literal_item(
            name,
            (lits.len() - 1) as nat,
            lits.last(),
        )
    }
}

/// The class types of expression `name` for items `u8` (`byte`) or `char`, in order.
pub open spec fn class_items(name: Seq<char>, byte: bool, classes: Seq<Seq<ClassEntry>>) -> Seq<char>
    decreases classes.len(),
{
    if classes.len() == 0 {
        Seq::empty()
    } else {
        class_items(name, byte, classes.drop_last()) + class_item(
            name,
            byte,
            (classes.len() - 1) as nat,
            classes.last(),
        )
    }
}

/// Writes the literal types of expression `name`.
pub fn impl_literals(name: &String, literals: &Vec<Vec<u8>>) -> (r: Vec<char>)
    ensures
        r@ == literal_items(name@, literal_views(literals@)),
{
    let mut out: Vec<char> = Vec::new();
    let mut i: usize = 0;
    while i < literals.len()
        invariant
            i <= literals.len(),
            out@ == literal_items(name@, literal_views(literals@.subrange(0, i as int))),
        decreases literals.len() - i,
    {
        let item = impl_literal(name, i, &literals[i]);
        push_all(&mut out, &item);
        proof {
            let t = literal_views(literals@.subrange(0, i + 1));
            assert(t.drop_last() =~= literal_views(literals@.subrange(0, i as int)));
            assert(t.last() == literals@[i as int]@);
        }
        i = i + 1;
    }
    assert(literals@.subrange(0, literals.len() as int) =~= literals@);
    out
}

/// Writes the class types of expression `name` for items `u8` (`byte`) or `char`.
pub fn impl_classes(name: &String, byte: bool, classes: &Vec<Vec<ClassEntry>>) -> (r: Vec<char>)
    ensures
        r@ == class_items(name@, byte, class_views(classes@)),
{
    let mut out: Vec<char> = Vec::new();
    let mut i: usize = 0;
    while i < classes.len()
        invariant
            i <= classes.len(),
            out@ == class_items(name@, byte, class_views(classes@.subrange(0, i as int))),
        decreases classes.len() - i,
    {
        let item = impl_class(name, byte, i, &classes[i]);
        push_all(&mut out, &item);
        proof {
            let t = class_views(classes@.subrange(0, i + 1));
            assert(t.drop_last() =~= class_views(classes@.subrange(0, i as int)));
            assert(t.last() == classes@[i as int]@);
        }
        i = i + 1;
    }
    assert(classes@.subrange(0, classes.len() as int) =~= classes@);
    out
}

/// The documentation of a regular expression type.
pub open spec fn regex_doc(pat: Seq<char>, flags: Seq<char>) -> Seq<char> {
    "A macro-generated regular expression matching the pattern: `"@ + pat + "` with flags: "@
        + flags
        + ". See the [`Regex`](::ct_regex::internal::expr::Regex) trait for associated matching and capturing functions."@
}

/// The implementation of `Regex` for items `ty`.
pub open spec fn regex_impl(ty: Seq<char>, name: Seq<char>, len: nat, pattern: Seq<char>, captures_name: Seq<
    char,
>) -> Seq<char> {
    "impl ::ct_regex::internal::expr::Regex<"@ + ty + ", "@ + decimal(len) + "> for "@ + name
        + " { type Pattern = "@ + pattern
        + "; type Capture<'a, S: ::ct_regex::internal::haystack::HaystackSlice<'a>> = "@
        + captures_name + "<'a, S>; } "@
}

/// The implementations of `AnonRegex`, where asked for.
pub open spec fn anon_impls(name: Seq<char>, len: nat, impl_anon: bool) -> Seq<char> {
    if impl_anon {
        "impl ::ct_regex::internal::expr::AnonRegex<u8, "@ + decimal(len) + "> for "@ + name
            + " {} impl ::ct_regex::internal::expr::AnonRegex<char, "@ + decimal(len) + "> for "@
            + name + " {} "@
    } else {
        Seq::empty()
    }
}

/// The opening of the module of the regular expression `name`: its literal types, and the
/// regular expression type with its documentation. The class types that the matchers name
/// are not written here.
pub open spec fn regex_head(name: Seq<char>, doc: Seq<char>, byte: TypeExpressions, scalar: TypeExpressions) -> Seq<
    char,
> {
    "#[doc(hidden)] #[allow(non_snake_case)] mod __regex_"@ + name + " { "@ + literal_items(
        name,
        literal_views(scalar.meta.literals@),
    ) + "#[doc = "@ + string_literal(doc) + "] #[derive(Clone, Copy)] pub struct "@ + name + "; "@
}

/// The implementations of `Regex` (and `AnonRegex`, where asked for) and `Debug` for the
/// regular expression `name` with `len` groups.
pub open spec fn regex_impls(
    name: Seq<char>,
    len: nat,
    byte: TypeExpressions,
    scalar: TypeExpressions,
    impl_anon: bool,
) -> Seq<char> {
    let captures_name = name + "Capture"@;
    regex_impl("u8"@, name, len, byte.matcher@, captures_name) + regex_impl(
        "char"@,
        name,
        len,
        scalar.matcher@,
        captures_name,
    ) + anon_impls(name, len, impl_anon) + "impl ::std::fmt::Debug for "@ + name
        + " { fn fmt(&self, f: &mut ::std::fmt::Formatter<'_>) -> ::std::fmt::Result { write!(f, \"/{:?}/\", <Self as ::ct_regex::internal::expr::Regex<char, "@
        + decimal(len) + ">>::Pattern::default()) } } "@
}

/// The end of the module, and the export of the regular expression and capture types.
pub open spec fn regex_tail(vis: Seq<char>, name: Seq<char>) -> Seq<char> {
    "} #[doc(inline)] #[allow(unused)] "@ + vis + " use __regex_"@ + name + "::{"@ + name + ", "@
        + name + "Capture"@ + "};\n"@
}

/// The code written for the regular expression `name`, made public as `vis` says.
pub open spec fn regex_text(
    vis: Seq<char>,
    name: Seq<char>,
    doc: Seq<char>,
    byte: TypeExpressions,
    scalar: TypeExpressions,
    groups: Seq<Group>,
    impl_anon: bool,
) -> Seq<char> {
    regex_head(name, doc, byte, scalar) + regex_impls(name, groups.len(), byte, scalar, impl_anon)
        + captures_text(name, groups) + regex_tail(vis, name)
}

/// The syntax options for the byte matcher: the flags' options outside Unicode mode.
pub open spec fn byte_config(c: SyntaxConfig) -> ConfigExt {
    ConfigExt { syntax: SyntaxConfig { unicode: false, utf8: false, ..c }, complex_classes: false }
}

/// The syntax options for the `char` matcher: the flags' options in Unicode mode.
pub open spec fn scalar_config(c: SyntaxConfig) -> ConfigExt {
    ConfigExt { syntax: SyntaxConfig { unicode: true, utf8: true, ..c }, complex_classes: false }
}

/// The two conversions agree: the same capture groups, numbered without gaps, and the same
/// literals.
pub open spec fn compatible(byte: TypeExpressions, scalar: TypeExpressions) -> bool {
    let gb = byte.meta.groups.groups_view();
    let gs = scalar.meta.groups.groups_view();
    &&& contiguous(gb)
    &&& contiguous(gs)
    &&& gb.len() == gs.len()
    &&& forall|i: u32| i < gs.len() ==> #[trigger] gb[i] == gs[i]
    &&& literal_views(byte.meta.literals@) == literal_views(scalar.meta.literals@)
}

/// Whether two groups are the same.
fn same_group(a: &Group, b: &Group) -> (r: bool)
    ensures
        r == (a@ == b@),
{
    let names = match (&a.name, &b.name) {
        (Some(x), Some(y)) => {
            let same = *x == *y;
            same
        },
        (None, None) => true,
        _ => false,
    };
    names && a.required == b.required && a.digits.start == b.digits.start && a.digits.end
        == b.digits.end
}

/// Whether two lists of literals are the same.
fn same_literals(a: &Vec<Vec<u8>>, b: &Vec<Vec<u8>>) -> (r: bool)
    ensures
        r == (literal_views(a@) == literal_views(b@)),
{
    if a.len() != b.len() {
        assert(literal_views(a@).len() != literal_views(b@).len());
        return false;
    }
    let mut i: usize = 0;
    while i < a.len()
        invariant
            i <= a.len() == b.len(),
            forall|k: int| 0 <= k < i ==> (#[trigger] a@[k])@ == b@[k]@,
        decreases a.len() - i,
    {
        let x = &a[i];
        let y = &b[i];
        assert(literal_views(a@)[i as int] == x@);
        assert(literal_views(b@)[i as int] == y@);
        if x.len() != y.len() {
            return false;
        }
        let mut j: usize = 0;
        while j < x.len()
            invariant
                j <= x.len() == y.len(),
                i < a.len() == b.len(),
                literal_views(a@)[i as int] == x@,
                literal_views(b@)[i as int] == y@,
                forall|k: int| 0 <= k < j ==> x@[k] == y@[k],
            decreases x.len() - j,
        {
            if x[j] != y[j] {
                assert(x@[j as int] != y@[j as int]);
                return false;
            }
            j = j + 1;
        }
        assert(x@ =~= y@);
        i = i + 1;
    }
    assert(literal_views(a@) =~= literal_views(b@));
    true
}

/// Whether two sets of groups are both numbered without gaps and hold the same groups.
fn compatible_groups(a: &Groups, b: &Groups) -> (r: bool)
    ensures
        r == ({
            let ga = a.groups_view();
            let gb = b.groups_view();
            &&& contiguous(ga)
            &&& contiguous(gb)
            &&& ga.len() == gb.len()
            &&& forall|i: u32| i < gb.len() ==> #[trigger] ga[i] == gb[i]
        }),
{
    let ghost ga = a.groups_view();
    let ghost gb = b.groups_view();
    assert(a.map@.dom() =~= ga.dom());
    assert(b.map@.dom() =~= gb.dom());
    let n = b.map.len();
    if a.map.len() != n || n >= 0xffff_ffffusize {
        return false;
    }
    let mut i: usize = 0;
    while i < n
        invariant
            i <= n,
            n == b.map@.len() == a.map@.len(),
            n < u32::MAX,
            ga == a.groups_view(),
            gb == b.groups_view(),
            a.map@.dom() == ga.dom(),
            b.map@.dom() == gb.dom(),
            forall|k: u32| k < i ==> #[trigger] ga.contains_key(k),
            forall|k: u32| k < i ==> #[trigger] gb.contains_key(k),
            forall|k: u32| k < i ==> #[trigger] ga[k] == gb[k],
        decreases n - i,
    {
        let key = i as u32;
        match (a.map.get(&key), b.map.get(&key)) {
            (Some(x), Some(y)) => {
                assert(ga[key] == x@ && gb[key] == y@);
                if !same_group(x, y) {
                    return false;
                }
            },
            _ => {
                assert(!ga.contains_key(key) || !gb.contains_key(key));
                return false;
            },
        }
        i = i + 1;
    }
    assert(ga.len() == n && gb.len() == n);
    true
}

/// Whether both parses of `pat` with `flags` succeed and can be converted, and agree: any
/// two type expressions created from them record the same capture groups, numbered without
/// a gap, and the same literals.
pub open spec fn regex_agrees(name: Seq<char>, pat: Seq<char>, flags: Flags) -> bool {
    &&& prepared(pat, byte_config(flags.spec_config())) matches Some(pb)
    &&& prepared(pat, scalar_config(flags.spec_config())) matches Some(ps)
    &&& expr_convertible(pb.hir, true)
    &&& expr_convertible(ps.hir, false)
    &&& forall|b: TypeExpressions, s: TypeExpressions|
        #![trigger created(pb, true, name, b), created(ps, false, name, s)]
        created(pb, true, name, b) && created(ps, false, name, s) ==> compatible(b, s)
}

/// Whether `text` is the code of the regular expression type `name` for `pat` with
/// `flags`: both parses succeed, their type expressions agree, and the text is assembled
/// from them and the capture groups in order.
pub open spec fn regex_made(
    vis: Seq<char>,
    name: Seq<char>,
    pat: Seq<char>,
    flags: Flags,
    impl_anon: bool,
    text: Seq<char>,
) -> bool {
    exists|byte: TypeExpressions, scalar: TypeExpressions, groups: Seq<Group>|
        #![trigger regex_text(vis, name, regex_doc(pat, flags.spec_text()), byte, scalar, groups, impl_anon)]
        {
            &&& prepared(pat, byte_config(flags.spec_config())) matches Some(pb)
            &&& prepared(pat, scalar_config(flags.spec_config())) matches Some(ps)
            &&& created(pb, true, name, byte)
            &&& created(ps, false, name, scalar)
            &&& compatible(byte, scalar)
            &&& groups.len() == scalar.meta.groups.groups_view().len()
            &&& forall|i: int| 0 <= i < groups.len() ==> #[trigger] groups[i]@ == scalar.meta.groups.groups_view()[i as u32]
            &&& text == regex_text(vis, name, regex_doc(pat, flags.spec_text()), byte, scalar, groups, impl_anon)
        }
}

/// Writes the code of a regular expression type `name` for the pattern `pat` with `flags`,
/// made public as `vis` says, implementing `AnonRegex` too where `impl_anon` asks for it.
/// The pattern is parsed twice, outside and inside Unicode mode, for the byte and `char`
/// matchers. `None` where either parse fails or cannot be converted, or where the two
/// disagree on the capture groups or literals, or the groups are not numbered without
/// gaps.
pub fn make_regex(vis: &String, name: &String, pat: &String, flags: &Flags, impl_anon: bool) -> (r:
    Option<String>)
    requires
        flags.valid(),
    ensures
        r is Some <==> regex_agrees(name@, pat@, *flags),
        r matches Some(t) ==> regex_made(vis@, name@, pat@, *flags, impl_anon, t@),
{
    let flags_text = flags.to_text();
    let config = flags.create_config();
    let mut byte_cfg = ConfigExt::new(config);
    byte_cfg.unicode(false);
    byte_cfg.utf8(false);
    let mut scalar_cfg = byte_cfg;
    scalar_cfg.unicode(true);
    scalar_cfg.utf8(true);
    let byte = match TypeExpressions::parse_regex::<u8>(name, pat.as_str(), byte_cfg) {
        Some(t) => t,
        None => {
            return None;
        },
    };
    let mut scalar = match TypeExpressions::parse_regex::<char>(name, pat.as_str(), scalar_cfg) {
        Some(t) => t,
        None => {
            return None;
        },
    };
    let ghost pb = prepared(pat@, byte_config(flags.spec_config()))->Some_0;
    let ghost ps = prepared(pat@, scalar_config(flags.spec_config()))->Some_0;
    proof {
        assert forall|b: TypeExpressions, s: TypeExpressions|
            #![trigger created(pb, true, name@, b), created(ps, false, name@, s)]
            created(pb, true, name@, b) && created(ps, false, name@, s) implies compatible(b, s)
                == compatible(byte, scalar) by {
            lemma_created_agree(pb, true, name@, b, byte);
            lemma_created_agree(ps, false, name@, s, scalar);
        }
        lemma_created_agree(ps, false, name@, scalar, scalar);
    }
    if !compatible_groups(&byte.meta.groups, &scalar.meta.groups) {
        assert(!compatible(byte, scalar));
        return None;
    }
    if !same_literals(&byte.meta.literals, &scalar.meta.literals) {
        assert(!compatible(byte, scalar));
        return None;
    }
    assert(compatible(byte, scalar));
    let ghost scalar_before = scalar;
    assert(scalar.meta.groups.map@.dom() =~= scalar.meta.groups.groups_view().dom());
    let groups = scalar.meta.take_groups();
    if groups.len() == 0 || groups.len() >= usize::MAX {
        return None;
    }

    let doc = regex_doc_text(pat, &flags_text);
    proof {
        assert(scalar.matcher == scalar_before.matcher);
        assert(scalar.meta.literals == scalar_before.meta.literals);
        assert(scalar.meta.classes == scalar_before.meta.classes);
    }
    let out = assemble_regex(vis, name, &doc, &byte, &scalar, &groups, impl_anon);
    let mut text = String::new();
    extend_string(&mut text, &out);
    proof {
        assert(text@ =~= out@);
        assert(regex_text(vis@, name@, doc@, byte, scalar, groups@, impl_anon) == regex_text(
            vis@,
            name@,
            doc@,
            byte,
            scalar_before,
            groups@,
            impl_anon,
        ));
        assert(forall|i: int| 0 <= i < groups.len() ==> #[trigger] groups@[i]@ == scalar_before.meta.groups.groups_view()[i as u32]);
        assert(compatible(byte, scalar_before));
    }
    Some(text)
}

/// The documentation of the regular expression type for `pat` with flags `flags`.
fn regex_doc_text(pat: &String, flags: &String) -> (r: Vec<char>)
    ensures
        r@ == regex_doc(pat@, flags@),
{
    let mut doc: Vec<char> = Vec::new();
    push_str(&mut doc, "A macro-generated regular expression matching the pattern: `");
    push_str(&mut doc, pat.as_str());
    push_str(&mut doc, "` with flags: ");
    push_str(&mut doc, flags.as_str());
    push_str(&mut doc, ". See the [`Regex`](::ct_regex::internal::expr::Regex) trait for associated matching and capturing functions.");
    assert(doc@ =~= regex_doc(pat@, flags@));
    doc
}

/// The opening of the module: its literal and class types, and the regular expression type.
fn module_head(name: &String, doc: &Vec<char>, byte: &TypeExpressions, scalar: &TypeExpressions) -> (r: Vec<char>)
    ensures
        r@ == regex_head(name@, doc@, *byte, *scalar),
{
    let literals = impl_literals(name, &scalar.meta.literals);
    let mut out: Vec<char> = Vec::new();
    push_str(&mut out, "#[doc(hidden)] #[allow(non_snake_case)] mod __regex_");
    push_str(&mut out, name.as_str());
    push_str(&mut out, " { ");
    push_all(&mut out, &literals);
    push_str(&mut out, "#[doc = ");
    push_string_literal(&mut out, doc);
    push_str(&mut out, "] #[derive(Clone, Copy)] pub struct ");
    push_str(&mut out, name.as_str());
    push_str(&mut out, "; ");
    assert(out@ =~= regex_head(name@, doc@, *byte, *scalar));
    out
}

/// Writes the end of the module of the regular expression type `name`, which exports it
/// and its capture type as `vis` says.
fn regex_tail_text(vis: &String, name: &String, captures_name: &Vec<char>) -> (r: Vec<char>)
    requires
        captures_name@ == name@ + "Capture"@,
    ensures
        r@ == regex_tail(vis@, name@),
{
    let mut tail: Vec<char> = Vec::new();
    push_str(&mut tail, "} #[doc(inline)] #[allow(unused)] ");
    push_str(&mut tail, vis.as_str());
    push_str(&mut tail, " use __regex_");
    push_str(&mut tail, name.as_str());
    push_str(&mut tail, "::{");
    push_str(&mut tail, name.as_str());
    push_str(&mut tail, ", ");
    push_all(&mut tail, captures_name);
    push_str(&mut tail, "};\n");
    assert(tail@ =~= regex_tail(vis@, name@));
    tail
}

/// Writes the code of the regular expression type `name` from its parts.
fn assemble_regex(
    vis: &String,
    name: &String,
    doc: &Vec<char>,
    byte: &TypeExpressions,
    scalar: &TypeExpressions,
    groups: &Vec<Group>,
    impl_anon: bool,
) -> (r: Vec<char>)
    requires
        groups.len() > 0,
        groups.len() < usize::MAX,
    ensures
        r@ == regex_text(vis@, name@, doc@, *byte, *scalar, groups@, impl_anon),
{
    let (captures_name, len, captures) = impl_captures(name, groups);
    let head = module_head(name, doc, byte, scalar);
    let impls = regex_impls_text(name, len, byte, scalar, &captures_name, impl_anon);
    let tail = regex_tail_text(vis, name, &captures_name);
    let mut out: Vec<char> = Vec::new();
    push_all(&mut out, &head);
    push_all(&mut out, &impls);
    push_all(&mut out, &captures);
    push_all(&mut out, &tail);
    assert(out@ =~= regex_text(vis@, name@, doc@, *byte, *scalar, groups@, impl_anon));
    out
}

/// Writes the implementations of `Regex`, `AnonRegex` (where asked for) and `Debug`.
fn regex_impls_text(
    name: &String,
    len: usize,
    byte: &TypeExpressions,
    scalar: &TypeExpressions,
    captures_name: &Vec<char>,
    impl_anon: bool,
) -> (r: Vec<char>)
    requires
        captures_name@ == name@ + "Capture"@,
    ensures
        r@ == regex_impls(name@, len as nat, *byte, *scalar, impl_anon),
{
    let mut out: Vec<char> = Vec::new();
    push_regex_impl(&mut out, "u8", name, len, &byte.matcher, captures_name);
    push_regex_impl(&mut out, "char", name, len, &scalar.matcher, captures_name);
    let ghost before_anon = out@;
    if impl_anon {
        push_str(&mut out, "impl ::ct_regex::internal::expr::AnonRegex<u8, ");
        push_decimal(&mut out, len as u64);
        push_str(&mut out, "> for ");
        push_str(&mut out, name.as_str());
        push_str(&mut out, " {} impl ::ct_regex::internal::expr::AnonRegex<char, ");
        push_decimal(&mut out, len as u64);
        push_str(&mut out, "> for ");
        push_str(&mut out, name.as_str());
        push_str(&mut out, " {} ");
    }
    assert(out@ =~= before_anon + anon_impls(name@, len as nat, impl_anon));
    let ghost before_debug = out@;
    push_str(&mut out, "impl ::std::fmt::Debug for ");
    push_str(&mut out, name.as_str());
    push_str(&mut out, " { fn fmt(&self, f: &mut ::std::fmt::Formatter<'_>) -> ::std::fmt::Result { write!(f, \"/{:?}/\", <Self as ::ct_regex::internal::expr::Regex<char, ");
    push_decimal(&mut out, len as u64);
    push_str(&mut out, ">>::Pattern::default()) } } ");
    assert(out@ =~= regex_impls(name@, len as nat, *byte, *scalar, impl_anon));
    out
}

/// Appends the implementation of `Regex` for items `ty`.
fn push_regex_impl(out: &mut Vec<char>, ty: &str, name: &String, len: usize, pattern: &String, captures_name: &Vec<char>)
    ensures
        final(out)@ == old(out)@ + regex_impl(ty@, name@, len as nat, pattern@, captures_name@),
{
    let ghost start = out@;
    push_str(out, "impl ::ct_regex::internal::expr::Regex<");
    push_str(out, ty);
    push_str(out, ", ");
    push_decimal(out, len as u64);
    push_str(out, "> for ");
    push_str(out, name.as_str());
    push_str(out, " { type Pattern = ");
    push_str(out, pattern.as_str());
    push_str(out, "; type Capture<'a, S: ::ct_regex::internal::haystack::HaystackSlice<'a>> = ");
    push_all(out, captures_name);
    push_str(out, "<'a, S>; } ");
    assert(out@ =~= start + regex_impl(ty@, name@, len as nat, pattern@, captures_name@));
}

/// Writes the code of an anonymous regular expression for `pat` with `flags`: a block that
/// defines the type `__AnonRegex`, implementing `AnonRegex` too, and evaluates to it.
pub fn make_anon_regex(pat: &String, flags: &Flags) -> (r: Option<String>)
    requires
        flags.valid(),
    ensures
        r matches Some(t) ==> exists|body: Seq<char>|
            #[trigger] regex_made(""@, "__AnonRegex"@, pat@, *flags, true, body) && t@ == "{ "@ + body
                + " __AnonRegex }"@,
        r is Some <==> regex_agrees("__AnonRegex"@, pat@, *flags),
{
    let vis = "".to_owned();
    let name = "__AnonRegex".to_owned();
    match make_regex(&vis, &name, pat, flags, true) {
        Some(body) => {
            let mut out: Vec<char> = Vec::new();
            push_str(&mut out, "{ ");
            push_str(&mut out, body.as_str());
            push_str(&mut out, " __AnonRegex }");
            let mut text = String::new();
            extend_string(&mut text, &out);
            assert(text@ =~= "{ "@ + body@ + " __AnonRegex }"@);
            Some(text)
        },
        None => None,
    }
}

} // verus!
