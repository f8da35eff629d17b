//! The capture type written for a regular expression: one field per group, getters for
//! each group by number and by name, and its construction from the ranges of a match.
use vstd::prelude::*;

use crate::codegen::items::{push_string_literal, string_literal};
use crate::codegen::width::{numeric_width, numeric_width_exec};
use crate::hir::groups::Group;
use crate::hir::text::{decimal, push_all, push_decimal, push_str};

verus! {

broadcast use vstd::seq::group_seq_axioms;

/// The name of the integer type `u{width}`.
pub open spec fn integer_name(width: nat) -> Seq<char> {
    "u"@ + decimal(width)
}

/// The getter that parses group `cap_name` into an integer, if its digit range calls for
/// one: its result is optional unless the group is required, and where the group may hold
/// no digits (its range starts at zero) an empty capture gives `None`.
///
/// The integer type's width is [`numeric_width`], whose `2 ^ ceil(log2(bits))` is a bitwise
/// exclusive or, not a power: it always comes out as 8, so groups of three or more digits
/// get a `u8` getter, whose generated `unwrap` panics on values above 255.
pub open spec fn numeric_getter(g: Group, cap_name: Seq<char>) -> Seq<char> {
    match numeric_width(g.digits.end as nat) {
        None => Seq::empty(),
        Some(w) => {
            let ty = integer_name(w);
            let head = "pub fn "@ + cap_name + "_"@ + ty + "(&self) -> "@;
            let parse = "<"@ + ty + " as ::std::str::FromStr>::from_str("@;
            if g.digits.start != 0 {
                if !g.required {
                    head + "::std::option::Option<"@ + ty + "> { "@ + parse + "self."@ + cap_name
                        + "()?).unwrap() } "@
                } else {
                    head + ty + " { "@ + parse + "self."@ + cap_name + "()).unwrap() } "@
                }
            } else {
                if !g.required {
                    head + "::std::option::Option<::std::option::Option<"@ + ty
                        + ">> { let Some(cap) = self."@ + cap_name
                        + "() else { return Some(None); }; if cap.is_empty() { return None; } "@
                        + parse + "cap).unwrap() } "@
                } else {
                    head + "::std::option::Option<"@ + ty + "> { let cap = self."@ + cap_name
                        + "(); if cap.is_empty() { return None; } "@ + parse + "cap).unwrap() } "@
                }
            }
        },
    }
}

/// The getters of group number `index` under the name `cap_name`: the capture as a slice
/// of the haystack, its range, and, where the group holds digits, its value.
pub open spec fn capture_getters(index: nat, g: Group, cap_name: Seq<char>) -> Seq<char> {
    let field = decimal(index + 1);
    let numeric = if g.digits.end == 0 {
        Seq::empty()
    } else {
        numeric_getter(g, cap_name)
    };
    if g.required {
        "pub fn "@ + cap_name + "(&self) -> S { self.0.slice_with(self."@ + field
            + ".clone()) } pub fn "@ + cap_name + "_range(&self) -> ::std::ops::Range<usize> { self."@
            + field + ".clone() } "@ + numeric
    } else {
        "pub fn "@ + cap_name + "(&self) -> ::std::option::Option<S> { self."@ + field
            + ".clone().map(|r| self.0.slice_with(r)) } pub fn "@ + cap_name
            + "_range(&self) -> ::std::option::Option<::std::ops::Range<usize>> { self."@ + field
            + ".clone() } "@ + numeric
    }
}

/// The getters of each group by number: `cap_0`, `cap_1`, ...
pub open spec fn numbered_getters(gs: Seq<Group>) -> Seq<char>
    decreases gs.len(),
{
    if gs.len() == 0 {
        Seq::empty()
    } else {
        let i = (gs.len() - 1) as nat;
        numbered_getters(gs.drop_last()) + capture_getters(i, gs.last(), "cap_"@ + decimal(i))
    }
}

/// The getters of each named group by its name.
pub open spec fn named_getters(gs: Seq<Group>) -> Seq<char>
    decreases gs.len(),
{
    if gs.len() == 0 {
        Seq::empty()
    } else {
        let i = (gs.len() - 1) as nat;
        named_getters(gs.drop_last()) + match gs.last().name {
            Some(n) => capture_getters(i, gs.last(), n@),
            None => Seq::empty(),
        }
    }
}

/// The type of the field of a group: a range, optional unless the group is required.
pub open spec fn field_type(g: Group) -> Seq<char> {
    if g.required {
        "::std::ops::Range<usize>"@
    } else {
        "::std::option::Option<::std::ops::Range<usize>>"@
    }
}

/// The field types of the groups, each followed by a comma.
pub open spec fn field_types(gs: Seq<Group>) -> Seq<char>
    decreases gs.len(),
{
    if gs.len() == 0 {
        Seq::empty()
    } else {
        field_types(gs.drop_last()) + field_type(gs.last()) + ", "@
    }
}

/// The names `c0, c1, ...` of the ranges of `n` groups, each followed by a comma.
pub open spec fn range_names(n: nat) -> Seq<char>
    decreases n,
{
    if n == 0 {
        Seq::empty()
    } else {
        range_names((n - 1) as nat) + "c"@ + decimal((n - 1) as nat) + ", "@
    }
}

/// The field values built from the ranges: a required group's range must be present.
pub open spec fn field_values(gs: Seq<Group>) -> Seq<char>
    decreases gs.len(),
{
    if gs.len() == 0 {
        Seq::empty()
    } else {
        let i = (gs.len() - 1) as nat;
        field_values(gs.drop_last()) + "c"@ + decimal(i) + (if gs.last().required {
            "?"@
        } else {
            ""@
        }) + ", "@
    }
}

/// The documentation of the capture type `name` of `regex_name`, which holds `n` groups.
pub open spec fn capture_doc(n: nat, regex_name: Seq<char>, name: Seq<char>) -> Seq<char> {
    "A macro-generated type that holds "@ + decimal(n)
        + " captures for the associated regex, [`"@ + regex_name
        + "`]. If present, named groups can be retrieved through their associated method.\n\nCapture types include methods to retrieve individual captures as a slice of the original haystack, or as the underlying [`Range<usize>`](::std::range::Range), which can be used to manually slice the haystack (without risk of panicking in the case of `&str`).\n\nAs is common with regular expressions, group `0` refers to the whole match (and is therefore aliased as [`"@
        + name + "::whole_match`])."@
}

/// The capture type of `regex_name` with the groups `gs`, and its implementations.
pub open spec fn captures_text(regex_name: Seq<char>, gs: Seq<Group>) -> Seq<char> {
    let name = regex_name + "Capture"@;
    let n = decimal(gs.len());
    let bound = "<'a, S: ::ct_regex::internal::haystack::HaystackSlice<'a>>"@;
    "#[doc = "@ + string_literal(capture_doc(gs.len(), regex_name, name))
        + "] #[derive(Debug, Clone)] pub struct "@ + name + bound + "(S, "@ + field_types(gs)
        + "::std::marker::PhantomData<&'a ()>); impl"@ + bound + " "@ + name + "<'a, S> { "@
        + numbered_getters(gs) + named_getters(gs) + "} impl"@ + bound
        + " ::ct_regex::internal::expr::CaptureFromRanges<'a, S, "@ + n + "> for "@ + name
        + "<'a, S> { fn from_ranges(ranges: [::std::option::Option<::std::ops::Range<usize>>; "@ + n
        + "], hay: S) -> ::std::option::Option<Self> { let ["@ + range_names(gs.len())
        + "] = ranges; ::std::option::Option::Some(Self(hay, "@ + field_values(gs)
        + "::std::marker::PhantomData)) } fn whole_match_range(&self) -> ::std::ops::Range<usize> { self.1.clone() } }\n"@
}

/// Writes the getter that parses group `cap_name` into an integer, if any. Its width is
/// that of [`numeric_getter`]: `u8` for every group short enough to have a getter.
pub fn impl_numeric_getters(g: &Group, cap_name: &Vec<char>) -> (r: Vec<char>)
    ensures
        r@ == numeric_getter(*g, cap_name@),
{
    let mut out: Vec<char> = Vec::new();
    match numeric_width_exec(g.digits.end) {
        None => {
            assert(out@ =~= numeric_getter(*g, cap_name@));
            out
        },
        Some(w) => {
            let mut int_name: Vec<char> = Vec::new();
            push_str(&mut int_name, "u");
            push_decimal(&mut int_name, w as u64);
            assert(int_name@ =~= integer_name(w as nat));
            push_str(&mut out, "pub fn ");
            push_all(&mut out, cap_name);
            push_str(&mut out, "_");
            push_all(&mut out, &int_name);
            push_str(&mut out, "(&self) -> ");
            if g.digits.start != 0 {
                if !g.required {
                    push_str(&mut out, "::std::option::Option<");
                    push_all(&mut out, &int_name);
                    push_str(&mut out, "> { ");
                    push_str(&mut out, "<");
                    push_all(&mut out, &int_name);
                    push_str(&mut out, " as ::std::str::FromStr>::from_str(");
                    push_str(&mut out, "self.");
                    push_all(&mut out, cap_name);
                    push_str(&mut out, "()?).unwrap() } ");
                } else {
                    push_all(&mut out, &int_name);
                    push_str(&mut out, " { ");
                    push_str(&mut out, "<");
                    push_all(&mut out, &int_name);
                    push_str(&mut out, " as ::std::str::FromStr>::from_str(");
                    push_str(&mut out, "self.");
                    push_all(&mut out, cap_name);
                    push_str(&mut out, "()).unwrap() } ");
                }
            } else {
                if !g.required {
                    push_str(&mut out, "::std::option::Option<::std::option::Option<");
                    push_all(&mut out, &int_name);
                    push_str(&mut out, ">> { let Some(cap) = self.");
                    push_all(&mut out, cap_name);
                    push_str(&mut out, "() else { return Some(None); }; if cap.is_empty() { return None; } ");
                    push_str(&mut out, "<");
                    push_all(&mut out, &int_name);
                    push_str(&mut out, " as ::std::str::FromStr>::from_str(");
                    push_str(&mut out, "cap).unwrap() } ");
                } else {
                    push_str(&mut out, "::std::option::Option<");
                    push_all(&mut out, &int_name);
                    push_str(&mut out, "> { let cap = self.");
                    push_all(&mut out, cap_name);
                    push_str(&mut out, "(); if cap.is_empty() { return None; } ");
                    push_str(&mut out, "<");
                    push_all(&mut out, &int_name);
                    push_str(&mut out, " as ::std::str::FromStr>::from_str(");
                    push_str(&mut out, "cap).unwrap() } ");
                }
            }
            assert(out@ =~= numeric_getter(*g, cap_name@));
            out
        },
    }
}

/// Writes the getters of group number `index` under the name `cap_name`.
pub fn impl_capture_getters(index: usize, g: &Group, cap_name: &Vec<char>) -> (r: Vec<char>)
    requires
        index < usize::MAX,
    ensures
        r@ == capture_getters(index as nat, *g, cap_name@),
{
    let field = index + 1;
    let numeric = if g.digits.end == 0 {
        Vec::new()
    } else {
        impl_numeric_getters(g, cap_name)
    };
    let mut out: Vec<char> = Vec::new();
    push_str(&mut out, "pub fn ");
    push_all(&mut out, cap_name);
    if g.required {
        push_str(&mut out, "(&self) -> S { self.0.slice_with(self.");
        push_decimal(&mut out, field as u64);
        push_str(&mut out, ".clone()) } pub fn ");
        push_all(&mut out, cap_name);
        push_str(&mut out, "_range(&self) -> ::std::ops::Range<usize> { self.");
        push_decimal(&mut out, field as u64);
        push_str(&mut out, ".clone() } ");
    } else {
        push_str(&mut out, "(&self) -> ::std::option::Option<S> { self.");
        push_decimal(&mut out, field as u64);
        push_str(&mut out, ".clone().map(|r| self.0.slice_with(r)) } pub fn ");
        push_all(&mut out, cap_name);
        push_str(&mut out, "_range(&self) -> ::std::option::Option<::std::ops::Range<usize>> { self.");
        push_decimal(&mut out, field as u64);
        push_str(&mut out, ".clone() } ");
    }
    push_all(&mut out, &numeric);
    assert(numeric@ =~= (if g.digits.end == 0 {
        Seq::empty()
    } else {
        numeric_getter(*g, cap_name@)
    }));
    assert(out@ =~= capture_getters(index as nat, *g, cap_name@));
    out
}

/// Writes the capture type of the regular expression `regex_name` with the groups `groups`
/// (group `0` being the whole match), and returns its name, its number of groups and its
/// text.
pub fn impl_captures(regex_name: &String, groups: &Vec<Group>) -> (r: (Vec<char>, usize, Vec<char>))
    requires
        groups.len() > 0,
        groups.len() < usize::MAX,
    ensures
        r.0@ == regex_name@ + "Capture"@,
        r.1 == groups.len(),
        r.2@ == captures_text(regex_name@, groups@),
{
    let n = groups.len();
    let mut name: Vec<char> = Vec::new();
    push_str(&mut name, regex_name.as_str());
    push_str(&mut name, "Capture");
    let mut doc: Vec<char> = Vec::new();
    push_str(&mut doc, "A macro-generated type that holds ");
    push_decimal(&mut doc, n as u64);
    push_str(&mut doc, " captures for the associated regex, [`");
    push_str(&mut doc, regex_name.as_str());
    push_str(&mut doc, "`]. If present, named groups can be retrieved through their associated method.\n\nCapture types include methods to retrieve individual captures as a slice of the original haystack, or as the underlying [`Range<usize>`](::std::range::Range), which can be used to manually slice the haystack (without risk of panicking in the case of `&str`).\n\nAs is common with regular expressions, group `0` refers to the whole match (and is therefore aliased as [`");
    push_all(&mut doc, &name);
    push_str(&mut doc, "::whole_match`]).");
    assert(doc@ =~= capture_doc(n as nat, regex_name@, name@));

    let mut fields: Vec<char> = Vec::new();
    let mut values: Vec<char> = Vec::new();
    let mut names: Vec<char> = Vec::new();
    let mut numbered: Vec<char> = Vec::new();
    let mut named: Vec<char> = Vec::new();
    let mut i: usize = 0;
    while i < n
        invariant
            i <= n,
            n == groups.len(),
            n < usize::MAX,
            fields@ == field_types(groups@.subrange(0, i as int)),
            values@ == field_values(groups@.subrange(0, i as int)),
            names@ == range_names(i as nat),
            numbered@ == numbered_getters(groups@.subrange(0, i as int)),
            named@ == named_getters(groups@.subrange(0, i as int)),
        decreases n - i,
    {
        let g = &groups[i];
        let ghost s = groups@.subrange(0, i + 1);
        proof {
            assert(s.drop_last() =~= groups@.subrange(0, i as int));
            assert(s.last() == groups@[i as int]);
        }
        if g.required {
            push_str(&mut fields, "::std::ops::Range<usize>");
        } else {
            push_str(&mut fields, "::std::option::Option<::std::ops::Range<usize>>");
        }
        push_str(&mut fields, ", ");
        push_str(&mut values, "c");
        push_decimal(&mut values, i as u64);
        if g.required {
            push_str(&mut values, "?");
        } else {
            push_str(&mut values, "");
        }
        push_str(&mut values, ", ");
        push_str(&mut names, "c");
        push_decimal(&mut names, i as u64);
        push_str(&mut names, ", ");
        let mut cap_name: Vec<char> = Vec::new();
        push_str(&mut cap_name, "cap_");
        push_decimal(&mut cap_name, i as u64);
        let getters = impl_capture_getters(i, g, &cap_name);
        push_all(&mut numbered, &getters);
        match &g.name {
            Some(text) => {
                let mut own: Vec<char> = Vec::new();
                push_str(&mut own, text.as_str());
                let named_getters_text = impl_capture_getters(i, g, &own);
                push_all(&mut named, &named_getters_text);
            },
            None => {},
        }
        proof {
            assert(fields@ =~= field_types(s));
            assert(values@ =~= field_values(s));
            assert(names@ =~= range_names((i + 1) as nat));
            assert(numbered@ =~= numbered_getters(s));
            assert(named@ =~= named_getters(s));
        }
        i = i + 1;
    }
    assert(groups@.subrange(0, n as int) =~= groups@);
    let bound = "<'a, S: ::ct_regex::internal::haystack::HaystackSlice<'a>>";
    let mut out: Vec<char> = Vec::new();
    push_str(&mut out, "#[doc = ");
    push_string_literal(&mut out, &doc);
    push_str(&mut out, "] #[derive(Debug, Clone)] pub struct ");
    push_all(&mut out, &name);
    push_str(&mut out, bound);
    push_str(&mut out, "(S, ");
    push_all(&mut out, &fields);
    push_str(&mut out, "::std::marker::PhantomData<&'a ()>); impl");
    push_str(&mut out, bound);
    push_str(&mut out, " ");
    push_all(&mut out, &name);
    push_str(&mut out, "<'a, S> { ");
    push_all(&mut out, &numbered);
    push_all(&mut out, &named);
    push_str(&mut out, "} impl");
    push_str(&mut out, bound);
    push_str(&mut out, " ::ct_regex::internal::expr::CaptureFromRanges<'a, S, ");
    push_decimal(&mut out, n as u64);
    push_str(&mut out, "> for ");
    push_all(&mut out, &name);
    push_str(&mut out, "<'a, S> { fn from_ranges(ranges: [::std::option::Option<::std::ops::Range<usize>>; ");
    push_decimal(&mut out, n as u64);
    push_str(&mut out, "], hay: S) -> ::std::option::Option<Self> { let [");
    push_all(&mut out, &names);
    push_str(&mut out, "] = ranges; ::std::option::Option::Some(Self(hay, ");
    push_all(&mut out, &values);
    push_str(&mut out, "::std::marker::PhantomData)) } fn whole_match_range(&self) -> ::std::ops::Range<usize> { self.1.clone() } }\n");
    assert(out@ =~= captures_text(regex_name@, groups@));
    (name, n, out)
}


/// The two getters of a group under the name `name` that read the field `field` of the
/// capture type: the capture as a slice of the haystack, then its range.
pub open spec fn field_getters(name: Seq<char>, required: bool, field: nat) -> Seq<char> {
    if required {
        "pub fn "@ + name + "(&self) -> S { self.0.slice_with(self."@ + decimal(field)
            + ".clone()) } "@ + "pub fn "@ + name
            + "_range(&self) -> ::std::ops::Range<usize> { self."@ + decimal(field)
            + ".clone() } "@
    } else {
        "pub fn "@ + name + "(&self) -> ::std::option::Option<S> { self."@ + decimal(field)
            + ".clone().map(|r| self.0.slice_with(r)) } "@ + "pub fn "@ + name
            + "_range(&self) -> ::std::option::Option<::std::ops::Range<usize>> { self."@
            + decimal(field) + ".clone() } "@
    }
}

/// Whether `needle` stands somewhere in `hay`.
pub open spec fn holds_text(hay: Seq<char>, needle: Seq<char>) -> bool {
    exists|pre: Seq<char>, post: Seq<char>| hay == pre + needle + post
}

proof fn lemma_capture_getters_start(index: nat, g: Group, name: Seq<char>) -> (post: Seq<char>)
    ensures
        capture_getters(index, g, name) == field_getters(name, g.required, index + 1) + post,
{
    reveal_strlit(".clone()) } pub fn ");
    reveal_strlit(".clone()) } ");
    reveal_strlit("pub fn ");
    reveal_strlit(".clone().map(|r| self.0.slice_with(r)) } pub fn ");
    reveal_strlit(".clone().map(|r| self.0.slice_with(r)) } ");
    let field = decimal(index + 1);
    let numeric = if g.digits.end == 0 {
        Seq::<char>::empty()
    } else {
        numeric_getter(g, name)
    };
    if g.required {
        assert(".clone()) } pub fn "@ =~= ".clone()) } "@ + "pub fn "@);
        assert(capture_getters(index, g, name) =~= field_getters(name, g.required, index + 1)
            + numeric);
        numeric
    } else {
        assert(".clone().map(|r| self.0.slice_with(r)) } pub fn "@
            =~= ".clone().map(|r| self.0.slice_with(r)) } "@ + "pub fn "@);
        assert(capture_getters(index, g, name) =~= field_getters(name, g.required, index + 1)
            + numeric);
        numeric
    }
}

proof fn lemma_numbered_getters_hold(gs: Seq<Group>, i: int)
    requires
        0 <= i < gs.len(),
    ensures
        holds_text(
            numbered_getters(gs),
            field_getters("cap_"@ + decimal(i as nat), gs[i].required, (i + 1) as nat),
        ),
    decreases gs.len(),
{
    let last = (gs.len() - 1) as nat;
    let d = gs.drop_last();
    let needle = field_getters("cap_"@ + decimal(i as nat), gs[i].required, (i + 1) as nat);
    let tail = capture_getters(last, gs.last(), "cap_"@ + decimal(last));
    assert(numbered_getters(gs) == numbered_getters(d) + tail);
    if i < last {
        lemma_numbered_getters_hold(d, i);
        assert(d[i] == gs[i]);
        let (pre, post) = choose|pre: Seq<char>, post: Seq<char>|
            numbered_getters(d) == pre + needle + post;
        assert(numbered_getters(gs) =~= pre + needle + (post + tail));
    } else {
        let post = lemma_capture_getters_start(last, gs.last(), "cap_"@ + decimal(last));
        assert(numbered_getters(gs) =~= numbered_getters(d) + needle + post);
    }
}

proof fn lemma_named_getters_hold(gs: Seq<Group>, i: int)
    requires
        0 <= i < gs.len(),
        gs[i].name is Some,
    ensures
        holds_text(
            named_getters(gs),
            field_getters(gs[i].name->0@, gs[i].required, (i + 1) as nat),
        ),
    decreases gs.len(),
{
    let last = (gs.len() - 1) as nat;
    let d = gs.drop_last();
    let needle = field_getters(gs[i].name->0@, gs[i].required, (i + 1) as nat);
    let tail = match gs.last().name {
        Some(n) => capture_getters(last, gs.last(), n@),
        None => Seq::<char>::empty(),
    };
    assert(named_getters(gs) == named_getters(d) + tail);
    if i < last {
        lemma_named_getters_hold(d, i);
        assert(d[i] == gs[i]);
        let (pre, post) = choose|pre: Seq<char>, post: Seq<char>|
            named_getters(d) == pre + needle + post;
        assert(named_getters(gs) =~= pre + needle + (post + tail));
    } else {
        let post = lemma_capture_getters_start(last, gs.last(), gs[i].name->0@);
        assert(named_getters(gs) =~= named_getters(d) + needle + post);
    }
}

/// Every getter of group number `i` reads the field `i + 1` of the capture type, the
/// field that `from_ranges` fills with the range `c{i}` (field `0` is the haystack): the
/// getters `cap_{i}` and `cap_{i}_range`, and, for a named group, the getters under its
/// name, stand in the written capture type with that field.
pub proof fn law_getters_read_their_own_field(regex_name: Seq<char>, gs: Seq<Group>, i: int)
    requires
        0 <= i < gs.len(),
    ensures
        holds_text(
            captures_text(regex_name, gs),
            field_getters("cap_"@ + decimal(i as nat), gs[i].required, (i + 1) as nat),
        ),
        gs[i].name is Some ==> holds_text(
            captures_text(regex_name, gs),
            field_getters(gs[i].name->0@, gs[i].required, (i + 1) as nat),
        ),
{
    assert forall|x: Seq<char>, y: Seq<char>, needle: Seq<char>|
        holds_text(x, needle) implies #[trigger] holds_text(x + y, needle) by {
        let (pre, post) = choose|pre: Seq<char>, post: Seq<char>| x == pre + needle + post;
        assert(x + y =~= pre + needle + (post + y));
    }
    assert forall|x: Seq<char>, y: Seq<char>, needle: Seq<char>|
        holds_text(x, needle) implies #[trigger] holds_text(y + x, needle) by {
        let (pre, post) = choose|pre: Seq<char>, post: Seq<char>| x == pre + needle + post;
        assert(y + x =~= (y + pre) + needle + post);
    }
    lemma_numbered_getters_hold(gs, i);
    if gs[i].name is Some {
        lemma_named_getters_hold(gs, i);
    }
}

} // verus!
