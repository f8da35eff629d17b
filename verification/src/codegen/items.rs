//! The types written for the literals and classes of an expression, and escaped string
//! literals.
use vstd::prelude::*;

use crate::codegen::metadata::{class_id, literal_id, ClassEntry};
use crate::hir::spec::{item_type, quoted_scalar};
use crate::hir::text::{decimal, push_all, push_decimal, push_hexadecimal, push_str};
use crate::hir::write_matcher::item_type_text;

verus! {

broadcast use vstd::seq::group_seq_axioms;

/// The text of `c` inside a Rust string literal: backslash, quote and line feed escaped.
pub open spec fn escaped_char(c: char) -> Seq<char> {
    if c == '\\' {
        "\\\\"@
    } else if c == '"' {
        "\\\""@
    } else if c == '\n' {
        "\\n"@
    } else {
        seq![c]
    }
}

/// The text of `s` inside a Rust string literal.
pub open spec fn escaped(s: Seq<char>) -> Seq<char>
    decreases s.len(),
{
    if s.len() == 0 {
        Seq::empty()
    } else {
        escaped(s.drop_last()) + escaped_char(s.last())
    }
}

/// A Rust string literal holding `s`.
pub open spec fn string_literal(s: Seq<char>) -> Seq<char> {
    "\""@ + escaped(s) + "\""@
}

/// Appends a Rust string literal holding `s`.
pub fn push_string_literal(out: &mut Vec<char>, s: &Vec<char>)
    ensures
        final(out)@ == old(out)@ + string_literal(s@),
{
    let ghost start = out@;
    push_str(out, "\"");
    let mut i: usize = 0;
    while i < s.len()
        invariant
            i <= s.len(),
            out@ == start + "\""@ + escaped(s@.subrange(0, i as int)),
        decreases s.len() - i,
    {
        let c = s[i];
        if c == '\\' {
            push_str(out, "\\\\");
        } else if c == '"' {
            push_str(out, "\\\"");
        } else if c == '\n' {
            push_str(out, "\\n");
        } else {
            out.push(c);
        }
        proof {
            let t = s@.subrange(0, i + 1);
            assert(t.drop_last() =~= s@.subrange(0, i as int));
            assert(t.last() == c);
        }
        i = i + 1;
    }
    assert(s@.subrange(0, s.len() as int) =~= s@);
    push_str(out, "\"");
}

/// The bytes of a literal as a comma-separated list of numbers.
pub open spec fn byte_list(bytes: Seq<u8>) -> Seq<char>
    decreases bytes.len(),
{
    if bytes.len() == 0 {
        Seq::empty()
    } else if bytes.len() == 1 {
        decimal(bytes[0] as nat)
    } else {
        byte_list(bytes.drop_last()) + ", "@ + decimal(bytes.last() as nat)
    }
}

/// The type written for literal number `index` of expression `name`.
pub open spec fn literal_item(name: Seq<char>, index: nat, bytes: Seq<u8>) -> Seq<char> {
    let id = literal_id(name, index);
    "#[derive(Default, Clone, Copy)] pub struct "@ + id + "; impl ::ct_regex::internal::matcher::Literal for "@
        + id + " { const LITERAL: &[u8] = &["@ + byte_list(bytes) + "]; }\n"@
}

/// The value of a class entry as a Rust literal of the item type.
pub open spec fn entry_value(byte: bool, value: u32) -> Seq<char> {
    if byte {
        decimal(value as nat) + "u8"@
    } else {
        quoted_scalar(value as nat)
    }
}

/// A class entry as a Rust expression.
pub open spec fn entry_text(byte: bool, e: ClassEntry) -> Seq<char> {
    "::ct_regex::internal::matcher::ClassEntry { value: "@ + entry_value(byte, e.value)
        + ", is_upper_bound: "@ + (if e.is_upper_bound {
        "true"@
    } else {
        "false"@
    }) + " }"@
}

/// The entries of a class as a comma-separated list of expressions.
pub open spec fn entry_list(byte: bool, entries: Seq<ClassEntry>) -> Seq<char>
    decreases entries.len(),
{
    if entries.len() == 0 {
        Seq::empty()
    } else {
        entry_list(byte, entries.drop_last()) + entry_text(byte, entries.last()) + ", "@
    }
}

/// The type written for class number `index` of expression `name`.
pub open spec fn class_item(name: Seq<char>, byte: bool, index: nat, entries: Seq<ClassEntry>) -> Seq<char> {
    let id = class_id(name, byte, index);
    let ty = item_type(byte);
    "#[derive(Default, Clone, Copy)] pub struct "@ + id + "; impl ::ct_regex::internal::matcher::Class<"@
        + ty + "> for "@ + id + " { const ENTRIES: &[::ct_regex::internal::matcher::ClassEntry<"@ + ty
        + ">] = &["@ + entry_list(byte, entries) + "]; }\n"@
}

/// Writes the type of literal number `index` of expression `name`.
pub fn impl_literal(name: &String, index: usize, literal: &Vec<u8>) -> (r: Vec<char>)
    ensures
        r@ == literal_item(name@, index as nat, literal@),
{
    let id = crate::codegen::metadata::create_literal_id(name, index);
    let mut out: Vec<char> = Vec::new();
    push_str(&mut out, "#[derive(Default, Clone, Copy)] pub struct ");
    push_all(&mut out, &id);
    push_str(&mut out, "; impl ::ct_regex::internal::matcher::Literal for ");
    push_all(&mut out, &id);
    push_str(&mut out, " { const LITERAL: &[u8] = &[");
    let ghost head = out@;
    let mut i: usize = 0;
    while i < literal.len()
        invariant
            i <= literal.len(),
            out@ == head + byte_list(literal@.subrange(0, i as int)),
        decreases literal.len() - i,
    {
        if i > 0 {
            push_str(&mut out, ", ");
        }
        push_decimal(&mut out, literal[i] as u64);
        proof {
            let t = literal@.subrange(0, i + 1);
            assert(t.drop_last() =~= literal@.subrange(0, i as int));
            assert(t.last() == literal@[i as int]);
            if i == 0 {
                assert(t.len() == 1);
                assert(t[0] == literal@[0]);
            }
        }
        i = i + 1;
    }
    assert(literal@.subrange(0, literal.len() as int) =~= literal@);
    push_str(&mut out, "]; }\n");
    assert(out@ =~= literal_item(name@, index as nat, literal@));
    out
}

/// Writes the type of class number `index` of expression `name`, for items `u8` (`byte`)
/// or `char`. Every entry of a `char` class must be a Unicode scalar value.
pub fn impl_class(name: &String, byte: bool, index: usize, entries: &Vec<ClassEntry>) -> (r: Vec<char>)
    ensures
        r@ == class_item(name@, byte, index as nat, entries@),
{
    let id = crate::codegen::metadata::create_class_id(name, byte, index);
    let ty = item_type_text(byte);
    let mut out: Vec<char> = Vec::new();
    push_str(&mut out, "#[derive(Default, Clone, Copy)] pub struct ");
    push_all(&mut out, &id);
    push_str(&mut out, "; impl ::ct_regex::internal::matcher::Class<");
    push_all(&mut out, &ty);
    push_str(&mut out, "> for ");
    push_all(&mut out, &id);
    push_str(&mut out, " { const ENTRIES: &[::ct_regex::internal::matcher::ClassEntry<");
    push_all(&mut out, &ty);
    push_str(&mut out, ">] = &[");
    let ghost head = out@;
    let mut i: usize = 0;
    while i < entries.len()
        invariant
            i <= entries.len(),
            out@ == head + entry_list(byte, entries@.subrange(0, i as int)),
        decreases entries.len() - i,
    {
        let e = entries[i];
        let ghost before = out@;
        push_str(&mut out, "::ct_regex::internal::matcher::ClassEntry { value: ");
        if byte {
            push_decimal(&mut out, e.value as u64);
            push_str(&mut out, "u8");
        } else {
            push_str(&mut out, "'\\u{");
            push_hexadecimal(&mut out, e.value as u64);
            push_str(&mut out, "}'");
        }
        push_str(&mut out, ", is_upper_bound: ");
        if e.is_upper_bound {
            push_str(&mut out, "true");
        } else {
            push_str(&mut out, "false");
        }
        push_str(&mut out, " }");
        push_str(&mut out, ", ");
        proof {
            assert(out@ =~= before + entry_text(byte, e) + ", "@);
            let t = entries@.subrange(0, i + 1);
            assert(t.drop_last() =~= entries@.subrange(0, i as int));
            assert(t.last() == e);
        }
        i = i + 1;
    }
    assert(entries@.subrange(0, entries.len() as int) =~= entries@);
    push_str(&mut out, "]; }\n");
    assert(out@ =~= class_item(name@, byte, index as nat, entries@));
    out
}

} // verus!
