//! What converting an expression into a matcher type collects besides the type itself: the
//! capture groups, and the literals and classes that become types of their own.
use vstd::prelude::*;
use vstd::relations::{sorted_by, total_ordering};

use crate::hir::groups::{Group, Groups};
use crate::hir::spec::item_type;
use crate::hir::text::{decimal, push_all, push_decimal, push_str};
use crate::hir::write_matcher::item_type_text;

verus! {

broadcast use vstd::seq::group_seq_axioms, vstd::seq_lib::group_to_multiset_ensures;

/// One bound of a range of a class: a lower bound, or the upper bound of a range of more
/// than one item.
#[derive(Debug, Clone, Copy, PartialEq, Eq, Structural)]
pub struct ClassEntry {
    pub value: u32,
    pub is_upper_bound: bool,
}

/// The order of class entries: by value, a lower bound before an upper bound.
pub open spec fn entry_le(a: ClassEntry, b: ClassEntry) -> bool {
    a.value < b.value || (a.value == b.value && (!a.is_upper_bound || b.is_upper_bound))
}

/// [`entry_le`] as a relation.
pub open spec fn entry_order() -> spec_fn(ClassEntry, ClassEntry) -> bool {
    |a: ClassEntry, b: ClassEntry| entry_le(a, b)
}

/// The order of class entries is total.
pub proof fn lemma_entry_order_total()
    ensures
        total_ordering(entry_order()),
{
    let r = entry_order();
    assert(vstd::relations::reflexive(r));
    assert(vstd::relations::antisymmetric(r)) by {
        assert forall|a: ClassEntry, b: ClassEntry| #[trigger] r(a, b) && #[trigger] r(b, a) implies a == b by {
        }
    }
    assert(vstd::relations::transitive(r));
    assert(vstd::relations::strongly_connected(r));
}

fn entry_le_exec(a: ClassEntry, b: ClassEntry) -> (r: bool)
    ensures
        r == entry_le(a, b),
{
    a.value < b.value || (a.value == b.value && (!a.is_upper_bound || b.is_upper_bound))
}

/// Sorts class entries by [`entry_le`]: the result is sorted and holds the same entries.
pub fn sort_entries(entries: Vec<ClassEntry>) -> (r: Vec<ClassEntry>)
    ensures
        sorted_by(r@, entry_order()),
        r@.to_multiset() == entries@.to_multiset(),
        r@ == entries@.sort_by(entry_order()),
{
    let mut out: Vec<ClassEntry> = Vec::new();
    let mut i: usize = 0;
    while i < entries.len()
        invariant
            i <= entries.len(),
            sorted_by(out@, entry_order()),
            out@.to_multiset() == entries@.subrange(0, i as int).to_multiset(),
        decreases entries.len() - i,
    {
        let x = entries[i];
        let mut p: usize = 0;
        while p < out.len() && entry_le_exec(out[p], x)
            invariant
                p <= out.len(),
                forall|j: int| 0 <= j < p ==> entry_le(#[trigger] out@[j], x),
            decreases out.len() - p,
        {
            p = p + 1;
        }
        let ghost before = out@;
        out.insert(p, x);
        proof {
            assert(entries@.subrange(0, i + 1) =~= entries@.subrange(0, i as int).push(x));
            assert(out@ == before.insert(p as int, x));
            assert forall|a: int, b: int| 0 <= a < b < out@.len() implies #[trigger] entry_order()(
                out@[a],
                out@[b],
            ) by {
                if b < p {
                    assert(entry_order()(before[a], before[b]));
                } else if b == p {
                    assert(entry_le(before[a], x));
                } else if a < p {
                    assert(entry_order()(before[a], before[b - 1]));
                    if p < before.len() {
                        assert(!entry_le(before[p as int], x));
                        assert(entry_order()(before[p as int], before[b - 1]) || p == b - 1);
                    }
                } else if a == p {
                    assert(!entry_le(before[p as int], x));
                    assert(entry_order()(before[p as int], before[b - 1]) || p == b - 1);
                } else {
                    assert(entry_order()(before[a - 1], before[b - 1]));
                }
            }
        }
        i = i + 1;
    }
    assert(entries@.subrange(0, entries.len() as int) =~= entries@);
    proof {
        lemma_entry_order_total();
        entries@.lemma_sort_by_ensures(entry_order());
        vstd::seq_lib::lemma_sorted_unique(out@, entries@.sort_by(entry_order()), entry_order());
    }
    out
}

/// The metadata collected while converting an expression named `name`.
#[derive(Debug)]
pub struct ExprMetadata {
    pub name: String,
    pub groups: Groups,
    pub literals: Vec<Vec<u8>>,
    pub classes: Vec<Vec<ClassEntry>>,
}

/// The byte contents of a list of literals.
pub open spec fn literal_views(s: Seq<Vec<u8>>) -> Seq<Seq<u8>> {
    s.map(|i: int, v: Vec<u8>| v@)
}

/// The entries of a list of classes.
pub open spec fn class_views(s: Seq<Vec<ClassEntry>>) -> Seq<Seq<ClassEntry>> {
    s.map(|i: int, v: Vec<ClassEntry>| v@)
}

/// The name of the literal type with number `index`.
pub open spec fn literal_id(name: Seq<char>, index: nat) -> Seq<char> {
    name + "Literal"@ + decimal(index)
}

/// The name of the class type with number `index`, for items `u8` (`byte`) or `char`.
pub open spec fn class_id(name: Seq<char>, byte: bool, index: nat) -> Seq<char> {
    name + item_type(byte) + "Class"@ + decimal(index)
}

/// The name of the literal type with number `index`.
pub fn create_literal_id(name: &String, index: usize) -> (r: Vec<char>)
    ensures
        r@ == literal_id(name@, index as nat),
{
    let mut r: Vec<char> = Vec::new();
    push_str(&mut r, name.as_str());
    push_str(&mut r, "Literal");
    push_decimal(&mut r, index as u64);
    assert(r@ =~= literal_id(name@, index as nat));
    r
}

/// The name of the class type with number `index`.
pub fn create_class_id(name: &String, byte: bool, index: usize) -> (r: Vec<char>)
    ensures
        r@ == class_id(name@, byte, index as nat),
{
    let mut r: Vec<char> = Vec::new();
    push_str(&mut r, name.as_str());
    let ty = item_type_text(byte);
    push_all(&mut r, &ty);
    push_str(&mut r, "Class");
    push_decimal(&mut r, index as u64);
    assert(r@ =~= class_id(name@, byte, index as nat));
    r
}

impl ExprMetadata {
    /// Metadata for the expression `name`, with only the whole match as a group.
    pub fn new(name: String) -> (r: ExprMetadata)
        ensures
            r.name == name,
            r.groups.groups_view() == map![0u32 => crate::hir::groups::whole_match_group()],
            r.groups.required,
            r.literals@.len() == 0,
            r.classes@.len() == 0,
    {
        ExprMetadata { name, groups: Groups::new(), literals: Vec::new(), classes: Vec::new() }
    }

    /// Records capture group `index` with `name`.
    pub fn insert_group(&mut self, index: u32, name: Option<String>)
        ensures
            final(self).groups.groups_view() == old(self).groups.groups_view().insert(
                index,
                (crate::hir::groups::name_view(name), old(self).groups.required, 0usize, 0usize),
            ),
            final(self).groups.required == old(self).groups.required,
            final(self).groups.only_digits == old(self).groups.only_digits,
            final(self).name == old(self).name,
            final(self).literals == old(self).literals,
            final(self).classes == old(self).classes,
    {
        self.groups.insert(index, name, 0..0);
    }

    /// Takes the capture groups out, in order of their index; every index below their
    /// number must be recorded. The metadata is left without groups.
    pub fn take_groups(&mut self) -> (r: Vec<Group>)
        requires
            old(self).groups.map@.len() < u32::MAX,
            forall|i: u32| i < old(self).groups.map@.len() ==> #[trigger] old(self).groups.map@.contains_key(i),
        ensures
            r.len() == old(self).groups.map@.len(),
            forall|i: int| 0 <= i < r.len() ==> #[trigger] r[i]@ == old(self).groups.groups_view()[i as u32],
            final(self).groups.map@.len() == 0,
            final(self).name == old(self).name,
            final(self).literals == old(self).literals,
            final(self).classes == old(self).classes,
    {
        let mut groups = Groups {
            map: std::collections::HashMap::new(),
            required: self.groups.required,
            only_digits: self.groups.only_digits,
        };
        std::mem::swap(&mut groups, &mut self.groups);
        groups.into_vec()
    }

    /// Records a literal and returns the name of its type.
    pub fn insert_literal(&mut self, literal: Vec<u8>) -> (r: Vec<char>)
        ensures
            r@ == literal_id(old(self).name@, old(self).literals@.len()),
            literal_views(final(self).literals@) == literal_views(old(self).literals@).push(literal@),
            final(self).classes == old(self).classes,
            final(self).groups == old(self).groups,
            final(self).name == old(self).name,
    {
        let index = self.literals.len();
        let ghost before = self.literals@;
        let ghost lit = literal@;
        self.literals.push(literal);
        assert(literal_views(self.literals@) =~= literal_views(before).push(lit));
        create_literal_id(&self.name, index)
    }

    /// Records a class, with its entries sorted, and returns the name of its type for
    /// items `u8` (`byte`) or `char`.
    pub fn insert_class(&mut self, entries: Vec<ClassEntry>, byte: bool) -> (r: Vec<char>)
        ensures
            r@ == class_id(old(self).name@, byte, old(self).classes@.len()),
            class_views(final(self).classes@) == class_views(old(self).classes@).push(
                entries@.sort_by(entry_order()),
            ),
            final(self).literals == old(self).literals,
            final(self).groups == old(self).groups,
            final(self).name == old(self).name,
    {
        let index = self.classes.len();
        let sorted = sort_entries(entries);
        let ghost before = self.classes@;
        let ghost sv = sorted@;
        self.classes.push(sorted);
        assert(class_views(self.classes@) =~= class_views(before).push(sv));
        create_class_id(&self.name, byte, index)
    }
}

} // verus!
