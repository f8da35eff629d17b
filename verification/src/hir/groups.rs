//! The capture groups met while writing a matcher, keyed by their index.
use std::collections::HashMap;
use std::ops::Range;
use vstd::prelude::*;

verus! {

broadcast use vstd::std_specs::hash::group_hash_axioms;

/// A capture group: its name, whether every match sets it, and the range of digit counts
/// that it holds (an empty range `_..0` means that it does not hold only digits).
#[derive(Debug)]
pub struct Group {
    pub name: Option<String>,
    pub required: bool,
    pub digits: Range<usize>,
}

impl Clone for Group {
    fn clone(&self) -> (r: Group)
        ensures
            r@ == self@,
    {
        let name = match &self.name {
            Some(n) => Some(n.clone()),
            None => None,
        };
        Group { name, required: self.required, digits: self.digits.start..self.digits.end }
    }
}

/// What a group is, as plain values: name, whether required, digit range.
pub type GroupView = (Option<Seq<char>>, bool, usize, usize);

/// A group's optional name as plain text.
pub open spec fn name_view(name: Option<String>) -> Option<Seq<char>> {
    match name {
        Some(s) => Some(s@),
        None => None,
    }
}

impl Group {
    pub open spec fn view(&self) -> GroupView {
        (name_view(self.name), self.required, self.digits.start, self.digits.end)
    }
}

/// The capture groups of an expression, by index, with the state of the writer: whether
/// the part of the expression being written is reached by every match.
#[derive(Debug)]
pub struct Groups {
    pub map: HashMap<u32, Group>,
    pub required: bool,
    pub only_digits: bool,
}

impl Clone for Groups {
    fn clone(&self) -> (r: Groups)
        ensures
            r.map@ == self.map@,
            r.required == self.required,
            r.only_digits == self.only_digits,
    {
        Groups { map: self.map.clone(), required: self.required, only_digits: self.only_digits }
    }
}

/// The group that stands for the whole match.
pub open spec fn whole_match_group() -> GroupView {
    (Some("whole_match"@), true, 0usize, 0usize)
}

impl Groups {
    /// The groups by index, each as plain values.
    pub open spec fn groups_view(&self) -> Map<u32, GroupView> {
        self.map@.map_values(|g: Group| g@)
    }

    /// A set of groups that holds only the whole match, as group `0`, in required mode.
    pub fn new() -> (r: Groups)
        ensures
            r.groups_view() == map![0u32 => whole_match_group()],
            r.required,
            r.only_digits,
    {
        let mut map: HashMap<u32, Group> = HashMap::new();
        let name = "whole_match".to_owned();
        map.insert(0, Group { name: Some(name), required: true, digits: 0..0 });
        let r = Groups { map, required: true, only_digits: true };
        assert(r.groups_view() =~= map![0u32 => whole_match_group()]);
        r
    }

    /// Records group `index` with `name` and `digits`; it is required exactly when the writer
    /// is in required mode. A group already recorded under `index` is replaced.
    pub fn insert(&mut self, index: u32, name: Option<String>, digits: Range<usize>)
        ensures
            final(self).groups_view() == old(self).groups_view().insert(
                index,
                (name_view(name), old(self).required, digits.start, digits.end),
            ),
            final(self).required == old(self).required,
            final(self).only_digits == old(self).only_digits,
    {
        let required = self.required;
        self.map.insert(index, Group { name, required, digits });
        assert(self.groups_view() =~= old(self).groups_view().insert(
            index,
            (name_view(name), old(self).required, digits.start, digits.end),
        ));
    }

    /// Sets the digit range of the recorded group `index`.
    pub fn set_digits(&mut self, index: u32, digits: Range<usize>)
        requires
            old(self).map@.contains_key(index),
        ensures
            final(self).groups_view() == old(self).groups_view().insert(
                index,
                (
                    old(self).groups_view()[index].0,
                    old(self).groups_view()[index].1,
                    digits.start,
                    digits.end,
                ),
            ),
            final(self).required == old(self).required,
            final(self).only_digits == old(self).only_digits,
    {
        let old_group = self.map.remove(&index);
        match old_group {
            Some(g) => {
                self.map.insert(index, Group { name: g.name, required: g.required, digits });
            },
            None => {},
        }
        assert(self.groups_view() =~= old(self).groups_view().insert(
            index,
            (
                old(self).groups_view()[index].0,
                old(self).groups_view()[index].1,
                digits.start,
                digits.end,
            ),
        ));
    }

    /// The groups in order of their index. Every index below the number of groups must be
    /// recorded, so that the indices are exactly `0..n`.
    pub fn into_vec(self) -> (r: Vec<Group>)
        requires
            self.map@.len() < u32::MAX,
            forall|i: u32| i < self.map@.len() ==> #[trigger] self.map@.contains_key(i),
        ensures
            r.len() == self.map@.len(),
            forall|i: int| 0 <= i < r.len() ==> #[trigger] r[i]@ == self.groups_view()[i as u32],
    {
        let mut map = self.map;
        let n = map.len();
        let ghost start = map@;
        let mut items: Vec<Group> = Vec::new();
        let mut i: usize = 0;
        while i < n
            invariant
                n == start.len(),
                n < u32::MAX,
                i <= n,
                items.len() == i,
                forall|k: u32| i <= k < n ==> #[trigger] map@.contains_key(k),
                forall|k: u32| i <= k < n ==> map@[k] == #[trigger] start[k],
                forall|k: u32| k < n ==> #[trigger] start.contains_key(k),
                forall|j: int| 0 <= j < i ==> #[trigger] items[j] == start[j as u32],
            decreases n - i,
        {
            let index = i as u32;
            let removed = map.remove(&index);
            match removed {
                Some(g) => {
                    items.push(g);
                },
                None => {},
            }
            i = i + 1;
        }
        items
    }
}

} // verus!
