//! The flags of a `regex!` invocation and the syntax options they set.
use vstd::prelude::*;
use vstd::relations::sorted_by;

use crate::hir::node::SyntaxConfig;
use crate::hir::text::{extend_string, push_str};

verus! {

broadcast use vstd::seq::group_seq_axioms, vstd::seq_lib::group_to_multiset_ensures;

/// The flags given to a regular expression, each at most once.
#[derive(Debug)]
pub struct Flags {
    chars: Vec<char>,
}

/// Whether a flag is one that sets a syntax option: `i`, `m`, `s`, `R`, `U` or `x`.
pub open spec fn known_flag(c: char) -> bool {
    c == 'i' || c == 'm' || c == 's' || c == 'R' || c == 'U' || c == 'x'
}

/// The order of flags: by their scalar value.
pub open spec fn flag_order() -> spec_fn(char, char) -> bool {
    |a: char, b: char| (a as u32) <= (b as u32)
}

/// The name of what the `Debug` formatting of a `char` writes: the character in single
/// quotes, escaped as `char::escape_debug` does.
pub uninterp spec fn char_debug(c: char) -> Seq<char>;

/// `<char as Debug>::fmt`, through `format!`: the text that `Debug` writes for `c`. Nothing
/// is claimed of it beyond that it is a function of `c`.
#[verifier::external_body]
fn debug_char(c: char) -> (r: String)
    ensures
        r@ == char_debug(c),
{
    format!("{:?}", c)
}

/// The flags as `Debug` writes a list of them: in brackets, separated by `, `.
pub open spec fn debug_list(cs: Seq<char>) -> Seq<char>
    decreases cs.len(),
{
    if cs.len() == 0 {
        Seq::empty()
    } else if cs.len() == 1 {
        char_debug(cs[0])
    } else {
        debug_list(cs.drop_last()) + ", "@ + char_debug(cs.last())
    }
}

/// Whether an error is one of the two kinds of flag that the syntax options refuse.
#[derive(Debug, Clone, Copy, PartialEq, Eq, Structural)]
pub enum FlagError {
    /// The `g` flag: matching all occurrences is done by the methods of the `Regex` trait.
    Global,
    /// A flag that sets no option.
    Unknown(char),
}

impl Flags {
    /// The flags, without repetition.
    #[verifier::type_invariant]
    spec fn distinct(&self) -> bool {
        self.chars@.no_duplicates()
    }

    /// The flags as a set.
    pub closed spec fn set(&self) -> Set<char> {
        self.chars@.to_set()
    }

    /// The flags in the order they were first given.
    pub closed spec fn list(&self) -> Seq<char> {
        self.chars@
    }

    /// The syntax options that the flags set.
    pub open spec fn spec_config(&self) -> SyntaxConfig {
        SyntaxConfig {
            case_insensitive: self.set().contains('i'),
            multi_line: self.set().contains('m'),
            dot_matches_new_line: self.set().contains('s'),
            crlf: self.set().contains('R'),
            swap_greed: self.set().contains('U'),
            ignore_whitespace: self.set().contains('x'),
            unicode: true,
            utf8: true,
        }
    }

    /// The flags as `Debug` writes the sorted list of them.
    pub open spec fn spec_text(&self) -> Seq<char> {
        "["@ + debug_list(self.list().sort_by(flag_order())) + "]"@
    }

    /// Whether every flag sets a syntax option.
    pub open spec fn valid(&self) -> bool {
        forall|c: char| self.set().contains(c) ==> known_flag(c)
    }

    /// The flags that `text` names: each of its characters.
    pub fn from_text(text: &str) -> (r: Flags)
        ensures
            r.set() == text@.to_set(),
            r.list().no_duplicates(),
    {
        let n = text.unicode_len();
        let mut chars: Vec<char> = Vec::new();
        let mut i: usize = 0;
        while i < n
            invariant
                i <= n,
                n == text@.len(),
                chars@.no_duplicates(),
                chars@.to_set() == text@.subrange(0, i as int).to_set(),
            decreases n - i,
        {
            let c = text.get_char(i);
            let mut seen = false;
            let mut j: usize = 0;
            while j < chars.len()
                invariant
                    j <= chars.len(),
                    seen <==> exists|k: int| 0 <= k < j && chars@[k] == c,
                decreases chars.len() - j,
            {
                if chars[j] == c {
                    seen = true;
                }
                j = j + 1;
            }
            proof {
                assert(text@.subrange(0, i + 1) =~= text@.subrange(0, i as int).push(c));
                text@.subrange(0, i as int).lemma_push_to_set_commute(c);
            }
            if !seen {
                let ghost before = chars@;
                chars.push(c);
                proof {
                    before.lemma_push_to_set_commute(c);
                    assert(!before.contains(c));
                }
            } else {
                proof {
                    let k = choose|k: int| 0 <= k < chars@.len() && chars@[k] == c;
                    assert(chars@.to_set().contains(c)) by {
                        assert(chars@.contains(c));
                    }
                    assert(chars@.to_set().insert(c) =~= chars@.to_set());
                }
            }
            i = i + 1;
        }
        assert(text@.subrange(0, n as int) =~= text@);
        Flags { chars }
    }

    /// The syntax options that the flags set: `i` case-insensitive, `m` multi-line, `s` dot
    /// matches new line, `R` CRLF mode, `U` swapped greed, `x` ignore whitespace; Unicode
    /// and UTF-8 modes on, as in a fresh configuration.
    pub fn create_config(&self) -> (r: SyntaxConfig)
        requires
            self.valid(),
        ensures
            r == self.spec_config(),
    {
        let mut config = SyntaxConfig::new();
        let mut i: usize = 0;
        while i < self.chars.len()
            invariant
                i <= self.chars.len(),
                config.unicode && config.utf8,
                config.case_insensitive == self.chars@.subrange(0, i as int).contains('i'),
                config.multi_line == self.chars@.subrange(0, i as int).contains('m'),
                config.dot_matches_new_line == self.chars@.subrange(0, i as int).contains('s'),
                config.crlf == self.chars@.subrange(0, i as int).contains('R'),
                config.swap_greed == self.chars@.subrange(0, i as int).contains('U'),
                config.ignore_whitespace == self.chars@.subrange(0, i as int).contains('x'),
            decreases self.chars.len() - i,
        {
            let c = self.chars[i];
            if c == 'i' {
                config.case_insensitive = true;
            } else if c == 'm' {
                config.multi_line = true;
            } else if c == 's' {
                config.dot_matches_new_line = true;
            } else if c == 'R' {
                config.crlf = true;
            } else if c == 'U' {
                config.swap_greed = true;
            } else if c == 'x' {
                config.ignore_whitespace = true;
            }
            proof {
                let s = self.chars@.subrange(0, i + 1);
                assert(s =~= self.chars@.subrange(0, i as int).push(c));
                assert forall|f: char| #[trigger] s.contains(f) <==> (self.chars@.subrange(
                    0,
                    i as int,
                ).contains(f) || f == c) by {
                    if s.contains(f) {
                        let k = choose|k: int| 0 <= k < s.len() && s[k] == f;
                        if k < i {
                            assert(self.chars@.subrange(0, i as int)[k] == f);
                        }
                    }
                    if self.chars@.subrange(0, i as int).contains(f) {
                        let k = choose|k: int| 0 <= k < i && self.chars@.subrange(0, i as int)[k] == f;
                        assert(s[k] == f);
                    }
                    if f == c {
                        assert(s[i as int] == c);
                    }
                }
            }
            i = i + 1;
        }
        assert(self.chars@.subrange(0, self.chars.len() as int) =~= self.chars@);
        config
    }

    /// The first flag, in the order given, that sets no syntax option; `None` where every
    /// flag sets one.
    pub fn flag_error(&self) -> (r: Option<FlagError>)
        ensures
            r is None <==> self.valid(),
            r matches Some(e) ==> (match e {
                FlagError::Global => self.set().contains('g'),
                FlagError::Unknown(c) => self.set().contains(c) && !known_flag(c) && c != 'g',
            }),
    {
        let mut i: usize = 0;
        while i < self.chars.len()
            invariant
                i <= self.chars.len(),
                forall|k: int| 0 <= k < i ==> known_flag(#[trigger] self.chars@[k]),
            decreases self.chars.len() - i,
        {
            let c = self.chars[i];
            if !(c == 'i' || c == 'm' || c == 's' || c == 'R' || c == 'U' || c == 'x') {
                assert(self.chars@.contains(c));
                assert(self.set().contains(c));
                assert(!known_flag(c));
                if c == 'g' {
                    return Some(FlagError::Global);
                }
                return Some(FlagError::Unknown(c));
            }
            i = i + 1;
        }
        assert forall|c: char| self.set().contains(c) implies known_flag(c) by {
            assert(self.chars@.contains(c));
        }
        None
    }

    /// The flags as `Debug` writes the sorted list of them, such as `['i', 'm']`.
    pub fn to_text(&self) -> (r: String)
        ensures
            r@ == self.spec_text(),
    {
        let sorted = sort_flags(&self.chars);
        let mut out = String::new();
        let mut text: Vec<char> = Vec::new();
        push_str(&mut text, "[");
        extend_string(&mut out, &text);
        let ghost head = out@;
        let mut i: usize = 0;
        while i < sorted.len()
            invariant
                i <= sorted.len(),
                out@ == head + debug_list(sorted@.subrange(0, i as int)),
            decreases sorted.len() - i,
        {
            if i > 0 {
                let mut sep: Vec<char> = Vec::new();
                push_str(&mut sep, ", ");
                extend_string(&mut out, &sep);
            }
            let d = debug_char(sorted[i]);
            let mut piece: Vec<char> = Vec::new();
            push_str(&mut piece, d.as_str());
            extend_string(&mut out, &piece);
            proof {
                let t = sorted@.subrange(0, i + 1);
                assert(t.drop_last() =~= sorted@.subrange(0, i as int));
                assert(t.last() == sorted@[i as int]);
                if i == 0 {
                    assert(t.len() == 1 && t[0] == sorted@[0]);
                }
            }
            i = i + 1;
        }
        assert(sorted@.subrange(0, sorted.len() as int) =~= sorted@);
        let mut close: Vec<char> = Vec::new();
        push_str(&mut close, "]");
        extend_string(&mut out, &close);
        out
    }
}

/// The order of flags is total.
proof fn lemma_flag_order_total()
    ensures
        vstd::relations::total_ordering(flag_order()),
{
    let r = flag_order();
    assert(vstd::relations::antisymmetric(r)) by {
        assert forall|a: char, b: char| #[trigger] r(a, b) && #[trigger] r(b, a) implies a == b by {
            vstd::utf8::char_u32_cast(a, a as u32);
            vstd::utf8::char_u32_cast(b, b as u32);
        }
    }
}

/// The text of the flags depends only on which flags are given: not on their order, nor on
/// how often each was written.
pub proof fn law_text_of_same_flags(a: Flags, b: Flags)
    requires
        a.list().no_duplicates(),
        b.list().no_duplicates(),
        a.set() == b.set(),
    ensures
        a.spec_text() == b.spec_text(),
{
    broadcast use vstd::seq_lib::group_to_multiset_ensures, vstd::multiset::group_multiset_axioms;

    lemma_flag_order_total();
    let la = a.list();
    let lb = b.list();
    la.lemma_sort_by_ensures(flag_order());
    lb.lemma_sort_by_ensures(flag_order());
    la.lemma_multiset_has_no_duplicates();
    lb.lemma_multiset_has_no_duplicates();
    assert forall|x: char| la.to_multiset().count(x) == lb.to_multiset().count(x) by {
        assert(la.to_set().contains(x) == la.contains(x));
        assert(lb.to_set().contains(x) == lb.contains(x));
    }
    assert(la.to_multiset() =~= lb.to_multiset());
    vstd::seq_lib::lemma_sorted_unique(la.sort_by(flag_order()), lb.sort_by(flag_order()), flag_order());
}

/// Sorts flags by [`flag_order`].
fn sort_flags(flags: &Vec<char>) -> (r: Vec<char>)
    ensures
        r@ == flags@.sort_by(flag_order()),
{
    let mut out: Vec<char> = Vec::new();
    let mut i: usize = 0;
    while i < flags.len()
        invariant
            i <= flags.len(),
            sorted_by(out@, flag_order()),
            out@.to_multiset() == flags@.subrange(0, i as int).to_multiset(),
        decreases flags.len() - i,
    {
        let x = flags[i];
        let mut p: usize = 0;
        while p < out.len() && (out[p] as u32) <= (x as u32)
            invariant
                p <= out.len(),
                forall|j: int| 0 <= j < p ==> (#[trigger] out@[j] as u32) <= (x as u32),
            decreases out.len() - p,
        {
            p = p + 1;
        }
        let ghost before = out@;
        out.insert(p, x);
        proof {
            assert(flags@.subrange(0, i + 1) =~= flags@.subrange(0, i as int).push(x));
            assert forall|a: int, b: int| 0 <= a < b < out@.len() implies #[trigger] flag_order()(
                out@[a],
                out@[b],
            ) by {
                if b < p {
                    assert(flag_order()(before[a], before[b]));
                } else if b == p {
                } else if a < p {
                    assert(flag_order()(before[a], before[b - 1]));
                } else if a == p {
                    if p < before.len() {
                        assert(flag_order()(before[p as int], before[b - 1]) || p == b - 1);
                    }
                } else {
                    assert(flag_order()(before[a - 1], before[b - 1]));
                }
            }
        }
        i = i + 1;
    }
    assert(flags@.subrange(0, flags.len() as int) =~= flags@);
    proof {
        lemma_flag_order_total();
        flags@.lemma_sort_by_ensures(flag_order());
        vstd::seq_lib::lemma_sorted_unique(out@, flags@.sort_by(flag_order()), flag_order());
    }
    out
}

} // verus!
