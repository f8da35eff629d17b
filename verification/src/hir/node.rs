//! The library's own model of a parsed regular expression: the high-level intermediate
//! representation that `regex_syntax` produces, held as plain values.
use regex_syntax::hir::{Capture, Class, Hir, HirKind, Look, Repetition};
use vstd::prelude::*;

verus! {

/// A zero-width assertion.
#[derive(Debug, Clone, Copy, PartialEq, Eq, Structural)]
pub enum LookKind {
    /// `^` outside multi-line mode: the start of the haystack.
    Start,
    /// `$` outside multi-line mode: the end of the haystack.
    End,
    /// `^` in multi-line mode, lines ending in `\n`.
    StartLF,
    /// `$` in multi-line mode, lines ending in `\n`.
    EndLF,
    /// `^` in multi-line mode, lines ending in `\r\n`, `\n` or `\r`.
    StartCRLF,
    /// `$` in multi-line mode, lines ending in `\r\n`, `\n` or `\r`.
    EndCRLF,
    /// Any of the word-boundary assertions.
    Word,
}

/// A set of items as sorted ranges: of `char`s, or of bytes.
#[derive(Debug)]
pub enum ClassNode {
    Unicode(Vec<(char, char)>),
    Bytes(Vec<(u8, u8)>),
}

/// A node of the parsed expression tree.
#[derive(Debug)]
pub enum HirNode {
    /// Matches the empty string.
    Empty,
    /// A literal, as the bytes of its UTF-8 encoding (or raw bytes outside Unicode mode).
    Literal(Vec<u8>),
    /// A character or byte class.
    Class(ClassNode),
    /// A zero-width assertion.
    Look(LookKind),
    /// `sub` repeated between `min` and `max` times (unbounded without `max`).
    Repetition { min: u32, max: Option<u32>, greedy: bool, sub: Box<HirNode> },
    /// A capture group with number `index` and an optional name.
    Capture { index: u32, name: Option<String>, sub: Box<HirNode> },
    /// The sub-expressions in sequence.
    Concat(Vec<HirNode>),
    /// Any one of the sub-expressions, preferring earlier ones.
    Alternation(Vec<HirNode>),
}

/// The syntax options for parsing a pattern: the flags of a `regex!` invocation, plus the
/// Unicode modes.
#[derive(Debug, Clone, Copy, PartialEq, Eq, Structural)]
pub struct SyntaxConfig {
    pub case_insensitive: bool,
    pub multi_line: bool,
    pub dot_matches_new_line: bool,
    pub crlf: bool,
    pub swap_greed: bool,
    pub ignore_whitespace: bool,
    pub unicode: bool,
    pub utf8: bool,
}

impl SyntaxConfig {
    /// The options of `regex_syntax::Parser::new()`: Unicode and UTF-8 modes on, every flag off.
    pub open spec fn spec_default() -> SyntaxConfig {
        SyntaxConfig {
            case_insensitive: false,
            multi_line: false,
            dot_matches_new_line: false,
            crlf: false,
            swap_greed: false,
            ignore_whitespace: false,
            unicode: true,
            utf8: true,
        }
    }

    /// The options of `regex_syntax::Parser::new()`.
    pub fn new() -> (r: SyntaxConfig)
        ensures
            r == SyntaxConfig::spec_default(),
    {
        SyntaxConfig {
            case_insensitive: false,
            multi_line: false,
            dot_matches_new_line: false,
            crlf: false,
            swap_greed: false,
            ignore_whitespace: false,
            unicode: true,
            utf8: true,
        }
    }
}

/// A parsed pattern: its expression tree and the properties of the whole expression that
/// the parser computed.
#[derive(Debug)]
pub struct ParsedRegex {
    pub hir: HirNode,
    /// The length in bytes of the shortest match, if any match exists.
    pub minimum_len: Option<usize>,
    /// The length in bytes of the longest match, if it is bounded.
    pub maximum_len: Option<usize>,
    /// Whether every match starts with a `Start` assertion.
    pub prefix_start: bool,
    /// Whether every match ends with an `End` assertion.
    pub suffix_end: bool,
}

/// The name of what `regex_syntax` makes of `pattern` under `config`: its expression tree
/// and properties, or `None` where the pattern is refused.
pub uninterp spec fn parsed_pattern(pattern: Seq<char>, config: SyntaxConfig) -> Option<ParsedRegex>;

#[verifier::external_type_specification]
#[verifier::external_body]
pub struct ExHir(Hir);

#[verifier::external_type_specification]
#[verifier::external_body]
pub struct ExClass(Class);

#[verifier::external_type_specification]
#[verifier::external_body]
pub struct ExLook(Look);

/// Converts a `regex_syntax` class into the library's model, range for range (with
/// `ClassUnicode::ranges` and `ClassBytes::ranges`).
#[verifier::external_body]
fn class_from_hir(class: Class) -> ClassNode {
    match class {
        Class::Unicode(c) => ClassNode::Unicode(c.ranges().iter().map(|r| (r.start(), r.end())).collect()),
        Class::Bytes(c) => ClassNode::Bytes(c.ranges().iter().map(|r| (r.start(), r.end())).collect()),
    }
}

/// Converts a `regex_syntax` look-around assertion into the library's model; the
/// word-boundary assertions all become `Word`.
#[verifier::external_body]
fn look_from_hir(look: Look) -> LookKind {
    match look {
        Look::Start => LookKind::Start,
        Look::End => LookKind::End,
        Look::StartLF => LookKind::StartLF,
        Look::EndLF => LookKind::EndLF,
        Look::StartCRLF => LookKind::StartCRLF,
        Look::EndCRLF => LookKind::EndCRLF,
        _ => LookKind::Word,
    }
}

#[verifier::external_type_specification]
#[verifier::external_body]
pub struct ExRepetition(Repetition);

#[verifier::external_type_specification]
#[verifier::external_body]
pub struct ExCapture(Capture);

/// Converts a `regex_syntax` expression tree into the library's model, node for node (with
/// `Hir::into_kind`).
#[verifier::external_body]
fn node_from_hir(hir: Hir) -> HirNode {
    match hir.into_kind() {
        HirKind::Empty => HirNode::Empty,
        HirKind::Literal(lit) => HirNode::Literal(lit.0.into_vec()),
        HirKind::Class(class) => HirNode::Class(class_from_hir(class)),
        HirKind::Look(look) => HirNode::Look(look_from_hir(look)),
        HirKind::Repetition(r) => repetition_from_hir(r),
        HirKind::Capture(c) => capture_from_hir(c),
        HirKind::Concat(v) => HirNode::Concat(nodes_from_hirs(v)),
        HirKind::Alternation(v) => HirNode::Alternation(nodes_from_hirs(v)),
    }
}

/// Converts a `regex_syntax` repetition into the library's model, field for field.
#[verifier::external_body]
fn repetition_from_hir(r: Repetition) -> HirNode {
    HirNode::Repetition { min: r.min, max: r.max, greedy: r.greedy, sub: Box::new(node_from_hir(*r.sub)) }
}

/// Converts a `regex_syntax` capture group into the library's model, field for field.
#[verifier::external_body]
fn capture_from_hir(c: Capture) -> HirNode {
    HirNode::Capture { index: c.index, name: c.name.map(String::from), sub: Box::new(node_from_hir(*c.sub)) }
}

/// Converts a list of `regex_syntax` expression trees, in order.
#[verifier::external_body]
fn nodes_from_hirs(v: Vec<Hir>) -> Vec<HirNode> {
    v.into_iter().map(node_from_hir).collect()
}

/// Converts a `regex_syntax` expression tree into the library's model together with the
/// properties that `Hir::properties` reports of it.
#[verifier::external_body]
pub(crate) fn parsed_from_hir(hir: Hir) -> ParsedRegex {
    let props = hir.properties();
    let (minimum_len, maximum_len) = (props.minimum_len(), props.maximum_len());
    let prefix_start = props.look_set_prefix().contains(Look::Start);
    let suffix_end = props.look_set_suffix().contains(Look::End);
    ParsedRegex { hir: node_from_hir(hir), minimum_len, maximum_len, prefix_start, suffix_end }
}

/// `regex_syntax::ParserBuilder` and `Parser::parse`: parses `pattern` with the options of
/// `config` and returns the expression tree with the properties that `Hir::properties`
/// reports, or `None` where the parser returns an error. Nothing is claimed of the tree
/// beyond that it is the one the parser produces for these arguments.
#[verifier::external_body]
fn parse_pattern(pattern: &str, config: SyntaxConfig) -> (r: Option<ParsedRegex>)
    ensures
        r == parsed_pattern(pattern@, config),
{
    let mut builder = regex_syntax::ParserBuilder::new();
    builder.case_insensitive(config.case_insensitive).multi_line(config.multi_line)
        .dot_matches_new_line(config.dot_matches_new_line).crlf(config.crlf)
        .swap_greed(config.swap_greed).ignore_whitespace(config.ignore_whitespace)
        .unicode(config.unicode).utf8(config.utf8);
    builder.build().parse(pattern).ok().map(parsed_from_hir)
}

/// Parses `pattern` with the given syntax options; `None` where the pattern is refused.
pub fn parse_with(pattern: &str, config: SyntaxConfig) -> (r: Option<ParsedRegex>)
    ensures
        r == parsed_pattern(pattern@, config),
{
    parse_pattern(pattern, config)
}

/// Parses `pattern` with the default options of `regex_syntax::Parser::new()` and returns its
/// expression tree; `None` where the pattern is refused.
pub fn parse(pattern: &str) -> (r: Option<HirNode>)
    ensures
        r == (match parsed_pattern(pattern@, SyntaxConfig::spec_default()) {
            Some(p) => Some(p.hir),
            None => None,
        }),
{
    match parse_pattern(pattern, SyntaxConfig::new()) {
        Some(p) => Some(p.hir),
        None => None,
    }
}

} // verus!
