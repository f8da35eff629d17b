//! The options with which the code generator parses a pattern.
use vstd::prelude::*;

use crate::codegen::classes::{parse_ast, parsed_ast, simplified, simplify_classes, translate_ast, translated};
use crate::hir::node::{ParsedRegex, SyntaxConfig};

verus! {

/// The syntax options of a parse, and whether Perl classes (`\d`, `\s`, `\w`) keep their
/// own meaning. Where they do not, each is replaced by the ASCII class of the same name
/// before the syntax tree is translated.
#[derive(Debug, Clone, Copy)]
pub struct ConfigExt {
    pub syntax: SyntaxConfig,
    pub complex_classes: bool,
}

impl ConfigExt {
    /// The given syntax options, with Perl classes replaced by ASCII classes.
    pub fn new(syntax: SyntaxConfig) -> (r: ConfigExt)
        ensures
            r == (ConfigExt { syntax, complex_classes: false }),
    {
        ConfigExt { syntax, complex_classes: false }
    }

    /// Sets whether whitespace and `#` comments in the pattern are ignored.
    pub fn ignore_whitespace(&mut self, flag: bool)
        ensures
            final(self).syntax == (SyntaxConfig { ignore_whitespace: flag, ..old(self).syntax }),
            final(self).complex_classes == old(self).complex_classes,
    {
        self.syntax.ignore_whitespace = flag;
    }

    /// Sets Unicode mode: whether classes and case folding cover all of Unicode, or ASCII
    /// only.
    pub fn unicode(&mut self, flag: bool)
        ensures
            final(self).syntax == (SyntaxConfig { unicode: flag, ..old(self).syntax }),
            final(self).complex_classes == old(self).complex_classes,
    {
        self.syntax.unicode = flag;
    }

    /// Sets UTF-8 mode: whether every match must be valid UTF-8.
    pub fn utf8(&mut self, flag: bool)
        ensures
            final(self).syntax == (SyntaxConfig { utf8: flag, ..old(self).syntax }),
            final(self).complex_classes == old(self).complex_classes,
    {
        self.syntax.utf8 = flag;
    }

    /// Sets whether Perl classes keep their own meaning.
    pub fn complex_classes(&mut self, flag: bool)
        ensures
            *final(self) == (ConfigExt { complex_classes: flag, ..*old(self) }),
    {
        self.complex_classes = flag;
    }
}

/// What a parse of `pat` under `config` yields: the syntax parser's tree, with its Perl
/// classes replaced unless `config` keeps them, translated under the syntax options; `None`
/// where the parser or the translator refuses the pattern.
pub open spec fn prepared(pat: Seq<char>, config: ConfigExt) -> Option<ParsedRegex> {
    match parsed_ast(pat, config.syntax.ignore_whitespace) {
        None => None,
        Some(a) => translated(pat, if config.complex_classes { a } else { simplified(a) }, config.syntax),
    }
}

/// Parses `pat` under `config`, as `prepared` says.
pub fn parse_prepared(pat: &str, config: ConfigExt) -> (r: Option<ParsedRegex>)
    ensures
        r == prepared(pat@, config),
{
    match parse_ast(pat, config.syntax.ignore_whitespace) {
        None => None,
        Some(ast) => {
            let ast = if config.complex_classes {
                ast
            } else {
                simplify_classes(ast)
            };
            translate_ast(pat, ast, config.syntax)
        },
    }
}

} // verus!
