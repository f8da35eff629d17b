# ct_regex_internal

The internals of a compile-time regular expression crate: the haystacks that generated
matchers walk over, the anchors that cut a search short, the capture bookkeeping, and the
code generator that turns a pattern into the Rust source of its matcher types.

Everything under `src/` is verified with Verus; the contracts state what each function
returns or changes.

- `src/haystack/`: haystacks over `&str`, `&[u8]` and the string types of `bstr`, `arcstr`,
  `ecow` and `hipstr`; UTF-8 decoding and the items of a haystack.
- `src/anchor.rs`: the anchors (`Start`, `MinLen`, `MaxLen`, `EndAndMaxLen`, and their
  pairs and sets).
- `src/expr/`, `src/general/`: capture records and the conversions into capture types.
- `src/hir/`: the library's model of `regex_syntax`'s expression tree, and the writer of
  matcher types for it.
- `src/codegen/`: the `regex!` code generator: flags, the class rewriting done before
  translation, metadata, literal, class and capture types, and the module of a regular
  expression.

`app/` holds what stays outside the verified library: the `syn` parsers of the macro's
arguments, the conversion of the generated text into tokens, the standard library's type
names, and the benchmarks' argument reading.

## Differences and omissions

- The `Regex` and `AnonRegex` traits (matching, capturing, replacing) and their iterators
  (`RangeOfAllMatches`, `SliceAllMatches`, `FindAllCaptures`) are not here: every one of
  them runs the generated `Matcher` types, and the `matcher` module that defines those is
  not part of these sources. The offset bookkeeping that their replacements use (`Delta`)
  is here, in `src/expr/delta.rs`.
- `hipstr`'s types are generic over its sealed `Backend` trait, which the proofs cannot name. The
  haystacks hold a `hipstr` value with the default `Arc` backend in a library struct
  (`HipText`, `HipBytes`, each with a public `inner` field), and the owned, replaceable
  forms are the `'static` ones.
- The generated regular expression types keep a leading `^` in their matcher: the
  `Regex` trait has no place for the anchors computed from the pattern's properties, so
  removing the assertion would let matches start anywhere.
- The generated module defines the literal types that its matchers name, but not the class
  types: those are written by `impl_classes`, which the module writer does not call.
- The numeric getters of capture groups use the width `2 ^ ceil(log2(bits))` with `^` the
  exclusive or, which always gives `u8`.
- The `regex!` code is written as text; `app/` turns it into tokens.
