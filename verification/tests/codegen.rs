use ct_regex_internal::codegen::{
    expr_matcher, impl_captures, impl_literal, make_anon_regex, make_regex, numeric_width_exec,
    sort_entries, ClassEntry, ExprMetadata, FlagError, Flags, TypeExpressions,
};
use ct_regex_internal::codegen::ConfigExt;
use ct_regex_internal::hir::{parse, Group, HirNode, LookKind, ParsedRegex, SyntaxConfig};

fn text(v: Vec<char>) -> String {
    v.into_iter().collect()
}

#[test]
fn flags_set_syntax_options() {
    let config = Flags::from_text("ixR").create_config();
    assert!(config.case_insensitive);
    assert!(config.ignore_whitespace);
    assert!(config.crlf);
    assert!(!config.multi_line);
    assert!(!config.dot_matches_new_line);
    assert!(!config.swap_greed);
    assert!(config.unicode && config.utf8);
}

#[test]
fn flags_refused() {
    assert_eq!(Flags::from_text("img").flag_error(), Some(FlagError::Global));
    assert_eq!(Flags::from_text("iq").flag_error(), Some(FlagError::Unknown('q')));
    assert_eq!(Flags::from_text("imsRUx").flag_error(), None);
}

#[test]
fn flags_written_sorted() {
    assert_eq!(Flags::from_text("mim").to_text(), "['i', 'm']");
    assert_eq!(Flags::from_text("").to_text(), "[]");
    assert_eq!(Flags::from_text("xRi").to_text(), "['R', 'i', 'x']");
}

#[test]
fn flags_text_ignores_order_and_repetition() {
    let expected = Flags::from_text("im").to_text();
    assert_eq!(Flags::from_text("mi").to_text(), expected);
    assert_eq!(Flags::from_text("mimi").to_text(), expected);
    assert_ne!(Flags::from_text("ims").to_text(), expected);
}

#[test]
fn anchors_of_properties() {
    let p = ParsedRegex {
        hir: HirNode::Empty,
        minimum_len: Some(3),
        maximum_len: Some(5),
        prefix_start: true,
        suffix_end: true,
    };
    assert_eq!(
        text(TypeExpressions::create_anchor_expression(&p)),
        "::ct_regex::internal::anchor::AnchorSet<::ct_regex::internal::anchor::Start,::ct_regex::internal::anchor::MinLen<3>,::ct_regex::internal::anchor::EndAndMaxLen<5>>"
    );
    let q = ParsedRegex {
        hir: HirNode::Empty,
        minimum_len: Some(0),
        maximum_len: None,
        prefix_start: false,
        suffix_end: false,
    };
    assert_eq!(
        text(TypeExpressions::create_anchor_expression(&q)),
        "::ct_regex::internal::anchor::AnchorNone"
    );
    let r = ParsedRegex {
        hir: HirNode::Empty,
        minimum_len: Some(1),
        maximum_len: Some(1),
        prefix_start: false,
        suffix_end: false,
    };
    assert_eq!(
        text(TypeExpressions::create_anchor_expression(&r)),
        "::ct_regex::internal::anchor::AnchorPair<::ct_regex::internal::anchor::MinLen<1>,::ct_regex::internal::anchor::MaxLen<1>>"
    );
}

#[test]
fn leading_start_removed() {
    let hir = parse("^ab").unwrap();
    assert!(matches!(
        TypeExpressions::remove_redundant_lookarounds(hir),
        HirNode::Literal(ref b) if b == b"ab"
    ));
    let lone = parse("^").unwrap();
    assert!(matches!(TypeExpressions::remove_redundant_lookarounds(lone), HirNode::Empty));
    let longer = parse("^a+b").unwrap();
    match TypeExpressions::remove_redundant_lookarounds(longer) {
        HirNode::Concat(v) => {
            assert_eq!(v.len(), 2);
            assert!(matches!(v[0], HirNode::Repetition { .. }));
        },
        _ => panic!("expected a concatenation"),
    }
    let end = parse("a$").unwrap();
    match TypeExpressions::remove_redundant_lookarounds(end) {
        HirNode::Concat(v) => assert!(matches!(v[1], HirNode::Look(LookKind::End))),
        _ => panic!("expected a concatenation"),
    }
}

#[test]
fn literal_and_class_types_recorded() {
    let mut meta = ExprMetadata::new("Foo".to_string());
    let hir = parse("ab[a-c]").unwrap();
    let matcher = text(expr_matcher::<char>(&hir, &mut meta));
    assert_eq!(
        matcher,
        "::ct_regex::internal::matcher::Then<char,::ct_regex::internal::matcher::LiteralMatcher<FooLiteral0>,::ct_regex::internal::matcher::ClassMatcher<char,FoocharClass0>>"
    );
    assert_eq!(meta.literals, vec![b"ab".to_vec()]);
    assert_eq!(
        meta.classes,
        vec![vec![
            ClassEntry { value: 97, is_upper_bound: false },
            ClassEntry { value: 99, is_upper_bound: true },
        ]]
    );
}

#[test]
fn lazy_repetition_written() {
    let mut meta = ExprMetadata::new("L".to_string());
    let hir = parse("a+?").unwrap();
    let matcher = text(expr_matcher::<u8>(&hir, &mut meta));
    assert_eq!(
        matcher,
        "::ct_regex::internal::matcher::Lazy<u8,::ct_regex::internal::matcher::QuantifierNOrMore<u8,::ct_regex::internal::matcher::LiteralMatcher<LLiteral0>,1>>"
    );
    let mut exact = ExprMetadata::new("L".to_string());
    let counted = parse("a{2}?").unwrap();
    assert_eq!(
        text(expr_matcher::<u8>(&counted, &mut exact)),
        "::ct_regex::internal::matcher::QuantifierN<u8,::ct_regex::internal::matcher::LiteralMatcher<LLiteral0>,2>"
    );
}

#[test]
fn groups_recorded_by_expression() {
    let mut meta = ExprMetadata::new("G".to_string());
    let hir = parse("(a)(?<second>b)?").unwrap();
    let _ = expr_matcher::<char>(&hir, &mut meta);
    let groups = meta.take_groups();
    assert_eq!(groups.len(), 3);
    assert_eq!(groups[0].name.as_deref(), Some("whole_match"));
    assert!(groups[1].required);
    assert_eq!(groups[2].name.as_deref(), Some("second"));
    assert!(!groups[2].required);
}

#[test]
fn entries_sorted() {
    let sorted = sort_entries(vec![
        ClassEntry { value: 5, is_upper_bound: true },
        ClassEntry { value: 1, is_upper_bound: false },
        ClassEntry { value: 5, is_upper_bound: false },
    ]);
    assert_eq!(
        sorted,
        vec![
            ClassEntry { value: 1, is_upper_bound: false },
            ClassEntry { value: 5, is_upper_bound: false },
            ClassEntry { value: 5, is_upper_bound: true },
        ]
    );
}

#[test]
fn literal_type_written() {
    assert_eq!(
        text(impl_literal(&"R".to_string(), 2, &vec![104, 105])),
        "#[derive(Default, Clone, Copy)] pub struct RLiteral2; impl ::ct_regex::internal::matcher::Literal for RLiteral2 { const LITERAL: &[u8] = &[104, 105]; }\n"
    );
}

#[test]
fn numeric_widths() {
    assert_eq!(numeric_width_exec(1), Some(8));
    assert_eq!(numeric_width_exec(20), Some(8));
    assert_eq!(numeric_width_exec(38), Some(8));
    assert_eq!(numeric_width_exec(39), None);
}

#[test]
fn capture_type_written() {
    let groups = vec![
        Group { name: Some("whole_match".to_string()), required: true, digits: 0..0 },
        Group { name: None, required: false, digits: 0..0 },
    ];
    let (name, len, code) = impl_captures(&"Re".to_string(), &groups);
    assert_eq!(text(name), "ReCapture");
    assert_eq!(len, 2);
    let code = text(code);
    assert!(code.contains("pub struct ReCapture<'a, S: ::ct_regex::internal::haystack::HaystackSlice<'a>>(S, ::std::ops::Range<usize>, ::std::option::Option<::std::ops::Range<usize>>, ::std::marker::PhantomData<&'a ()>);"));
    assert!(code.contains("pub fn whole_match(&self) -> S"));
    assert!(code.contains("pub fn cap_1(&self) -> ::std::option::Option<S>"));
    assert!(code.contains("let [c0, c1, ] = ranges;"));
    assert!(code.contains("Self(hay, c0?, c1, ::std::marker::PhantomData)"));
    assert!(code.contains("holds 2 captures for the associated regex, [`Re`]"));
}

#[test]
fn regex_module_written() {
    let flags = Flags::from_text("i");
    let code = make_regex(&"pub".to_string(), &"Word".to_string(), &"a(b)".to_string(), &flags, false)
        .unwrap();
    assert!(code.starts_with("#[doc(hidden)] #[allow(non_snake_case)] mod __regex_Word { "));
    assert!(code.contains("impl ::ct_regex::internal::expr::Regex<u8, 2> for Word"));
    assert!(code.contains("impl ::ct_regex::internal::expr::Regex<char, 2> for Word"));
    assert!(code.contains("with flags: ['i']."));
    assert!(!code.contains("AnonRegex"));
    assert!(code.ends_with("pub use __regex_Word::{Word, WordCapture};\n"));
}

#[test]
fn regex_refused_pattern() {
    let flags = Flags::from_text("");
    assert!(make_regex(&"".to_string(), &"Bad".to_string(), &"(".to_string(), &flags, false).is_none());
    assert!(make_anon_regex(&"a)".to_string(), &flags).is_none());
}

#[test]
fn anonymous_regex_block() {
    let flags = Flags::from_text("");
    let code = make_anon_regex(&"x".to_string(), &flags).unwrap();
    assert!(code.starts_with("{ #[doc(hidden)]"));
    assert!(code.contains("impl ::ct_regex::internal::expr::AnonRegex<u8, 1> for __AnonRegex {}"));
    assert!(code.ends_with(" __AnonRegex }"));
}

fn class_bounds(meta: &ExprMetadata) -> Vec<Vec<(u32, bool)>> {
    meta.classes
        .iter()
        .map(|c| c.iter().map(|e| (e.value, e.is_upper_bound)).collect())
        .collect()
}

#[test]
fn perl_classes_become_ascii_classes() {
    let unicode = SyntaxConfig { unicode: true, utf8: true, ..Flags::from_text("").create_config() };
    let name = "P".to_string();

    let digits = TypeExpressions::parse_regex::<char>(&name, r"\d", ConfigExt::new(unicode)).unwrap();
    assert_eq!(class_bounds(&digits.meta), vec![vec![(48, false), (57, true)]]);

    let spaces = TypeExpressions::parse_regex::<char>(&name, r"\s", ConfigExt::new(unicode)).unwrap();
    assert_eq!(class_bounds(&spaces.meta), vec![vec![(9, false), (13, true), (32, false)]]);

    let in_brackets = TypeExpressions::parse_regex::<char>(&name, r"[\w.]", ConfigExt::new(unicode)).unwrap();
    assert_eq!(
        class_bounds(&in_brackets.meta),
        vec![vec![
            (46, false), (48, false), (57, true), (65, false), (90, true), (95, false),
            (97, false), (122, true),
        ]]
    );

    let mut keep = ConfigExt::new(unicode);
    keep.complex_classes(true);
    let full = TypeExpressions::parse_regex::<char>(&name, r"\d", keep).unwrap();
    assert!(full.meta.classes[0].len() > 2);

    let ascii = TypeExpressions::parse_regex::<char>(&name, "[[:digit:]]", keep).unwrap();
    let again = TypeExpressions::parse_regex::<char>(&name, "[[:digit:]]", ConfigExt::new(unicode)).unwrap();
    assert_eq!(class_bounds(&ascii.meta), class_bounds(&again.meta));
    assert_eq!(class_bounds(&again.meta), class_bounds(&digits.meta));
}

#[test]
fn regex_module_names_classes_without_writing_them() {
    let flags = Flags::from_text("");
    let code = make_regex(&"".to_string(), &"D".to_string(), &r"\d+".to_string(), &flags, false).unwrap();
    assert!(code.contains("ClassMatcher<char,DcharClass0>"));
    assert!(code.contains("ClassMatcher<u8,Du8Class0>"));
    assert!(!code.contains("ClassEntry"));
}

#[test]
fn leading_start_stays_in_the_matcher() {
    let unicode = SyntaxConfig { unicode: true, utf8: true, ..Flags::from_text("").create_config() };
    let t = TypeExpressions::parse_regex::<char>(&"S".to_string(), "^ab", ConfigExt::new(unicode)).unwrap();
    assert!(t.matcher.contains("::ct_regex::internal::matcher::Start"));
    assert!(t.anchors.contains("Start"));
}
