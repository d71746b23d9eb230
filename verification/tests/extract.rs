use arg_enum::attr::{SyntaxError, SyntaxErrorKind};
use arg_enum::decl::{Attribute, EnumDeclaration, Fields, TypeKind, Variant};
use arg_enum::derive::{arg_enum_type, derive_arg_enum, Diagnostic};
use arg_enum::error::ExtractionError;
use arg_enum::meta::{extract, get_attr, has_attr, ResolvedModel, ResolvedVariant};
use arg_enum::token::{Delimiter, Ident, Span, Token, TokenKind};

const TYPE_SPAN: Span = Span { start: 1, end: 2 };

fn at(n: usize) -> Span {
    Span { start: n, end: n + 1 }
}

fn word(name: &str, n: usize) -> Token {
    Token { kind: TokenKind::Ident(name.to_string()), span: at(n) }
}

fn punct(c: char, n: usize) -> Token {
    Token { kind: TokenKind::Punct(c), span: at(n) }
}

fn quoted(value: &str, n: usize) -> Token {
    Token { kind: TokenKind::Literal(format!("\"{}\"", value)), span: at(n) }
}

fn open(n: usize) -> Token {
    Token { kind: TokenKind::Open(Delimiter::Parenthesis), span: at(n) }
}

fn close(n: usize) -> Token {
    Token { kind: TokenKind::Close(Delimiter::Parenthesis), span: at(n) }
}

/// `#[arg_enum(..)]` with the given entries; a value is `Some`.
/// The tokens are numbered from `base`: `(` is `base`, the first key
/// `base + 1`, and so on.
fn annotation(base: usize, entries: &[(&str, Option<&str>)]) -> Attribute {
    let mut tokens = vec![open(base)];
    let mut n = base + 1;
    for (i, (key, value)) in entries.iter().enumerate() {
        if i > 0 {
            tokens.push(punct(',', n));
            n += 1;
        }
        tokens.push(word(key, n));
        n += 1;
        if let Some(v) = value {
            tokens.push(punct('=', n));
            tokens.push(quoted(v, n + 1));
            n += 2;
        }
    }
    tokens.push(close(n));
    Attribute { path: "arg_enum".to_string(), tokens, span: at(base + 500) }
}

fn other(path: &str) -> Attribute {
    Attribute { path: path.to_string(), tokens: vec![punct('=', 7), quoted("text", 8)], span: at(9) }
}

fn variant(name: &str, n: usize, attrs: Vec<Attribute>) -> Variant {
    Variant {
        ident: Ident { name: name.to_string(), span: at(n) },
        attrs,
        fields: Fields::Unit,
        span: at(n + 1000),
    }
}

fn declaration(attrs: Vec<Attribute>, variants: Vec<Variant>) -> EnumDeclaration {
    EnumDeclaration {
        ident: Ident { name: "Arg".to_string(), span: at(3) },
        attrs,
        kind: TypeKind::Enum,
        variants,
        span: TYPE_SPAN,
    }
}

fn resolved(pairs: &[(&str, &str)]) -> Vec<ResolvedVariant> {
    pairs
        .iter()
        .map(|(ident, display)| ResolvedVariant { ident: ident.to_string(), display: display.to_string() })
        .collect()
}

fn abc() -> EnumDeclaration {
    declaration(
        vec![annotation(10, &[("rename_all", Some("snake_case"))])],
        vec![
            variant("A", 20, vec![]),
            variant("B", 30, vec![annotation(40, &[("rename", Some("foo_in_disguise"))])]),
            variant("C", 50, vec![annotation(60, &[("default", None)])]),
        ],
    )
}

#[test]
fn rule_rename_and_default_together() {
    let model = extract(&abc()).unwrap();
    assert_eq!(
        model,
        ResolvedModel {
            ident: "Arg".to_string(),
            variants: resolved(&[("A", "a"), ("B", "foo_in_disguise"), ("C", "c")]),
            default_variant: Some("C".to_string()),
        }
    );
    let source = arg_enum_type(&abc()).unwrap();
    assert_eq!(source.possible_values(), vec!["a", "foo_in_disguise", "c"]);
    assert_eq!(source.to_str("A"), Some("a".to_string()));
    assert_eq!(source.from_str("foo_in_disguise"), Ok("B".to_string()));
    assert!(source.from_str("bogus").is_err());
    assert_eq!(source.default_value(), Some("C".to_string()));
}

#[test]
fn a_variant_with_fields_is_refused_by_name() {
    for fields in [Fields::Unnamed, Fields::Named] {
        let mut input = abc();
        input.variants[1].fields = fields;
        assert_eq!(
            extract(&input),
            Err(ExtractionError::UnsupportedShape { variant: Some("B".to_string()), span: at(1030) })
        );
    }
}

#[test]
fn the_first_variant_with_fields_is_the_one_named() {
    let mut input = abc();
    input.variants[2].fields = Fields::Named;
    input.variants[1].fields = Fields::Unnamed;
    assert_eq!(
        extract(&input),
        Err(ExtractionError::UnsupportedShape { variant: Some("B".to_string()), span: at(1030) })
    );
}

#[test]
fn what_is_no_enumeration_is_refused() {
    for kind in [TypeKind::Struct, TypeKind::Union] {
        let mut input = declaration(vec![], vec![]);
        input.kind = kind;
        assert_eq!(
            extract(&input),
            Err(ExtractionError::UnsupportedShape { variant: None, span: TYPE_SPAN })
        );
    }
}

#[test]
fn the_shape_is_checked_before_any_annotation_is_read() {
    let mut input = declaration(
        vec![annotation(10, &[("rename_all", Some("no_such_rule"))])],
        vec![
            variant("A", 20, vec![annotation(40, &[("rename", None)])]),
            variant("B", 30, vec![]),
        ],
    );
    input.variants[1].fields = Fields::Unnamed;
    assert_eq!(
        extract(&input),
        Err(ExtractionError::UnsupportedShape { variant: Some("B".to_string()), span: at(1030) })
    );
    input.variants[1].fields = Fields::Unit;
    assert_eq!(
        extract(&input),
        Err(ExtractionError::UnknownNamingRule { rule: "no_such_rule".to_string(), span: TYPE_SPAN })
    );
}

#[test]
fn an_enumeration_without_variants_has_an_empty_model() {
    assert_eq!(
        extract(&declaration(vec![], vec![])),
        Ok(ResolvedModel { ident: "Arg".to_string(), variants: vec![], default_variant: None })
    );
}

#[test]
fn without_annotations_every_variant_is_displayed_by_its_name() {
    let input = declaration(
        vec![other("derive")],
        vec![variant("Alpha", 20, vec![]), variant("beta", 30, vec![other("doc")]), variant("GAMMA", 40, vec![])],
    );
    let model = extract(&input).unwrap();
    assert_eq!(model.variants, resolved(&[("Alpha", "Alpha"), ("beta", "beta"), ("GAMMA", "GAMMA")]));
    assert_eq!(model.default_variant, None);
    let source = arg_enum_type(&input).unwrap();
    for name in ["Alpha", "beta", "GAMMA"] {
        let shown = source.to_str(name).unwrap();
        assert_eq!(shown, name);
        assert_eq!(source.from_str(&shown), Ok(name.to_string()));
    }
    assert_eq!(source.default_value(), None);
}

#[test]
fn a_second_default_is_an_error_that_names_both() {
    let input = declaration(
        vec![],
        vec![
            variant("A", 20, vec![annotation(40, &[("default", None)])]),
            variant("B", 30, vec![]),
            variant("C", 50, vec![annotation(60, &[("default", None)])]),
            variant("D", 70, vec![annotation(80, &[("default", None)])]),
        ],
    );
    let error = extract(&input).unwrap_err();
    assert_eq!(
        error,
        ExtractionError::DuplicateDefault {
            enum_name: "Arg".to_string(),
            first: "A".to_string(),
            second: "C".to_string(),
            span: at(50),
        }
    );
    assert_eq!(error.message(), "Duplicate default value for Arg: A and C");
    assert_eq!(error.span(), at(50));
}

#[test]
fn one_default_twice_on_one_variant_is_one_default() {
    let input = declaration(
        vec![],
        vec![variant("A", 20, vec![annotation(40, &[("default", None), ("default", None)])])],
    );
    assert_eq!(extract(&input).unwrap().default_variant, Some("A".to_string()));
}

#[test]
fn an_explicit_rename_overrides_the_rule_wherever_it_stands() {
    let orders: Vec<Vec<Attribute>> = vec![
        vec![annotation(40, &[("rename", Some("x-y")), ("default", None)])],
        vec![annotation(40, &[("default", None), ("rename", Some("x-y"))])],
        vec![annotation(40, &[("default", None)]), annotation(60, &[("rename", Some("x-y"))])],
        vec![other("doc"), annotation(60, &[("rename", Some("x-y"))]), annotation(80, &[("default", None)])],
    ];
    for rule in ["lowercase", "UPPERCASE", "PascalCase", "camelCase", "snake_case", "SCREAMING_SNAKE_CASE", "kebab-case", "SCREAMING-KEBAB-CASE"] {
        for attrs in &orders {
            let input = declaration(
                vec![annotation(10, &[("rename_all", Some(rule))])],
                vec![variant("FooBar", 20, attrs.clone()), variant("FooBar2", 30, vec![])],
            );
            let model = extract(&input).unwrap();
            assert_eq!(model.variants[0].display, "x-y");
            assert_eq!(model.variants[0].ident, "FooBar");
            assert_eq!(model.default_variant, Some("FooBar".to_string()));
            assert_ne!(model.variants[1].display, "x-y");
        }
    }
}

#[test]
fn the_rule_applies_to_the_variants_without_a_rename() {
    let input = declaration(
        vec![other("doc"), annotation(10, &[("rename_all", Some("kebab-case"))])],
        vec![variant("SomeDefault", 20, vec![]), variant("FooBar", 30, vec![])],
    );
    assert_eq!(
        extract(&input).unwrap().variants,
        resolved(&[("SomeDefault", "some-default"), ("FooBar", "foo-bar")])
    );
}

#[test]
fn the_first_entry_with_a_key_decides() {
    let attrs = vec![
        other("arg_enums"),
        annotation(10, &[("x", None), ("rename", Some("one")), ("rename", Some("two"))]),
        annotation(40, &[("rename", Some("three"))]),
    ];
    assert_eq!(get_attr(&attrs, "rename"), Ok(Some("one".to_string())));
    assert_eq!(get_attr(&attrs, "rename_all"), Ok(None));
    assert_eq!(has_attr(&attrs, "x"), Ok(true));
    assert_eq!(has_attr(&attrs, "default"), Ok(false));
    assert_eq!(get_attr(&vec![], "rename"), Ok(None));
    assert_eq!(has_attr(&vec![], "default"), Ok(false));
}

#[test]
fn a_key_that_needs_a_value_must_have_one() {
    let attrs = vec![annotation(10, &[("default", None), ("rename", None)])];
    let error = get_attr(&attrs, "rename").unwrap_err();
    assert_eq!(error, ExtractionError::MissingAttributeValue { key: "rename".to_string(), span: at(13) });
    assert_eq!(error.message(), "Missing value for attribute rename");
    let input = declaration(vec![annotation(10, &[("rename_all", None)])], vec![]);
    assert_eq!(
        extract(&input),
        Err(ExtractionError::MissingAttributeValue { key: "rename_all".to_string(), span: at(11) })
    );
}

#[test]
fn a_flag_must_not_have_a_value() {
    let attrs = vec![annotation(10, &[("default", Some("yes"))])];
    let error = has_attr(&attrs, "default").unwrap_err();
    assert_eq!(error, ExtractionError::UnexpectedAttributeValue { key: "default".to_string(), span: at(13) });
    assert_eq!(error.message(), "Unexpected value for attribute default");
    let input = declaration(vec![], vec![variant("A", 20, attrs)]);
    assert_eq!(extract(&input), Err(error));
}

#[test]
fn an_unknown_rule_is_an_error_at_the_type() {
    let input = declaration(vec![annotation(10, &[("rename_all", Some("Title Case"))])], vec![variant("A", 20, vec![])]);
    let error = extract(&input).unwrap_err();
    assert_eq!(error, ExtractionError::UnknownNamingRule { rule: "Title Case".to_string(), span: TYPE_SPAN });
    assert_eq!(error.message(), "Unknown rename rule Title Case");
}

#[test]
fn a_fault_in_an_annotation_is_a_syntax_error() {
    let mut broken = annotation(10, &[("rename", Some("x"))]);
    broken.tokens.pop();
    let fault = SyntaxError { kind: SyntaxErrorKind::ExpectedComma, span: at(510) };
    assert_eq!(get_attr(&vec![broken.clone()], "rename"), Err(ExtractionError::SyntaxError(fault)));
    assert_eq!(has_attr(&vec![broken.clone()], "default"), Err(ExtractionError::SyntaxError(fault)));
    let error = extract(&declaration(vec![], vec![variant("A", 20, vec![broken])])).unwrap_err();
    assert_eq!(error, ExtractionError::SyntaxError(fault));
    assert_eq!(error.message(), "expected `,`");
    assert_eq!(error.span(), at(510));
}

#[test]
fn a_fault_behind_the_entry_that_decides_is_not_reached() {
    let mut broken = annotation(40, &[("default", None)]);
    broken.tokens.remove(0);
    let attrs = vec![annotation(10, &[("rename", Some("x"))]), broken];
    assert_eq!(get_attr(&attrs, "rename"), Ok(Some("x".to_string())));
    assert_eq!(
        has_attr(&attrs, "default"),
        Err(ExtractionError::SyntaxError(SyntaxError { kind: SyntaxErrorKind::ExpectedParentheses, span: at(41) }))
    );
}

#[test]
fn an_annotation_under_another_marker_is_not_read() {
    let mut foreign = annotation(10, &[("rename", Some("x")), ("default", None)]);
    foreign.path = "serde".to_string();
    let mut broken = other("doc");
    broken.tokens.clear();
    let attrs = vec![foreign, broken];
    assert_eq!(get_attr(&attrs, "rename"), Ok(None));
    assert_eq!(has_attr(&attrs, "default"), Ok(false));
}

#[test]
fn the_first_error_in_declaration_order_is_returned() {
    let input = declaration(
        vec![],
        vec![
            variant("A", 20, vec![annotation(40, &[("default", None)])]),
            variant("B", 30, vec![annotation(60, &[("rename", None)])]),
            variant("C", 50, vec![annotation(80, &[("default", None)])]),
        ],
    );
    assert_eq!(
        extract(&input),
        Err(ExtractionError::MissingAttributeValue { key: "rename".to_string(), span: at(61) })
    );
}

#[test]
fn the_messages_of_a_refused_shape() {
    let whole = ExtractionError::UnsupportedShape { variant: None, span: TYPE_SPAN };
    assert_eq!(whole.message(), "#[derive(ArgEnum)] only works on enums");
    let one = ExtractionError::UnsupportedShape { variant: Some("B".to_string()), span: at(4) };
    assert_eq!(one.message(), "#[derive(ArgEnum)] only works on unit enum variants");
    assert_eq!(one.span(), at(4));
}

#[test]
fn the_derivation_gives_the_items_or_one_diagnostic() {
    let source = derive_arg_enum(&abc()).unwrap();
    assert_eq!(source, arg_enum_type(&abc()).unwrap());
    assert_eq!(source.ident, "Arg");
    let mut input = abc();
    input.variants[0].attrs.push(annotation(70, &[("default", None)]));
    assert_eq!(
        derive_arg_enum(&input),
        Err(Diagnostic { message: "Duplicate default value for Arg: A and C".to_string(), span: at(50) })
    );
    assert_eq!(arg_enum_type(&input).unwrap_err().span(), at(50));
}
