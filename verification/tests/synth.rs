use arg_enum::meta::{ResolvedModel, ResolvedVariant};
use arg_enum::synth::{synthesize, FromStrArm, GeneratedSource, ParseError, ToStrArm};

fn model(pairs: &[(&str, &str)], default_variant: Option<&str>) -> ResolvedModel {
    ResolvedModel {
        ident: "Arg".to_string(),
        variants: pairs
            .iter()
            .map(|(ident, display)| ResolvedVariant { ident: ident.to_string(), display: display.to_string() })
            .collect(),
        default_variant: default_variant.map(str::to_string),
    }
}

#[test]
fn one_arm_of_each_operation_for_each_variant() {
    let source = synthesize(&model(&[("A", "a"), ("B", "bee")], Some("B")));
    assert_eq!(
        source,
        GeneratedSource {
            ident: "Arg".to_string(),
            from_str_arms: vec![
                FromStrArm { pattern: "a".to_string(), variant: "A".to_string() },
                FromStrArm { pattern: "bee".to_string(), variant: "B".to_string() },
            ],
            to_str_arms: vec![
                ToStrArm { variant: "A".to_string(), text: "a".to_string() },
                ToStrArm { variant: "B".to_string(), text: "bee".to_string() },
            ],
            default_impl: Some("B".to_string()),
            possible_values: vec!["a".to_string(), "bee".to_string()],
        }
    );
}

#[test]
fn an_empty_model_gives_empty_items() {
    let source = synthesize(&model(&[], None));
    assert!(source.from_str_arms.is_empty());
    assert!(source.to_str_arms.is_empty());
    assert!(source.possible_values().is_empty());
    assert_eq!(source.default_value(), None);
    assert_eq!(
        source.from_str(""),
        Err(ParseError { enum_name: "Arg".to_string(), input: String::new() })
    );
    assert_eq!(source.to_str("A"), None);
}

#[test]
fn parsing_is_exact_and_case_sensitive() {
    let source = synthesize(&model(&[("A", "a"), ("FooBar", "foo_bar")], None));
    assert_eq!(source.from_str("a"), Ok("A".to_string()));
    assert_eq!(source.from_str("foo_bar"), Ok("FooBar".to_string()));
    for rejected in ["A", "Foo_Bar", "foo_bar ", " a", "", "FooBar", "foo"] {
        assert_eq!(
            source.from_str(rejected),
            Err(ParseError { enum_name: "Arg".to_string(), input: rejected.to_string() })
        );
    }
}

#[test]
fn a_string_outside_the_listing_is_rejected_by_type_and_text() {
    let source = synthesize(&model(&[("A", "a"), ("B", "b")], None));
    let listing = source.possible_values();
    for s in ["a", "b", "c", "bogus", "ab"] {
        assert_eq!(source.from_str(s).is_err(), !listing.contains(&s.to_string()));
    }
    let error = source.from_str("bogus").unwrap_err();
    assert_eq!(error, ParseError { enum_name: "Arg".to_string(), input: "bogus".to_string() });
    assert_eq!(error.message(), "Invalid Arg value: bogus");
}

#[test]
fn of_two_variants_with_one_display_string_the_first_is_parsed() {
    let source = synthesize(&model(&[("A", "same"), ("B", "same"), ("C", "c")], None));
    assert_eq!(source.from_str("same"), Ok("A".to_string()));
    assert_eq!(source.to_str("B"), Some("same".to_string()));
    assert_eq!(source.possible_values(), vec!["same", "same", "c"]);
}

#[test]
fn formatting_gives_the_display_string_of_the_variant() {
    let source = synthesize(&model(&[("A", "a"), ("B", "foo_in_disguise")], None));
    assert_eq!(source.to_str("A"), Some("a".to_string()));
    assert_eq!(source.to_str("B"), Some("foo_in_disguise".to_string()));
    assert_eq!(source.to_str("a"), None);
    assert_eq!(source.to_str("C"), None);
}

#[test]
fn the_default_provider_exists_only_with_a_default() {
    assert_eq!(synthesize(&model(&[("A", "a")], None)).default_value(), None);
    assert_eq!(synthesize(&model(&[("A", "a")], Some("A"))).default_value(), Some("A".to_string()));
}

#[test]
fn the_listing_is_in_model_order() {
    let source = synthesize(&model(&[("Z", "z"), ("A", "a"), ("M", "m")], None));
    assert_eq!(source.possible_values(), vec!["z", "a", "m"]);
}
