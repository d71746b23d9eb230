use arg_enum::case::RenameRule;
use arg_enum::text::{from_chars, str_eq, to_chars};

const ALL: [(&str, RenameRule); 8] = [
    ("lowercase", RenameRule::LowerCase),
    ("UPPERCASE", RenameRule::UpperCase),
    ("PascalCase", RenameRule::PascalCase),
    ("camelCase", RenameRule::CamelCase),
    ("snake_case", RenameRule::SnakeCase),
    ("SCREAMING_SNAKE_CASE", RenameRule::ScreamingSnakeCase),
    ("kebab-case", RenameRule::KebabCase),
    ("SCREAMING-KEBAB-CASE", RenameRule::ScreamingKebabCase),
];

#[test]
fn rule_names_are_matched_exactly() {
    for (name, rule) in ALL {
        assert_eq!(RenameRule::from_str(name), Some(rule));
    }
    assert_eq!(RenameRule::from_str("Snake_Case"), None);
    assert_eq!(RenameRule::from_str("snake_case "), None);
    assert_eq!(RenameRule::from_str("snakecase"), None);
    assert_eq!(RenameRule::from_str(""), None);
}

#[test]
fn every_rule_on_a_two_word_identifier() {
    let expected = [
        "verytasty",
        "VERYTASTY",
        "VeryTasty",
        "veryTasty",
        "very_tasty",
        "VERY_TASTY",
        "very-tasty",
        "VERY-TASTY",
    ];
    for ((_, rule), want) in ALL.iter().zip(expected) {
        assert_eq!(rule.apply_to_variant("VeryTasty"), want);
    }
}

#[test]
fn every_rule_on_a_single_letter() {
    let expected = ["a", "A", "A", "a", "a", "A", "a", "A"];
    for ((_, rule), want) in ALL.iter().zip(expected) {
        assert_eq!(rule.apply_to_variant("A"), want);
    }
}

#[test]
fn every_rule_on_the_empty_identifier() {
    for (_, rule) in ALL {
        assert_eq!(rule.apply_to_variant(""), "");
    }
}

#[test]
fn snake_case_marks_every_capital_but_the_first_character() {
    let rule = RenameRule::SnakeCase;
    assert_eq!(rule.apply_to_variant("SomeDefault"), "some_default");
    assert_eq!(rule.apply_to_variant("FooBar"), "foo_bar");
    assert_eq!(rule.apply_to_variant("ABC"), "a_b_c");
    assert_eq!(rule.apply_to_variant("fooBar"), "foo_bar");
    assert_eq!(rule.apply_to_variant("Foo2Bar"), "foo2_bar");
    assert_eq!(rule.apply_to_variant("Foo_Bar"), "foo__bar");
    assert_eq!(rule.apply_to_variant("_Foo"), "__foo");
}

#[test]
fn kebab_case_replaces_the_underscores_of_the_identifier_too() {
    assert_eq!(RenameRule::KebabCase.apply_to_variant("Foo_Bar"), "foo--bar");
    assert_eq!(RenameRule::ScreamingKebabCase.apply_to_variant("Foo_bar"), "FOO-BAR");
}

#[test]
fn only_ascii_letters_change_case() {
    assert_eq!(RenameRule::LowerCase.apply_to_variant("ÉcoleX"), "Écolex");
    assert_eq!(RenameRule::UpperCase.apply_to_variant("straßeX"), "STRAßEX");
    assert_eq!(RenameRule::SnakeCase.apply_to_variant("aÉb"), "aÉb");
}

#[test]
fn snake_case_twice_is_snake_case_once() {
    let rule = RenameRule::SnakeCase;
    for ident in ["FooBar", "foo_bar", "ABC", "A", "", "Foo_Bar", "x2Y"] {
        let once = rule.apply_to_variant(ident);
        assert_eq!(rule.apply_to_variant(&once), once);
    }
    assert_eq!(rule.apply_to_variant("foo_bar"), "foo_bar");
}

#[test]
fn rules_without_capitals_at_word_starts_are_idempotent() {
    let rules = [
        RenameRule::LowerCase,
        RenameRule::UpperCase,
        RenameRule::PascalCase,
        RenameRule::CamelCase,
        RenameRule::SnakeCase,
        RenameRule::KebabCase,
    ];
    for rule in rules {
        for ident in ["VeryTasty", "very_tasty", "X", "Foo_Bar"] {
            let once = rule.apply_to_variant(ident);
            assert_eq!(rule.apply_to_variant(&once), once);
        }
    }
}

#[test]
fn screaming_rules_are_not_idempotent() {
    let rule = RenameRule::ScreamingSnakeCase;
    let once = rule.apply_to_variant("FooBar");
    assert_eq!(once, "FOO_BAR");
    assert_eq!(rule.apply_to_variant(&once), "F_O_O__B_A_R");
}

#[test]
fn a_string_is_taken_apart_and_put_together() {
    let chars = to_chars("aé_Z");
    assert_eq!(chars, vec!['a', 'é', '_', 'Z']);
    assert_eq!(from_chars(&chars), "aé_Z");
    assert_eq!(to_chars(""), Vec::<char>::new());
    assert_eq!(from_chars(&Vec::new()), "");
}

#[test]
fn strings_compare_by_their_characters() {
    assert!(str_eq("rename", "rename"));
    assert!(!str_eq("rename", "rename_all"));
    assert!(!str_eq("Rename", "rename"));
    assert!(str_eq("", ""));
}
