//! Naming rules: the case conversions that turn a variant identifier into
//! its default display string.

use vstd::prelude::*;
use crate::text::{from_chars, str_eq, to_chars};

verus! {

/// Whether `c` is one of `A` ..= `Z`.
pub open spec fn is_upper(c: char) -> bool {
    'A' <= c && c <= 'Z'
}

/// Whether `c` is one of `a` ..= `z`.
pub open spec fn is_lower(c: char) -> bool {
    'a' <= c && c <= 'z'
}

/// `c` with a capital `A` ..= `Z` replaced by its small letter.
pub open spec fn lower(c: char) -> char {
    if is_upper(c) {
        ((c as u8) + 32) as char
    } else {
        c
    }
}

/// `c` with a small `a` ..= `z` replaced by its capital letter.
pub open spec fn upper(c: char) -> char {
    if is_lower(c) {
        ((c as u8) - 32) as char
    } else {
        c
    }
}

/// Every character of `s` lower-cased.
pub open spec fn lowercase(s: Seq<char>) -> Seq<char> {
    s.map_values(|c: char| lower(c))
}

/// Every character of `s` upper-cased.
pub open spec fn uppercase(s: Seq<char>) -> Seq<char> {
    s.map_values(|c: char| upper(c))
}

/// `s` with its first character, if it has one, lower-cased.
pub open spec fn camel_case(s: Seq<char>) -> Seq<char> {
    if s.len() == 0 {
        s
    } else {
        s.update(0, lower(s[0]))
    }
}

/// The words of `s` in lower case, joined by underscores. A word starts at
/// every capital letter; no underscore is put in front of the first
/// character.
pub open spec fn snake_case(s: Seq<char>) -> Seq<char>
    decreases s.len(),
{
    if s.len() == 0 {
        s
    } else if s.len() > 1 && is_upper(s.last()) {
        snake_case(s.drop_last()).push('_').push(lower(s.last()))
    } else {
        snake_case(s.drop_last()).push(lower(s.last()))
    }
}

/// `s` with every underscore replaced by a hyphen.
pub open spec fn hyphenated(s: Seq<char>) -> Seq<char> {
    s.map_values(|c: char| if c == '_' { '-' } else { c })
}

/// A case conversion that a type can select for all its variants.
#[derive(Clone, Copy, Debug, PartialEq, Eq, Structural)]
pub enum RenameRule {
    /// `lowercase`: every letter small.
    LowerCase,
    /// `UPPERCASE`: every letter capital.
    UpperCase,
    /// `PascalCase`: the identifier as it is written.
    PascalCase,
    /// `camelCase`: the first letter small.
    CamelCase,
    /// `snake_case`: small letters, words joined by `_`.
    SnakeCase,
    /// `SCREAMING_SNAKE_CASE`: capital letters, words joined by `_`.
    ScreamingSnakeCase,
    /// `kebab-case`: small letters, words joined by `-`.
    KebabCase,
    /// `SCREAMING-KEBAB-CASE`: capital letters, words joined by `-`.
    ScreamingKebabCase,
}

/// The rule that `name` selects, if it is the name of one.
pub open spec fn rule_named(name: Seq<char>) -> Option<RenameRule> {
    if name == "lowercase"@ {
        Some(RenameRule::LowerCase)
    } else if name == "UPPERCASE"@ {
        Some(RenameRule::UpperCase)
    } else if name == "PascalCase"@ {
        Some(RenameRule::PascalCase)
    } else if name == "camelCase"@ {
        Some(RenameRule::CamelCase)
    } else if name == "snake_case"@ {
        Some(RenameRule::SnakeCase)
    } else if name == "SCREAMING_SNAKE_CASE"@ {
        Some(RenameRule::ScreamingSnakeCase)
    } else if name == "kebab-case"@ {
        Some(RenameRule::KebabCase)
    } else if name == "SCREAMING-KEBAB-CASE"@ {
        Some(RenameRule::ScreamingKebabCase)
    } else {
        None
    }
}

/// The display string that `rule` gives the identifier `ident`.
pub open spec fn apply(rule: RenameRule, ident: Seq<char>) -> Seq<char> {
    match rule {
        RenameRule::LowerCase => lowercase(ident),
        RenameRule::UpperCase => uppercase(ident),
        RenameRule::PascalCase => ident,
        RenameRule::CamelCase => camel_case(ident),
        RenameRule::SnakeCase => snake_case(ident),
        RenameRule::ScreamingSnakeCase => uppercase(snake_case(ident)),
        RenameRule::KebabCase => hyphenated(snake_case(ident)),
        RenameRule::ScreamingKebabCase => hyphenated(uppercase(snake_case(ident))),
    }
}

fn to_lower(c: char) -> (r: char)
    ensures
        r == lower(c),
{
    if 'A' <= c && c <= 'Z' {
        let b: u8 = c as u8;
        (b + 32) as char
    } else {
        c
    }
}

fn to_upper(c: char) -> (r: char)
    ensures
        r == upper(c),
{
    if 'a' <= c && c <= 'z' {
        let b: u8 = c as u8;
        (b - 32) as char
    } else {
        c
    }
}

fn lowercased(chars: &Vec<char>) -> (r: Vec<char>)
    ensures
        r@ == lowercase(chars@),
{
    let mut out: Vec<char> = Vec::new();
    let mut i: usize = 0;
    while i < chars.len()
        invariant
            i <= chars.len(),
            out@ == lowercase(chars@).take(i as int),
        decreases chars.len() - i,
    {
        out.push(to_lower(chars[i]));
        i += 1;
        assert(out@ =~= lowercase(chars@).take(i as int));
    }
    assert(lowercase(chars@).take(i as int) =~= lowercase(chars@));
    out
}

fn uppercased(chars: &Vec<char>) -> (r: Vec<char>)
    ensures
        r@ == uppercase(chars@),
{
    let mut out: Vec<char> = Vec::new();
    let mut i: usize = 0;
    while i < chars.len()
        invariant
            i <= chars.len(),
            out@ == uppercase(chars@).take(i as int),
        decreases chars.len() - i,
    {
        out.push(to_upper(chars[i]));
        i += 1;
        assert(out@ =~= uppercase(chars@).take(i as int));
    }
    assert(uppercase(chars@).take(i as int) =~= uppercase(chars@));
    out
}

fn camel_cased(chars: &Vec<char>) -> (r: Vec<char>)
    ensures
        r@ == camel_case(chars@),
{
    let mut out: Vec<char> = Vec::new();
    let mut i: usize = 0;
    while i < chars.len()
        invariant
            i <= chars.len(),
            out@ == camel_case(chars@).take(i as int),
        decreases chars.len() - i,
    {
        out.push(if i == 0 { to_lower(chars[i]) } else { chars[i] });
        i += 1;
        assert(out@ =~= camel_case(chars@).take(i as int));
    }
    assert(camel_case(chars@).take(i as int) =~= camel_case(chars@));
    out
}

fn snake_cased(chars: &Vec<char>) -> (r: Vec<char>)
    ensures
        r@ == snake_case(chars@),
{
    let mut out: Vec<char> = Vec::new();
    let mut i: usize = 0;
    while i < chars.len()
        invariant
            i <= chars.len(),
            out@ == snake_case(chars@.take(i as int)),
        decreases chars.len() - i,
    {
        let c = chars[i];
        assert(chars@.take(i + 1).drop_last() =~= chars@.take(i as int));
        if i > 0 && 'A' <= c && c <= 'Z' {
            out.push('_');
        }
        out.push(to_lower(c));
        i += 1;
    }
    assert(chars@.take(i as int) =~= chars@);
    out
}

fn hyphenate(chars: &Vec<char>) -> (r: Vec<char>)
    ensures
        r@ == hyphenated(chars@),
{
    let mut out: Vec<char> = Vec::new();
    let mut i: usize = 0;
    while i < chars.len()
        invariant
            i <= chars.len(),
            out@ == hyphenated(chars@).take(i as int),
        decreases chars.len() - i,
    {
        out.push(if chars[i] == '_' { '-' } else { chars[i] });
        i += 1;
        assert(out@ =~= hyphenated(chars@).take(i as int));
    }
    assert(hyphenated(chars@).take(i as int) =~= hyphenated(chars@));
    out
}

impl RenameRule {
    /// Looks a rule up by its name. The names are matched exactly.
    pub fn from_str(name: &str) -> (r: Option<RenameRule>)
        ensures
            r == rule_named(name@),
    {
        if str_eq(name, "lowercase") {
            Some(RenameRule::LowerCase)
        } else if str_eq(name, "UPPERCASE") {
            Some(RenameRule::UpperCase)
        } else if str_eq(name, "PascalCase") {
            Some(RenameRule::PascalCase)
        } else if str_eq(name, "camelCase") {
            Some(RenameRule::CamelCase)
        } else if str_eq(name, "snake_case") {
            Some(RenameRule::SnakeCase)
        } else if str_eq(name, "SCREAMING_SNAKE_CASE") {
            Some(RenameRule::ScreamingSnakeCase)
        } else if str_eq(name, "kebab-case") {
            Some(RenameRule::KebabCase)
        } else if str_eq(name, "SCREAMING-KEBAB-CASE") {
            Some(RenameRule::ScreamingKebabCase)
        } else {
            None
        }
    }

    /// Converts the identifier of a variant to the case of this rule.
    pub fn apply_to_variant(&self, variant: &str) -> (r: String)
        ensures
            r@ == apply(*self, variant@),
    {
        let chars = to_chars(variant);
        let converted = match self {
            RenameRule::LowerCase => lowercased(&chars),
            RenameRule::UpperCase => uppercased(&chars),
            RenameRule::PascalCase => chars,
            RenameRule::CamelCase => camel_cased(&chars),
            RenameRule::SnakeCase => snake_cased(&chars),
            RenameRule::ScreamingSnakeCase => uppercased(&snake_cased(&chars)),
            RenameRule::KebabCase => hyphenate(&snake_cased(&chars)),
            RenameRule::ScreamingKebabCase => hyphenate(&uppercased(&snake_cased(&chars))),
        };
        from_chars(&converted)
    }
}

/// No character of `s` is a capital `A` ..= `Z`.
pub open spec fn has_no_upper(s: Seq<char>) -> bool {
    forall|i: int| 0 <= i < s.len() ==> !is_upper(#[trigger] s[i])
}

/// The snake case of any identifier holds no capital letter.
pub proof fn lemma_snake_case_has_no_upper(s: Seq<char>)
    ensures
        has_no_upper(snake_case(s)),
    decreases s.len(),
{
    if s.len() > 0 {
        lemma_snake_case_has_no_upper(s.drop_last());
    }
}

/// Snake case leaves an identifier without capital letters as it is.
pub proof fn lemma_snake_case_fixes_lower(s: Seq<char>)
    requires
        has_no_upper(s),
    ensures
        snake_case(s) == s,
    decreases s.len(),
{
    if s.len() > 0 {
        let init = s.drop_last();
        assert forall|i: int| 0 <= i < init.len() implies !is_upper(#[trigger] init[i]) by {
            assert(init[i] == s[i]);
        }
        lemma_snake_case_fixes_lower(init);
        assert(!is_upper(s[s.len() - 1]));
        assert(init.push(s.last()) =~= s);
    }
}

/// Applying a rule twice gives what applying it once gives, for every rule
/// that does not produce capital letters out of word boundaries: all but
/// the two screaming rules, whose output consists of one-letter words.
pub proof fn lemma_apply_idempotent(rule: RenameRule, ident: Seq<char>)
    requires
        rule != RenameRule::ScreamingSnakeCase,
        rule != RenameRule::ScreamingKebabCase,
    ensures
        apply(rule, apply(rule, ident)) == apply(rule, ident),
{
    let once = apply(rule, ident);
    match rule {
        RenameRule::LowerCase => {
            assert(lowercase(once) =~= once);
        },
        RenameRule::UpperCase => {
            assert(uppercase(once) =~= once);
        },
        RenameRule::PascalCase => {},
        RenameRule::CamelCase => {
            assert(camel_case(once) =~= once);
        },
        RenameRule::SnakeCase => {
            lemma_snake_case_has_no_upper(ident);
            lemma_snake_case_fixes_lower(once);
        },
        RenameRule::KebabCase => {
            lemma_snake_case_has_no_upper(ident);
            assert(has_no_upper(once)) by {
                assert forall|i: int| 0 <= i < once.len() implies !is_upper(#[trigger] once[i]) by {
                    assert(!is_upper(snake_case(ident)[i]));
                }
            }
            lemma_snake_case_fixes_lower(once);
            assert(hyphenated(once) =~= once);
        },
        _ => {},
    }
}

} // verus!
