//! Code synthesis: from the validated model to the four generated items,
//! and what each of them does once it is part of the program.

use vstd::prelude::*;
use crate::meta::{ResolvedModel, ResolvedModelView, ResolvedVariantView};
use crate::text::str_eq;

verus! {

/// One arm of the generated parse operation: the display string that it
/// matches, and the variant that it gives.
#[derive(Clone, Debug, PartialEq, Eq)]
pub struct FromStrArm {
    pub pattern: String,
    pub variant: String,
}

/// The model of a [`FromStrArm`].
pub struct FromStrArmView {
    pub pattern: Seq<char>,
    pub variant: Seq<char>,
}

impl View for FromStrArm {
    type V = FromStrArmView;

    open spec fn view(&self) -> FromStrArmView {
        FromStrArmView { pattern: self.pattern@, variant: self.variant@ }
    }
}

impl DeepView for FromStrArm {
    type V = FromStrArmView;

    open spec fn deep_view(&self) -> FromStrArmView {
        self@
    }
}

/// One arm of the generated format operation: the variant that it matches,
/// and the display string that it gives.
#[derive(Clone, Debug, PartialEq, Eq)]
pub struct ToStrArm {
    pub variant: String,
    pub text: String,
}

/// The model of a [`ToStrArm`].
pub struct ToStrArmView {
    pub variant: Seq<char>,
    pub text: Seq<char>,
}

impl View for ToStrArm {
    type V = ToStrArmView;

    open spec fn view(&self) -> ToStrArmView {
        ToStrArmView { variant: self.variant@, text: self.text@ }
    }
}

impl DeepView for ToStrArm {
    type V = ToStrArmView;

    open spec fn deep_view(&self) -> ToStrArmView {
        self@
    }
}

/// The four generated items of one type: the arms of its parse operation,
/// the arms of its format operation, the variant that its default-value
/// provider returns (no provider is generated without one), and the
/// listing of its legal values.
#[derive(Clone, Debug, PartialEq, Eq)]
pub struct GeneratedSource {
    pub ident: String,
    pub from_str_arms: Vec<FromStrArm>,
    pub to_str_arms: Vec<ToStrArm>,
    pub default_impl: Option<String>,
    pub possible_values: Vec<String>,
}

/// The model of a [`GeneratedSource`].
pub struct GeneratedSourceView {
    pub ident: Seq<char>,
    pub from_str_arms: Seq<FromStrArmView>,
    pub to_str_arms: Seq<ToStrArmView>,
    pub default_impl: Option<Seq<char>>,
    pub possible_values: Seq<Seq<char>>,
}

impl View for GeneratedSource {
    type V = GeneratedSourceView;

    open spec fn view(&self) -> GeneratedSourceView {
        GeneratedSourceView {
            ident: self.ident@,
            from_str_arms: self.from_str_arms.deep_view(),
            to_str_arms: self.to_str_arms.deep_view(),
            default_impl: self.default_impl.deep_view(),
            possible_values: self.possible_values.deep_view(),
        }
    }
}

/// The rejection of a string that is no legal value of the type.
#[derive(Clone, Debug, PartialEq, Eq)]
pub struct ParseError {
    pub enum_name: String,
    pub input: String,
}

/// The model of a [`ParseError`].
pub struct ParseErrorView {
    pub enum_name: Seq<char>,
    pub input: Seq<char>,
}

impl View for ParseError {
    type V = ParseErrorView;

    open spec fn view(&self) -> ParseErrorView {
        ParseErrorView { enum_name: self.enum_name@, input: self.input@ }
    }
}

impl ParseErrorView {
    /// The text of the rejection.
    pub open spec fn message(self) -> Seq<char> {
        "Invalid "@ + self.enum_name + " value: "@ + self.input
    }
}

impl ParseError {
    /// The rejection as the generated parse operation words it.
    pub fn message(&self) -> (r: String)
        ensures
            r@ == self@.message(),
    {
        let mut text = "Invalid ".to_owned();
        text.append(self.enum_name.as_str());
        text.append(" value: ");
        text.append(self.input.as_str());
        text
    }
}

/// The generated items that a model gives: one arm of each operation and
/// one legal value for each variant, in model order.
pub open spec fn synthesis(model: ResolvedModelView) -> GeneratedSourceView {
    GeneratedSourceView {
        ident: model.ident,
        from_str_arms: model.variants.map_values(
            |v: ResolvedVariantView| FromStrArmView { pattern: v.display, variant: v.ident },
        ),
        to_str_arms: model.variants.map_values(
            |v: ResolvedVariantView| ToStrArmView { variant: v.ident, text: v.display },
        ),
        default_impl: model.default_variant,
        possible_values: model.variants.map_values(|v: ResolvedVariantView| v.display),
    }
}

/// The variant of the first arm that matches `s` exactly.
pub open spec fn first_match(arms: Seq<FromStrArmView>, s: Seq<char>) -> Option<Seq<char>>
    decreases arms.len(),
{
    if arms.len() == 0 {
        None
    } else if arms[0].pattern == s {
        Some(arms[0].variant)
    } else {
        first_match(arms.drop_first(), s)
    }
}

/// The display string of the first arm for `variant`.
pub open spec fn first_text(arms: Seq<ToStrArmView>, variant: Seq<char>) -> Option<Seq<char>>
    decreases arms.len(),
{
    if arms.len() == 0 {
        None
    } else if arms[0].variant == variant {
        Some(arms[0].text)
    } else {
        first_text(arms.drop_first(), variant)
    }
}

impl GeneratedSourceView {
    /// The four items speak of the same variants, in the same order.
    pub open spec fn wf(self) -> bool {
        &&& self.to_str_arms.len() == self.from_str_arms.len()
        &&& self.possible_values.len() == self.from_str_arms.len()
        &&& forall|i: int|
            0 <= i < self.from_str_arms.len() ==> {
                &&& (#[trigger] self.from_str_arms[i]).variant == self.to_str_arms[i].variant
                &&& self.from_str_arms[i].pattern == self.to_str_arms[i].text
                &&& self.from_str_arms[i].pattern == self.possible_values[i]
            }
        &&& self.default_impl matches Some(name) ==> exists|i: int|
            0 <= i < self.to_str_arms.len() && (#[trigger] self.to_str_arms[i]).variant == name
    }

    /// What the parse operation gives for `s`: the variant of the first
    /// arm that matches it, or the rejection of `s`.
    pub open spec fn parsed(self, s: Seq<char>) -> Result<Seq<char>, ParseErrorView> {
        match first_match(self.from_str_arms, s) {
            Some(variant) => Ok(variant),
            None => Err(ParseErrorView { enum_name: self.ident, input: s }),
        }
    }

    /// What the format operation gives for the variant named `variant`;
    /// `None` where the type has no such variant.
    pub open spec fn formatted(self, variant: Seq<char>) -> Option<Seq<char>> {
        first_text(self.to_str_arms, variant)
    }
}

/// Turns the model into the four generated items. This cannot fail: the
/// model is already validated.
pub fn synthesize(model: &ResolvedModel) -> (r: GeneratedSource)
    ensures
        r@ == synthesis(model@),
        model@.wf() ==> r@.wf(),
{
    proof {
        if model@.wf() {
            lemma_synthesis_wf(model@);
        }
    }
    let mut from_str_arms: Vec<FromStrArm> = Vec::new();
    let mut to_str_arms: Vec<ToStrArm> = Vec::new();
    let mut possible_values: Vec<String> = Vec::new();
    let ghost goal = synthesis(model@);
    let mut i: usize = 0;
    while i < model.variants.len()
        invariant
            i <= model.variants.len(),
            goal == synthesis(model@),
            from_str_arms.deep_view() == goal.from_str_arms.take(i as int),
            to_str_arms.deep_view() == goal.to_str_arms.take(i as int),
            possible_values.deep_view() == goal.possible_values.take(i as int),
        decreases model.variants.len() - i,
    {
        let v = &model.variants[i];
        let ghost parse_arms = from_str_arms.deep_view();
        let ghost format_arms = to_str_arms.deep_view();
        let ghost values = possible_values.deep_view();
        let ghost entry = model@.variants[i as int];
        from_str_arms.push(FromStrArm { pattern: v.display.clone(), variant: v.ident.clone() });
        to_str_arms.push(ToStrArm { variant: v.ident.clone(), text: v.display.clone() });
        possible_values.push(v.display.clone());
        i += 1;
        assert(from_str_arms.deep_view() =~= parse_arms.push(
            FromStrArmView { pattern: entry.display, variant: entry.ident },
        ));
        assert(to_str_arms.deep_view() =~= format_arms.push(
            ToStrArmView { variant: entry.ident, text: entry.display },
        ));
        assert(possible_values.deep_view() =~= values.push(entry.display));
        assert(from_str_arms.deep_view() =~= goal.from_str_arms.take(i as int));
        assert(to_str_arms.deep_view() =~= goal.to_str_arms.take(i as int));
        assert(possible_values.deep_view() =~= goal.possible_values.take(i as int));
    }
    assert(goal.from_str_arms.take(i as int) =~= goal.from_str_arms);
    assert(goal.to_str_arms.take(i as int) =~= goal.to_str_arms);
    assert(goal.possible_values.take(i as int) =~= goal.possible_values);
    let default_impl = match &model.default_variant {
        Some(name) => Some(name.clone()),
        None => None,
    };
    GeneratedSource {
        ident: model.ident.clone(),
        from_str_arms,
        to_str_arms,
        default_impl,
        possible_values,
    }
}

impl GeneratedSource {
    /// What the generated parse operation does: `s` is compared with the
    /// display strings, exactly and in order, and the first match decides.
    /// A string that matches none is rejected, with the name of the type
    /// and the string itself. Where the items are consistent, these are the
    /// strings that the listing of legal values does not hold.
    pub fn from_str(&self, s: &str) -> (r: Result<String, ParseError>)
        ensures
            match r {
                Ok(variant) => self@.parsed(s@) == Ok::<Seq<char>, ParseErrorView>(variant@),
                Err(e) => self@.parsed(s@) == Err::<Seq<char>, ParseErrorView>(e@),
            },
            self@.wf() ==> (r is Err <==> !self@.possible_values.contains(s@)),
    {
        let ghost arms = self@.from_str_arms;
        assert(arms.skip(0) =~= arms);
        let mut i: usize = 0;
        while i < self.from_str_arms.len()
            invariant
                i <= self.from_str_arms.len(),
                arms == self@.from_str_arms,
                first_match(arms, s@) == first_match(arms.skip(i as int), s@),
                forall|j: int| 0 <= j < i ==> (#[trigger] arms[j]).pattern != s@,
            decreases self.from_str_arms.len() - i,
        {
            let arm = &self.from_str_arms[i];
            assert(arms.skip(i as int)[0] == arm@);
            assert(arms.skip(i as int).drop_first() =~= arms.skip(i + 1));
            if str_eq(arm.pattern.as_str(), s) {
                proof {
                    if self@.wf() {
                        assert(arms[i as int].pattern == self@.possible_values[i as int]);
                    }
                }
                return Ok(arm.variant.clone());
            }
            i += 1;
        }
        proof {
            if self@.wf() {
                assert forall|j: int| 0 <= j < self@.possible_values.len() implies self@.possible_values[j] != s@ by {
                    assert(arms[j].pattern == self@.possible_values[j]);
                }
            }
        }
        Err(ParseError { enum_name: self.ident.clone(), input: s.to_owned() })
    }

    /// What the generated format operation does: the display string of
    /// the variant named `variant`. Every variant has an arm, so the
    /// operation is total on the variants; `None` is for a name that is no
    /// variant of the type, which the host's type check rules out in a
    /// program.
    pub fn to_str(&self, variant: &str) -> (r: Option<String>)
        ensures
            r.deep_view() == self@.formatted(variant@),
            r is Some <==> exists|i: int|
                0 <= i < self@.to_str_arms.len() && (#[trigger] self@.to_str_arms[i]).variant
                    == variant@,
    {
        proof {
            lemma_first_text(self@.to_str_arms, variant@);
        }
        let ghost arms = self@.to_str_arms;
        assert(arms.skip(0) =~= arms);
        let mut i: usize = 0;
        while i < self.to_str_arms.len()
            invariant
                i <= self.to_str_arms.len(),
                arms == self@.to_str_arms,
                first_text(arms, variant@) == first_text(arms.skip(i as int), variant@),
            decreases self.to_str_arms.len() - i,
        {
            let arm = &self.to_str_arms[i];
            assert(arms.skip(i as int)[0] == arm@);
            assert(arms.skip(i as int).drop_first() =~= arms.skip(i + 1));
            if str_eq(arm.variant.as_str(), variant) {
                return Some(arm.text.clone());
            }
            i += 1;
        }
        None
    }

    /// What the generated default-value provider returns: the flagged
    /// variant. `None` where no provider is generated.
    pub fn default_value(&self) -> (r: Option<String>)
        ensures
            r.deep_view() == self@.default_impl,
    {
        match &self.default_impl {
            Some(name) => Some(name.clone()),
            None => None,
        }
    }

    /// The generated listing of legal values: every display string, in
    /// declaration order.
    pub fn possible_values(&self) -> (r: Vec<String>)
        ensures
            r.deep_view() == self@.possible_values,
    {
        let mut values: Vec<String> = Vec::new();
        let mut i: usize = 0;
        while i < self.possible_values.len()
            invariant
                i <= self.possible_values.len(),
                values.deep_view() == self@.possible_values.take(i as int),
            decreases self.possible_values.len() - i,
        {
            let ghost copied = values.deep_view();
            values.push(self.possible_values[i].clone());
            i += 1;
            assert(values.deep_view() =~= copied.push(self@.possible_values[i - 1]));
            assert(values.deep_view() =~= self@.possible_values.take(i as int));
        }
        assert(self@.possible_values.take(i as int) =~= self@.possible_values);
        values
    }
}

/// The items synthesized from a well-formed model are consistent.
pub proof fn lemma_synthesis_wf(model: ResolvedModelView)
    requires
        model.wf(),
    ensures
        synthesis(model).wf(),
{
    let source = synthesis(model);
    if model.default_variant is Some {
        let name = model.default_variant->0;
        let i = choose|i: int| 0 <= i < model.variants.len() && #[trigger] model.variants[i].ident == name;
        assert(source.to_str_arms[i].variant == name);
    }
}

/// The parse operation finds no arm exactly when no arm has `s` as its
/// pattern; what it finds is the variant of an arm with that pattern.
pub proof fn lemma_first_match(arms: Seq<FromStrArmView>, s: Seq<char>)
    ensures
        first_match(arms, s) is None <==> forall|i: int|
            0 <= i < arms.len() ==> (#[trigger] arms[i]).pattern != s,
        first_match(arms, s) matches Some(variant) ==> exists|i: int|
            0 <= i < arms.len() && (#[trigger] arms[i]).pattern == s && arms[i].variant == variant,
    decreases arms.len(),
{
    if arms.len() > 0 {
        let rest = arms.drop_first();
        lemma_first_match(rest, s);
        if arms[0].pattern == s {
            assert(arms[0].variant == first_match(arms, s)->0);
        } else if first_match(rest, s) is None {
            assert forall|i: int| 0 <= i < arms.len() implies (#[trigger] arms[i]).pattern != s by {
                if i > 0 {
                    assert(rest[i - 1] == arms[i]);
                }
            }
        } else {
            let i = choose|i: int|
                0 <= i < rest.len() && (#[trigger] rest[i]).pattern == s && rest[i].variant
                    == first_match(rest, s)->0;
            assert(arms[i + 1] == rest[i]);
        }
    }
}

/// The format operation finds no arm exactly when no arm is for
/// `variant`; what it finds is the text of an arm for that variant.
pub proof fn lemma_first_text(arms: Seq<ToStrArmView>, variant: Seq<char>)
    ensures
        first_text(arms, variant) is None <==> forall|i: int|
            0 <= i < arms.len() ==> (#[trigger] arms[i]).variant != variant,
        first_text(arms, variant) matches Some(text) ==> exists|i: int|
            0 <= i < arms.len() && (#[trigger] arms[i]).variant == variant && arms[i].text == text,
    decreases arms.len(),
{
    if arms.len() > 0 {
        let rest = arms.drop_first();
        lemma_first_text(rest, variant);
        if arms[0].variant == variant {
            assert(arms[0].text == first_text(arms, variant)->0);
        } else if first_text(rest, variant) is None {
            assert forall|i: int| 0 <= i < arms.len() implies (#[trigger] arms[i]).variant
                != variant by {
                if i > 0 {
                    assert(rest[i - 1] == arms[i]);
                }
            }
        } else {
            let i = choose|i: int|
                0 <= i < rest.len() && (#[trigger] rest[i]).variant == variant && rest[i].text
                    == first_text(rest, variant)->0;
            assert(arms[i + 1] == rest[i]);
        }
    }
}

/// Parsing a string that the listing of legal values does not hold fails,
/// with an error that names the type and the rejected string; parsing a
/// string that the listing holds succeeds.
pub proof fn lemma_parse_rejects_unlisted(source: GeneratedSourceView, s: Seq<char>)
    requires
        source.wf(),
    ensures
        !source.possible_values.contains(s) ==> source.parsed(s) == Err::<
            Seq<char>,
            ParseErrorView,
        >(ParseErrorView { enum_name: source.ident, input: s }),
        source.possible_values.contains(s) ==> source.parsed(s) is Ok,
{
    lemma_first_match(source.from_str_arms, s);
    if source.possible_values.contains(s) {
        let i = choose|i: int| 0 <= i < source.possible_values.len() && source.possible_values[i] == s;
        assert(source.from_str_arms[i].pattern == s);
    } else {
        assert forall|i: int| 0 <= i < source.from_str_arms.len() implies (
        #[trigger] source.from_str_arms[i]).pattern != s by {
            assert(source.possible_values[i] == source.from_str_arms[i].pattern);
        }
    }
}

} // verus!
