//! Metadata extraction: from a declaration and its annotations to the
//! validated model that the generated items are made from.

use vstd::prelude::*;
use crate::attr::{parse_data, AttrsData, AttrsValue, AttrsValueView, SyntaxError};
use crate::case::{apply, rule_named, RenameRule};
use crate::decl::{Attribute, AttributeView, EnumDeclaration, EnumDeclarationView, Fields, TypeKind, Variant, VariantView};
use crate::error::{ExtractionError, ExtractionErrorView};
use crate::text::str_eq;
use crate::token::Span;

verus! {

/// The marker under which annotations are recognised: `arg_enum`.
pub open spec fn base() -> Seq<char> {
    "arg_enum"@
}

/// The key that gives one variant its display string: `rename`.
pub open spec fn rename() -> Seq<char> {
    "rename"@
}

/// The key that selects the naming rule of a type: `rename_all`.
pub open spec fn rename_all() -> Seq<char> {
    "rename_all"@
}

/// The key that flags the default variant: `default`.
pub open spec fn default_flag() -> Seq<char> {
    "default"@
}

/// The first entry of `values` whose key is `query`.
pub open spec fn find_key(values: Seq<AttrsValueView>, query: Seq<char>) -> Option<AttrsValueView>
    decreases values.len(),
{
    if values.len() == 0 {
        None
    } else if values[0].key.name == query {
        Some(values[0])
    } else {
        find_key(values.drop_first(), query)
    }
}

/// What the entry found for a key that needs a value gives: its value, or
/// the complaint that it has none, at the key.
pub open spec fn value_of(entry: AttrsValueView) -> Result<Option<Seq<char>>, ExtractionErrorView> {
    match entry.value {
        Some(lit) => Ok(Some(lit.value)),
        None => Err(
            ExtractionErrorView::MissingAttributeValue {
                key: entry.key.name,
                span: entry.key.span,
            },
        ),
    }
}

/// What the entry found for a key that is a flag gives: `true`, or the
/// complaint that it has a value, at the value.
pub open spec fn flag_of(entry: AttrsValueView) -> Result<bool, ExtractionErrorView> {
    match entry.value {
        Some(lit) => Err(
            ExtractionErrorView::UnexpectedAttributeValue {
                key: entry.key.name,
                span: lit.span,
            },
        ),
        None => Ok(true),
    }
}

/// The value that the annotations give the key `query`. The recognised
/// annotations are read in order, each one whole, up to the first entry
/// with that key; an annotation under another marker is skipped. Without
/// such an entry there is no value.
pub open spec fn attr_value(attrs: Seq<AttributeView>, query: Seq<char>) -> Result<
    Option<Seq<char>>,
    ExtractionErrorView,
>
    decreases attrs.len(),
{
    if attrs.len() == 0 {
        Ok(None)
    } else if attrs[0].path != base() {
        attr_value(attrs.drop_first(), query)
    } else {
        match parse_data(attrs[0].tokens, attrs[0].span) {
            Err(e) => Err(ExtractionErrorView::SyntaxError(e)),
            Ok(values) => match find_key(values, query) {
                Some(entry) => value_of(entry),
                None => attr_value(attrs.drop_first(), query),
            },
        }
    }
}

/// Whether the annotations hold the flag `query`, read as in
/// [`attr_value`].
pub open spec fn attr_flag(attrs: Seq<AttributeView>, query: Seq<char>) -> Result<
    bool,
    ExtractionErrorView,
>
    decreases attrs.len(),
{
    if attrs.len() == 0 {
        Ok(false)
    } else if attrs[0].path != base() {
        attr_flag(attrs.drop_first(), query)
    } else {
        match parse_data(attrs[0].tokens, attrs[0].span) {
            Err(e) => Err(ExtractionErrorView::SyntaxError(e)),
            Ok(values) => match find_key(values, query) {
                Some(entry) => flag_of(entry),
                None => attr_flag(attrs.drop_first(), query),
            },
        }
    }
}

/// The first entry of `data` whose key is `query`.
fn find_entry<'a>(data: &'a AttrsData, query: &str) -> (r: Option<&'a AttrsValue>)
    ensures
        r.deep_view() == find_key(data@, query@),
{
    let ghost all = data@;
    assert(all.skip(0) =~= all);
    let mut j: usize = 0;
    while j < data.values.len()
        invariant
            j <= data.values.len(),
            all == data@,
            find_key(all, query@) == find_key(all.skip(j as int), query@),
        decreases data.values.len() - j,
    {
        let entry = &data.values[j];
        assert(all.skip(j as int)[0] == entry@);
        if str_eq(entry.key.name.as_str(), query) {
            return Some(entry);
        }
        assert(all.skip(j as int).drop_first() =~= all.skip(j + 1));
        j += 1;
    }
    None
}

/// Looks for the key `query` in the recognised annotations among `attrs`
/// and gives its value. The annotations are read in order, each one whole,
/// up to the first entry with that key; a fault in one of them is
/// returned, and so is the key standing without a value.
pub fn get_attr(attrs: &Vec<Attribute>, query: &str) -> (r: Result<Option<String>, ExtractionError>)
    ensures
        match r {
            Ok(value) => attr_value(attrs.deep_view(), query@) == Ok::<
                Option<Seq<char>>,
                ExtractionErrorView,
            >(value.deep_view()),
            Err(e) => attr_value(attrs.deep_view(), query@) == Err::<
                Option<Seq<char>>,
                ExtractionErrorView,
            >(e@),
        },
{
    let ghost all = attrs.deep_view();
    assert(all.skip(0) =~= all);
    let mut i: usize = 0;
    while i < attrs.len()
        invariant
            i <= attrs.len(),
            all == attrs.deep_view(),
            attr_value(all, query@) == attr_value(all.skip(i as int), query@),
        decreases attrs.len() - i,
    {
        let attr = &attrs[i];
        assert(all.skip(i as int)[0] == attr@);
        assert(all.skip(i as int).drop_first() =~= all.skip(i + 1));
        if str_eq(attr.path.as_str(), "arg_enum") {
            match AttrsData::parse(&attr.tokens, attr.span) {
                Err(e) => {
                    return Err(ExtractionError::SyntaxError(e));
                },
                Ok(data) => {
                    match find_entry(&data, query) {
                        Some(entry) => {
                            return match &entry.value {
                                Some(lit) => Ok(Some(lit.value.clone())),
                                None => Err(
                                    ExtractionError::MissingAttributeValue {
                                        key: entry.key.name.clone(),
                                        span: entry.key.span,
                                    },
                                ),
                            };
                        },
                        None => {},
                    }
                },
            }
        }
        i += 1;
    }
    Ok(None)
}

/// Looks for the flag `query` in the recognised annotations among `attrs`,
/// reading them as [`get_attr`] does. The flag standing with a value is an
/// error.
pub fn has_attr(attrs: &Vec<Attribute>, query: &str) -> (r: Result<bool, ExtractionError>)
    ensures
        match r {
            Ok(flag) => attr_flag(attrs.deep_view(), query@) == Ok::<bool, ExtractionErrorView>(
                flag,
            ),
            Err(e) => attr_flag(attrs.deep_view(), query@) == Err::<bool, ExtractionErrorView>(
                e@,
            ),
        },
{
    let ghost all = attrs.deep_view();
    assert(all.skip(0) =~= all);
    let mut i: usize = 0;
    while i < attrs.len()
        invariant
            i <= attrs.len(),
            all == attrs.deep_view(),
            attr_flag(all, query@) == attr_flag(all.skip(i as int), query@),
        decreases attrs.len() - i,
    {
        let attr = &attrs[i];
        assert(all.skip(i as int)[0] == attr@);
        assert(all.skip(i as int).drop_first() =~= all.skip(i + 1));
        if str_eq(attr.path.as_str(), "arg_enum") {
            match AttrsData::parse(&attr.tokens, attr.span) {
                Err(e) => {
                    return Err(ExtractionError::SyntaxError(e));
                },
                Ok(data) => {
                    match find_entry(&data, query) {
                        Some(entry) => {
                            return match &entry.value {
                                Some(lit) => Err(
                                    ExtractionError::UnexpectedAttributeValue {
                                        key: entry.key.name.clone(),
                                        span: lit.span,
                                    },
                                ),
                                None => Ok(true),
                            };
                        },
                        None => {},
                    }
                },
            }
        }
        i += 1;
    }
    Ok(false)
}

/// One variant of the model: its name and its final display string.
#[derive(Clone, Debug, PartialEq, Eq)]
pub struct ResolvedVariant {
    pub ident: String,
    pub display: String,
}

/// The model of a [`ResolvedVariant`].
pub struct ResolvedVariantView {
    pub ident: Seq<char>,
    pub display: Seq<char>,
}

impl View for ResolvedVariant {
    type V = ResolvedVariantView;

    open spec fn view(&self) -> ResolvedVariantView {
        ResolvedVariantView { ident: self.ident@, display: self.display@ }
    }
}

impl DeepView for ResolvedVariant {
    type V = ResolvedVariantView;

    open spec fn deep_view(&self) -> ResolvedVariantView {
        self@
    }
}

/// The validated outcome of extraction: the name of the type, its variants
/// in declaration order with their display strings, and the name of the
/// default variant, if one is flagged.
#[derive(Clone, Debug, PartialEq, Eq)]
pub struct ResolvedModel {
    pub ident: String,
    pub variants: Vec<ResolvedVariant>,
    pub default_variant: Option<String>,
}

/// The model of a [`ResolvedModel`].
pub struct ResolvedModelView {
    pub ident: Seq<char>,
    pub variants: Seq<ResolvedVariantView>,
    pub default_variant: Option<Seq<char>>,
}

impl View for ResolvedModel {
    type V = ResolvedModelView;

    open spec fn view(&self) -> ResolvedModelView {
        ResolvedModelView {
            ident: self.ident@,
            variants: self.variants.deep_view(),
            default_variant: self.default_variant.deep_view(),
        }
    }
}

impl ResolvedModelView {
    /// Whether `name` is the name of one of the variants.
    pub open spec fn has_variant(self, name: Seq<char>) -> bool {
        exists|i: int| 0 <= i < self.variants.len() && #[trigger] self.variants[i].ident == name
    }

    /// The default variant, where there is one, is a variant of the model.
    pub open spec fn wf(self) -> bool {
        self.default_variant matches Some(name) ==> self.has_variant(name)
    }
}

/// The first variant that carries fields.
pub open spec fn non_unit_variant(variants: Seq<VariantView>) -> Option<VariantView>
    decreases variants.len(),
{
    if variants.len() == 0 {
        None
    } else if variants[0].fields != Fields::Unit {
        Some(variants[0])
    } else {
        non_unit_variant(variants.drop_first())
    }
}

/// The naming rule that the value of `rename_all` selects: none without a
/// value, and an error, at `span`, for a value that names no rule.
pub open spec fn selected_rule(selected: Option<Seq<char>>, span: Span) -> Result<
    Option<RenameRule>,
    ExtractionErrorView,
> {
    match selected {
        None => Ok(None),
        Some(name) => match rule_named(name) {
            Some(rule) => Ok(Some(rule)),
            None => Err(ExtractionErrorView::UnknownNamingRule { rule: name, span }),
        },
    }
}

/// The display string of a variant: its explicit `rename`, else the naming
/// rule applied to its name, else its name.
pub open spec fn display_of(variant: VariantView, rule: Option<RenameRule>) -> Result<
    Seq<char>,
    ExtractionErrorView,
> {
    match attr_value(variant.attrs, rename()) {
        Err(e) => Err(e),
        Ok(Some(explicit)) => Ok(explicit),
        Ok(None) => match rule {
            Some(rule) => Ok(apply(rule, variant.ident.name)),
            None => Ok(variant.ident.name),
        },
    }
}

/// One variant resolved on its own: its entry in the model, and whether it
/// is flagged as the default.
pub open spec fn resolve_variant(variant: VariantView, rule: Option<RenameRule>) -> Result<
    (ResolvedVariantView, bool),
    ExtractionErrorView,
> {
    match display_of(variant, rule) {
        Err(e) => Err(e),
        Ok(display) => match attr_flag(variant.attrs, default_flag()) {
            Err(e) => Err(e),
            Ok(flagged) => Ok(
                (ResolvedVariantView { ident: variant.ident.name, display }, flagged),
            ),
        },
    }
}

/// The variants resolved in declaration order, given the default variant
/// recorded before them: their entries and the default variant recorded
/// after them. A variant flagged while a default is recorded is an error
/// at that variant's name.
pub open spec fn resolve_variants(
    enum_name: Seq<char>,
    variants: Seq<VariantView>,
    rule: Option<RenameRule>,
    default_variant: Option<Seq<char>>,
) -> Result<(Seq<ResolvedVariantView>, Option<Seq<char>>), ExtractionErrorView>
    decreases variants.len(),
{
    if variants.len() == 0 {
        Ok((Seq::empty(), default_variant))
    } else {
        match resolve_variant(variants[0], rule) {
            Err(e) => Err(e),
            Ok((resolved, flagged)) => {
                if flagged && default_variant is Some {
                    Err(
                        ExtractionErrorView::DuplicateDefault {
                            enum_name,
                            first: default_variant->0,
                            second: variants[0].ident.name,
                            span: variants[0].ident.span,
                        },
                    )
                } else {
                    let recorded = if flagged {
                        Some(variants[0].ident.name)
                    } else {
                        default_variant
                    };
                    match resolve_variants(enum_name, variants.drop_first(), rule, recorded) {
                        Err(e) => Err(e),
                        Ok((rest, last)) => Ok((seq![resolved] + rest, last)),
                    }
                }
            },
        }
    }
}

/// What extraction makes of a declaration: the model, or the first error.
/// The shape is checked first, of the type and of every variant; then the
/// naming rule is read; then the variants are resolved in order.
pub open spec fn extraction(input: EnumDeclarationView) -> Result<
    ResolvedModelView,
    ExtractionErrorView,
> {
    if input.kind != TypeKind::Enum {
        Err(ExtractionErrorView::UnsupportedShape { variant: None, span: input.span })
    } else if let Some(variant) = non_unit_variant(input.variants) {
        Err(
            ExtractionErrorView::UnsupportedShape {
                variant: Some(variant.ident.name),
                span: variant.span,
            },
        )
    } else {
        match attr_value(input.attrs, rename_all()) {
            Err(e) => Err(e),
            Ok(selected) => match selected_rule(selected, input.span) {
                Err(e) => Err(e),
                Ok(rule) => match resolve_variants(input.ident.name, input.variants, rule, None) {
                    Err(e) => Err(e),
                    Ok((variants, default_variant)) => Ok(
                        ResolvedModelView { ident: input.ident.name, variants, default_variant },
                    ),
                },
            },
        }
    }
}

/// `whole` is what resolving `tail` gives, put behind the entries `head`.
spec fn resolved_extends(
    head: Seq<ResolvedVariantView>,
    tail: Result<(Seq<ResolvedVariantView>, Option<Seq<char>>), ExtractionErrorView>,
    whole: Result<(Seq<ResolvedVariantView>, Option<Seq<char>>), ExtractionErrorView>,
) -> bool {
    match tail {
        Err(e) => whole == Err::<
            (Seq<ResolvedVariantView>, Option<Seq<char>>),
            ExtractionErrorView,
        >(e),
        Ok((rest, last)) => whole == Ok::<
            (Seq<ResolvedVariantView>, Option<Seq<char>>),
            ExtractionErrorView,
        >((head + rest, last)),
    }
}

/// Checks that every variant is a unit variant.
fn check_shape(variants: &Vec<Variant>) -> (r: Result<(), ExtractionError>)
    ensures
        match r {
            Ok(_) => non_unit_variant(variants.deep_view()) is None,
            Err(e) => non_unit_variant(variants.deep_view()) matches Some(variant) && e@ == (
            ExtractionErrorView::UnsupportedShape {
                variant: Some(variant.ident.name),
                span: variant.span,
            }),
        },
{
    let ghost all = variants.deep_view();
    assert(all.skip(0) =~= all);
    let mut i: usize = 0;
    while i < variants.len()
        invariant
            i <= variants.len(),
            all == variants.deep_view(),
            non_unit_variant(all) == non_unit_variant(all.skip(i as int)),
        decreases variants.len() - i,
    {
        let variant = &variants[i];
        assert(all.skip(i as int)[0] == variant@);
        assert(all.skip(i as int).drop_first() =~= all.skip(i + 1));
        match variant.fields {
            Fields::Unit => {},
            _ => {
                return Err(
                    ExtractionError::UnsupportedShape {
                        variant: Some(variant.ident.name.clone()),
                        span: variant.span,
                    },
                );
            },
        }
        i += 1;
    }
    Ok(())
}

/// Reads the naming rule that the type selects with `rename_all`.
fn read_rule(input: &EnumDeclaration) -> (r: Result<Option<RenameRule>, ExtractionError>)
    ensures
        match attr_value(input@.attrs, rename_all()) {
            Err(e) => r matches Err(x) && x@ == e,
            Ok(selected) => match r {
                Ok(rule) => selected_rule(selected, input.span) == Ok::<
                    Option<RenameRule>,
                    ExtractionErrorView,
                >(rule),
                Err(x) => selected_rule(selected, input.span) == Err::<
                    Option<RenameRule>,
                    ExtractionErrorView,
                >(x@),
            },
        },
{
    match get_attr(&input.attrs, "rename_all") {
        Err(e) => Err(e),
        Ok(None) => Ok(None),
        Ok(Some(name)) => match RenameRule::from_str(name.as_str()) {
            Some(rule) => Ok(Some(rule)),
            None => Err(ExtractionError::UnknownNamingRule { rule: name, span: input.span }),
        },
    }
}

/// Resolves one variant on its own: its display string and its flag.
fn resolve(variant: &Variant, rule: Option<RenameRule>) -> (r: Result<
    (ResolvedVariant, bool),
    ExtractionError,
>)
    ensures
        match r {
            Ok((resolved, flagged)) => resolve_variant(variant@, rule) == Ok::<
                (ResolvedVariantView, bool),
                ExtractionErrorView,
            >((resolved@, flagged)),
            Err(e) => resolve_variant(variant@, rule) == Err::<
                (ResolvedVariantView, bool),
                ExtractionErrorView,
            >(e@),
        },
{
    let display = match get_attr(&variant.attrs, "rename") {
        Err(e) => {
            return Err(e);
        },
        Ok(Some(explicit)) => explicit,
        Ok(None) => match rule {
            Some(rule) => rule.apply_to_variant(variant.ident.name.as_str()),
            None => variant.ident.name.clone(),
        },
    };
    match has_attr(&variant.attrs, "default") {
        Err(e) => Err(e),
        Ok(flagged) => Ok((ResolvedVariant { ident: variant.ident.name.clone(), display }, flagged)),
    }
}

/// Extracts the validated model from a declaration: checks that it is an
/// enumeration of unit variants, reads the naming rule, and resolves the
/// display string and the default flag of each variant, in declaration
/// order. The first error found is returned.
pub fn extract(input: &EnumDeclaration) -> (r: Result<ResolvedModel, ExtractionError>)
    ensures
        match r {
            Ok(model) => extraction(input@) == Ok::<ResolvedModelView, ExtractionErrorView>(
                model@,
            ),
            Err(e) => extraction(input@) == Err::<ResolvedModelView, ExtractionErrorView>(e@),
        },
        r matches Ok(model) ==> model@.wf(),
{
    proof {
        if extraction(input@) is Ok {
            lemma_extraction_wf(input@);
        }
    }
    match input.kind {
        TypeKind::Enum => {},
        _ => {
            return Err(ExtractionError::UnsupportedShape { variant: None, span: input.span });
        },
    }
    match check_shape(&input.variants) {
        Err(e) => {
            return Err(e);
        },
        Ok(_) => {},
    }
    let rule = match read_rule(input) {
        Err(e) => {
            return Err(e);
        },
        Ok(rule) => rule,
    };
    let ghost all = input@.variants;
    let ghost whole = resolve_variants(input@.ident.name, all, rule, None);
    assert(all.skip(0) =~= all);
    let mut variants: Vec<ResolvedVariant> = Vec::new();
    let mut default_variant: Option<String> = None;
    let mut i: usize = 0;
    while i < input.variants.len()
        invariant
            i <= input.variants.len(),
            all == input.variants.deep_view(),
            match whole {
                Err(e) => extraction(input@) == Err::<ResolvedModelView, ExtractionErrorView>(e),
                Ok((resolved, recorded)) => extraction(input@) == Ok::<
                    ResolvedModelView,
                    ExtractionErrorView,
                >(
                    ResolvedModelView {
                        ident: input@.ident.name,
                        variants: resolved,
                        default_variant: recorded,
                    },
                ),
            },
            resolved_extends(
                variants.deep_view(),
                resolve_variants(
                    input@.ident.name,
                    all.skip(i as int),
                    rule,
                    default_variant.deep_view(),
                ),
                whole,
            ),
        decreases input.variants.len() - i,
    {
        let variant = &input.variants[i];
        let ghost head = variants.deep_view();
        assert(all.skip(i as int)[0] == variant@);
        assert(all.skip(i as int).drop_first() =~= all.skip(i + 1));
        match resolve(variant, rule) {
            Err(e) => {
                return Err(e);
            },
            Ok((resolved, flagged)) => {
                let ghost entry = resolved@;
                if flagged {
                    match default_variant {
                        Some(first) => {
                            return Err(
                                ExtractionError::DuplicateDefault {
                                    enum_name: input.ident.name.clone(),
                                    first,
                                    second: variant.ident.name.clone(),
                                    span: variant.ident.span,
                                },
                            );
                        },
                        None => {},
                    }
                    default_variant = Some(variant.ident.name.clone());
                }
                variants.push(resolved);
                assert(variants.deep_view() =~= head + seq![entry]);
                assert forall|rest: Seq<ResolvedVariantView>|
                    head + (seq![entry] + rest) =~= (head + seq![entry]) + rest by {}
            },
        }
        i += 1;
    }
    assert(variants.deep_view() + Seq::<ResolvedVariantView>::empty() =~= variants.deep_view());
    Ok(ResolvedModel { ident: input.ident.name.clone(), variants, default_variant })
}

/// Whether a variant carries the default flag.
pub open spec fn is_flagged(variant: VariantView) -> bool {
    attr_flag(variant.attrs, default_flag()) == Ok::<bool, ExtractionErrorView>(true)
}

/// None of the annotations stands under the recognised marker.
pub open spec fn unannotated(attrs: Seq<AttributeView>) -> bool {
    forall|i: int| 0 <= i < attrs.len() ==> (#[trigger] attrs[i]).path != base()
}

/// An entry is found wherever among the entries its key first stands:
/// what other keys stand around it does not matter.
pub proof fn lemma_find_key_at(values: Seq<AttrsValueView>, query: Seq<char>, at: int)
    requires
        0 <= at < values.len(),
        values[at].key.name == query,
        forall|k: int| 0 <= k < at ==> (#[trigger] values[k]).key.name != query,
    ensures
        find_key(values, query) == Some(values[at]),
    decreases values.len(),
{
    if at > 0 {
        assert(values[0].key.name != query);
        let rest = values.drop_first();
        assert forall|k: int| 0 <= k < at - 1 implies (#[trigger] rest[k]).key.name != query by {
            assert(rest[k] == values[k + 1]);
        }
        lemma_find_key_at(rest, query, at - 1);
    }
}

/// The first entry with the key decides, wherever it stands: in whichever
/// recognised annotation, behind whatever other annotations and entries.
/// Where the recognised annotations before the annotation at `a` parse and
/// hold no entry with the key, and that annotation parses and holds one
/// first at `at`, the key's value and flag are those of that entry.
pub proof fn lemma_first_entry_decides(
    attrs: Seq<AttributeView>,
    query: Seq<char>,
    a: int,
    values: Seq<AttrsValueView>,
    at: int,
)
    requires
        0 <= a < attrs.len(),
        forall|b: int|
            0 <= b < a && (#[trigger] attrs[b]).path == base() ==> (parse_data(
                attrs[b].tokens,
                attrs[b].span,
            ) matches Ok(others) && find_key(others, query) is None),
        attrs[a].path == base(),
        parse_data(attrs[a].tokens, attrs[a].span) == Ok::<Seq<AttrsValueView>, SyntaxError>(
            values,
        ),
        0 <= at < values.len(),
        values[at].key.name == query,
        forall|k: int| 0 <= k < at ==> (#[trigger] values[k]).key.name != query,
    ensures
        attr_value(attrs, query) == value_of(values[at]),
        attr_flag(attrs, query) == flag_of(values[at]),
    decreases attrs.len(),
{
    if a == 0 {
        lemma_find_key_at(values, query, at);
    } else {
        let rest = attrs.drop_first();
        assert forall|b: int| 0 <= b < a - 1 && (#[trigger] rest[b]).path == base() implies (
        parse_data(rest[b].tokens, rest[b].span) matches Ok(others) && find_key(others, query)
            is None) by {
            assert(rest[b] == attrs[b + 1]);
        }
        assert(rest[a - 1] == attrs[a]);
        lemma_first_entry_decides(rest, query, a - 1, values, at);
    }
}

/// Annotations under other markers give no key a value and hold no flag.
pub proof fn lemma_unannotated(attrs: Seq<AttributeView>, query: Seq<char>)
    requires
        unannotated(attrs),
    ensures
        attr_value(attrs, query) == Ok::<Option<Seq<char>>, ExtractionErrorView>(None),
        attr_flag(attrs, query) == Ok::<bool, ExtractionErrorView>(false),
    decreases attrs.len(),
{
    if attrs.len() > 0 {
        assert(attrs[0].path != base());
        let rest = attrs.drop_first();
        assert forall|i: int| 0 <= i < rest.len() implies (#[trigger] rest[i]).path != base() by {
            assert(rest[i] == attrs[i + 1]);
        }
        lemma_unannotated(rest, query);
    }
}

/// No variant carries fields exactly when the search for one finds none.
pub proof fn lemma_all_unit(variants: Seq<VariantView>)
    ensures
        non_unit_variant(variants) is None <==> forall|i: int|
            0 <= i < variants.len() ==> (#[trigger] variants[i]).fields == Fields::Unit,
        non_unit_variant(variants) matches Some(found) ==> exists|i: int|
            0 <= i < variants.len() && #[trigger] variants[i] == found && found.fields
                != Fields::Unit,
    decreases variants.len(),
{
    if variants.len() > 0 {
        let rest = variants.drop_first();
        lemma_all_unit(rest);
        if variants[0].fields == Fields::Unit {
            if non_unit_variant(rest) is None {
                assert forall|i: int| 0 <= i < variants.len() implies (
                #[trigger] variants[i]).fields == Fields::Unit by {
                    if i > 0 {
                        assert(rest[i - 1] == variants[i]);
                    }
                }
            } else {
                let i = choose|i: int|
                    0 <= i < rest.len() && #[trigger] rest[i] == non_unit_variant(rest)->0;
                assert(variants[i + 1] == rest[i]);
            }
        }
    }
}

/// What the variants resolved in order are, where resolving them
/// succeeds: each is resolved on its own; a variant is flagged only while
/// no default is recorded; and the default recorded at the end is the
/// flagged variant, or the one recorded before where none is flagged.
pub proof fn lemma_resolve_variants_ok(
    enum_name: Seq<char>,
    variants: Seq<VariantView>,
    rule: Option<RenameRule>,
    default_variant: Option<Seq<char>>,
)
    requires
        resolve_variants(enum_name, variants, rule, default_variant) is Ok,
    ensures
        ({
            let (resolved, recorded) = resolve_variants(
                enum_name,
                variants,
                rule,
                default_variant,
            )->Ok_0;
            &&& resolved.len() == variants.len()
            &&& forall|i: int|
                0 <= i < variants.len() ==> resolve_variant(#[trigger] variants[i], rule) == Ok::<
                    (ResolvedVariantView, bool),
                    ExtractionErrorView,
                >((resolved[i], is_flagged(variants[i])))
            &&& forall|i: int, j: int|
                0 <= i < j < variants.len() ==> !(is_flagged(#[trigger] variants[i])
                    && is_flagged(#[trigger] variants[j]))
            &&& forall|i: int|
                0 <= i < variants.len() && is_flagged(#[trigger] variants[i]) ==> default_variant
                    is None && recorded == Some(variants[i].ident.name)
            &&& (forall|i: int| 0 <= i < variants.len() ==> !is_flagged(#[trigger] variants[i]))
                ==> recorded == default_variant
        }),
    decreases variants.len(),
{
    if variants.len() > 0 {
        let (first, flagged) = resolve_variant(variants[0], rule)->Ok_0;
        let next = if flagged {
            Some(variants[0].ident.name)
        } else {
            default_variant
        };
        let rest = variants.drop_first();
        lemma_resolve_variants_ok(enum_name, rest, rule, next);
        let (resolved, recorded) = resolve_variants(enum_name, variants, rule, default_variant)->Ok_0;
        let (tail, last) = resolve_variants(enum_name, rest, rule, next)->Ok_0;
        assert(resolved == seq![first] + tail);
        assert(recorded == last);
        assert forall|i: int| 0 <= i < variants.len() implies resolve_variant(
            #[trigger] variants[i],
            rule,
        ) == Ok::<(ResolvedVariantView, bool), ExtractionErrorView>(
            (resolved[i], is_flagged(variants[i])),
        ) by {
            if i > 0 {
                assert(rest[i - 1] == variants[i]);
            }
        }
        assert forall|i: int, j: int| 0 <= i < j < variants.len() implies !(is_flagged(
            #[trigger] variants[i],
        ) && is_flagged(#[trigger] variants[j])) by {
            assert(rest[j - 1] == variants[j]);
            if i > 0 {
                assert(rest[i - 1] == variants[i]);
            }
        }
        assert forall|i: int|
            0 <= i < variants.len() && is_flagged(
                #[trigger] variants[i],
            ) implies default_variant is None && recorded == Some(variants[i].ident.name) by {
            if i > 0 {
                assert(rest[i - 1] == variants[i]);
            } else {
                if exists|k: int| 0 <= k < rest.len() && is_flagged(#[trigger] rest[k]) {
                    let k = choose|k: int| 0 <= k < rest.len() && is_flagged(#[trigger] rest[k]);
                    assert(false);
                }
            }
        }
        if forall|i: int| 0 <= i < variants.len() ==> !is_flagged(#[trigger] variants[i]) {
            assert(!is_flagged(variants[0]));
            assert forall|i: int| 0 <= i < rest.len() implies !is_flagged(#[trigger] rest[i]) by {
                assert(rest[i] == variants[i + 1]);
            }
        }
    }
}

/// What a successful extraction gives. The declaration is an enumeration
/// of unit variants; the model has its name and one entry for each of its
/// variants, in declaration order, under the variant's name; the display
/// string of each is its explicit `rename`, else the selected naming rule
/// applied to its name, else its name; at most one variant is flagged, and
/// the default variant of the model is that one.
pub proof fn lemma_extraction_ok(input: EnumDeclarationView)
    requires
        extraction(input) is Ok,
    ensures
        ({
            let model = extraction(input)->Ok_0;
            let rule = selected_rule(attr_value(input.attrs, rename_all())->Ok_0, input.span)->Ok_0;
            &&& input.kind == TypeKind::Enum
            &&& forall|i: int|
                0 <= i < input.variants.len() ==> (#[trigger] input.variants[i]).fields
                    == Fields::Unit
            &&& attr_value(input.attrs, rename_all()) is Ok
            &&& selected_rule(attr_value(input.attrs, rename_all())->Ok_0, input.span) is Ok
            &&& model.ident == input.ident.name
            &&& model.variants.len() == input.variants.len()
            &&& forall|i: int|
                0 <= i < input.variants.len() ==> (#[trigger] model.variants[i]).ident
                    == input.variants[i].ident.name && display_of(input.variants[i], rule) == Ok::<
                    Seq<char>,
                    ExtractionErrorView,
                >(model.variants[i].display)
            &&& forall|i: int, j: int|
                0 <= i < j < input.variants.len() ==> !(is_flagged(#[trigger] input.variants[i])
                    && is_flagged(#[trigger] input.variants[j]))
            &&& forall|i: int|
                0 <= i < input.variants.len() && is_flagged(#[trigger] input.variants[i])
                    ==> model.default_variant == Some(input.variants[i].ident.name)
            &&& (forall|i: int|
                0 <= i < input.variants.len() ==> !is_flagged(#[trigger] input.variants[i]))
                ==> model.default_variant is None
        }),
{
    let model = extraction(input)->Ok_0;
    let rule = selected_rule(attr_value(input.attrs, rename_all())->Ok_0, input.span)->Ok_0;
    lemma_all_unit(input.variants);
    lemma_resolve_variants_ok(input.ident.name, input.variants, rule, None);
    assert forall|i: int| 0 <= i < input.variants.len() implies (#[trigger] model.variants[i]).ident
        == input.variants[i].ident.name && display_of(input.variants[i], rule) == Ok::<
        Seq<char>,
        ExtractionErrorView,
    >(model.variants[i].display) by {
        assert(resolve_variant(input.variants[i], rule) is Ok);
    }
}

/// Extraction lets no declaration through in which two variants carry the
/// default flag: it fails, and picks neither.
pub proof fn lemma_two_defaults_rejected(input: EnumDeclarationView, i: int, j: int)
    requires
        0 <= i < j < input.variants.len(),
        is_flagged(input.variants[i]),
        is_flagged(input.variants[j]),
    ensures
        extraction(input) is Err,
{
    if extraction(input) is Ok {
        let rule = selected_rule(attr_value(input.attrs, rename_all())->Ok_0, input.span)->Ok_0;
        lemma_resolve_variants_ok(input.ident.name, input.variants, rule, None);
    }
}

/// The error of a second default flag names both variants. Where the
/// shape and the naming rule are in order, the variants up to the second
/// flagged one resolve on their own, and no variant before it but one is
/// flagged, extraction fails with `DuplicateDefault`, naming the type, the
/// first and the second flagged variant, at the name of the second.
pub proof fn lemma_duplicate_default(
    input: EnumDeclarationView,
    rule: Option<RenameRule>,
    i: int,
    j: int,
)
    requires
        input.kind == TypeKind::Enum,
        non_unit_variant(input.variants) is None,
        attr_value(input.attrs, rename_all()) matches Ok(selected) && selected_rule(
            selected,
            input.span,
        ) == Ok::<Option<RenameRule>, ExtractionErrorView>(rule),
        0 <= i < j < input.variants.len(),
        forall|k: int| 0 <= k <= j ==> resolve_variant(#[trigger] input.variants[k], rule) is Ok,
        forall|k: int| 0 <= k < j ==> (is_flagged(#[trigger] input.variants[k]) <==> k == i),
        is_flagged(input.variants[j]),
    ensures
        extraction(input) == Err::<ResolvedModelView, ExtractionErrorView>(
            ExtractionErrorView::DuplicateDefault {
                enum_name: input.ident.name,
                first: input.variants[i].ident.name,
                second: input.variants[j].ident.name,
                span: input.variants[j].ident.span,
            },
        ),
{
    lemma_duplicate_default_from(input.ident.name, input.variants, rule, None, i, j);
}

/// The same, for the variants from some point on and the default recorded
/// before them.
proof fn lemma_duplicate_default_from(
    enum_name: Seq<char>,
    variants: Seq<VariantView>,
    rule: Option<RenameRule>,
    default_variant: Option<Seq<char>>,
    i: int,
    j: int,
)
    requires
        0 <= j < variants.len(),
        i < j,
        i >= 0 ==> default_variant is None,
        i < 0 ==> default_variant is Some,
        forall|k: int| 0 <= k <= j ==> resolve_variant(#[trigger] variants[k], rule) is Ok,
        forall|k: int| 0 <= k < j ==> (is_flagged(#[trigger] variants[k]) <==> k == i),
        is_flagged(variants[j]),
    ensures
        resolve_variants(enum_name, variants, rule, default_variant) == Err::<
            (Seq<ResolvedVariantView>, Option<Seq<char>>),
            ExtractionErrorView,
        >(
            ExtractionErrorView::DuplicateDefault {
                enum_name,
                first: if i >= 0 {
                    variants[i].ident.name
                } else {
                    default_variant->0
                },
                second: variants[j].ident.name,
                span: variants[j].ident.span,
            },
        ),
    decreases variants.len(),
{
    let rest = variants.drop_first();
    if j > 0 {
        let flagged = resolve_variant(variants[0], rule)->Ok_0.1;
        assert(flagged == is_flagged(variants[0]));
        let next = if flagged {
            Some(variants[0].ident.name)
        } else {
            default_variant
        };
        assert forall|k: int| 0 <= k <= j - 1 implies resolve_variant(
            #[trigger] rest[k],
            rule,
        ) is Ok by {
            assert(rest[k] == variants[k + 1]);
        }
        assert forall|k: int| 0 <= k < j - 1 implies (is_flagged(#[trigger] rest[k]) <==> k == i
            - 1) by {
            assert(rest[k] == variants[k + 1]);
        }
        assert(rest[j - 1] == variants[j]);
        if i >= 1 {
            assert(rest[i - 1] == variants[i]);
        }
        lemma_duplicate_default_from(enum_name, rest, rule, next, i - 1, j - 1);
    }
}

/// An explicit `rename` decides the display string of its variant,
/// whatever naming rule the type selects.
pub proof fn lemma_rename_overrides_rule(input: EnumDeclarationView, i: int, explicit: Seq<char>)
    requires
        extraction(input) is Ok,
        0 <= i < input.variants.len(),
        attr_value(input.variants[i].attrs, rename()) == Ok::<
            Option<Seq<char>>,
            ExtractionErrorView,
        >(Some(explicit)),
    ensures
        extraction(input)->Ok_0.variants.len() == input.variants.len(),
        extraction(input)->Ok_0.variants[i].ident == input.variants[i].ident.name,
        extraction(input)->Ok_0.variants[i].display == explicit,
{
    let rule = selected_rule(attr_value(input.attrs, rename_all())->Ok_0, input.span)->Ok_0;
    lemma_resolve_variants_ok(input.ident.name, input.variants, rule, None);
    assert(resolve_variant(input.variants[i], rule) is Ok);
}

/// The model that extraction gives is well formed: its default variant is
/// one of its variants.
pub proof fn lemma_extraction_wf(input: EnumDeclarationView)
    requires
        extraction(input) is Ok,
    ensures
        extraction(input)->Ok_0.wf(),
{
    let rule = selected_rule(attr_value(input.attrs, rename_all())->Ok_0, input.span)->Ok_0;
    lemma_resolve_variants_ok(input.ident.name, input.variants, rule, None);
    let model = extraction(input)->Ok_0;
    if model.default_variant is Some {
        assert(exists|k: int| 0 <= k < input.variants.len() && is_flagged(#[trigger] input.variants[k]));
        let k = choose|k: int| 0 <= k < input.variants.len() && is_flagged(#[trigger] input.variants[k]);
        assert(resolve_variant(input.variants[k], rule) is Ok);
        assert(model.variants[k].ident == input.variants[k].ident.name);
    }
}

} // verus!
