//! Laws that relate extraction and the generated items.

use vstd::prelude::*;
use crate::decl::{EnumDeclarationView, Fields, TypeKind, VariantView};
use crate::meta::{
    default_flag, extraction, is_flagged, lemma_all_unit, lemma_resolve_variants_ok,
    lemma_unannotated, rename, rename_all, resolve_variant, resolve_variants, unannotated,
};
use crate::synth::{lemma_first_match, lemma_first_text, synthesis, ParseErrorView};

verus! {

/// The round trip. For an enumeration of unit variants without recognised
/// annotations, extraction succeeds; the format operation gives each
/// variant its declared name; and the parse operation, given what the
/// format operation gave for a variant, gives that variant.
pub proof fn lemma_round_trip(input: EnumDeclarationView, i: int)
    requires
        input.kind == TypeKind::Enum,
        forall|k: int|
            0 <= k < input.variants.len() ==> (#[trigger] input.variants[k]).fields == Fields::Unit,
        unannotated(input.attrs),
        forall|k: int| 0 <= k < input.variants.len() ==> unannotated(#[trigger] input.variants[k].attrs),
        0 <= i < input.variants.len(),
    ensures
        extraction(input) is Ok,
        ({
            let source = synthesis(extraction(input)->Ok_0);
            let name = input.variants[i].ident.name;
            &&& source.formatted(name) == Some(name)
            &&& source.parsed(source.formatted(name)->0) == Ok::<Seq<char>, ParseErrorView>(name)
            &&& source.default_impl is None
        }),
{
    lemma_all_unit(input.variants);
    lemma_unannotated(input.attrs, rename_all());
    lemma_plain_variants(input.ident.name, input.variants);
    let model = extraction(input)->Ok_0;
    lemma_resolve_variants_ok(input.ident.name, input.variants, None, None);
    let source = synthesis(model);
    let name = input.variants[i].ident.name;
    assert forall|k: int| 0 <= k < model.variants.len() implies (#[trigger] model.variants[k]).ident
        == input.variants[k].ident.name && model.variants[k].display
        == input.variants[k].ident.name by {
        lemma_unannotated(input.variants[k].attrs, rename());
        lemma_unannotated(input.variants[k].attrs, default_flag());
        assert(resolve_variant(input.variants[k], None) is Ok);
    }
    lemma_first_text(source.to_str_arms, name);
    assert(source.to_str_arms[i].variant == name);
    lemma_first_match(source.from_str_arms, name);
    assert(source.from_str_arms[i].pattern == name);
    assert forall|k: int| 0 <= k < model.variants.len() implies !is_flagged(
        #[trigger] input.variants[k],
    ) by {
        lemma_unannotated(input.variants[k].attrs, default_flag());
    }
}

/// Variants without recognised annotations resolve, whatever default is
/// recorded before them.
proof fn lemma_plain_variants(enum_name: Seq<char>, variants: Seq<VariantView>)
    requires
        forall|k: int| 0 <= k < variants.len() ==> unannotated(#[trigger] variants[k].attrs),
    ensures
        forall|recorded: Option<Seq<char>>|
            (#[trigger] resolve_variants(enum_name, variants, None, recorded)) is Ok,
    decreases variants.len(),
{
    if variants.len() > 0 {
        let rest = variants.drop_first();
        assert forall|k: int| 0 <= k < rest.len() implies unannotated(#[trigger] rest[k].attrs) by {
            assert(rest[k] == variants[k + 1]);
        }
        lemma_plain_variants(enum_name, rest);
        lemma_unannotated(variants[0].attrs, rename());
        lemma_unannotated(variants[0].attrs, default_flag());
        assert forall|recorded: Option<Seq<char>>|
            (#[trigger] resolve_variants(enum_name, variants, None, recorded)) is Ok by {
            assert(resolve_variants(enum_name, rest, None, recorded) is Ok);
        }
    }
}

} // verus!
