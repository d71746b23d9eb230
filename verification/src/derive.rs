//! The derivation as a whole: from the declaration to the generated items,
//! or to the one diagnostic that the host reports.

use vstd::prelude::*;
use crate::decl::{EnumDeclaration, EnumDeclarationView};
use crate::error::{ExtractionError, ExtractionErrorView};
use crate::meta::{extract, extraction};
use crate::synth::{synthesis, synthesize, GeneratedSource, GeneratedSourceView};
use crate::token::Span;

verus! {

/// What the host reports when the derivation fails: a message, and the
/// span at which to show it.
#[derive(Clone, Debug, PartialEq, Eq)]
pub struct Diagnostic {
    pub message: String,
    pub span: Span,
}

/// The model of a [`Diagnostic`].
pub struct DiagnosticView {
    pub message: Seq<char>,
    pub span: Span,
}

impl View for Diagnostic {
    type V = DiagnosticView;

    open spec fn view(&self) -> DiagnosticView {
        DiagnosticView { message: self.message@, span: self.span }
    }
}

/// What the derivation gives for a declaration: the items generated from
/// the extracted model, or the first error of extraction.
pub open spec fn derivation(input: EnumDeclarationView) -> Result<
    GeneratedSourceView,
    ExtractionErrorView,
> {
    match extraction(input) {
        Ok(model) => Ok(synthesis(model)),
        Err(e) => Err(e),
    }
}

/// Extracts the model of a declaration and synthesizes the generated
/// items from it. All or nothing: an error of extraction is returned as
/// it is, and nothing is generated.
pub fn arg_enum_type(input: &EnumDeclaration) -> (r: Result<GeneratedSource, ExtractionError>)
    ensures
        match r {
            Ok(source) => derivation(input@) == Ok::<GeneratedSourceView, ExtractionErrorView>(
                source@,
            ) && source@.wf(),
            Err(e) => derivation(input@) == Err::<GeneratedSourceView, ExtractionErrorView>(e@),
        },
{
    match extract(input) {
        Ok(model) => Ok(synthesize(&model)),
        Err(e) => Err(e),
    }
}

/// The derivation as the host sees it: the generated items, or a single
/// diagnostic, the message and the span of the first error.
pub fn derive_arg_enum(input: &EnumDeclaration) -> (r: Result<GeneratedSource, Diagnostic>)
    ensures
        match r {
            Ok(source) => derivation(input@) == Ok::<GeneratedSourceView, ExtractionErrorView>(
                source@,
            ) && source@.wf(),
            Err(d) => derivation(input@) matches Err(e) && d@ == (DiagnosticView {
                message: e.message(),
                span: e.span(),
            }),
        },
{
    match arg_enum_type(input) {
        Ok(source) => Ok(source),
        Err(e) => Err(Diagnostic { message: e.message(), span: e.span() }),
    }
}

} // verus!
