//! The declaration under transformation, as plain values: the type, its
//! variants and the annotations on both.

use vstd::prelude::*;
use crate::token::{Ident, IdentView, Span, Token, TokenView};

verus! {

/// One annotation as the host hands it over: the path that marks it, and
/// the tokens that follow the path.
#[derive(Clone, Debug, PartialEq, Eq)]
pub struct Attribute {
    pub path: String,
    pub tokens: Vec<Token>,
    pub span: Span,
}

/// The model of an [`Attribute`].
pub struct AttributeView {
    pub path: Seq<char>,
    pub tokens: Seq<TokenView>,
    pub span: Span,
}

impl View for Attribute {
    type V = AttributeView;

    open spec fn view(&self) -> AttributeView {
        AttributeView { path: self.path@, tokens: self.tokens.deep_view(), span: self.span }
    }
}

impl DeepView for Attribute {
    type V = AttributeView;

    open spec fn deep_view(&self) -> AttributeView {
        self@
    }
}

/// What a variant carries besides its name.
#[derive(Clone, Copy, Debug, PartialEq, Eq, Structural)]
pub enum Fields {
    /// Nothing: a unit variant.
    Unit,
    /// Fields without names, in parentheses.
    Unnamed,
    /// Named fields, in braces.
    Named,
}

/// One variant of the declaration.
#[derive(Clone, Debug, PartialEq, Eq)]
pub struct Variant {
    pub ident: Ident,
    pub attrs: Vec<Attribute>,
    pub fields: Fields,
    pub span: Span,
}

/// The model of a [`Variant`].
pub struct VariantView {
    pub ident: IdentView,
    pub attrs: Seq<AttributeView>,
    pub fields: Fields,
    pub span: Span,
}

impl View for Variant {
    type V = VariantView;

    open spec fn view(&self) -> VariantView {
        VariantView {
            ident: self.ident@,
            attrs: self.attrs.deep_view(),
            fields: self.fields,
            span: self.span,
        }
    }
}

impl DeepView for Variant {
    type V = VariantView;

    open spec fn deep_view(&self) -> VariantView {
        self@
    }
}

/// What kind of type a declaration declares.
#[derive(Clone, Copy, Debug, PartialEq, Eq, Structural)]
pub enum TypeKind {
    Enum,
    Struct,
    Union,
}

/// The declaration under transformation, as the host hands it over. It is
/// meant to be an enumeration of unit variants; extraction checks that.
#[derive(Clone, Debug, PartialEq, Eq)]
pub struct EnumDeclaration {
    pub ident: Ident,
    pub attrs: Vec<Attribute>,
    pub kind: TypeKind,
    pub variants: Vec<Variant>,
    pub span: Span,
}

/// The model of an [`EnumDeclaration`].
pub struct EnumDeclarationView {
    pub ident: IdentView,
    pub attrs: Seq<AttributeView>,
    pub kind: TypeKind,
    pub variants: Seq<VariantView>,
    pub span: Span,
}

impl View for EnumDeclaration {
    type V = EnumDeclarationView;

    open spec fn view(&self) -> EnumDeclarationView {
        EnumDeclarationView {
            ident: self.ident@,
            attrs: self.attrs.deep_view(),
            kind: self.kind,
            variants: self.variants.deep_view(),
            span: self.span,
        }
    }
}

} // verus!
