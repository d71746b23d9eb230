//! The host's tokens as plain values: what an annotation is made of.

use vstd::prelude::*;

verus! {

/// A region of source text, as the host counts positions. The library
/// hands spans back in its diagnostics and never looks inside them.
#[derive(Clone, Copy, Debug, PartialEq, Eq, Structural)]
pub struct Span {
    pub start: usize,
    pub end: usize,
}

/// The kind of bracket that opens or closes a group of tokens.
#[derive(Clone, Copy, Debug, PartialEq, Eq, Structural)]
pub enum Delimiter {
    /// `(` and `)`
    Parenthesis,
    /// `{` and `}`
    Brace,
    /// `[` and `]`
    Bracket,
}

/// What a token is.
#[derive(Clone, Debug, PartialEq, Eq)]
pub enum TokenKind {
    /// An identifier, by its text.
    Ident(String),
    /// One punctuation character.
    Punct(char),
    /// A literal, by its text as it stands in the source: a string literal
    /// still has its quotes and escapes.
    Literal(String),
    /// An opening bracket.
    Open(Delimiter),
    /// A closing bracket.
    Close(Delimiter),
}

/// One token and where it stands.
#[derive(Clone, Debug, PartialEq, Eq)]
pub struct Token {
    pub kind: TokenKind,
    pub span: Span,
}

/// The model of a [`TokenKind`].
pub enum TokenKindView {
    Ident(Seq<char>),
    Punct(char),
    Literal(Seq<char>),
    Open(Delimiter),
    Close(Delimiter),
}

/// The model of a [`Token`].
pub struct TokenView {
    pub kind: TokenKindView,
    pub span: Span,
}

impl View for TokenKind {
    type V = TokenKindView;

    open spec fn view(&self) -> TokenKindView {
        match self {
            TokenKind::Ident(name) => TokenKindView::Ident(name@),
            TokenKind::Punct(c) => TokenKindView::Punct(*c),
            TokenKind::Literal(text) => TokenKindView::Literal(text@),
            TokenKind::Open(d) => TokenKindView::Open(*d),
            TokenKind::Close(d) => TokenKindView::Close(*d),
        }
    }
}

impl DeepView for TokenKind {
    type V = TokenKindView;

    open spec fn deep_view(&self) -> TokenKindView {
        self@
    }
}

impl View for Token {
    type V = TokenView;

    open spec fn view(&self) -> TokenView {
        TokenView { kind: self.kind@, span: self.span }
    }
}

impl DeepView for Token {
    type V = TokenView;

    open spec fn deep_view(&self) -> TokenView {
        self@
    }
}

/// An identifier and where it stands.
#[derive(Clone, Debug, PartialEq, Eq)]
pub struct Ident {
    pub name: String,
    pub span: Span,
}

/// The model of an [`Ident`].
pub struct IdentView {
    pub name: Seq<char>,
    pub span: Span,
}

impl View for Ident {
    type V = IdentView;

    open spec fn view(&self) -> IdentView {
        IdentView { name: self.name@, span: self.span }
    }
}

impl DeepView for Ident {
    type V = IdentView;

    open spec fn deep_view(&self) -> IdentView {
        self@
    }
}

/// A string literal, by the string it denotes, and where it stands.
#[derive(Clone, Debug, PartialEq, Eq)]
pub struct StrLit {
    pub value: String,
    pub span: Span,
}

/// The model of a [`StrLit`].
pub struct StrLitView {
    pub value: Seq<char>,
    pub span: Span,
}

impl View for StrLit {
    type V = StrLitView;

    open spec fn view(&self) -> StrLitView {
        StrLitView { value: self.value@, span: self.span }
    }
}

impl DeepView for StrLit {
    type V = StrLitView;

    open spec fn deep_view(&self) -> StrLitView {
        self@
    }
}

} // verus!
