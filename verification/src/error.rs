//! The errors of metadata extraction.

use vstd::prelude::*;
use crate::attr::{syntax_message, SyntaxError};
use crate::token::Span;

verus! {

/// Why extraction failed. Each error is final: the first one found is
/// returned.
#[derive(Clone, Debug, PartialEq, Eq)]
pub enum ExtractionError {
    /// An annotation does not follow the micro-syntax.
    SyntaxError(SyntaxError),
    /// The declaration is no enumeration (`variant` is `None`), or the named
    /// variant carries fields.
    UnsupportedShape { variant: Option<String>, span: Span },
    /// `rename_all` names no naming rule.
    UnknownNamingRule { rule: String, span: Span },
    /// A key that is a mere flag was given a value.
    UnexpectedAttributeValue { key: String, span: Span },
    /// A second variant is flagged as the default.
    DuplicateDefault { enum_name: String, first: String, second: String, span: Span },
    /// A key that needs a value stands alone.
    MissingAttributeValue { key: String, span: Span },
}

/// The model of an [`ExtractionError`].
pub enum ExtractionErrorView {
    SyntaxError(SyntaxError),
    UnsupportedShape { variant: Option<Seq<char>>, span: Span },
    UnknownNamingRule { rule: Seq<char>, span: Span },
    UnexpectedAttributeValue { key: Seq<char>, span: Span },
    DuplicateDefault { enum_name: Seq<char>, first: Seq<char>, second: Seq<char>, span: Span },
    MissingAttributeValue { key: Seq<char>, span: Span },
}

impl View for ExtractionError {
    type V = ExtractionErrorView;

    open spec fn view(&self) -> ExtractionErrorView {
        match self {
            ExtractionError::SyntaxError(e) => ExtractionErrorView::SyntaxError(*e),
            ExtractionError::UnsupportedShape { variant, span } => {
                ExtractionErrorView::UnsupportedShape { variant: variant.deep_view(), span: *span }
            },
            ExtractionError::UnknownNamingRule { rule, span } => {
                ExtractionErrorView::UnknownNamingRule { rule: rule@, span: *span }
            },
            ExtractionError::UnexpectedAttributeValue { key, span } => {
                ExtractionErrorView::UnexpectedAttributeValue { key: key@, span: *span }
            },
            ExtractionError::DuplicateDefault { enum_name, first, second, span } => {
                ExtractionErrorView::DuplicateDefault {
                    enum_name: enum_name@,
                    first: first@,
                    second: second@,
                    span: *span,
                }
            },
            ExtractionError::MissingAttributeValue { key, span } => {
                ExtractionErrorView::MissingAttributeValue { key: key@, span: *span }
            },
        }
    }
}

impl ExtractionErrorView {
    /// Where the error is reported.
    pub open spec fn span(self) -> Span {
        match self {
            ExtractionErrorView::SyntaxError(e) => e.span,
            ExtractionErrorView::UnsupportedShape { span, .. } => span,
            ExtractionErrorView::UnknownNamingRule { span, .. } => span,
            ExtractionErrorView::UnexpectedAttributeValue { span, .. } => span,
            ExtractionErrorView::DuplicateDefault { span, .. } => span,
            ExtractionErrorView::MissingAttributeValue { span, .. } => span,
        }
    }

    /// The text of the complaint.
    pub open spec fn message(self) -> Seq<char> {
        match self {
            ExtractionErrorView::SyntaxError(e) => syntax_message(e.kind),
            ExtractionErrorView::UnsupportedShape { variant: None, .. } => {
                "#[derive(ArgEnum)] only works on enums"@
            },
            ExtractionErrorView::UnsupportedShape { variant: Some(_), .. } => {
                "#[derive(ArgEnum)] only works on unit enum variants"@
            },
            ExtractionErrorView::UnknownNamingRule { rule, .. } => {
                "Unknown rename rule "@ + rule
            },
            ExtractionErrorView::UnexpectedAttributeValue { key, .. } => {
                "Unexpected value for attribute "@ + key
            },
            ExtractionErrorView::DuplicateDefault { enum_name, first, second, .. } => {
                "Duplicate default value for "@ + enum_name + ": "@ + first + " and "@ + second
            },
            ExtractionErrorView::MissingAttributeValue { key, .. } => {
                "Missing value for attribute "@ + key
            },
        }
    }
}

impl ExtractionError {
    /// Where the host is to report the error.
    pub fn span(&self) -> (r: Span)
        ensures
            r == self@.span(),
    {
        match self {
            ExtractionError::SyntaxError(e) => e.span,
            ExtractionError::UnsupportedShape { span, .. } => *span,
            ExtractionError::UnknownNamingRule { span, .. } => *span,
            ExtractionError::UnexpectedAttributeValue { span, .. } => *span,
            ExtractionError::DuplicateDefault { span, .. } => *span,
            ExtractionError::MissingAttributeValue { span, .. } => *span,
        }
    }

    /// The complaint, as the host shows it at the span of the error.
    pub fn message(&self) -> (r: String)
        ensures
            r@ == self@.message(),
    {
        match self {
            ExtractionError::SyntaxError(e) => e.message(),
            ExtractionError::UnsupportedShape { variant, .. } => match variant {
                None => "#[derive(ArgEnum)] only works on enums".to_owned(),
                Some(_) => "#[derive(ArgEnum)] only works on unit enum variants".to_owned(),
            },
            ExtractionError::UnknownNamingRule { rule, .. } => {
                "Unknown rename rule ".to_owned().concat(rule.as_str())
            },
            ExtractionError::UnexpectedAttributeValue { key, .. } => {
                "Unexpected value for attribute ".to_owned().concat(key.as_str())
            },
            ExtractionError::DuplicateDefault { enum_name, first, second, .. } => {
                let mut text = "Duplicate default value for ".to_owned();
                text.append(enum_name.as_str());
                text.append(": ");
                text.append(first.as_str());
                text.append(" and ");
                text.append(second.as_str());
                text
            },
            ExtractionError::MissingAttributeValue { key, .. } => {
                "Missing value for attribute ".to_owned().concat(key.as_str())
            },
        }
    }
}

} // verus!
