//! Derivation of string parsing, formatting, default value and legal-value
//! listing for unit-only enumerations, driven by `arg_enum` annotations.

pub mod attr;
pub mod case;
pub mod decl;
pub mod derive;
pub mod error;
pub mod laws;
pub mod literal;
pub mod meta;
pub mod synth;
pub mod text;
pub mod token;
