//! Decoding of string literals: from the text of a literal token to the
//! string that the literal denotes.

use vstd::prelude::*;

verus! {

/// What `syn` makes of `text` when it is asked to read it as one string
/// literal and to give the string that the literal denotes: `None` where it
/// does not read `text` as exactly one string literal. Quotes, escapes and
/// raw strings are `syn`'s business; nothing is said here of how it decodes
/// them.
pub uninterp spec fn lit_str_value(text: Seq<char>) -> Option<Seq<char>>;

/// Whether `text` begins as a string literal does: with a quote, or with the
/// `r` of a raw string.
pub open spec fn opens_str_lit(text: Seq<char>) -> bool {
    text.len() > 0 && (text[0] == '"' || text[0] == 'r')
}

/// The string that the literal `text` denotes, or `None` where `text` is no
/// string literal. Text that does not begin as a string literal is none, and
/// is not handed to `syn`.
pub open spec fn str_lit_value(text: Seq<char>) -> Option<Seq<char>> {
    if opens_str_lit(text) {
        lit_str_value(text)
    } else {
        None
    }
}

/// Calls `syn::parse_str::<syn::LitStr>` on `text` and, where that succeeds,
/// `syn::LitStr::value` on the literal. The contract gives the outcome its
/// name, [`lit_str_value`], and claims nothing more: that the two calls
/// compute a function of `text`. The text must begin with `"` or `r`: on a
/// literal of another kind that it does not know, `syn` panics.
#[verifier::external_body]
fn parse_lit_str(text: &str) -> (r: Option<String>)
    requires
        opens_str_lit(text@),
    ensures
        r.deep_view() == lit_str_value(text@),
{
    match syn::parse_str::<syn::LitStr>(text) {
        Ok(lit) => Some(lit.value()),
        Err(_) => None,
    }
}

/// Decodes the text of a literal token as a string literal.
pub fn decode_str_lit(text: &str) -> (r: Option<String>)
    ensures
        r.deep_view() == str_lit_value(text@),
{
    if text.is_empty() {
        return None;
    }
    let first = text.get_char(0);
    if first == '"' || first == 'r' {
        parse_lit_str(text)
    } else {
        None
    }
}

} // verus!
