//! The values of literal tokens, as `syn` reads them.
use vstd::prelude::*;

verus! {

/// What `syn` makes of a string literal's source text: the value of the
/// `syn::LitStr` it parses to, or `None` when it is no string literal.
pub uninterp spec fn lit_str_value(text: Seq<char>) -> Option<Seq<char>>;

/// What `syn` makes of an integer literal's source text: the `usize` that
/// `syn::LitInt::base10_parse` gives for the literal it parses to, or `None`
/// when it is no integer literal or its value does not fit.
pub uninterp spec fn lit_int_value(text: Seq<char>) -> Option<usize>;

/// The value of a string literal, by `syn::parse_str::<syn::LitStr>` and
/// `LitStr::value`: plain, raw and escaped forms alike. The result is named,
/// not stated.
#[verifier::external_body]
pub(crate) fn string_literal_value(text: &String) -> (r: Option<String>)
    ensures
        match r {
            Some(v) => lit_str_value(text@) == Some(v@),
            None => lit_str_value(text@) is None,
        },
{
    match syn::parse_str::<syn::LitStr>(text.as_str()) {
        Ok(lit) => Some(lit.value()),
        Err(_) => None,
    }
}

/// The value of an integer literal, by `syn::parse_str::<syn::LitInt>` and
/// `LitInt::base10_parse::<usize>`: decimal, hexadecimal, octal and binary
/// forms, with or without suffix. The result is named, not stated.
#[verifier::external_body]
pub(crate) fn int_literal_value(text: &String) -> (r: Option<usize>)
    ensures
        r == lit_int_value(text@),
{
    match syn::parse_str::<syn::LitInt>(text.as_str()) {
        Ok(lit) => match lit.base10_parse::<usize>() {
            Ok(n) => Some(n),
            Err(_) => None,
        },
        Err(_) => None,
    }
}

} // verus!
