//! From a declaration to the tokens that replace it.
use crate::render::render;
use crate::rewrite::{item_fails_with, item_passes, transform_item};
use crate::syntax::{Item, TransformError};
use proc_macro2::{LexError, TokenStream};
use vstd::prelude::*;

verus! {

#[verifier::external_type_specification]
#[verifier::external_body]
pub struct ExTokenStream(proc_macro2::TokenStream);

#[verifier::external_type_specification]
#[verifier::external_body]
pub struct ExLexError(proc_macro2::LexError);

/// Relies on `<proc_macro2::TokenStream as FromStr>::from_str`, which lexes
/// source text into tokens and reports text that is not made of tokens.
#[verifier::external_body]
fn lex(text: &str) -> (r: Result<TokenStream, LexError>) {
    text.parse::<TokenStream>()
}

/// Rewrites `item` and lexes the rewritten text back into tokens. The text is
/// made of the item's own tokens, so a lexing failure is a fault of this
/// library, reported as `Internal`.
pub fn expand(item: Item) -> (r: Result<TokenStream, TransformError>)
    ensures
        !item_passes(item) ==> (r matches Err(e) && item_fails_with(item, e)),
        item_passes(item) ==> (r is Ok || r == Err::<TokenStream, TransformError>(TransformError::Internal)),
{
    match transform_item(item) {
        Ok(out) => match lex(render(&out).as_str()) {
            Ok(tokens) => Ok(tokens),
            Err(_) => Err(TransformError::Internal),
        },
        Err(e) => Err(e),
    }
}

} // verus!
