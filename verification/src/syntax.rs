//! The pieces of Rust that a description embeds: expressions, types, paths,
//! `use` items, attributes and visibilities. Whether a text is one of them is
//! for the `syn` crate to say.

use vstd::prelude::*;

verus! {

/// The text is a Rust expression.
pub uninterp spec fn is_rust_expr(text: Seq<char>) -> bool;

/// The text is a Rust path.
pub uninterp spec fn is_rust_path(text: Seq<char>) -> bool;

/// The text is a Rust `use` item.
pub uninterp spec fn is_rust_use(text: Seq<char>) -> bool;

/// The text is what stands between the brackets of a Rust attribute.
pub uninterp spec fn is_rust_meta(text: Seq<char>) -> bool;

/// The text is a Rust visibility, which may be empty.
pub uninterp spec fn is_rust_visibility(text: Seq<char>) -> bool;

/// The text is a Rust reference type.
pub uninterp spec fn is_rust_reference(text: Seq<char>) -> bool;

/// The types that the text lists, separated by commas, each as `syn` prints
/// it, or `None` where the text is no such list.
pub uninterp spec fn rust_types(text: Seq<char>) -> Option<Seq<Seq<char>>>;

/// Calls `syn::parse_str` for `syn::Expr`: whether the whole text parses as
/// one expression.
#[verifier::external_body]
pub(crate) fn parses_as_expr(text: &str) -> (r: bool)
    ensures
        r == is_rust_expr(text@),
{
    syn::parse_str::<syn::Expr>(text).is_ok()
}

/// Calls `syn::parse_str` for `syn::Path`: whether the whole text parses as
/// one path.
#[verifier::external_body]
pub(crate) fn parses_as_path(text: &str) -> (r: bool)
    ensures
        r == is_rust_path(text@),
{
    syn::parse_str::<syn::Path>(text).is_ok()
}

/// Calls `syn::parse_str` for `syn::ItemUse`: whether the whole text parses
/// as one `use` item.
#[verifier::external_body]
pub(crate) fn parses_as_use(text: &str) -> (r: bool)
    ensures
        r == is_rust_use(text@),
{
    syn::parse_str::<syn::ItemUse>(text).is_ok()
}

/// Calls `syn::parse_str` for `syn::Meta`: whether the whole text parses as
/// the content of one attribute.
#[verifier::external_body]
pub(crate) fn parses_as_meta(text: &str) -> (r: bool)
    ensures
        r == is_rust_meta(text@),
{
    syn::parse_str::<syn::Meta>(text).is_ok()
}

/// Calls `syn::parse_str` for `syn::Visibility`: whether the whole text
/// parses as one visibility.
#[verifier::external_body]
pub(crate) fn parses_as_visibility(text: &str) -> (r: bool)
    ensures
        r == is_rust_visibility(text@),
{
    syn::parse_str::<syn::Visibility>(text).is_ok()
}

/// Calls `syn::parse_str` for `syn::Type`: whether the whole text parses as
/// one type, and that type is a reference.
#[verifier::external_body]
fn parses_as_reference(text: &str) -> (r: bool)
    ensures
        r == is_rust_reference(text@),
{
    matches!(syn::parse_str::<syn::Type>(text), Ok(syn::Type::Reference(_)))
}

/// Calls `syn::punctuated::Punctuated::parse_terminated` on the whole text,
/// for types separated by commas, and prints each type with
/// `quote::ToTokens::to_token_stream`.
#[verifier::external_body]
pub(crate) fn split_types(text: &str) -> (r: Option<Vec<String>>)
    ensures
        r.deep_view() == rust_types(text@),
{
    let parser = syn::punctuated::Punctuated::<syn::Type, syn::token::Comma>::parse_terminated;
    syn::parse::Parser::parse_str(parser, text).ok().map(
        |list| list.iter().map(|ty| quote::ToTokens::to_token_stream(ty).to_string()).collect(),
    )
}

/// Whether a type is a reference, such as `&str` or `&'a [u8]`.
pub fn is_reference_type(ty: &str) -> (r: bool)
    ensures
        r == is_rust_reference(ty@),
{
    parses_as_reference(ty)
}

} // verus!
