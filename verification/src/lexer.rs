//! From text to token trees. The text is split into tokens as Rust source
//! text is, by the `proc_macro2` crate. What is said here of that crate is
//! said of its own lexer, which is the one at work wherever the library runs
//! outside of a procedural macro.

use proc_macro2::{Delimiter as Bracketing, Spacing, TokenTree as Tree};
use std::str::FromStr;
use vstd::prelude::*;
use crate::token::{Delimiter, Location, TokenTree, TreeView};

verus! {

/// Declares `proc_macro2::TokenStream`, which is carried from `lex` to
/// `trees_of` and never looked into.
#[verifier::external_type_specification]
#[verifier::external_body]
pub struct ExTokenStream(proc_macro2::TokenStream);

/// The token trees that a text consists of, each with the line and column
/// where it starts, or, where the text cannot be split into tokens (an
/// unclosed bracket, a broken literal), the place of the failure.
pub uninterp spec fn lexed(text: Seq<char>) -> Result<Seq<TreeView>, Location>;

/// The token trees that a stream holds, in order.
pub uninterp spec fn stream_trees(stream: proc_macro2::TokenStream) -> Seq<TreeView>;

/// Calls `proc_macro2::TokenStream::from_str`, which splits a text into
/// tokens as Rust does and fails on text that no sequence of tokens spells.
/// The contract gives the outcome a name, `lexed`; the place of a failure is
/// where the span of the error starts.
#[verifier::external_body]
fn lex(text: &str) -> (r: Result<proc_macro2::TokenStream, Location>)
    ensures
        match r {
            Ok(stream) => lexed(text@) == Ok::<Seq<TreeView>, Location>(stream_trees(stream)),
            Err(at) => lexed(text@) == Err::<Seq<TreeView>, Location>(at),
        },
{
    proc_macro2::TokenStream::from_str(text).map_err(
        |e| {
            let start = e.span().start();
            Location { line: start.line, column: start.column }
        },
    )
}

/// Walks a `proc_macro2::TokenStream` (`into_iter`, and `Group::stream` for
/// what a group holds) and hands out its token trees one for one: a group
/// with its delimiter and content, an identifier and a literal with their
/// text, a punctuation character with its spacing, each with the line and
/// column where its span starts.
#[verifier::external_body]
fn trees_of(stream: proc_macro2::TokenStream) -> (r: Vec<TokenTree>)
    ensures
        r.deep_view() == stream_trees(stream),
{
    stream.into_iter().map(|tree| {
        let start = tree.span().start();
        let at = Location { line: start.line, column: start.column };
        match tree {
            Tree::Group(g) => TokenTree::Group(match g.delimiter() {
                Bracketing::Parenthesis => Delimiter::Parenthesis,
                Bracketing::Brace => Delimiter::Brace,
                Bracketing::Bracket => Delimiter::Bracket,
                Bracketing::None => Delimiter::Invisible,
            }, trees_of(g.stream()), at),
            Tree::Ident(i) => TokenTree::Ident(i.to_string(), at),
            Tree::Punct(p) => TokenTree::Punct(p.as_char(), matches!(p.spacing(), Spacing::Joint), at),
            Tree::Literal(l) => TokenTree::Literal(l.to_string(), at),
        }
    }).collect()
}

/// The token trees of a text, or the place where splitting it into tokens
/// failed.
pub fn tokenize(text: &str) -> (r: Result<Vec<TokenTree>, Location>)
    ensures
        match r {
            Ok(trees) => lexed(text@) == Ok::<Seq<TreeView>, Location>(trees.deep_view()),
            Err(at) => lexed(text@) == Err::<Seq<TreeView>, Location>(at),
        },
{
    match lex(text) {
        Ok(stream) => Ok(trees_of(stream)),
        Err(at) => Err(at),
    }
}

} // verus!
