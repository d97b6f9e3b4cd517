//! Input events: a name and the types of the values the event carries.

use vstd::prelude::*;
use crate::cursor::{agrees, error_at, fail_at, group_at, group_content, group_of, name_at, name_of,
    ParseError, ParseErrorKind};
use crate::syntax::{rust_types, split_types};
use crate::text::{copy_text, copy_texts};
use crate::token::{range_text, render_range, Delimiter, Location, TokenTree, TreeView};

verus! {

/// An input event as declared in a description: `Coin`, or `Coin(u32)` with
/// the types of its fields in order.
#[derive(Debug, Clone, PartialEq, Eq)]
pub struct InputVariant {
    pub name: String,
    pub fields: Vec<String>,
}

/// The mathematical value of an [`InputVariant`].
pub struct InputVariantView {
    pub name: Seq<char>,
    pub fields: Seq<Seq<char>>,
}

impl DeepView for InputVariant {
    type V = InputVariantView;

    open spec fn deep_view(&self) -> InputVariantView {
        InputVariantView { name: self.name@, fields: self.fields.deep_view() }
    }
}

impl View for InputVariant {
    type V = InputVariantView;

    open spec fn view(&self) -> InputVariantView {
        self.deep_view()
    }
}

impl InputVariantView {
    /// The number of values the event carries.
    pub open spec fn arity(self) -> nat {
        self.fields.len()
    }
}

/// An input as written from position `pos` on: a name, and after it, where a
/// group in parentheses follows, the types of the fields.
pub open spec fn parse_input(tokens: Seq<TreeView>, pos: int, end: Location) -> Result<
    (InputVariantView, int),
    ParseError,
> {
    match name_at(tokens, pos) {
        None => Err(error_at(ParseErrorKind::ExpectedName, tokens, pos, end)),
        Some(name) => if group_at(tokens, pos + 1, Delimiter::Parenthesis) {
            let inner = group_content(tokens, pos + 1);
            match rust_types(range_text(inner, 0, inner.len() as int)) {
                Some(fields) => Ok((InputVariantView { name, fields }, pos + 2)),
                None => Err(error_at(ParseErrorKind::InvalidType, tokens, pos + 1, end)),
            }
        } else {
            Ok((InputVariantView { name, fields: Seq::empty() }, pos + 1))
        },
    }
}

impl InputVariant {
    /// Reads an input from position `pos` on: its name and, where a group in
    /// parentheses follows, the types of its fields. `end` is the place to
    /// report where the tokens run out.
    pub fn parse(tokens: &Vec<TokenTree>, pos: usize, end: Location) -> (r: Result<
        (InputVariant, usize),
        ParseError,
    >)
        ensures
            agrees(r, parse_input(tokens.deep_view(), pos as int, end)),
            r matches Ok((_, next)) ==> pos < next <= tokens.len(),
    {
        let name = match name_of(tokens, pos) {
            Some(name) => copy_text(name.as_str()),
            None => { return Err(fail_at(ParseErrorKind::ExpectedName, tokens, pos, end)); },
        };
        assert(name_at(tokens.deep_view(), pos as int) is Some);
        match group_of(tokens, pos + 1, Delimiter::Parenthesis) {
            Some(inner) => {
                assert(group_at(tokens.deep_view(), pos + 1, Delimiter::Parenthesis));
                let text = render_range(inner, 0, inner.len());
                match split_types(text.as_str()) {
                    Some(fields) => Ok((InputVariant { name, fields }, pos + 2)),
                    None => Err(fail_at(ParseErrorKind::InvalidType, tokens, pos + 1, end)),
                }
            },
            None => {
                let input = InputVariant { name, fields: Vec::new() };
                assert(input.fields.deep_view() =~= Seq::<Seq<char>>::empty());
                Ok((input, pos + 1))
            },
        }
    }

    /// An event with the given name and field types.
    pub fn new(name: String, fields: Vec<String>) -> (r: Self)
        ensures
            r@.name == name@,
            r@.fields == fields.deep_view(),
    {
        InputVariant { name, fields }
    }

    /// An event that carries no value.
    pub fn unit(name: &str) -> (r: Self)
        ensures
            r@.name == name@,
            r@.fields == Seq::<Seq<char>>::empty(),
    {
        let r = InputVariant { name: copy_text(name), fields: Vec::new() };
        assert(r.fields.deep_view() =~= Seq::<Seq<char>>::empty());
        r
    }

    /// The number of values the event carries.
    pub fn arity(&self) -> (n: usize)
        ensures
            n == self@.arity(),
    {
        self.fields.len()
    }

    /// An owned copy.
    pub fn duplicate(&self) -> (r: Self)
        ensures
            r@ == self@,
    {
        InputVariant { name: copy_text(self.name.as_str()), fields: copy_texts(&self.fields) }
    }
}

} // verus!
