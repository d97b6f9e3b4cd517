//! What a transition puts out.

use vstd::prelude::*;
use crate::cursor::{agrees, error_at, fail_at, group_at, group_content, group_of, is_punct_at, name_at,
    name_of, place, punct_at, ParseError, ParseErrorKind};
use crate::syntax::{is_rust_expr, parses_as_expr};
use crate::text::copy_text;
use crate::token::{range_text, render_range, Delimiter, Location, TokenTree, TreeView};

verus! {

/// The output of a transition: a named constant, which becomes a member of
/// the output alphabet, or an expression that is called with the values of
/// the input's fields when the transition is taken.
#[derive(Debug, Clone, PartialEq, Eq)]
pub enum OutputSpec {
    Constant(String),
    Call(String),
}

/// The mathematical value of an [`OutputSpec`].
pub enum OutputSpecView {
    Constant(Seq<char>),
    Call(Seq<char>),
}

impl DeepView for OutputSpec {
    type V = OutputSpecView;

    open spec fn deep_view(&self) -> OutputSpecView {
        match self {
            OutputSpec::Constant(name) => OutputSpecView::Constant(name@),
            OutputSpec::Call(expr) => OutputSpecView::Call(expr@),
        }
    }
}

impl View for OutputSpec {
    type V = OutputSpecView;

    open spec fn view(&self) -> OutputSpecView {
        self.deep_view()
    }
}

impl OutputSpecView {
    /// The constant's name, if the output is a constant.
    pub open spec fn as_const(self) -> Option<Seq<char>> {
        match self {
            OutputSpecView::Constant(name) => Some(name),
            OutputSpecView::Call(_) => None,
        }
    }

    /// Whether the output is computed by a call.
    pub open spec fn is_expr(self) -> bool {
        self is Call
    }
}

/// What stands between the brackets of an output: an expression that starts
/// with `|`, or one name.
pub open spec fn parse_output_spec(inner: Seq<TreeView>, end: Location) -> Result<
    OutputSpecView,
    ParseError,
> {
    if punct_at(inner, 0, '|') {
        let text = range_text(inner, 0, inner.len() as int);
        if is_rust_expr(text) {
            Ok(OutputSpecView::Call(text))
        } else {
            Err(error_at(ParseErrorKind::InvalidExpression, inner, 0, end))
        }
    } else {
        match name_at(inner, 0) {
            None => Err(error_at(ParseErrorKind::ExpectedName, inner, 0, end)),
            Some(name) => if inner.len() == 1 {
                Ok(OutputSpecView::Constant(name))
            } else {
                Err(error_at(ParseErrorKind::UnexpectedToken, inner, 1, end))
            },
        }
    }
}

/// The output as written at position `pos`: a group in brackets, or nothing.
pub open spec fn parse_output(tokens: Seq<TreeView>, pos: int) -> Result<
    (Option<OutputSpecView>, int),
    ParseError,
> {
    if group_at(tokens, pos, Delimiter::Bracket) {
        match parse_output_spec(group_content(tokens, pos), tokens[pos].location()) {
            Ok(output) => Ok((Some(output), pos + 1)),
            Err(e) => Err(e),
        }
    } else {
        Ok((None, pos))
    }
}

impl OutputSpec {
    /// Reads what stands between the brackets of an output: an expression
    /// that starts with `|` is a call, and anything else must be one name, a
    /// constant. `end` is the place to report where the tokens run out.
    pub fn parse(inner: &Vec<TokenTree>, end: Location) -> (r: Result<OutputSpec, ParseError>)
        ensures
            match (r, parse_output_spec(inner.deep_view(), end)) {
                (Ok(output), Ok(v)) => output@ == v,
                (Err(e), Err(f)) => e == f,
                _ => false,
            },
    {
        if is_punct_at(inner, 0, '|') {
            let text = render_range(inner, 0, inner.len());
            if parses_as_expr(text.as_str()) {
                Ok(OutputSpec::Call(text))
            } else {
                Err(fail_at(ParseErrorKind::InvalidExpression, inner, 0, end))
            }
        } else {
            match name_of(inner, 0) {
                None => Err(fail_at(ParseErrorKind::ExpectedName, inner, 0, end)),
                Some(name) => if inner.len() == 1 {
                    Ok(OutputSpec::Constant(copy_text(name.as_str())))
                } else {
                    Err(fail_at(ParseErrorKind::UnexpectedToken, inner, 1, end))
                },
            }
        }
    }

    /// Reads the output at position `pos`, if one stands there: a group in
    /// brackets.
    pub fn parse_optional(tokens: &Vec<TokenTree>, pos: usize) -> (r: Result<
        (Option<OutputSpec>, usize),
        ParseError,
    >)
        ensures
            agrees(r, parse_output(tokens.deep_view(), pos as int)),
            r matches Ok((_, next)) ==> pos <= next && (next <= tokens.len() || next == pos),
    {
        match group_of(tokens, pos, Delimiter::Bracket) {
            Some(inner) => match OutputSpec::parse(inner, {
                assert(group_at(tokens.deep_view(), pos as int, Delimiter::Bracket));
                tokens[pos].location()
            }) {
                Ok(output) => Ok((Some(output), pos + 1)),
                Err(e) => Err(e),
            },
            None => Ok((None, pos)),
        }
    }

    /// The constant's name, if the output is a constant.
    pub fn as_const(&self) -> (r: Option<&String>)
        ensures
            r.deep_view() == self@.as_const(),
    {
        match self {
            OutputSpec::Constant(name) => Some(name),
            OutputSpec::Call(_) => None,
        }
    }

    /// Whether the output is computed by a call.
    pub fn is_expr(&self) -> (r: bool)
        ensures
            r == self@.is_expr(),
    {
        match self {
            OutputSpec::Constant(_) => false,
            OutputSpec::Call(_) => true,
        }
    }

    /// An owned copy.
    pub fn duplicate(&self) -> (r: Self)
        ensures
            r@ == self@,
    {
        match self {
            OutputSpec::Constant(name) => OutputSpec::Constant(copy_text(name.as_str())),
            OutputSpec::Call(expr) => OutputSpec::Call(copy_text(expr.as_str())),
        }
    }
}

/// An owned copy of an output that may be absent.
pub fn copy_optional_output(output: &Option<OutputSpec>) -> (r: Option<OutputSpec>)
    ensures
        r.deep_view() == output.deep_view(),
{
    match output {
        Some(o) => Some(o.duplicate()),
        None => None,
    }
}

} // verus!
