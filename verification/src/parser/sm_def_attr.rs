//! The options of a machine: types supplied from outside, and hooks.

use vstd::prelude::*;
use crate::cursor::{agrees, error_at, fail_at, group_at, group_content, group_of, is_punct_at,
    punct_at, ParseError, ParseErrorKind};
use crate::syntax::{is_rust_expr, is_rust_path, parses_as_expr, parses_as_path};
use crate::text::{copy_optional_text, same_text};
use crate::token::{range_text, render_range, Delimiter, Location, TokenTree, TreeView};

verus! {

/// The options of a machine, as given in its `state_machine` attributes.
///
/// A type that is named here is not derived from the transitions: the
/// machine uses the named type, and the names in the description are taken
/// to be values of it. The hooks are expressions that are called around each
/// transition.
#[derive(Debug, Clone, PartialEq, Eq)]
pub struct SMDefAttr {
    pub input_type: Option<String>,
    pub state_type: Option<String>,
    pub output_type: Option<String>,
    pub before_transition: Option<String>,
    pub after_transition: Option<String>,
}

/// The mathematical value of an [`SMDefAttr`].
pub struct SMDefAttrView {
    pub input_type: Option<Seq<char>>,
    pub state_type: Option<Seq<char>>,
    pub output_type: Option<Seq<char>>,
    pub before_transition: Option<Seq<char>>,
    pub after_transition: Option<Seq<char>>,
}

impl DeepView for SMDefAttr {
    type V = SMDefAttrView;

    open spec fn deep_view(&self) -> SMDefAttrView {
        SMDefAttrView {
            input_type: self.input_type.deep_view(),
            state_type: self.state_type.deep_view(),
            output_type: self.output_type.deep_view(),
            before_transition: self.before_transition.deep_view(),
            after_transition: self.after_transition.deep_view(),
        }
    }
}

impl View for SMDefAttr {
    type V = SMDefAttrView;

    open spec fn view(&self) -> SMDefAttrView {
        self.deep_view()
    }
}

impl SMDefAttrView {
    /// No option is given.
    pub open spec fn empty() -> SMDefAttrView {
        SMDefAttrView {
            input_type: None,
            state_type: None,
            output_type: None,
            before_transition: None,
            after_transition: None,
        }
    }
}

/// The word that token `i` spells, if it is an identifier.
pub open spec fn ident_at(tokens: Seq<TreeView>, i: int) -> Option<Seq<char>> {
    if 0 <= i < tokens.len() {
        match tokens[i] {
            TreeView::Ident(word, _) => Some(word),
            _ => None,
        }
    } else {
        None
    }
}

/// The options after one more of them, `name(content)`, written at position
/// `pos`. `input`, `state` and `output` take a path, `before_transition` and
/// `after_transition` an expression. An option of another name is passed
/// over, provided its parentheses are empty.
pub open spec fn parse_option(
    tokens: Seq<TreeView>,
    pos: int,
    given: SMDefAttrView,
    end: Location,
) -> Result<(SMDefAttrView, int), ParseError> {
    match ident_at(tokens, pos) {
        None => Err(error_at(ParseErrorKind::ExpectedName, tokens, pos, end)),
        Some(name) => if !group_at(tokens, pos + 1, Delimiter::Parenthesis) {
            Err(error_at(ParseErrorKind::ExpectedParentheses, tokens, pos + 1, end))
        } else {
            let content = group_content(tokens, pos + 1);
            let text = range_text(content, 0, content.len() as int);
            if name == "input"@ || name == "state"@ || name == "output"@ {
                if !is_rust_path(text) {
                    Err(error_at(ParseErrorKind::InvalidPath, tokens, pos + 1, end))
                } else if name == "input"@ {
                    Ok((SMDefAttrView { input_type: Some(text), ..given }, pos + 2))
                } else if name == "state"@ {
                    Ok((SMDefAttrView { state_type: Some(text), ..given }, pos + 2))
                } else {
                    Ok((SMDefAttrView { output_type: Some(text), ..given }, pos + 2))
                }
            } else if name == "before_transition"@ || name == "after_transition"@ {
                if !is_rust_expr(text) {
                    Err(error_at(ParseErrorKind::InvalidExpression, tokens, pos + 1, end))
                } else if name == "before_transition"@ {
                    Ok((SMDefAttrView { before_transition: Some(text), ..given }, pos + 2))
                } else {
                    Ok((SMDefAttrView { after_transition: Some(text), ..given }, pos + 2))
                }
            } else if content.len() == 0 {
                Ok((given, pos + 2))
            } else {
                Err(
                    error_at(
                        ParseErrorKind::UnexpectedToken,
                        content,
                        0,
                        tokens[pos + 1].location(),
                    ),
                )
            }
        },
    }
}

/// The options after those written from position `pos` on to the end: one
/// after the other, separated by commas; a comma may follow the last. Where
/// an option is given twice, the later one counts.
pub open spec fn parse_options(
    tokens: Seq<TreeView>,
    pos: int,
    given: SMDefAttrView,
    end: Location,
) -> Result<SMDefAttrView, ParseError>
    decreases tokens.len() - pos,
{
    if pos < 0 || pos >= tokens.len() {
        Ok(given)
    } else {
        match parse_option(tokens, pos, given, end) {
            Err(e) => Err(e),
            Ok((with, next)) => if next >= tokens.len() {
                Ok(with)
            } else if next >= pos && punct_at(tokens, next, ',') {
                parse_options(tokens, next + 1, with, end)
            } else {
                Err(error_at(ParseErrorKind::ExpectedComma, tokens, next, end))
            },
        }
    }
}

impl SMDefAttr {
    /// No option.
    pub fn new() -> (r: Self)
        ensures
            r@ == SMDefAttrView::empty(),
    {
        SMDefAttr {
            input_type: None,
            state_type: None,
            output_type: None,
            before_transition: None,
            after_transition: None,
        }
    }

    /// An owned copy.
    pub fn duplicate(&self) -> (r: Self)
        ensures
            r@ == self@,
    {
        SMDefAttr {
            input_type: copy_optional_text(&self.input_type),
            state_type: copy_optional_text(&self.state_type),
            output_type: copy_optional_text(&self.output_type),
            before_transition: copy_optional_text(&self.before_transition),
            after_transition: copy_optional_text(&self.after_transition),
        }
    }

    /// Takes in the option `name(content)` written at position `pos`. `end`
    /// is the place to report where the tokens run out.
    pub fn load_nested_attr(self, tokens: &Vec<TokenTree>, pos: usize, end: Location) -> (r: Result<
        (SMDefAttr, usize),
        ParseError,
    >)
        ensures
            agrees(r, parse_option(tokens.deep_view(), pos as int, self@, end)),
            r matches Ok((_, next)) ==> pos < next <= tokens.len(),
    {
        if pos >= tokens.len() {
            return Err(fail_at(ParseErrorKind::ExpectedName, tokens, pos, end));
        }
        let name = match &tokens[pos] {
            TokenTree::Ident(word, _) => word.as_str(),
            _ => { return Err(fail_at(ParseErrorKind::ExpectedName, tokens, pos, end)); },
        };
        let content = match group_of(tokens, pos + 1, Delimiter::Parenthesis) {
            Some(content) => content,
            None => {
                return Err(fail_at(ParseErrorKind::ExpectedParentheses, tokens, pos + 1, end));
            },
        };
        let text = render_range(content, 0, content.len());
        let is_input = same_text(name, "input");
        let is_state = same_text(name, "state");
        let is_output = same_text(name, "output");
        let is_before = same_text(name, "before_transition");
        let is_after = same_text(name, "after_transition");
        let mut with = self;
        if is_input || is_state || is_output {
            if !parses_as_path(text.as_str()) {
                return Err(fail_at(ParseErrorKind::InvalidPath, tokens, pos + 1, end));
            }
            if is_input {
                with.input_type = Some(text);
            } else if is_state {
                with.state_type = Some(text);
            } else {
                with.output_type = Some(text);
            }
        } else if is_before || is_after {
            if !parses_as_expr(text.as_str()) {
                return Err(fail_at(ParseErrorKind::InvalidExpression, tokens, pos + 1, end));
            }
            if is_before {
                with.before_transition = Some(text);
            } else {
                with.after_transition = Some(text);
            }
        } else if content.len() != 0 {
            return Err(
                fail_at(ParseErrorKind::UnexpectedToken, content, 0, tokens[pos + 1].location()),
            );
        }
        Ok((with, pos + 2))
    }

    /// Takes in the options that `tokens` lists, separated by commas.
    pub fn load_all(self, tokens: &Vec<TokenTree>, end: Location) -> (r: Result<SMDefAttr, ParseError>)
        ensures
            match (r, parse_options(tokens.deep_view(), 0, self@, end)) {
                (Ok(with), Ok(v)) => with@ == v,
                (Err(e), Err(f)) => e == f,
                _ => false,
            },
    {
        let mut given = self;
        let mut pos: usize = 0;
        while pos < tokens.len()
            invariant
                parse_options(tokens.deep_view(), 0, self@, end) == parse_options(
                    tokens.deep_view(),
                    pos as int,
                    given@,
                    end,
                ),
            decreases tokens.len() - pos,
        {
            match given.load_nested_attr(tokens, pos, end) {
                Err(e) => { return Err(e); },
                Ok((with, next)) => {
                    given = with;
                    if next >= tokens.len() {
                        return Ok(given);
                    }
                    if !is_punct_at(tokens, next, ',') {
                        return Err(fail_at(ParseErrorKind::ExpectedComma, tokens, next, end));
                    }
                    pos = next + 1;
                },
            }
        }
        Ok(given)
    }
}

} // verus!
