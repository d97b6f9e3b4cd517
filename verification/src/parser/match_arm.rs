//! One arm of a `match` guard.

use vstd::prelude::*;
use vstd::string::*;
use crate::cursor::{agrees, agrees_on_all, arrow_at, error_at, fail_at, find_arrow, is_arrow_at,
    is_punct_at, name_at, name_of, next_arrow, punct_at, ParseError, ParseErrorKind};
use crate::parser::output::{parse_output, OutputSpec, OutputSpecView};
use crate::syntax::{is_rust_expr, parses_as_expr};
use crate::text::copy_text;
use crate::token::{range_text, render_range, Location, TokenTree, TreeView};

verus! {

/// One arm of a `match` guard: a pattern over the bound names, the state the
/// machine goes to when the pattern matches, and what it puts out.
#[derive(Debug, Clone, PartialEq, Eq)]
pub struct MatchArm {
    pub pattern: String,
    pub final_state: String,
    pub output: Option<OutputSpec>,
}

/// The mathematical value of a [`MatchArm`].
pub struct MatchArmView {
    pub pattern: Seq<char>,
    pub final_state: Seq<char>,
    pub output: Option<OutputSpecView>,
}

impl DeepView for MatchArm {
    type V = MatchArmView;

    open spec fn deep_view(&self) -> MatchArmView {
        MatchArmView {
            pattern: self.pattern@,
            final_state: self.final_state@,
            output: self.output.deep_view(),
        }
    }
}

impl View for MatchArm {
    type V = MatchArmView;

    open spec fn view(&self) -> MatchArmView {
        self.deep_view()
    }
}

/// The characters a pattern made of wildcards alone is written with.
pub open spec fn wildcard_char(c: char) -> bool {
    c == '_' || c == '(' || c == ')' || c == ',' || c == ' '
}

/// A pattern that every value matches: it is written with `_`, parentheses,
/// commas and blanks alone, holds at least one `_`, and no two `_` touch
/// (which would spell a name).
pub open spec fn is_wildcard_pattern(p: Seq<char>) -> bool {
    &&& exists|i: int| 0 <= i < p.len() && p[i] == '_'
    &&& forall|i: int| 0 <= i < p.len() ==> wildcard_char(#[trigger] p[i])
    &&& forall|i: int| 0 <= i < p.len() - 1 ==> !(#[trigger] p[i] == '_' && p[i + 1] == '_')
}

/// Whether every value matches the pattern.
pub fn wildcard_pattern(pattern: &str) -> (r: bool)
    ensures
        r == is_wildcard_pattern(pattern@),
{
    let n = pattern.unicode_len();
    let mut seen = false;
    let mut previous = false;
    let mut i: usize = 0;
    while i < n
        invariant
            i <= n,
            n == pattern@.len(),
            seen == (exists|j: int| 0 <= j < i && pattern@[j] == '_'),
            previous == (i > 0 && pattern@[i - 1] == '_'),
            forall|j: int| 0 <= j < i ==> wildcard_char(#[trigger] pattern@[j]),
            forall|j: int| 0 <= j < i - 1 ==> !(#[trigger] pattern@[j] == '_' && pattern@[j + 1] == '_'),
        decreases n - i,
    {
        let c = pattern.get_char(i);
        let under = c == '_';
        if !(under || c == '(' || c == ')' || c == ',' || c == ' ') {
            assert(!wildcard_char(pattern@[i as int]));
            return false;
        }
        if under && previous {
            assert(pattern@[i - 1] == '_' && pattern@[i - 1 + 1] == '_');
            return false;
        }
        if under {
            seen = true;
        }
        previous = under;
        i += 1;
    }
    seen
}

/// Where a transition leads, as written from position `pos` on: `=>`, the
/// name of a state, and an output if one follows.
pub open spec fn parse_target(tokens: Seq<TreeView>, pos: int, end: Location) -> Result<
    ((Seq<char>, Option<OutputSpecView>), int),
    ParseError,
> {
    if !arrow_at(tokens, pos) {
        Err(error_at(ParseErrorKind::ExpectedArrow, tokens, pos, end))
    } else {
        match name_at(tokens, pos + 2) {
            None => Err(error_at(ParseErrorKind::ExpectedName, tokens, pos + 2, end)),
            Some(state) => match parse_output(tokens, pos + 3) {
                Ok((output, next)) => Ok(((state, output), next)),
                Err(e) => Err(e),
            },
        }
    }
}

/// An arm as written from position `pos` on: a pattern, which is all that
/// stands before the next `=>` and must be an expression, and where the arm
/// leads.
pub open spec fn parse_arm(tokens: Seq<TreeView>, pos: int, end: Location) -> Result<
    (MatchArmView, int),
    ParseError,
> {
    let arrow = next_arrow(tokens, pos);
    let pattern = range_text(tokens, pos, arrow);
    if arrow >= tokens.len() {
        Err(error_at(ParseErrorKind::ExpectedArrow, tokens, arrow, end))
    } else if !is_rust_expr(pattern) {
        Err(error_at(ParseErrorKind::InvalidExpression, tokens, pos, end))
    } else {
        match parse_target(tokens, arrow, end) {
            Ok(((final_state, output), next)) => Ok(
                (MatchArmView { pattern, final_state, output }, next),
            ),
            Err(e) => Err(e),
        }
    }
}

/// The arms written from position `pos` on to the end, after the arms `done`:
/// one after the other, separated by commas; a comma may follow the last.
pub open spec fn parse_arms(
    tokens: Seq<TreeView>,
    pos: int,
    done: Seq<MatchArmView>,
    end: Location,
) -> Result<Seq<MatchArmView>, ParseError>
    decreases tokens.len() - pos,
{
    if pos < 0 || pos >= tokens.len() {
        Ok(done)
    } else {
        match parse_arm(tokens, pos, end) {
            Err(e) => Err(e),
            Ok((arm, next)) => if next >= tokens.len() {
                Ok(done.push(arm))
            } else if next >= pos && punct_at(tokens, next, ',') {
                parse_arms(tokens, next + 1, done.push(arm), end)
            } else {
                Err(error_at(ParseErrorKind::ExpectedComma, tokens, next, end))
            },
        }
    }
}

/// Reads where a transition leads: `=>`, the name of a state, and an output
/// if one follows.
pub fn read_target(tokens: &Vec<TokenTree>, pos: usize, end: Location) -> (r: Result<
    ((String, Option<OutputSpec>), usize),
    ParseError,
>)
    ensures
        agrees(r, parse_target(tokens.deep_view(), pos as int, end)),
        r matches Ok((_, next)) ==> pos < next <= tokens.len(),
{
    if !is_arrow_at(tokens, pos) {
        return Err(fail_at(ParseErrorKind::ExpectedArrow, tokens, pos, end));
    }
    let state = match name_of(tokens, pos + 2) {
        Some(name) => copy_text(name.as_str()),
        None => { return Err(fail_at(ParseErrorKind::ExpectedName, tokens, pos + 2, end)); },
    };
    match OutputSpec::parse_optional(tokens, pos + 3) {
        Ok((output, next)) => Ok(((state, output), next)),
        Err(e) => Err(e),
    }
}

impl MatchArm {
    /// Reads an arm from position `pos` on: the pattern, `=>`, the state the
    /// arm leads to, and its output if one follows. `end` is the place to
    /// report where the tokens run out.
    pub fn parse(tokens: &Vec<TokenTree>, pos: usize, end: Location) -> (r: Result<
        (MatchArm, usize),
        ParseError,
    >)
        ensures
            agrees(r, parse_arm(tokens.deep_view(), pos as int, end)),
            r matches Ok((_, next)) ==> pos < next <= tokens.len(),
    {
        let arrow = find_arrow(tokens, pos);
        if arrow >= tokens.len() {
            return Err(fail_at(ParseErrorKind::ExpectedArrow, tokens, arrow, end));
        }
        let pattern = render_range(tokens, pos, arrow);
        if !parses_as_expr(pattern.as_str()) {
            return Err(fail_at(ParseErrorKind::InvalidExpression, tokens, pos, end));
        }
        match read_target(tokens, arrow, end) {
            Ok(((final_state, output), next)) => Ok((MatchArm { pattern, final_state, output }, next)),
            Err(e) => Err(e),
        }
    }

    /// Reads the arms of a `match` guard: all of `tokens`, arm after arm,
    /// separated by commas.
    pub fn parse_all(tokens: &Vec<TokenTree>, end: Location) -> (r: Result<Vec<MatchArm>, ParseError>)
        ensures
            agrees_on_all(r, parse_arms(tokens.deep_view(), 0, Seq::empty(), end)),
    {
        let mut arms: Vec<MatchArm> = Vec::new();
        let mut pos: usize = 0;
        assert(arms.deep_view() =~= Seq::<MatchArmView>::empty());
        while pos < tokens.len()
            invariant
                parse_arms(tokens.deep_view(), 0, Seq::empty(), end) == parse_arms(
                    tokens.deep_view(),
                    pos as int,
                    arms.deep_view(),
                    end,
                ),
            decreases tokens.len() - pos,
        {
            match MatchArm::parse(tokens, pos, end) {
                Err(e) => { return Err(e); },
                Ok((arm, next)) => {
                    let ghost before = arms.deep_view();
                    arms.push(arm);
                    assert(arms.deep_view() =~= before.push(arm@));
                    if next >= tokens.len() {
                        return Ok(arms);
                    }
                    if !is_punct_at(tokens, next, ',') {
                        return Err(fail_at(ParseErrorKind::ExpectedComma, tokens, next, end));
                    }
                    pos = next + 1;
                },
            }
        }
        Ok(arms)
    }

    /// An arm with the given pattern, target state and output.
    pub fn new(pattern: String, final_state: String, output: Option<OutputSpec>) -> (r: Self)
        ensures
            r@.pattern == pattern@,
            r@.final_state == final_state@,
            r@.output == output.deep_view(),
    {
        MatchArm { pattern, final_state, output }
    }
}

} // verus!
