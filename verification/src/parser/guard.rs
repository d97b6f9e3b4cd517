//! Guards: the conditions under which a transition applies.

use vstd::prelude::*;
use crate::cursor::{agrees, agrees_on_all, error_at, fail_at, find_arrow, group_at, group_content,
    group_of, is_punct_at, is_word_at, name_at, name_of, next_arrow, punct_at, word_at, ParseError,
    ParseErrorKind};
use crate::parser::match_arm::{is_wildcard_pattern, parse_arms, wildcard_pattern, MatchArm,
    MatchArmView};
use crate::syntax::{is_rust_expr, parses_as_expr};
use crate::text::{copy_text, copy_texts};
use crate::token::{range_text, render_range, Delimiter, Location, TokenTree, TreeView};

verus! {

/// The condition of one transition case.
///
/// `Closure` holds a predicate expression that is called with the values of
/// the input's fields. `Matches` says that those values, bound to `bindings`
/// and taken together as a tuple, match `pattern`; `field_types` are the
/// types of the input's fields, one for each binding.
#[derive(Debug, Clone, PartialEq, Eq)]
pub enum GuardExpr {
    Closure(String),
    Matches { bindings: Vec<String>, field_types: Vec<String>, pattern: String },
}

/// The mathematical value of a [`GuardExpr`].
pub enum GuardExprView {
    Closure(Seq<char>),
    Matches { bindings: Seq<Seq<char>>, field_types: Seq<Seq<char>>, pattern: Seq<char> },
}

impl DeepView for GuardExpr {
    type V = GuardExprView;

    open spec fn deep_view(&self) -> GuardExprView {
        match self {
            GuardExpr::Closure(expr) => GuardExprView::Closure(expr@),
            GuardExpr::Matches { bindings, field_types, pattern } => GuardExprView::Matches {
                bindings: bindings.deep_view(),
                field_types: field_types.deep_view(),
                pattern: pattern@,
            },
        }
    }
}

impl View for GuardExpr {
    type V = GuardExprView;

    open spec fn view(&self) -> GuardExprView {
        self.deep_view()
    }
}

impl GuardExprView {
    /// The guard holds of every input: it matches against a pattern made of
    /// wildcards alone.
    pub open spec fn always_holds(self) -> bool {
        match self {
            GuardExprView::Closure(_) => false,
            GuardExprView::Matches { pattern, .. } => is_wildcard_pattern(pattern),
        }
    }
}

impl GuardExpr {
    /// Whether the guard holds of every input.
    pub fn always_holds(&self) -> (r: bool)
        ensures
            r == self@.always_holds(),
    {
        match self {
            GuardExpr::Closure(_) => false,
            GuardExpr::Matches { bindings: _, field_types: _, pattern } => wildcard_pattern(
                pattern.as_str(),
            ),
        }
    }
}

/// A `match` guard: the names bound to the input's fields and the arms, each
/// leading to a state of its own.
#[derive(Debug, Clone, PartialEq, Eq)]
pub struct BindingGuard {
    pub bindings: Vec<String>,
    pub arms: Vec<MatchArm>,
}

/// The mathematical value of a [`BindingGuard`].
pub struct BindingGuardView {
    pub bindings: Seq<Seq<char>>,
    pub arms: Seq<MatchArmView>,
}

impl DeepView for BindingGuard {
    type V = BindingGuardView;

    open spec fn deep_view(&self) -> BindingGuardView {
        BindingGuardView { bindings: self.bindings.deep_view(), arms: self.arms.deep_view() }
    }
}

impl View for BindingGuard {
    type V = BindingGuardView;

    open spec fn view(&self) -> BindingGuardView {
        self.deep_view()
    }
}

impl BindingGuardView {
    /// The condition under which the given arm applies to an input with the
    /// given field types.
    pub open spec fn guard_expr_for_arm(
        self,
        fields: Seq<Seq<char>>,
        arm: MatchArmView,
    ) -> GuardExprView {
        GuardExprView::Matches {
            bindings: self.bindings,
            field_types: fields,
            pattern: arm.pattern,
        }
    }
}

/// The names written from position `pos` on to the end, after the names
/// `done`: one after the other, separated by commas; a comma may follow the
/// last.
pub open spec fn parse_names(
    tokens: Seq<TreeView>,
    pos: int,
    done: Seq<Seq<char>>,
    end: Location,
) -> Result<Seq<Seq<char>>, ParseError>
    decreases tokens.len() - pos,
{
    if pos < 0 || pos >= tokens.len() {
        Ok(done)
    } else {
        match name_at(tokens, pos) {
            None => Err(error_at(ParseErrorKind::ExpectedName, tokens, pos, end)),
            Some(name) => if pos + 1 >= tokens.len() {
                Ok(done.push(name))
            } else if punct_at(tokens, pos + 1, ',') {
                parse_names(tokens, pos + 2, done.push(name), end)
            } else {
                Err(error_at(ParseErrorKind::ExpectedComma, tokens, pos + 1, end))
            },
        }
    }
}

/// The names that a `match` guard binds, as written at position `pos`: one
/// name, or a group in parentheses that lists names.
pub open spec fn parse_bindings(tokens: Seq<TreeView>, pos: int, end: Location) -> Result<
    Seq<Seq<char>>,
    ParseError,
> {
    if group_at(tokens, pos, Delimiter::Parenthesis) {
        parse_names(group_content(tokens, pos), 0, Seq::empty(), tokens[pos].location())
    } else {
        match name_at(tokens, pos) {
            Some(name) => Ok(seq![name]),
            None => Err(error_at(ParseErrorKind::ExpectedName, tokens, pos, end)),
        }
    }
}

/// A `match` guard as written from position `pos` on, after the word
/// `match`: the bound names, and the arms in braces.
pub open spec fn parse_binding_guard(tokens: Seq<TreeView>, pos: int, end: Location) -> Result<
    (BindingGuardView, int),
    ParseError,
> {
    match parse_bindings(tokens, pos, end) {
        Err(e) => Err(e),
        Ok(bindings) => if !group_at(tokens, pos + 1, Delimiter::Brace) {
            Err(error_at(ParseErrorKind::ExpectedBraces, tokens, pos + 1, end))
        } else {
            match parse_arms(
                group_content(tokens, pos + 1),
                0,
                Seq::empty(),
                tokens[pos + 1].location(),
            ) {
                Err(e) => Err(e),
                Ok(arms) => Ok((BindingGuardView { bindings, arms }, pos + 2)),
            }
        },
    }
}

/// The guard written at position `pos`, if one stands there. After `if`
/// comes a predicate: all that stands before the next `=>`, which must be an
/// expression. After `match` comes a `match` guard.
pub open spec fn parse_guard(tokens: Seq<TreeView>, pos: int, end: Location) -> Result<
    (Option<GuardView>, int),
    ParseError,
> {
    if word_at(tokens, pos, "if"@) {
        let arrow = next_arrow(tokens, pos + 1);
        let predicate = range_text(tokens, pos + 1, arrow);
        if arrow >= tokens.len() {
            Err(error_at(ParseErrorKind::ExpectedArrow, tokens, arrow, end))
        } else if !is_rust_expr(predicate) {
            Err(error_at(ParseErrorKind::InvalidExpression, tokens, pos + 1, end))
        } else {
            Ok((Some(GuardView::Closure(predicate)), arrow))
        }
    } else if word_at(tokens, pos, "match"@) {
        match parse_binding_guard(tokens, pos + 1, end) {
            Ok((guard, next)) => Ok((Some(GuardView::Binding(guard)), next)),
            Err(e) => Err(e),
        }
    } else {
        Ok((None, pos))
    }
}

/// Reads a list of names: all of `tokens`, name after name, separated by
/// commas.
pub fn read_names(tokens: &Vec<TokenTree>, end: Location) -> (r: Result<Vec<String>, ParseError>)
    ensures
        agrees_on_all(r, parse_names(tokens.deep_view(), 0, Seq::empty(), end)),
{
    let mut names: Vec<String> = Vec::new();
    let mut pos: usize = 0;
    assert(names.deep_view() =~= Seq::<Seq<char>>::empty());
    while pos < tokens.len()
        invariant
            parse_names(tokens.deep_view(), 0, Seq::empty(), end) == parse_names(
                tokens.deep_view(),
                pos as int,
                names.deep_view(),
                end,
            ),
        decreases tokens.len() - pos,
    {
        match name_of(tokens, pos) {
            None => { return Err(fail_at(ParseErrorKind::ExpectedName, tokens, pos, end)); },
            Some(name) => {
                let ghost before = names.deep_view();
                names.push(copy_text(name.as_str()));
                assert(names.deep_view() =~= before.push(name@));
                if pos + 1 >= tokens.len() {
                    return Ok(names);
                }
                if !is_punct_at(tokens, pos + 1, ',') {
                    return Err(fail_at(ParseErrorKind::ExpectedComma, tokens, pos + 1, end));
                }
                pos = pos + 2;
            },
        }
    }
    Ok(names)
}

impl BindingGuard {
    /// Reads a `match` guard from position `pos` on, after the word `match`:
    /// one name or a list of names in parentheses, then the arms in braces.
    /// `end` is the place to report where the tokens run out.
    pub fn parse(tokens: &Vec<TokenTree>, pos: usize, end: Location) -> (r: Result<
        (BindingGuard, usize),
        ParseError,
    >)
        ensures
            agrees(r, parse_binding_guard(tokens.deep_view(), pos as int, end)),
            r matches Ok((_, next)) ==> pos < next <= tokens.len(),
    {
        let bindings = match group_of(tokens, pos, Delimiter::Parenthesis) {
            Some(inner) => match read_names(inner, tokens[pos].location()) {
                Ok(names) => names,
                Err(e) => { return Err(e); },
            },
            None => match name_of(tokens, pos) {
                Some(name) => {
                    let mut names: Vec<String> = Vec::new();
                    names.push(copy_text(name.as_str()));
                    assert(names.deep_view() =~= seq![name@]);
                    names
                },
                None => { return Err(fail_at(ParseErrorKind::ExpectedName, tokens, pos, end)); },
            },
        };
        assert(pos < tokens.len());
        match group_of(tokens, pos + 1, Delimiter::Brace) {
            None => Err(fail_at(ParseErrorKind::ExpectedBraces, tokens, pos + 1, end)),
            Some(inner) => match MatchArm::parse_all(inner, tokens[pos + 1].location()) {
                Err(e) => Err(e),
                Ok(arms) => Ok((BindingGuard { bindings, arms }, pos + 2)),
            },
        }
    }

    /// The condition under which the given arm applies: the values of the
    /// input's fields, bound to this guard's names, match the arm's pattern.
    /// There is one name for each field.
    pub fn guard_expr_for_arm(&self, fields: &Vec<String>, arm: &MatchArm) -> (r: GuardExpr)
        requires
            fields.len() == self.bindings.len(),
        ensures
            r@ == self@.guard_expr_for_arm(fields.deep_view(), arm@),
    {
        GuardExpr::Matches {
            bindings: copy_texts(&self.bindings),
            field_types: copy_texts(fields),
            pattern: copy_text(arm.pattern.as_str()),
        }
    }
}

/// The guard of an entry as written: an `if` with a predicate, or a `match`
/// with arms.
#[derive(Debug, Clone, PartialEq, Eq)]
pub enum Guard {
    Binding(BindingGuard),
    Closure(String),
}

/// The mathematical value of a [`Guard`].
pub enum GuardView {
    Binding(BindingGuardView),
    Closure(Seq<char>),
}

impl DeepView for Guard {
    type V = GuardView;

    open spec fn deep_view(&self) -> GuardView {
        match self {
            Guard::Binding(b) => GuardView::Binding(b.deep_view()),
            Guard::Closure(expr) => GuardView::Closure(expr@),
        }
    }
}

impl View for Guard {
    type V = GuardView;

    open spec fn view(&self) -> GuardView {
        self.deep_view()
    }
}

impl Guard {
    /// Reads the guard at position `pos`, if one stands there: `if` with a
    /// predicate that reaches to the next `=>`, or `match` with bindings and
    /// arms. `end` is the place to report where the tokens run out.
    pub fn parse(tokens: &Vec<TokenTree>, pos: usize, end: Location) -> (r: Result<
        (Option<Guard>, usize),
        ParseError,
    >)
        ensures
            agrees(r, parse_guard(tokens.deep_view(), pos as int, end)),
            r matches Ok((guard, next)) ==> pos <= next && (guard is Some ==> pos < next
                <= tokens.len()),
    {
        if is_word_at(tokens, pos, "if") {
            let arrow = find_arrow(tokens, pos + 1);
            if arrow >= tokens.len() {
                return Err(fail_at(ParseErrorKind::ExpectedArrow, tokens, arrow, end));
            }
            let predicate = render_range(tokens, pos + 1, arrow);
            if !parses_as_expr(predicate.as_str()) {
                return Err(fail_at(ParseErrorKind::InvalidExpression, tokens, pos + 1, end));
            }
            Ok((Some(Guard::Closure(predicate)), arrow))
        } else if is_word_at(tokens, pos, "match") {
            match BindingGuard::parse(tokens, pos + 1, end) {
                Ok((guard, next)) => Ok((Some(Guard::Binding(guard)), next)),
                Err(e) => Err(e),
            }
        } else {
            Ok((None, pos))
        }
    }
}

} // verus!
