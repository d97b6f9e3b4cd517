//! Transition cases: the flat form that both ways of writing a transition
//! come down to.

use vstd::prelude::*;
use crate::parser::guard::{GuardExpr, GuardExprView};
use crate::parser::input::{InputVariant, InputVariantView};
use crate::parser::output::{OutputSpec, OutputSpecView};
use crate::text::copy_text;

verus! {

/// One transition case: in `state`, on `input`, if `guard_expr` holds (or
/// there is none), go to `next_state` and put out `output`.
#[derive(Debug, Clone, PartialEq, Eq)]
pub struct MatchCase {
    pub state: String,
    pub input: InputVariant,
    pub guard_expr: Option<GuardExpr>,
    pub next_state: String,
    pub output: Option<OutputSpec>,
}

/// The mathematical value of a [`MatchCase`].
pub struct MatchCaseView {
    pub state: Seq<char>,
    pub input: InputVariantView,
    pub guard_expr: Option<GuardExprView>,
    pub next_state: Seq<char>,
    pub output: Option<OutputSpecView>,
}

impl DeepView for MatchCase {
    type V = MatchCaseView;

    open spec fn deep_view(&self) -> MatchCaseView {
        MatchCaseView {
            state: self.state@,
            input: self.input.deep_view(),
            guard_expr: self.guard_expr.deep_view(),
            next_state: self.next_state@,
            output: self.output.deep_view(),
        }
    }
}

impl View for MatchCase {
    type V = MatchCaseView;

    open spec fn view(&self) -> MatchCaseView {
        self.deep_view()
    }
}

impl MatchCaseView {
    /// The case without guard or output.
    pub open spec fn new(
        state: Seq<char>,
        input: InputVariantView,
        next_state: Seq<char>,
    ) -> MatchCaseView {
        MatchCaseView { state, input, guard_expr: None, next_state, output: None }
    }

    /// The case with its output replaced.
    pub open spec fn with_output(self, output: Option<OutputSpecView>) -> MatchCaseView {
        MatchCaseView { output, ..self }
    }

    /// The case with its guard replaced.
    pub open spec fn with_guard(self, guard_expr: GuardExprView) -> MatchCaseView {
        MatchCaseView { guard_expr: Some(guard_expr), ..self }
    }

    /// The name of the constant the case puts out, if it puts out one.
    pub open spec fn constant_output(self) -> Option<Seq<char>> {
        match self.output {
            Some(OutputSpecView::Constant(name)) => Some(name),
            _ => None,
        }
    }

    /// Whether the values of the input's fields are needed to decide or to
    /// carry out the case: the input has fields, and the case has a guard or
    /// computes its output by a call.
    pub open spec fn binds_fields(self) -> bool {
        self.input.fields.len() > 0 && (self.guard_expr is Some || (self.output matches Some(
            o,
        ) && o.is_expr()))
    }
}

impl MatchCase {
    /// A case without guard or output.
    pub fn new(state: &str, input: &InputVariant, next_state: &str) -> (r: Self)
        ensures
            r@ == MatchCaseView::new(state@, input@, next_state@),
    {
        MatchCase {
            state: copy_text(state),
            input: input.duplicate(),
            guard_expr: None,
            next_state: copy_text(next_state),
            output: None,
        }
    }

    /// Sets what the case puts out.
    pub fn with_output(self, output: Option<&OutputSpec>) -> (r: Self)
        ensures
            r@ == self@.with_output(output.deep_view()),
    {
        let output = match output {
            Some(o) => Some(o.duplicate()),
            None => None,
        };
        MatchCase {
            state: self.state,
            input: self.input,
            guard_expr: self.guard_expr,
            next_state: self.next_state,
            output,
        }
    }

    /// Makes the case depend on a guard.
    pub fn with_guard(self, guard_expr: GuardExpr) -> (r: Self)
        ensures
            r@ == self@.with_guard(guard_expr@),
    {
        MatchCase {
            state: self.state,
            input: self.input,
            guard_expr: Some(guard_expr),
            next_state: self.next_state,
            output: self.output,
        }
    }

    /// The name of the constant the case puts out: `None` where it puts out
    /// nothing or computes its output by a call.
    pub fn constant_output(&self) -> (r: Option<&String>)
        ensures
            r.deep_view() == self@.constant_output(),
    {
        match &self.output {
            Some(OutputSpec::Constant(name)) => Some(name),
            _ => None,
        }
    }

    /// Whether the values of the input's fields are needed to decide or to
    /// carry out the case.
    pub fn binds_fields(&self) -> (r: bool)
        ensures
            r == self@.binds_fields(),
    {
        if self.input.fields.len() == 0 {
            return false;
        }
        if self.guard_expr.is_some() {
            return true;
        }
        match &self.output {
            Some(o) => o.is_expr(),
            None => false,
        }
    }
}

} // verus!
