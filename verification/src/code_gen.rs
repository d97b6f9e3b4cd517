//! The match arms that a machine's cases stand for, as Rust text.
//!
//! A case becomes one arm of the `transition` function and, where it has an
//! output, one arm of the `output` function. The values of the input's fields
//! are bound to `__arg0`, `__arg1`, ... where a guard or a computed output
//! needs them, and guards and computed outputs are called with them.

use vstd::prelude::*;
use vstd::string::*;
use crate::match_case::{MatchCase, MatchCaseView};
use crate::parser::guard::{GuardExpr, GuardExprView};
use crate::parser::input::{InputVariant, InputVariantView};
use crate::parser::output::{OutputSpec, OutputSpecView};
use crate::parser::sm_def_attr::SMDefAttr;

verus! {

/// The character of a decimal digit.
pub open spec fn digit(d: int) -> char {
    if d == 0 {
        '0'
    } else if d == 1 {
        '1'
    } else if d == 2 {
        '2'
    } else if d == 3 {
        '3'
    } else if d == 4 {
        '4'
    } else if d == 5 {
        '5'
    } else if d == 6 {
        '6'
    } else if d == 7 {
        '7'
    } else if d == 8 {
        '8'
    } else {
        '9'
    }
}

/// A number in decimal notation.
pub open spec fn decimal_text(n: nat) -> Seq<char>
    decreases n,
{
    if n < 10 {
        seq![digit(n as int)]
    } else {
        decimal_text(n / 10).push(digit((n % 10) as int))
    }
}

/// The name of the `i`-th field of an input.
pub open spec fn param_name(i: nat) -> Seq<char> {
    "__arg"@ + decimal_text(i)
}

/// The names of the fields of an input with `n` fields.
pub open spec fn param_names(n: nat) -> Seq<Seq<char>> {
    Seq::new(n, |i: int| param_name(i as nat))
}

/// The first `n` texts, each but the first after `separator`.
pub open spec fn separated(items: Seq<Seq<char>>, n: int, separator: Seq<char>) -> Seq<char>
    decreases n,
{
    if n <= 0 {
        Seq::empty()
    } else if n == 1 {
        items[0]
    } else {
        separated(items, n - 1, separator) + separator + items[n - 1]
    }
}

/// All the texts, separated by `, `.
pub open spec fn listed(items: Seq<Seq<char>>) -> Seq<char> {
    separated(items, items.len() as int, ", "@)
}

/// An input as a variant of the input type: its name, and its field types
/// in parentheses if it has fields.
pub open spec fn variant_text(input: InputVariantView) -> Seq<char> {
    if input.fields.len() == 0 {
        input.name
    } else {
        input.name + "("@ + listed(input.fields) + ")"@
    }
}

/// The pattern that matches the input of a case: the variant, with its
/// fields bound by reference where the case needs them and passed over
/// otherwise.
pub open spec fn input_pattern_text(case: MatchCaseView) -> Seq<char> {
    let variant = "Self::Input::"@ + case.input.name;
    if case.input.fields.len() == 0 {
        variant
    } else if case.binds_fields() {
        variant + "("@ + listed(
            param_names(case.input.fields.len()).map_values(|name: Seq<char>| "ref "@ + name),
        ) + ")"@
    } else {
        variant + "(..)"@
    }
}

/// One parameter of the predicate of a `match` guard: a bound name, and a
/// reference to the type of its field, if there is such a field.
pub open spec fn binding_param(bindings: Seq<Seq<char>>, field_types: Seq<Seq<char>>, i: int) -> Seq<
    char,
> {
    if i < field_types.len() {
        bindings[i] + ": &"@ + field_types[i]
    } else {
        bindings[i]
    }
}

/// A guard as a predicate over the values of the input's fields. A `match`
/// guard becomes a closure that takes the bound names and says whether they
/// match the pattern as a tuple.
pub open spec fn predicate_text(guard: GuardExprView) -> Seq<char> {
    match guard {
        GuardExprView::Closure(expr) => expr,
        GuardExprView::Matches { bindings, field_types, pattern } => "|"@ + listed(
            Seq::new(bindings.len(), |i: int| binding_param(bindings, field_types, i)),
        ) + "| matches!(("@ + listed(bindings) + "), "@ + pattern + ")"@,
    }
}

/// An expression called with the values of the fields of an input with `n`
/// fields.
pub open spec fn call_text(expr: Seq<char>, n: nat) -> Seq<char> {
    "("@ + expr + ")("@ + listed(param_names(n)) + ")"@
}

/// The guard of a case as it stands in a match arm: nothing, or `if` and the
/// predicate called with the values of the input's fields.
pub open spec fn guard_text(case: MatchCaseView) -> Seq<char> {
    match case.guard_expr {
        None => Seq::empty(),
        Some(guard) => " if "@ + call_text(predicate_text(guard), case.input.fields.len()),
    }
}

/// The arm of the `transition` function that a case stands for.
pub open spec fn transition_case_text(case: MatchCaseView) -> Seq<char> {
    "(Self::State::"@ + case.state + ", "@ + input_pattern_text(case) + ")"@ + guard_text(case)
        + " => Some(Self::State::"@ + case.next_state + "),"@
}

/// The output of a case as an expression: a constant of the output type, or
/// the call of the output's expression.
pub open spec fn output_expr_text(output: OutputSpecView, n: nat) -> Seq<char> {
    match output {
        OutputSpecView::Constant(name) => "Self::Output::"@ + name,
        OutputSpecView::Call(expr) => call_text(expr, n),
    }
}

/// The arm of the `output` function that a case stands for, if the case has
/// an output.
pub open spec fn output_case_text(case: MatchCaseView) -> Option<Seq<char>> {
    match case.output {
        None => None,
        Some(output) => Some(
            "(Self::State::"@ + case.state + ", "@ + input_pattern_text(case) + ")"@ + guard_text(
                case,
            ) + " => Some("@ + output_expr_text(output, case.input.fields.len()) + "),"@,
        ),
    }
}

/// The function that calls the hook before a transition, or nothing where
/// there is no such hook. The hook is called with the state and the input.
pub open spec fn before_transition_text(hook: Option<Seq<char>>) -> Seq<char> {
    match hook {
        Some(expr) => "fn before_transition(state: &Self::State, input: &Self::Input) { ("@ + expr
            + ")(state, input) }"@,
        None => Seq::empty(),
    }
}

/// The function that calls the hook after a transition, or nothing where
/// there is no such hook. The hook is called with the state before, the
/// input, the state after, and the output.
pub open spec fn after_transition_text(hook: Option<Seq<char>>) -> Seq<char> {
    match hook {
        Some(expr) =>
            "fn after_transition(pre_state: &Self::State, input: &Self::Input, state: &Self::State, output: Option<&Self::Output>) { ("@
                + expr + ")(pre_state, input, state, output) }"@,
        None => Seq::empty(),
    }
}

impl SMDefAttr {
    /// The function that calls the hook before a transition, if there is
    /// such a hook.
    pub fn before_transition_to_tokens(&self) -> (r: String)
        ensures
            r@ == before_transition_text(self@.before_transition),
    {
        let mut out = String::new();
        match &self.before_transition {
            Some(expr) => {
                out.append("fn before_transition(state: &Self::State, input: &Self::Input) { (");
                out.append(expr.as_str());
                out.append(")(state, input) }");
                assert(out@ =~= before_transition_text(self@.before_transition));
            },
            None => {},
        }
        out
    }

    /// The function that calls the hook after a transition, if there is such
    /// a hook.
    pub fn after_transition_to_tokens(&self) -> (r: String)
        ensures
            r@ == after_transition_text(self@.after_transition),
    {
        let mut out = String::new();
        match &self.after_transition {
            Some(expr) => {
                out.append(
                    "fn after_transition(pre_state: &Self::State, input: &Self::Input, state: &Self::State, output: Option<&Self::Output>) { (",
                );
                out.append(expr.as_str());
                out.append(")(pre_state, input, state, output) }");
                assert(out@ =~= after_transition_text(self@.after_transition));
            },
            None => {},
        }
        out
    }
}

/// The character of a decimal digit.
fn digit_of(d: usize) -> (c: char)
    requires
        d < 10,
    ensures
        c == digit(d as int),
{
    if d == 0 {
        '0'
    } else if d == 1 {
        '1'
    } else if d == 2 {
        '2'
    } else if d == 3 {
        '3'
    } else if d == 4 {
        '4'
    } else if d == 5 {
        '5'
    } else if d == 6 {
        '6'
    } else if d == 7 {
        '7'
    } else if d == 8 {
        '8'
    } else {
        '9'
    }
}

/// Appends a number in decimal notation.
fn push_decimal(out: &mut String, n: usize)
    ensures
        final(out)@ == old(out)@ + decimal_text(n as nat),
    decreases n,
{
    let ghost before = out@;
    if n >= 10 {
        push_decimal(out, n / 10);
    }
    out.push(digit_of(n % 10));
    assert(out@ =~= before + decimal_text(n as nat));
}

/// Appends the texts, separated by `, `.
fn push_listed(out: &mut String, items: &Vec<String>)
    ensures
        final(out)@ == old(out)@ + listed(items.deep_view()),
{
    let ghost before = out@;
    let ghost texts = items.deep_view();
    let mut i: usize = 0;
    while i < items.len()
        invariant
            i <= items.len(),
            texts == items.deep_view(),
            out@ == before + separated(texts, i as int, ", "@),
        decreases items.len() - i,
    {
        if i > 0 {
            out.append(", ");
        }
        out.append(items[i].as_str());
        proof {
            assert(items[i as int]@ == texts[i as int]);
            assert(out@ =~= before + separated(texts, i as int + 1, ", "@));
        }
        i += 1;
    }
}

/// The names to which the values of an input's fields are bound:
/// `__arg0`, `__arg1`, and so on, one for each field.
pub fn input_param_names(input: &InputVariant) -> (r: Vec<String>)
    ensures
        r.deep_view() == param_names(input@.fields.len()),
{
    let n = input.fields.len();
    let mut names: Vec<String> = Vec::new();
    let mut i: usize = 0;
    while i < n
        invariant
            i <= n,
            names.len() == i,
            forall|k: int| 0 <= k < i ==> names@[k]@ == param_name(k as nat),
        decreases n - i,
    {
        let mut name = String::new();
        name.append("__arg");
        push_decimal(&mut name, i);
        assert(name@ =~= param_name(i as nat));
        names.push(name);
        i += 1;
    }
    assert(names.deep_view() =~= param_names(n as nat));
    names
}

/// Appends an expression called with the values of the fields of an input.
fn push_call(out: &mut String, expr: &str, input: &InputVariant)
    ensures
        final(out)@ == old(out)@ + call_text(expr@, input@.fields.len()),
{
    let ghost before = out@;
    out.append("(");
    out.append(expr);
    out.append(")(");
    let names = input_param_names(input);
    push_listed(out, &names);
    out.append(")");
    assert(out@ =~= before + call_text(expr@, input@.fields.len()));
}

impl InputVariant {
    /// The input as a variant of the input type: `Coin`, or `Coin(u32)`.
    pub fn code_gen(&self) -> (r: String)
        ensures
            r@ == variant_text(self@),
    {
        let mut out = self.name.clone();
        if self.fields.len() > 0 {
            out.append("(");
            push_listed(&mut out, &self.fields);
            out.append(")");
            assert(out@ =~= variant_text(self@));
        }
        out
    }
}

impl GuardExpr {
    /// The guard as a predicate over the values of the input's fields.
    pub fn predicate(&self) -> (r: String)
        ensures
            r@ == predicate_text(self@),
    {
        match self {
            GuardExpr::Closure(expr) => expr.clone(),
            GuardExpr::Matches { bindings, field_types, pattern } => {
                let ghost names = bindings.deep_view();
                let ghost types = field_types.deep_view();
                let mut params: Vec<String> = Vec::new();
                let mut i: usize = 0;
                while i < bindings.len()
                    invariant
                        i <= bindings.len(),
                        names == bindings.deep_view(),
                        types == field_types.deep_view(),
                        params.len() == i,
                        forall|k: int|
                            0 <= k < i ==> params@[k]@ == binding_param(names, types, k),
                    decreases bindings.len() - i,
                {
                    let mut param = bindings[i].clone();
                    if i < field_types.len() {
                        param.append(": &");
                        param.append(field_types[i].as_str());
                        assert(field_types[i as int]@ == types[i as int]);
                    }
                    proof {
                        assert(bindings[i as int]@ == names[i as int]);
                        assert(param@ =~= binding_param(names, types, i as int));
                    }
                    params.push(param);
                    i += 1;
                }
                assert(params.deep_view() =~= Seq::new(
                    names.len(),
                    |i: int| binding_param(names, types, i),
                ));
                let mut out = String::new();
                out.append("|");
                push_listed(&mut out, &params);
                out.append("| matches!((");
                push_listed(&mut out, bindings);
                out.append("), ");
                out.append(pattern.as_str());
                out.append(")");
                assert(out@ =~= predicate_text(self@));
                out
            },
        }
    }
}

impl MatchCase {
    /// The pattern that matches the input of the case. The fields are bound
    /// where the case has a guard or computes its output.
    fn code_gen_input_patern(&self) -> (r: String)
        ensures
            r@ == input_pattern_text(self@),
    {
        let mut out = String::new();
        out.append("Self::Input::");
        out.append(self.input.name.as_str());
        if self.input.fields.len() > 0 {
            if self.binds_fields() {
                let names = input_param_names(&self.input);
                let ghost plain = names.deep_view();
                let mut bound: Vec<String> = Vec::new();
                let mut i: usize = 0;
                while i < names.len()
                    invariant
                        i <= names.len(),
                        plain == names.deep_view(),
                        bound.len() == i,
                        forall|k: int| 0 <= k < i ==> bound@[k]@ == "ref "@ + plain[k],
                    decreases names.len() - i,
                {
                    let mut name = String::new();
                    name.append("ref ");
                    name.append(names[i].as_str());
                    proof {
                        assert(names[i as int]@ == plain[i as int]);
                        assert(name@ =~= "ref "@ + plain[i as int]);
                    }
                    bound.push(name);
                    i += 1;
                }
                assert(bound.deep_view() =~= plain.map_values(|name: Seq<char>| "ref "@ + name));
                out.append("(");
                push_listed(&mut out, &bound);
                out.append(")");
            } else {
                out.append("(..)");
            }
        }
        assert(out@ =~= input_pattern_text(self@));
        out
    }

    /// The guard of the case as it stands in a match arm.
    fn code_gen_guard_expr(&self) -> (r: String)
        ensures
            r@ == guard_text(self@),
    {
        let mut out = String::new();
        match &self.guard_expr {
            None => {},
            Some(guard) => {
                out.append(" if ");
                let predicate = guard.predicate();
                push_call(&mut out, predicate.as_str(), &self.input);
                assert(out@ =~= guard_text(self@));
            },
        }
        out
    }

    /// The arm of the `transition` function that the case stands for:
    /// `(Self::State::S, Self::Input::I(..)) if guard => Some(Self::State::N),`.
    pub fn code_gen_transition_case(&self) -> (r: String)
        ensures
            r@ == transition_case_text(self@),
    {
        let mut out = String::new();
        out.append("(Self::State::");
        out.append(self.state.as_str());
        out.append(", ");
        out.append(self.code_gen_input_patern().as_str());
        out.append(")");
        out.append(self.code_gen_guard_expr().as_str());
        out.append(" => Some(Self::State::");
        out.append(self.next_state.as_str());
        out.append("),");
        assert(out@ =~= transition_case_text(self@));
        out
    }

    /// The arm of the `output` function that the case stands for, or `None`
    /// where the case has no output. A computed output is called with the
    /// values of the input's fields.
    pub fn code_gen_output_case(&self) -> (r: Option<String>)
        ensures
            r.deep_view() == output_case_text(self@),
    {
        let output = match &self.output {
            None => { return None; },
            Some(output) => output,
        };
        let mut out = String::new();
        out.append("(Self::State::");
        out.append(self.state.as_str());
        out.append(", ");
        out.append(self.code_gen_input_patern().as_str());
        out.append(")");
        out.append(self.code_gen_guard_expr().as_str());
        out.append(" => Some(");
        let ghost head = out@;
        match output {
            OutputSpec::Constant(name) => {
                out.append("Self::Output::");
                out.append(name.as_str());
            },
            OutputSpec::Call(expr) => {
                push_call(&mut out, expr.as_str(), &self.input);
            },
        }
        assert(out@ =~= head + output_expr_text(output@, self@.input.fields.len()));
        out.append("),");
        assert(out@ =~= output_case_text(self@).unwrap());
        Some(out)
    }
}

} // verus!
