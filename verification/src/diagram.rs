//! The state diagram of a machine, as Mermaid text in documentation comments.
//!
//! A state with two or more distinct inputs that lead back to it is drawn as
//! a composite node. A state and input with two or more guarded cases get a
//! choice node named `<state>_guard_<input>`, from which one edge leaves for
//! each case. Everything else is a direct edge from state to state.

use vstd::prelude::*;
use vstd::string::*;
use crate::alphabet::{insert_name, lemma_sorted_names, lists_in_order, sorted_names};
use crate::label::{as_mermaid_guard, mermaid_guard};
use crate::match_case::{MatchCase, MatchCaseView};
use crate::parser::guard::{GuardExpr, GuardExprView};
use crate::parser::output::{OutputSpec, OutputSpecView};
use crate::text::same_text;

verus! {

/// The text of a diagram is malformed: a name or a label in it breaks a
/// line.
#[derive(Clone, Copy, Debug, PartialEq, Eq, Structural)]
pub struct DiagramRenderError;

/// A documentation comment starts at position `i` of the text.
pub open spec fn starts_comment(text: Seq<char>, i: int) -> bool {
    0 <= i && i + 3 <= text.len() && text[i] == '/' && text[i + 1] == '/' && text[i + 2] == '/'
}

/// The text is made of documentation comments alone: each of its lines
/// starts one, and no carriage return stands in it.
pub open spec fn is_documentation(text: Seq<char>) -> bool {
    &&& starts_comment(text, 0)
    &&& forall|i: int| 0 <= i < text.len() ==> text[i] != '\r'
    &&& forall|i: int| 0 <= i < text.len() && text[i] == '\n' ==> starts_comment(text, i + 1)
}

/// `r` is the outcome of rendering a diagram whose text would be `text`: the
/// text, if it is made of documentation comments alone, and an error
/// otherwise.
pub open spec fn is_rendering(r: Result<String, DiagramRenderError>, text: Seq<char>) -> bool {
    match r {
        Ok(rendered) => rendered@ == text && is_documentation(text),
        Err(_) => !is_documentation(text),
    }
}

/// Which names of a table to gather.
#[derive(Clone, Copy, Debug, PartialEq, Eq)]
pub enum Gather {
    /// The states that cases start from.
    Sources,
    /// The inputs of the cases that start from a given state.
    Inputs,
    /// The inputs of the cases that lead from a given state back to it.
    SelfLoopInputs,
}

/// The name that a case contributes.
pub open spec fn gathered(case: MatchCaseView, what: Gather, state: Seq<char>) -> Option<Seq<char>> {
    match what {
        Gather::Sources => Some(case.state),
        Gather::Inputs => if case.state == state {
            Some(case.input.name)
        } else {
            None
        },
        Gather::SelfLoopInputs => if case.state == state && case.next_state == state {
            Some(case.input.name)
        } else {
            None
        },
    }
}

/// The names that the first `n` cases contribute.
pub open spec fn gathered_set(
    cases: Seq<MatchCaseView>,
    n: int,
    what: Gather,
    state: Seq<char>,
) -> Set<Seq<char>> {
    Set::new(
        |t: Seq<char>|
            exists|i: int|
                0 <= i < n && i < cases.len() && gathered(#[trigger] cases[i], what, state) == Some(t),
    )
}

/// The states that cases start from, in the order of their names.
pub open spec fn source_states(cases: Seq<MatchCaseView>) -> Seq<Seq<char>> {
    sorted_names(gathered_set(cases, cases.len() as int, Gather::Sources, Seq::empty()))
}

/// The inputs of the cases that start from `state`, in the order of their
/// names.
pub open spec fn inputs_of(cases: Seq<MatchCaseView>, state: Seq<char>) -> Seq<Seq<char>> {
    sorted_names(gathered_set(cases, cases.len() as int, Gather::Inputs, state))
}

/// The inputs that lead from `state` back to it, in the order of their names.
pub open spec fn self_loop_inputs(cases: Seq<MatchCaseView>, state: Seq<char>) -> Seq<Seq<char>> {
    sorted_names(gathered_set(cases, cases.len() as int, Gather::SelfLoopInputs, state))
}

/// The state is drawn as a composite node: two or more distinct inputs lead
/// back to it.
pub open spec fn is_nested(cases: Seq<MatchCaseView>, state: Seq<char>) -> bool {
    self_loop_inputs(cases, state).len() > 1
}

/// The case is declared for this state and this input.
pub open spec fn in_pair(case: MatchCaseView, state: Seq<char>, input: Seq<char>) -> bool {
    case.state == state && case.input.name == input
}

/// How many of the first `n` cases are declared for the pair and guarded.
pub open spec fn guarded_count(
    cases: Seq<MatchCaseView>,
    n: int,
    state: Seq<char>,
    input: Seq<char>,
) -> nat
    decreases n,
{
    if n <= 0 || n > cases.len() {
        0
    } else if in_pair(cases[n - 1], state, input) && cases[n - 1].guard_expr is Some {
        guarded_count(cases, n - 1, state, input) + 1
    } else {
        guarded_count(cases, n - 1, state, input)
    }
}

/// The pair gets a choice node: two or more guarded cases are declared for
/// it.
pub open spec fn is_choice(cases: Seq<MatchCaseView>, state: Seq<char>, input: Seq<char>) -> bool {
    guarded_count(cases, cases.len() as int, state, input) >= 2
}

/// One of the cases declared for the pair leads back to the state.
pub open spec fn has_self_loop(cases: Seq<MatchCaseView>, state: Seq<char>, input: Seq<char>) -> bool {
    exists|j: int|
        0 <= j < cases.len() && in_pair(#[trigger] cases[j], state, input) && cases[j].next_state
            == state
}

/// No case before `i` is declared for the pair of case `i`.
pub open spec fn first_of_pair(cases: Seq<MatchCaseView>, i: int) -> bool {
    forall|j: int|
        0 <= j < i ==> !in_pair(#[trigger] cases[j], cases[i].state, cases[i].input.name)
}

/// The texts `f(0)`, ..., `f(n - 1)` one after the other.
pub open spec fn concat_upto(n: int, f: spec_fn(int) -> Seq<char>) -> Seq<char>
    decreases n,
{
    if n <= 0 {
        Seq::empty()
    } else {
        concat_upto(n - 1, f) + f(n - 1)
    }
}

/// The name of the choice node of a pair.
pub open spec fn choice_name(state: Seq<char>, input: Seq<char>) -> Seq<char> {
    state + "_guard_"@ + input
}

/// The line of an edge.
pub open spec fn edge_line(from: Seq<char>, to: Seq<char>, label: Seq<char>) -> Seq<char> {
    "///    "@ + from + " --> "@ + to + label + "\n"@
}

/// The text that a guard is shown as.
pub open spec fn guard_text(guard: GuardExprView) -> Seq<char> {
    match guard {
        GuardExprView::Closure(expr) => expr,
        GuardExprView::Matches { pattern, .. } => pattern,
    }
}

/// The label of the edge that leaves a choice node for case `j`: nothing
/// where the case has no guard; else a colon and the text that `labels` gives
/// for the case or, where it gives none, the guard's own text, sanitized.
pub open spec fn guard_label(guard: Option<GuardExprView>, labels: Seq<Seq<char>>, j: int) -> Seq<
    char,
> {
    match guard {
        Some(g) => ":"@ + if 0 <= j < labels.len() {
            labels[j]
        } else {
            mermaid_guard(guard_text(g))
        },
        None => Seq::empty(),
    }
}

/// The first `n` texts, separated by ` , `.
pub open spec fn joined_fields(fields: Seq<Seq<char>>, n: int) -> Seq<char>
    decreases n,
{
    if n <= 0 {
        Seq::empty()
    } else if n == 1 {
        fields[0]
    } else {
        joined_fields(fields, n - 1) + " , "@ + fields[n - 1]
    }
}

/// The field types of an input as shown on a self-loop.
pub open spec fn fields_label(fields: Seq<Seq<char>>) -> Seq<char> {
    if fields.len() == 0 {
        Seq::empty()
    } else {
        " ("@ + joined_fields(fields, fields.len() as int) + ")"@
    }
}

/// The output of a case as shown on a self-loop: constants only.
pub open spec fn output_label(output: Option<OutputSpecView>) -> Seq<char> {
    match output {
        Some(OutputSpecView::Constant(name)) => " ["@ + name + "]"@,
        _ => Seq::empty(),
    }
}

/// What a self-loop input contributes to the composite node of its state.
pub open spec fn composite_entry(cases: Seq<MatchCaseView>, state: Seq<char>, input: Seq<char>) -> Seq<char> {
    edge_line("[*]"@, input, Seq::empty()) + if is_choice(cases, state, input) {
        edge_line(input, choice_name(state, input), Seq::empty())
    } else {
        "///"@ + input + " --> [*]\n"@
    }
}

/// The composite node of a state, if it is drawn as one.
pub open spec fn composite_block(cases: Seq<MatchCaseView>, state: Seq<char>) -> Seq<char> {
    let loops = self_loop_inputs(cases, state);
    if loops.len() > 1 {
        "///state "@ + state + " {\n"@ + concat_upto(
            loops.len() as int,
            |k: int| composite_entry(cases, state, loops[k]),
        ) + "///}\n"@
    } else {
        Seq::empty()
    }
}

/// The declaration of a pair's choice node, if it has one.
pub open spec fn choice_declaration(cases: Seq<MatchCaseView>, state: Seq<char>, input: Seq<char>) -> Seq<char> {
    if is_choice(cases, state, input) {
        "///state "@ + choice_name(state, input) + " <<choice>>\n"@
    } else {
        Seq::empty()
    }
}

/// The declarations of the choice nodes of a state.
pub open spec fn choice_declarations(cases: Seq<MatchCaseView>, state: Seq<char>) -> Seq<char> {
    let inputs = inputs_of(cases, state);
    concat_upto(inputs.len() as int, |k: int| choice_declaration(cases, state, inputs[k]))
}

/// The edge from a choice node to the target of case `j`, if the case is
/// declared for the pair.
pub open spec fn choice_edge(
    cases: Seq<MatchCaseView>,
    labels: Seq<Seq<char>>,
    state: Seq<char>,
    input: Seq<char>,
    j: int,
) -> Seq<char> {
    if in_pair(cases[j], state, input) {
        edge_line(
            choice_name(state, input),
            cases[j].next_state,
            guard_label(cases[j].guard_expr, labels, j),
        )
    } else {
        Seq::empty()
    }
}

/// The edges around a pair's choice node: one into it, unless that edge is
/// drawn inside the state's composite node, and one out of it for each case
/// declared for the pair.
pub open spec fn fan_out(
    cases: Seq<MatchCaseView>,
    labels: Seq<Seq<char>>,
    state: Seq<char>,
    input: Seq<char>,
) -> Seq<char> {
    (if !is_nested(cases, state) || !has_self_loop(cases, state, input) {
        edge_line(state, choice_name(state, input), Seq::empty())
    } else {
        Seq::empty()
    }) + concat_upto(cases.len() as int, |j: int| choice_edge(cases, labels, state, input, j))
}

/// What case `i` contributes to the edges of its state.
///
/// The first case of a pair with a choice node draws the node's edges. A
/// case of a pair without one draws an edge of its own: a direct edge to
/// another state, or a loop, unless the loop is drawn inside the state's
/// composite node.
pub open spec fn case_edges(cases: Seq<MatchCaseView>, labels: Seq<Seq<char>>, i: int) -> Seq<char> {
    let case = cases[i];
    if is_choice(cases, case.state, case.input.name) {
        if first_of_pair(cases, i) {
            fan_out(cases, labels, case.state, case.input.name)
        } else {
            Seq::empty()
        }
    } else if case.next_state != case.state {
        edge_line(case.state, case.next_state, ": "@ + case.input.name)
    } else if is_nested(cases, case.state) {
        Seq::empty()
    } else {
        edge_line(
            case.state,
            case.next_state,
            ": "@ + case.input.name + fields_label(case.input.fields) + output_label(case.output),
        )
    }
}

/// The edges of a state: what each of its cases contributes, in the order
/// declared.
pub open spec fn state_edges(
    cases: Seq<MatchCaseView>,
    labels: Seq<Seq<char>>,
    state: Seq<char>,
) -> Seq<char> {
    concat_upto(
        cases.len() as int,
        |i: int|
            if cases[i].state == state {
                case_edges(cases, labels, i)
            } else {
                Seq::empty()
            },
    )
}

/// The diagram of a machine.
pub open spec fn diagram_text(
    initial: Seq<char>,
    cases: Seq<MatchCaseView>,
    labels: Seq<Seq<char>>,
) -> Seq<char> {
    let states = source_states(cases);
    "///```mermaid\n///stateDiagram-v2\n"@ + edge_line("[*]"@, initial, Seq::empty()) + concat_upto(
        states.len() as int,
        |k: int| composite_block(cases, states[k]),
    ) + concat_upto(states.len() as int, |k: int| choice_declarations(cases, states[k]))
        + concat_upto(states.len() as int, |k: int| state_edges(cases, labels, states[k])) + "///```"@
}

/// One more text: `f(n)` follows the first `n`.
proof fn lemma_concat_step(n: int, f: spec_fn(int) -> Seq<char>)
    requires
        0 <= n,
    ensures
        concat_upto(n + 1, f) == concat_upto(n, f) + f(n),
{
}

/// The names that the cases contribute, in order and without repetition.
fn gather_names(cases: &Vec<MatchCase>, what: Gather, state: &str) -> (r: Vec<String>)
    ensures
        r.deep_view() == sorted_names(
            gathered_set(cases.deep_view(), cases.len() as int, what, state@),
        ),
{
    let ghost table = cases.deep_view();
    let mut out: Vec<String> = Vec::new();
    let mut i: usize = 0;
    while i < cases.len()
        invariant
            i <= cases.len(),
            table == cases.deep_view(),
            lists_in_order(out.deep_view(), gathered_set(table, i as int, what, state@)),
        decreases cases.len() - i,
    {
        let ghost before = out.deep_view();
        let case = &cases[i];
        assert(case@ == table[i as int]);
        let ghost added = gathered(table[i as int], what, state@);
        match what {
            Gather::Sources => {
                insert_name(&mut out, case.state.as_str());
            },
            Gather::Inputs => {
                if same_text(case.state.as_str(), state) {
                    insert_name(&mut out, case.input.name.as_str());
                }
            },
            Gather::SelfLoopInputs => {
                if same_text(case.state.as_str(), state) && same_text(
                    case.next_state.as_str(),
                    state,
                ) {
                    insert_name(&mut out, case.input.name.as_str());
                }
            },
        }
        proof {
            let smaller = gathered_set(table, i as int, what, state@);
            let larger = gathered_set(table, i as int + 1, what, state@);
            assert forall|t: Seq<char>| out.deep_view().contains(t) <==> larger.contains(t) by {
                assert(out.deep_view().contains(t) <==> (before.contains(t) || added == Some(t)));
                if larger.contains(t) {
                    let k = choose|k: int|
                        0 <= k < i + 1 && k < table.len() && gathered(
                            #[trigger] table[k],
                            what,
                            state@,
                        ) == Some(t);
                    if k < i {
                        assert(smaller.contains(t));
                    }
                }
                if smaller.contains(t) {
                    let k = choose|k: int|
                        0 <= k < i && k < table.len() && gathered(#[trigger] table[k], what, state@)
                            == Some(t);
                    assert(0 <= k < i + 1);
                }
                if added == Some(t) {
                    assert(gathered(table[i as int], what, state@) == Some(t));
                }
            }
        }
        i += 1;
    }
    proof {
        lemma_sorted_names(
            out.deep_view(),
            gathered_set(table, cases.len() as int, what, state@),
        );
    }
    out
}

/// Whether the pair gets a choice node.
fn pair_is_choice(cases: &Vec<MatchCase>, state: &str, input: &str) -> (r: bool)
    ensures
        r == is_choice(cases.deep_view(), state@, input@),
{
    let ghost table = cases.deep_view();
    let mut count: usize = 0;
    let mut i: usize = 0;
    while i < cases.len()
        invariant
            i <= cases.len(),
            table == cases.deep_view(),
            count == guarded_count(table, i as int, state@, input@),
            count <= i,
        decreases cases.len() - i,
    {
        let case = &cases[i];
        assert(case@ == table[i as int]);
        if same_text(case.state.as_str(), state) && same_text(case.input.name.as_str(), input)
            && case.guard_expr.is_some() {
            count += 1;
        }
        i += 1;
    }
    count >= 2
}

/// Whether one of the cases declared for the pair leads back to the state.
fn pair_has_self_loop(cases: &Vec<MatchCase>, state: &str, input: &str) -> (r: bool)
    ensures
        r == has_self_loop(cases.deep_view(), state@, input@),
{
    let ghost table = cases.deep_view();
    let mut i: usize = 0;
    while i < cases.len()
        invariant
            i <= cases.len(),
            table == cases.deep_view(),
            forall|j: int|
                0 <= j < i ==> !(in_pair(#[trigger] table[j], state@, input@) && table[j].next_state
                    == state@),
        decreases cases.len() - i,
    {
        let case = &cases[i];
        assert(case@ == table[i as int]);
        if same_text(case.state.as_str(), state) && same_text(case.input.name.as_str(), input)
            && same_text(case.next_state.as_str(), state) {
            return true;
        }
        i += 1;
    }
    false
}

/// Whether the state is drawn as a composite node.
fn state_is_nested(cases: &Vec<MatchCase>, state: &str) -> (r: bool)
    ensures
        r == is_nested(cases.deep_view(), state@),
{
    let loops = gather_names(cases, Gather::SelfLoopInputs, state);
    loops.len() > 1
}

/// Whether no case before `i` is declared for the pair of case `i`.
fn is_first_of_pair(cases: &Vec<MatchCase>, i: usize) -> (r: bool)
    requires
        i < cases.len(),
    ensures
        r == first_of_pair(cases.deep_view(), i as int),
{
    let ghost table = cases.deep_view();
    let this = &cases[i];
    assert(this@ == table[i as int]);
    let mut j: usize = 0;
    while j < i
        invariant
            j <= i,
            i < cases.len(),
            table == cases.deep_view(),
            this@ == table[i as int],
            forall|k: int|
                0 <= k < j ==> !in_pair(#[trigger] table[k], this@.state, this@.input.name),
        decreases i - j,
    {
        let other = &cases[j];
        assert(other@ == table[j as int]);
        if same_text(other.state.as_str(), this.state.as_str()) && same_text(
            other.input.name.as_str(),
            this.input.name.as_str(),
        ) {
            return false;
        }
        j += 1;
    }
    true
}

/// Appends the line of an edge.
fn push_edge_line(out: &mut String, from: &str, to: &str, label: &str)
    ensures
        final(out)@ == old(out)@ + edge_line(from@, to@, label@),
{
    let ghost before = out@;
    out.append("///    ");
    out.append(from);
    out.append(" --> ");
    out.append(to);
    out.append(label);
    out.append("\n");
    assert(out@ =~= before + edge_line(from@, to@, label@));
}

/// The name of the choice node of a pair.
fn choice_node(state: &str, input: &str) -> (r: String)
    ensures
        r@ == choice_name(state@, input@),
{
    let mut name = String::new();
    name.append(state);
    name.append("_guard_");
    name.append(input);
    assert(name@ =~= choice_name(state@, input@));
    name
}

/// The label of an edge that leaves a choice node.
fn label_of_guard(guard: &Option<GuardExpr>, labels: &Vec<String>, j: usize) -> (r: String)
    ensures
        r@ == guard_label(guard.deep_view(), labels.deep_view(), j as int),
{
    let mut label = String::new();
    match guard {
        Some(g) => {
            label.append(":");
            if j < labels.len() {
                assert(labels[j as int]@ == labels.deep_view()[j as int]);
                label.append(labels[j].as_str());
            } else {
                let shown = match g {
                    GuardExpr::Closure(expr) => as_mermaid_guard(expr.as_str()),
                    GuardExpr::Matches { bindings: _, field_types: _, pattern } => as_mermaid_guard(
                        pattern.as_str(),
                    ),
                };
                label.append(shown.as_str());
            }
            assert(label@ =~= guard_label(guard.deep_view(), labels.deep_view(), j as int));
        },
        None => {},
    }
    label
}

/// The field types of an input as shown on a self-loop.
fn label_of_fields(fields: &Vec<String>) -> (r: String)
    ensures
        r@ == fields_label(fields.deep_view()),
{
    let ghost types = fields.deep_view();
    let mut label = String::new();
    if fields.len() == 0 {
        return label;
    }
    label.append(" (");
    let mut i: usize = 0;
    while i < fields.len()
        invariant
            i <= fields.len(),
            types == fields.deep_view(),
            label@ == " ("@ + joined_fields(types, i as int),
        decreases fields.len() - i,
    {
        let ghost before = label@;
        if i > 0 {
            label.append(" , ");
        }
        label.append(fields[i].as_str());
        proof {
            assert(fields[i as int]@ == types[i as int]);
            assert(label@ =~= " ("@ + joined_fields(types, i as int + 1));
        }
        i += 1;
    }
    label.append(")");
    label
}

/// The output of a case as shown on a self-loop.
fn label_of_output(output: &Option<OutputSpec>) -> (r: String)
    ensures
        r@ == output_label(output.deep_view()),
{
    let mut label = String::new();
    match output {
        Some(OutputSpec::Constant(name)) => {
            label.append(" [");
            label.append(name.as_str());
            label.append("]");
            assert(label@ =~= output_label(output.deep_view()));
        },
        _ => {},
    }
    label
}

/// Appends the composite node of a state, if it is drawn as one.
fn push_composite_block(out: &mut String, cases: &Vec<MatchCase>, state: &str)
    ensures
        final(out)@ == old(out)@ + composite_block(cases.deep_view(), state@),
{
    let ghost before = out@;
    let ghost table = cases.deep_view();
    let loops = gather_names(cases, Gather::SelfLoopInputs, state);
    if loops.len() > 1 {
        let ghost names = loops.deep_view();
        let ghost each = |k: int| composite_entry(table, state@, names[k]);
        out.append("///state ");
        out.append(state);
        out.append(" {\n");
        let ghost opened = out@;
        let mut k: usize = 0;
        while k < loops.len()
            invariant
                k <= loops.len(),
                names == loops.deep_view(),
                table == cases.deep_view(),
                each == |k: int| composite_entry(table, state@, names[k]),
                out@ == opened + concat_upto(k as int, each),
            decreases loops.len() - k,
        {
            let ghost so_far = out@;
            let input = loops[k].as_str();
            assert(input@ == names[k as int]);
            push_edge_line(out, "[*]", input, "");
            if pair_is_choice(cases, state, input) {
                let node = choice_node(state, input);
                push_edge_line(out, input, node.as_str(), "");
            } else {
                out.append("///");
                out.append(input);
                out.append(" --> [*]\n");
            }
            proof {
                reveal_strlit("");
                assert(""@ =~= Seq::<char>::empty());
                assert(out@ =~= so_far + each(k as int));
                lemma_concat_step(k as int, each);
            }
            k += 1;
        }
        out.append("///}\n");
        assert(out@ =~= before + composite_block(table, state@));
    }
}

/// Appends the declarations of the choice nodes of a state.
fn push_choice_declarations(out: &mut String, cases: &Vec<MatchCase>, state: &str)
    ensures
        final(out)@ == old(out)@ + choice_declarations(cases.deep_view(), state@),
{
    let ghost before = out@;
    let ghost table = cases.deep_view();
    let inputs = gather_names(cases, Gather::Inputs, state);
    let ghost names = inputs.deep_view();
    let ghost each = |k: int| choice_declaration(table, state@, names[k]);
    let mut k: usize = 0;
    while k < inputs.len()
        invariant
            k <= inputs.len(),
            names == inputs.deep_view(),
            table == cases.deep_view(),
            each == |k: int| choice_declaration(table, state@, names[k]),
            out@ == before + concat_upto(k as int, each),
        decreases inputs.len() - k,
    {
        let ghost so_far = out@;
        let input = inputs[k].as_str();
        assert(input@ == names[k as int]);
        if pair_is_choice(cases, state, input) {
            let node = choice_node(state, input);
            out.append("///state ");
            out.append(node.as_str());
            out.append(" <<choice>>\n");
        }
        proof {
            assert(out@ =~= so_far + each(k as int));
            lemma_concat_step(k as int, each);
        }
        k += 1;
    }
}

/// Appends the edges around a pair's choice node.
fn push_fan_out(
    out: &mut String,
    cases: &Vec<MatchCase>,
    labels: &Vec<String>,
    state: &str,
    input: &str,
    nested: bool,
)
    requires
        nested == is_nested(cases.deep_view(), state@),
    ensures
        final(out)@ == old(out)@ + fan_out(cases.deep_view(), labels.deep_view(), state@, input@),
{
    let ghost before = out@;
    let ghost table = cases.deep_view();
    let ghost shown = labels.deep_view();
    let ghost each = |j: int| choice_edge(table, shown, state@, input@, j);
    let node = choice_node(state, input);
    if !nested || !pair_has_self_loop(cases, state, input) {
        push_edge_line(out, state, node.as_str(), "");
    }
    proof {
        reveal_strlit("");
        assert(""@ =~= Seq::<char>::empty());
    }
    let ghost entered = out@;
    let mut j: usize = 0;
    while j < cases.len()
        invariant
            j <= cases.len(),
            table == cases.deep_view(),
            node@ == choice_name(state@, input@),
            shown == labels.deep_view(),
            each == |j: int| choice_edge(table, shown, state@, input@, j),
            out@ == entered + concat_upto(j as int, each),
        decreases cases.len() - j,
    {
        let ghost so_far = out@;
        let case = &cases[j];
        assert(case@ == table[j as int]);
        if same_text(case.state.as_str(), state) && same_text(case.input.name.as_str(), input) {
            let label = label_of_guard(&case.guard_expr, labels, j);
            push_edge_line(out, node.as_str(), case.next_state.as_str(), label.as_str());
        }
        proof {
            assert(out@ =~= so_far + each(j as int));
            lemma_concat_step(j as int, each);
        }
        j += 1;
    }
    assert(out@ =~= before + fan_out(table, shown, state@, input@));
}

/// Appends what case `i` contributes to the edges of its state.
fn push_case_edges(
    out: &mut String,
    cases: &Vec<MatchCase>,
    labels: &Vec<String>,
    i: usize,
    nested: bool,
)
    requires
        i < cases.len(),
        nested == is_nested(cases.deep_view(), cases.deep_view()[i as int].state),
    ensures
        final(out)@ == old(out)@ + case_edges(cases.deep_view(), labels.deep_view(), i as int),
{
    let ghost before = out@;
    let ghost table = cases.deep_view();
    let case = &cases[i];
    assert(case@ == table[i as int]);
    let state = case.state.as_str();
    let input = case.input.name.as_str();
    let loops_back = same_text(case.next_state.as_str(), state);
    if pair_is_choice(cases, state, input) {
        if is_first_of_pair(cases, i) {
            push_fan_out(out, cases, labels, state, input, nested);
        }
    } else if !loops_back {
        let mut label = String::new();
        label.append(": ");
        label.append(input);
        push_edge_line(out, state, case.next_state.as_str(), label.as_str());
        assert(label@ =~= ": "@ + case@.input.name);
    } else if nested {
    } else {
        let mut label = String::new();
        label.append(": ");
        label.append(input);
        let fields = label_of_fields(&case.input.fields);
        label.append(fields.as_str());
        let output = label_of_output(&case.output);
        label.append(output.as_str());
        assert(label@ =~= ": "@ + case@.input.name + fields_label(case@.input.fields)
            + output_label(case@.output));
        push_edge_line(out, state, case.next_state.as_str(), label.as_str());
    }
    assert(out@ =~= before + case_edges(table, labels.deep_view(), i as int));
}

/// Appends the edges of a state.
fn push_state_edges(out: &mut String, cases: &Vec<MatchCase>, labels: &Vec<String>, state: &str)
    ensures
        final(out)@ == old(out)@ + state_edges(cases.deep_view(), labels.deep_view(), state@),
{
    let ghost before = out@;
    let ghost table = cases.deep_view();
    let ghost shown = labels.deep_view();
    let ghost each = |i: int|
        if table[i].state == state@ {
            case_edges(table, shown, i)
        } else {
            Seq::empty()
        };
    let nested = state_is_nested(cases, state);
    let mut i: usize = 0;
    while i < cases.len()
        invariant
            i <= cases.len(),
            table == cases.deep_view(),
            nested == is_nested(table, state@),
            shown == labels.deep_view(),
            each == |i: int|
                if table[i].state == state@ {
                    case_edges(table, shown, i)
                } else {
                    Seq::empty()
                },
            out@ == before + concat_upto(i as int, each),
        decreases cases.len() - i,
    {
        let ghost so_far = out@;
        assert(cases[i as int]@ == table[i as int]);
        if same_text(cases[i].state.as_str(), state) {
            push_case_edges(out, cases, labels, i, nested);
        }
        proof {
            assert(out@ =~= so_far + each(i as int));
            lemma_concat_step(i as int, each);
        }
        i += 1;
    }
}

/// Writes the text of the diagram.
fn render(initial_state: &str, cases: &Vec<MatchCase>, labels: &Vec<String>) -> (r: String)
    ensures
        r@ == diagram_text(initial_state@, cases.deep_view(), labels.deep_view()),
{
    let ghost shown = labels.deep_view();
    let ghost table = cases.deep_view();
    let states = gather_names(cases, Gather::Sources, "");
    proof {
        reveal_strlit("");
        assert(""@ =~= Seq::<char>::empty());
    }
    let ghost names = states.deep_view();
    assert(names == source_states(table));
    let mut out = String::new();
    out.append("///```mermaid\n///stateDiagram-v2\n");
    push_edge_line(&mut out, "[*]", initial_state, "");
    let ghost head = out@;

    let ghost blocks = |k: int| composite_block(table, names[k]);
    let mut k: usize = 0;
    while k < states.len()
        invariant
            k <= states.len(),
            names == states.deep_view(),
            table == cases.deep_view(),
            blocks == |k: int| composite_block(table, names[k]),
            out@ == head + concat_upto(k as int, blocks),
        decreases states.len() - k,
    {
        let ghost so_far = out@;
        assert(states[k as int]@ == names[k as int]);
        push_composite_block(&mut out, cases, states[k].as_str());
        proof {
            assert(out@ =~= so_far + blocks(k as int));
            lemma_concat_step(k as int, blocks);
        }
        k += 1;
    }
    let ghost with_blocks = out@;

    let ghost declarations = |k: int| choice_declarations(table, names[k]);
    let mut k: usize = 0;
    while k < states.len()
        invariant
            k <= states.len(),
            names == states.deep_view(),
            table == cases.deep_view(),
            declarations == |k: int| choice_declarations(table, names[k]),
            out@ == with_blocks + concat_upto(k as int, declarations),
        decreases states.len() - k,
    {
        let ghost so_far = out@;
        assert(states[k as int]@ == names[k as int]);
        push_choice_declarations(&mut out, cases, states[k].as_str());
        proof {
            assert(out@ =~= so_far + declarations(k as int));
            lemma_concat_step(k as int, declarations);
        }
        k += 1;
    }
    let ghost with_declarations = out@;

    let ghost edges = |k: int| state_edges(table, shown, names[k]);
    let mut k: usize = 0;
    while k < states.len()
        invariant
            k <= states.len(),
            names == states.deep_view(),
            table == cases.deep_view(),
            shown == labels.deep_view(),
            edges == |k: int| state_edges(table, shown, names[k]),
            out@ == with_declarations + concat_upto(k as int, edges),
        decreases states.len() - k,
    {
        let ghost so_far = out@;
        assert(states[k as int]@ == names[k as int]);
        push_state_edges(&mut out, cases, labels, states[k].as_str());
        proof {
            assert(out@ =~= so_far + edges(k as int));
            lemma_concat_step(k as int, edges);
        }
        k += 1;
    }
    out.append("///```");
    assert(out@ =~= diagram_text(initial_state@, table, shown));
    out
}

/// Whether the text is made of documentation comments alone.
fn check_documentation(text: &str) -> (r: bool)
    ensures
        r == is_documentation(text@),
{
    let n = text.unicode_len();
    if n < 3 || text.get_char(0) != '/' || text.get_char(1) != '/' || text.get_char(2) != '/' {
        return false;
    }
    let mut i: usize = 0;
    while i < n
        invariant
            i <= n,
            n == text@.len(),
            starts_comment(text@, 0),
            forall|k: int| 0 <= k < i ==> text@[k] != '\r',
            forall|k: int| 0 <= k < i && text@[k] == '\n' ==> starts_comment(text@, k + 1),
        decreases n - i,
    {
        let c = text.get_char(i);
        if c == '\r' {
            return false;
        }
        if c == '\n' {
            if n - i < 4 || text.get_char(i + 1) != '/' || text.get_char(i + 2) != '/'
                || text.get_char(i + 3) != '/' {
                assert(!starts_comment(text@, i + 1));
                return false;
            }
        }
        i += 1;
    }
    true
}

/// The state diagram of a machine with the given initial state and cases,
/// with guard labels of the caller's making: `labels[j]` is shown for the
/// guard of case `j`. A guarded case beyond the end of `labels` is shown with
/// its guard's own text, sanitized.
///
/// The text starts with the edge from the start marker to the initial state.
/// Then come, each for all states in the order of their names: the composite
/// nodes, the declarations of the choice nodes, and the edges. Where a name
/// or a label breaks a line, so that the text is no longer made of
/// documentation comments alone, there is no diagram.
pub fn build_diagram_with_labels(
    initial_state: &str,
    cases: &Vec<MatchCase>,
    labels: &Vec<String>,
) -> (r: Result<String, DiagramRenderError>)
    ensures
        is_rendering(r, diagram_text(initial_state@, cases.deep_view(), labels.deep_view())),
{
    let text = render(initial_state, cases, labels);
    if check_documentation(text.as_str()) {
        Ok(text)
    } else {
        Err(DiagramRenderError)
    }
}

/// The state diagram of a machine with the given initial state and cases.
/// Each guard is shown with its own text, sanitized.
pub fn build_diagram(initial_state: &str, cases: &Vec<MatchCase>) -> (r: Result<
    String,
    DiagramRenderError,
>)
    ensures
        is_rendering(r, diagram_text(initial_state@, cases.deep_view(), Seq::empty())),
{
    let labels: Vec<String> = Vec::new();
    assert(labels.deep_view() =~= Seq::<Seq<char>>::empty());
    build_diagram_with_labels(initial_state, cases, &labels)
}

/// Rendering is a function of the machine: what rendering the same initial
/// state and the same cases with the same labels twice comes to is the same,
/// be it a text or no diagram.
pub proof fn lemma_rendering_is_idempotent(
    initial: Seq<char>,
    cases: Seq<MatchCaseView>,
    labels: Seq<Seq<char>>,
    first: Result<String, DiagramRenderError>,
    second: Result<String, DiagramRenderError>,
)
    requires
        is_rendering(first, diagram_text(initial, cases, labels)),
        is_rendering(second, diagram_text(initial, cases, labels)),
    ensures
        first is Ok == second is Ok,
        first matches Ok(text) ==> text@ == second.unwrap()@,
{
}

} // verus!
