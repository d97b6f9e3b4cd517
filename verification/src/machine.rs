//! Compiling a description into a machine, and running the machine.

use vstd::prelude::*;
use crate::alphabet::{input_alphabet, input_alphabet_of, is_input_alphabet, lists_in_order,
    output_alphabet, output_set, sorted_names, state_alphabet, state_set};
use crate::cursor::{ParseError, ParseErrorKind};
use crate::dispatch::{lemma_unconditional_case_is_total, output, output_of, select_case,
    transition, transition_of};
use crate::lexer::{lexed, tokenize};
use crate::match_case::{MatchCase, MatchCaseView};
use crate::parser::guard::{Guard, GuardView};
use crate::parser::input::{InputVariant, InputVariantView};
use crate::parser::match_arm::is_wildcard_pattern;
use crate::parser::output::{copy_optional_output, OutputSpec};
use crate::parser::sm_def_attr::{SMDefAttr, SMDefAttrView};
use crate::parser::state_machine_def::{parse_machine, StateMachineDef, StateMachineDefView};
use crate::parser::transition::{TransitionDef, TransitionDefView, TransitionEntryView};
use crate::diagram::{build_diagram, diagram_text, is_rendering, DiagramRenderError};
use crate::text::{copy_text, copy_texts, same_text};
use crate::token::{Location, TokenTree, TreeView};

verus! {

/// Why a description is no machine.
#[derive(Clone, Copy, Debug, PartialEq, Eq, Structural)]
pub enum CompileError {
    /// The description is malformed.
    Parse(ParseError),
    /// A `match` guard does not bind one name for each field of its input.
    BindingArityMismatch,
    /// An entry without `match` guard does not say where it leads.
    MissingTarget,
    /// The transitions of a state come down to no case at all.
    EmptyTransitionSet,
    /// The description declares no transition at all.
    NoTransitions,
    /// An input is used with different numbers of fields.
    AmbiguousArity,
}

/// A compiled machine: the table of its transition cases in the order
/// declared, and its alphabets. An alphabet is `None` where the description
/// names a type of its own for it. What the description says besides is
/// carried along as it was written.
#[derive(Debug, Clone, PartialEq, Eq)]
pub struct CompiledMachine {
    pub name: String,
    pub initial_state: String,
    pub states: Option<Vec<String>>,
    pub inputs: Option<Vec<InputVariant>>,
    pub outputs: Option<Vec<String>>,
    pub cases: Vec<MatchCase>,
    /// The documentation attributes.
    pub doc: Vec<String>,
    /// The attributes for the types of the machine.
    pub attributes: Vec<String>,
    pub visibility: String,
    pub use_statements: Vec<String>,
    /// The types from outside and the hooks. The hooks are for whoever runs
    /// the machine to call, before and after each transition.
    pub def_attrs: SMDefAttr,
}

/// The mathematical value of a [`CompiledMachine`].
pub struct CompiledMachineView {
    pub name: Seq<char>,
    pub initial_state: Seq<char>,
    pub states: Option<Seq<Seq<char>>>,
    pub inputs: Option<Seq<InputVariantView>>,
    pub outputs: Option<Seq<Seq<char>>>,
    pub cases: Seq<MatchCaseView>,
    pub doc: Seq<Seq<char>>,
    pub attributes: Seq<Seq<char>>,
    pub visibility: Seq<char>,
    pub use_statements: Seq<Seq<char>>,
    pub def_attrs: SMDefAttrView,
}

impl DeepView for CompiledMachine {
    type V = CompiledMachineView;

    open spec fn deep_view(&self) -> CompiledMachineView {
        CompiledMachineView {
            name: self.name@,
            initial_state: self.initial_state@,
            states: self.states.deep_view(),
            inputs: self.inputs.deep_view(),
            outputs: self.outputs.deep_view(),
            cases: self.cases.deep_view(),
            doc: self.doc.deep_view(),
            attributes: self.attributes.deep_view(),
            visibility: self.visibility@,
            use_statements: self.use_statements.deep_view(),
            def_attrs: self.def_attrs.deep_view(),
        }
    }
}

impl View for CompiledMachine {
    type V = CompiledMachineView;

    open spec fn view(&self) -> CompiledMachineView {
        self.deep_view()
    }
}

impl CompiledMachineView {
    /// The machine is what compiling makes: it has cases, no input is used
    /// with different numbers of fields, each alphabet that the machine has
    /// is the alphabet of its cases, and the initial state is among the
    /// states.
    pub open spec fn well_formed(self) -> bool {
        &&& self.cases.len() > 0
        &&& !arity_conflict(self.cases, self.cases.len() as int)
        &&& self.states matches Some(states) ==> lists_in_order(
            states,
            state_set(self.initial_state, self.cases),
        ) && states.contains(self.initial_state)
        &&& self.inputs matches Some(inputs) ==> is_input_alphabet(self.cases, inputs)
        &&& self.outputs matches Some(outputs) ==> lists_in_order(outputs, output_set(self.cases))
    }
}

impl CompiledMachine {
    /// The state the machine goes to from `state` on `input`: the target of
    /// the first case that applies, or `None` where no case does. `guards`
    /// says of each case whether its guard holds of the input.
    pub fn transition(&self, state: &str, input: &str, guards: &Vec<bool>) -> (r: Option<String>)
        ensures
            r.deep_view() == transition_of(self@.cases, state@, input@, guards@),
    {
        transition(&self.cases, state, input, guards)
    }

    /// What the machine puts out in `state` on `input`: the output of the
    /// case that decides the transition.
    pub fn output(&self, state: &str, input: &str, guards: &Vec<bool>) -> (r: Option<OutputSpec>)
        ensures
            r.deep_view() == output_of(self@.cases, state@, input@, guards@),
    {
        output(&self.cases, state, input, guards)
    }

    /// The state diagram of the machine.
    pub fn diagram(&self) -> (r: Result<String, DiagramRenderError>)
        ensures
            is_rendering(r, diagram_text(self@.initial_state, self@.cases, Seq::empty())),
    {
        build_diagram(self.initial_state.as_str(), &self.cases)
    }
}

/// The cases of all states, state by state in the order written.
pub open spec fn all_cases(defs: Seq<TransitionDefView>) -> Seq<MatchCaseView> {
    defs.flat_map(|d: TransitionDefView| d.as_match_cases())
}

/// The entry has a `match` guard that does not bind one name for each field.
pub open spec fn binding_mismatch(entry: TransitionEntryView) -> bool {
    entry.guard matches Some(GuardView::Binding(b)) && b.bindings.len() != entry.input.fields.len()
}

/// The entry has no `match` guard and does not say where it leads.
pub open spec fn missing_target(entry: TransitionEntryView) -> bool {
    !(entry.guard matches Some(GuardView::Binding(_))) && entry.final_state is None
}

/// One of the first `n` states has an entry with a mismatched `match` guard.
pub open spec fn has_binding_mismatch(defs: Seq<TransitionDefView>, n: int) -> bool {
    exists|i: int, j: int|
        0 <= i < n && i < defs.len() && 0 <= j < defs[i].transitions.len() && binding_mismatch(
            #[trigger] defs[i].transitions[j],
        )
}

/// One of the first `n` states has an entry that leads nowhere.
pub open spec fn has_missing_target(defs: Seq<TransitionDefView>, n: int) -> bool {
    exists|i: int, j: int|
        0 <= i < n && i < defs.len() && 0 <= j < defs[i].transitions.len() && missing_target(
            #[trigger] defs[i].transitions[j],
        )
}

/// The transitions of one of the first `n` states come down to no case.
pub open spec fn has_empty_state(defs: Seq<TransitionDefView>, n: int) -> bool {
    exists|i: int| 0 <= i < n && i < defs.len() && (#[trigger] defs[i]).as_match_cases().len() == 0
}

/// The two cases use one input with different numbers of fields.
pub open spec fn clash(a: MatchCaseView, b: MatchCaseView) -> bool {
    a.input.name == b.input.name && a.input.fields.len() != b.input.fields.len()
}

/// Two of the first `n` cases use one input with different numbers of
/// fields.
pub open spec fn arity_conflict(cases: Seq<MatchCaseView>, n: int) -> bool {
    exists|i: int, j: int|
        0 <= i < j < n && j < cases.len() && clash(#[trigger] cases[i], #[trigger] cases[j])
}

/// The machine that a description without flaw stands for.
pub open spec fn compiled(def: StateMachineDefView) -> CompiledMachineView {
    let cases = all_cases(def.transitions);
    CompiledMachineView {
        name: def.name,
        initial_state: def.initial_state,
        states: if def.def_attrs.state_type is Some {
            None
        } else {
            Some(sorted_names(state_set(def.initial_state, cases)))
        },
        inputs: if def.def_attrs.input_type is Some {
            None
        } else {
            Some(input_alphabet_of(cases))
        },
        outputs: if def.def_attrs.output_type is Some {
            None
        } else {
            Some(sorted_names(output_set(cases)))
        },
        cases,
        doc: def.doc,
        attributes: def.attributes,
        visibility: def.visibility,
        use_statements: def.use_statements,
        def_attrs: def.def_attrs,
    }
}

/// What compiling a description comes to: its machine, or its first flaw in
/// this order: no state at all, a mismatched `match` guard, an entry that
/// leads nowhere, a state without cases, an input used with different
/// numbers of fields.
pub open spec fn compile_outcome(def: StateMachineDefView) -> Result<
    CompiledMachineView,
    CompileError,
> {
    let defs = def.transitions;
    if defs.len() == 0 {
        Err(CompileError::NoTransitions)
    } else if has_binding_mismatch(defs, defs.len() as int) {
        Err(CompileError::BindingArityMismatch)
    } else if has_missing_target(defs, defs.len() as int) {
        Err(CompileError::MissingTarget)
    } else if has_empty_state(defs, defs.len() as int) {
        Err(CompileError::EmptyTransitionSet)
    } else if arity_conflict(all_cases(defs), all_cases(defs).len() as int) {
        Err(CompileError::AmbiguousArity)
    } else {
        Ok(compiled(def))
    }
}

/// What compiling the tokens of a description comes to.
pub open spec fn outcome_of_tokens(tokens: Seq<TreeView>, end: Location) -> Result<
    CompiledMachineView,
    CompileError,
> {
    match parse_machine(tokens, end) {
        Err(e) => Err(CompileError::Parse(e)),
        Ok(def) => compile_outcome(def),
    }
}

/// `r` is what was computed and `s` what the rules say.
pub open spec fn is_outcome(
    r: Result<CompiledMachine, CompileError>,
    s: Result<CompiledMachineView, CompileError>,
) -> bool {
    match (r, s) {
        (Ok(machine), Ok(v)) => machine@ == v,
        (Err(e), Err(f)) => e == f,
        _ => false,
    }
}

/// The place that stands for the end of a description.
pub open spec fn end_of_text() -> Location {
    Location { line: 0, column: 0 }
}

/// Whether one of the entries of the states has a flaw of the kind asked
/// for: a mismatched `match` guard (`mismatch`), or no target.
fn entry_flaw(defs: &Vec<TransitionDef>, mismatch: bool) -> (r: bool)
    ensures
        mismatch ==> r == has_binding_mismatch(defs.deep_view(), defs.len() as int),
        !mismatch ==> r == has_missing_target(defs.deep_view(), defs.len() as int),
{
    let ghost view = defs.deep_view();
    let mut i: usize = 0;
    while i < defs.len()
        invariant
            i <= defs.len(),
            view == defs.deep_view(),
            mismatch ==> !has_binding_mismatch(view, i as int),
            !mismatch ==> !has_missing_target(view, i as int),
        decreases defs.len() - i,
    {
        let def = &defs[i];
        assert(def@ == view[i as int]);
        let mut j: usize = 0;
        while j < def.transitions.len()
            invariant
                j <= def.transitions.len(),
                i < defs.len(),
                view == defs.deep_view(),
                def@ == view[i as int],
                mismatch ==> !has_binding_mismatch(view, i as int),
                !mismatch ==> !has_missing_target(view, i as int),
                mismatch ==> forall|k: int|
                    0 <= k < j ==> !binding_mismatch(#[trigger] view[i as int].transitions[k]),
                !mismatch ==> forall|k: int|
                    0 <= k < j ==> !missing_target(#[trigger] view[i as int].transitions[k]),
            decreases def.transitions.len() - j,
        {
            let entry = &def.transitions[j];
            assert(entry@ == view[i as int].transitions[j as int]);
            let binding = match &entry.guard {
                Some(Guard::Binding(b)) => Some(b.bindings.len()),
                _ => None,
            };
            let flawed = match binding {
                Some(count) => mismatch && count != entry.input.fields.len(),
                None => !mismatch && entry.final_state.is_none(),
            };
            if flawed {
                assert(mismatch ==> binding_mismatch(view[i as int].transitions[j as int]));
                assert(!mismatch ==> missing_target(view[i as int].transitions[j as int]));
                return true;
            }
            j += 1;
        }
        i += 1;
    }
    false
}

/// Whether case `j` uses the input of an earlier case with another number of
/// fields.
fn clashes_with_earlier(cases: &Vec<MatchCase>, j: usize) -> (r: bool)
    requires
        j < cases.len(),
    ensures
        r == exists|i: int|
            0 <= i < j && clash(#[trigger] cases.deep_view()[i], cases.deep_view()[j as int]),
{
    let ghost table = cases.deep_view();
    let this = &cases[j];
    assert(this@ == table[j as int]);
    let mut i: usize = 0;
    while i < j
        invariant
            i <= j,
            j < cases.len(),
            table == cases.deep_view(),
            this@ == table[j as int],
            forall|k: int| 0 <= k < i ==> !clash(#[trigger] table[k], table[j as int]),
        decreases j - i,
    {
        let other = &cases[i];
        assert(other@ == table[i as int]);
        if same_text(other.input.name.as_str(), this.input.name.as_str())
            && other.input.fields.len() != this.input.fields.len() {
            return true;
        }
        i += 1;
    }
    false
}

/// Whether two cases use one input with different numbers of fields.
pub fn has_arity_conflict(cases: &Vec<MatchCase>) -> (r: bool)
    ensures
        r == arity_conflict(cases.deep_view(), cases.len() as int),
{
    let ghost table = cases.deep_view();
    let mut j: usize = 0;
    while j < cases.len()
        invariant
            j <= cases.len(),
            table == cases.deep_view(),
            !arity_conflict(table, j as int),
        decreases cases.len() - j,
    {
        if clashes_with_earlier(cases, j) {
            let ghost i = choose|i: int| 0 <= i < j && clash(#[trigger] table[i], table[j as int]);
            assert(0 <= i < j < j + 1 && clash(table[i], table[j as int]));
            return true;
        }
        j += 1;
    }
    false
}

/// The cases of all states, or `None` where the transitions of a state come
/// down to no case.
fn collect_cases(defs: &Vec<TransitionDef>) -> (r: Option<Vec<MatchCase>>)
    requires
        forall|i: int| 0 <= i < defs.len() ==> (#[trigger] defs.deep_view()[i]).well_formed(),
    ensures
        r is None == has_empty_state(defs.deep_view(), defs.len() as int),
        r matches Some(cases) ==> cases.deep_view() == all_cases(defs.deep_view()),
{
    let ghost view = defs.deep_view();
    let ghost each = |d: TransitionDefView| d.as_match_cases();
    let mut out: Vec<MatchCase> = Vec::new();
    let mut i: usize = 0;
    assert(out.deep_view() =~= view.take(0).map_values(each).flatten());
    while i < defs.len()
        invariant
            i <= defs.len(),
            view == defs.deep_view(),
            forall|k: int| 0 <= k < defs.len() ==> (#[trigger] view[k]).well_formed(),
            each == |d: TransitionDefView| d.as_match_cases(),
            out.deep_view() == view.take(i as int).map_values(each).flatten(),
            !has_empty_state(view, i as int),
        decreases defs.len() - i,
    {
        let ghost before = out.deep_view();
        let count = out.len();
        assert(defs[i as int]@ == view[i as int]);
        defs[i].push_match_cases(&mut out);
        proof {
            let done = view.take(i as int).map_values(each);
            assert(view.take(i as int + 1).map_values(each) =~= done.push(each(view[i as int])));
            done.lemma_flatten_push(each(view[i as int]));
            assert(out.deep_view() =~= done.push(each(view[i as int])).flatten());
            assert(out.deep_view().len() == before.len() + view[i as int].as_match_cases().len());
        }
        if out.len() == count {
            assert(view[i as int].as_match_cases().len() == 0);
            return None;
        }
        i += 1;
    }
    assert(view.take(i as int) =~= view);
    Some(out)
}

/// Compiles a description: checks it, flattens its transitions into the
/// table of cases, and derives the alphabets that the description does not
/// name a type for.
pub fn compile(def: &StateMachineDef) -> (r: Result<CompiledMachine, CompileError>)
    ensures
        is_outcome(r, compile_outcome(def@)),
        r matches Ok(machine) ==> machine@.well_formed(),
{
    if def.transitions.len() == 0 {
        return Err(CompileError::NoTransitions);
    }
    if entry_flaw(&def.transitions, true) {
        return Err(CompileError::BindingArityMismatch);
    }
    if entry_flaw(&def.transitions, false) {
        return Err(CompileError::MissingTarget);
    }
    proof {
        let defs = def@.transitions;
        assert forall|i: int| 0 <= i < defs.len() implies (#[trigger] defs[i]).well_formed() by {
            assert forall|j: int| 0 <= j < defs[i].transitions.len() implies (
            #[trigger] defs[i].transitions[j]).well_formed() by {
                assert(!binding_mismatch(defs[i].transitions[j]));
                assert(!missing_target(defs[i].transitions[j]));
            }
        }
    }
    let cases = match collect_cases(&def.transitions) {
        Some(cases) => cases,
        None => { return Err(CompileError::EmptyTransitionSet); },
    };
    if has_arity_conflict(&cases) {
        return Err(CompileError::AmbiguousArity);
    }
    proof {
        let defs = def@.transitions;
        let of_def = |d: TransitionDefView| d.as_match_cases();
        assert(defs[0].as_match_cases().len() > 0);
        let at = lemma_flatten_holds(defs.map_values(of_def), 0, 0);
    }
    let states = if def.def_attrs.state_type.is_some() {
        None
    } else {
        Some(state_alphabet(def.initial_state.as_str(), &cases))
    };
    let inputs = if def.def_attrs.input_type.is_some() {
        None
    } else {
        Some(input_alphabet(&cases))
    };
    let outputs = if def.def_attrs.output_type.is_some() {
        None
    } else {
        Some(output_alphabet(&cases))
    };
    Ok(
        CompiledMachine {
            name: copy_text(def.name.as_str()),
            initial_state: copy_text(def.initial_state.as_str()),
            states,
            inputs,
            outputs,
            cases,
            doc: copy_texts(&def.doc),
            attributes: copy_texts(&def.attributes),
            visibility: copy_text(def.visibility.as_str()),
            use_statements: copy_texts(&def.use_statements),
            def_attrs: def.def_attrs.duplicate(),
        },
    )
}

/// Compiles the tokens of a description.
pub fn compile_tokens(tokens: &Vec<TokenTree>) -> (r: Result<CompiledMachine, CompileError>)
    ensures
        is_outcome(r, outcome_of_tokens(tokens.deep_view(), end_of_text())),
        r matches Ok(machine) ==> machine@.well_formed(),
{
    match StateMachineDef::parse(tokens, Location { line: 0, column: 0 }) {
        Err(e) => Err(CompileError::Parse(e)),
        Ok(def) => compile(&def),
    }
}

/// What compiling the text of a description comes to: a `Lex` error where
/// the text cannot be split into tokens, and else what compiling its tokens
/// comes to.
pub open spec fn outcome_of_text(text: Seq<char>) -> Result<CompiledMachineView, CompileError> {
    match lexed(text) {
        Err(at) => Err(CompileError::Parse(ParseError { kind: ParseErrorKind::Lex, at })),
        Ok(tokens) => outcome_of_tokens(tokens, end_of_text()),
    }
}

/// Compiles the text of a description into a machine.
pub fn state_machine(text: &str) -> (r: Result<CompiledMachine, CompileError>)
    ensures
        is_outcome(r, outcome_of_text(text@)),
        r matches Ok(machine) ==> machine@.well_formed(),
{
    match tokenize(text) {
        Err(at) => Err(CompileError::Parse(ParseError { kind: ParseErrorKind::Lex, at })),
        Ok(tokens) => compile_tokens(&tokens),
    }
}

/// Compiling is a function of the description: what two runs on one
/// description come to is the same, table and alphabets alike.
pub proof fn lemma_compile_is_deterministic(
    def: StateMachineDefView,
    first: Result<CompiledMachine, CompileError>,
    second: Result<CompiledMachine, CompileError>,
)
    requires
        is_outcome(first, compile_outcome(def)),
        is_outcome(second, compile_outcome(def)),
    ensures
        first is Ok == second is Ok,
        first matches Ok(a) ==> a@ == second.unwrap()@,
        first matches Err(e) ==> second == Err::<CompiledMachine, CompileError>(e),
{
}

/// Compiling is a function of the text: what two runs on one text come to
/// is the same, table and alphabets alike.
pub proof fn lemma_text_compiles_one_way(
    text: Seq<char>,
    first: Result<CompiledMachine, CompileError>,
    second: Result<CompiledMachine, CompileError>,
)
    requires
        is_outcome(first, outcome_of_text(text)),
        is_outcome(second, outcome_of_text(text)),
    ensures
        first is Ok == second is Ok,
        first matches Ok(a) ==> a@ == second.unwrap()@,
        first matches Err(e) ==> second == Err::<CompiledMachine, CompileError>(e),
{
}

/// Each member of one of the lists is a member of the lists laid end to end.
proof fn lemma_flatten_holds<A>(lists: Seq<Seq<A>>, i: int, k: int) -> (at: int)
    requires
        0 <= i < lists.len(),
        0 <= k < lists[i].len(),
    ensures
        0 <= at < lists.flatten().len(),
        lists.flatten()[at] == lists[i][k],
    decreases lists.len(),
{
    if i == 0 {
        k
    } else {
        let rest = lists.drop_first();
        assert(rest[i - 1] == lists[i]);
        let at = lemma_flatten_holds(rest, i - 1, k);
        lists[0].len() + at
    }
}

/// A catch-all makes its state and input total: where the last arm of a
/// `match` guard is a pattern of wildcards alone, the machine has a
/// transition from the guard's state on the guard's input whatever the
/// values of the input's fields are, that is, whatever the guards say.
pub proof fn lemma_catch_all_is_total(
    defs: Seq<TransitionDefView>,
    i: int,
    j: int,
    guards: Seq<bool>,
)
    requires
        0 <= i < defs.len(),
        0 <= j < defs[i].transitions.len(),
        defs[i].transitions[j].guard matches Some(GuardView::Binding(b)) && b.arms.len() > 0
            && is_wildcard_pattern(b.arms.last().pattern),
    ensures
        transition_of(
            all_cases(defs),
            defs[i].initial_state,
            defs[i].transitions[j].input.name,
            guards,
        ) is Some,
{
    let def = defs[i];
    let entry = def.transitions[j];
    let arms = entry.guard->Some_0->Binding_0.arms;
    let of_entry = |e: TransitionEntryView| e.cases(def.initial_state);
    let of_def = |d: TransitionDefView| d.as_match_cases();
    let last = arms.len() - 1;
    let case = entry.cases(def.initial_state)[last];
    let in_def = lemma_flatten_holds(def.transitions.map_values(of_entry), j, last);
    assert(def.as_match_cases()[in_def] == case);
    let in_all = lemma_flatten_holds(defs.map_values(of_def), i, in_def);
    assert(all_cases(defs)[in_all] == case);
    assert(case.guard_expr->Some_0.always_holds());
    lemma_unconditional_case_is_total(
        all_cases(defs),
        in_all,
        def.initial_state,
        entry.input.name,
        guards,
    );
}

/// No case applies to the state and input at hand.
#[derive(Clone, Copy, Debug, PartialEq, Eq, Structural)]
pub struct TransitionImpossibleError;

/// A machine at run time: the compiled machine's table is consulted for each
/// input, and the current state is kept here.
#[derive(Debug, Clone, PartialEq, Eq)]
pub struct StateMachine {
    state: String,
}

impl View for StateMachine {
    type V = Seq<char>;

    closed spec fn view(&self) -> Seq<char> {
        self.state@
    }
}

impl StateMachine {
    /// A machine in the initial state of the compiled machine.
    pub fn new(machine: &CompiledMachine) -> (r: Self)
        ensures
            r@ == machine@.initial_state,
    {
        StateMachine { state: copy_text(machine.initial_state.as_str()) }
    }

    /// A machine in the given state.
    pub fn from_state(state: &str) -> (r: Self)
        ensures
            r@ == state@,
    {
        StateMachine { state: copy_text(state) }
    }

    /// The current state.
    pub fn state(&self) -> (r: &String)
        ensures
            r@ == self@,
    {
        &self.state
    }

    /// Takes an input. Where a case applies, the machine goes to the state
    /// that the first such case leads to, and the output of that case is
    /// returned. Where none applies, the machine stays in its state.
    pub fn consume(&mut self, machine: &CompiledMachine, input: &str, guards: &Vec<bool>) -> (r:
        Result<Option<OutputSpec>, TransitionImpossibleError>)
        ensures
            match transition_of(machine@.cases, old(self)@, input@, guards@) {
                Some(next) => {
                    &&& final(self)@ == next
                    &&& r matches Ok(output) && output.deep_view() == output_of(
                        machine@.cases,
                        old(self)@,
                        input@,
                        guards@,
                    )
                },
                None => final(self)@ == old(self)@ && r is Err,
            },
    {
        match select_case(&machine.cases, self.state.as_str(), input, guards) {
            Some(i) => {
                let case = &machine.cases[i];
                assert(case@ == machine@.cases[i as int]);
                self.state = copy_text(case.next_state.as_str());
                Ok(copy_optional_output(&case.output))
            },
            None => Err(TransitionImpossibleError),
        }
    }
}

} // verus!
