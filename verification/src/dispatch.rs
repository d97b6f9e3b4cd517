//! Dispatch: which transition case decides a given state and input.
//!
//! The cases are tried in the order declared, and the first one that applies
//! decides both the next state and the output. Guards are written by the
//! machine's author and are not evaluated here: a caller hands in, for each
//! case, whether its guard holds of the input at hand (`guards[i]` for case
//! `i`; a missing entry counts as "does not hold"). A guard that matches
//! against wildcards alone holds whatever the caller says.

use vstd::prelude::*;
use crate::match_case::{MatchCase, MatchCaseView};
use crate::parser::output::{copy_optional_output, OutputSpec, OutputSpecView};
use crate::text::{copy_text, same_text};

verus! {

/// The case is declared for this state and this input.
pub open spec fn is_candidate(case: MatchCaseView, state: Seq<char>, input: Seq<char>) -> bool {
    case.state == state && case.input.name == input
}

/// The guard of case `index` lets it through: it has none, its guard always
/// holds, or the caller reports that it holds.
pub open spec fn guard_holds(case: MatchCaseView, index: int, guards: Seq<bool>) -> bool {
    match case.guard_expr {
        None => true,
        Some(g) => g.always_holds() || (0 <= index < guards.len() && guards[index]),
    }
}

/// Case `index` applies to the state and input.
pub open spec fn applies(
    cases: Seq<MatchCaseView>,
    index: int,
    state: Seq<char>,
    input: Seq<char>,
    guards: Seq<bool>,
) -> bool {
    &&& 0 <= index < cases.len()
    &&& is_candidate(cases[index], state, input)
    &&& guard_holds(cases[index], index, guards)
}

/// The first case at or after `from` that applies.
pub open spec fn first_match_from(
    cases: Seq<MatchCaseView>,
    from: int,
    state: Seq<char>,
    input: Seq<char>,
    guards: Seq<bool>,
) -> Option<int>
    decreases cases.len() - from,
{
    if from < 0 || from >= cases.len() {
        None
    } else if applies(cases, from, state, input, guards) {
        Some(from)
    } else {
        first_match_from(cases, from + 1, state, input, guards)
    }
}

/// The case that decides the state and input: the first that applies.
pub open spec fn first_match(
    cases: Seq<MatchCaseView>,
    state: Seq<char>,
    input: Seq<char>,
    guards: Seq<bool>,
) -> Option<int> {
    first_match_from(cases, 0, state, input, guards)
}

/// The state the machine goes to.
pub open spec fn transition_of(
    cases: Seq<MatchCaseView>,
    state: Seq<char>,
    input: Seq<char>,
    guards: Seq<bool>,
) -> Option<Seq<char>> {
    match first_match(cases, state, input, guards) {
        Some(i) => Some(cases[i].next_state),
        None => None,
    }
}

/// What the machine puts out: the output of the case that decides the
/// transition, if that case has one.
pub open spec fn output_of(
    cases: Seq<MatchCaseView>,
    state: Seq<char>,
    input: Seq<char>,
    guards: Seq<bool>,
) -> Option<OutputSpecView> {
    match first_match(cases, state, input, guards) {
        Some(i) => cases[i].output,
        None => None,
    }
}

/// What `first_match_from` finds is the earliest case from `from` on that
/// applies, and it finds nothing only where none applies.
pub proof fn lemma_first_match_from(
    cases: Seq<MatchCaseView>,
    from: int,
    state: Seq<char>,
    input: Seq<char>,
    guards: Seq<bool>,
)
    requires
        0 <= from,
    ensures
        match first_match_from(cases, from, state, input, guards) {
            Some(i) => {
                &&& from <= i
                &&& applies(cases, i, state, input, guards)
                &&& forall|j: int| from <= j < i ==> !applies(cases, j, state, input, guards)
            },
            None => forall|j: int| from <= j ==> !applies(cases, j, state, input, guards),
        },
    decreases cases.len() - from,
{
    if from < cases.len() && !applies(cases, from, state, input, guards) {
        lemma_first_match_from(cases, from + 1, state, input, guards);
    }
}

/// The first match wins: where several cases are declared for a state and
/// input, the one that decides is the earliest declared whose guard is absent
/// or holds, and there is no transition exactly where no case applies.
pub proof fn lemma_first_match_wins(
    cases: Seq<MatchCaseView>,
    state: Seq<char>,
    input: Seq<char>,
    guards: Seq<bool>,
)
    ensures
        match first_match(cases, state, input, guards) {
            Some(i) => {
                &&& applies(cases, i, state, input, guards)
                &&& forall|j: int| 0 <= j < i ==> !applies(cases, j, state, input, guards)
            },
            None => forall|j: int| !applies(cases, j, state, input, guards),
        },
{
    lemma_first_match_from(cases, 0, state, input, guards);
}

/// An earlier case that applies shadows every later one: the decision is the
/// same as if the later case were not declared for this state and input.
pub proof fn lemma_earlier_case_decides(
    cases: Seq<MatchCaseView>,
    earlier: int,
    later: int,
    state: Seq<char>,
    input: Seq<char>,
    guards: Seq<bool>,
)
    requires
        earlier < later,
        applies(cases, earlier, state, input, guards),
        applies(cases, later, state, input, guards),
    ensures
        first_match(cases, state, input, guards) is Some,
        first_match(cases, state, input, guards).unwrap() <= earlier,
        first_match(cases, state, input, guards) != Some(later),
{
    lemma_first_match_wins(cases, state, input, guards);
}

/// A case for a state and input whose guard is absent or always holds makes
/// the pair total: there is a transition whatever the other guards say.
pub proof fn lemma_unconditional_case_is_total(
    cases: Seq<MatchCaseView>,
    index: int,
    state: Seq<char>,
    input: Seq<char>,
    guards: Seq<bool>,
)
    requires
        0 <= index < cases.len(),
        is_candidate(cases[index], state, input),
        cases[index].guard_expr matches Some(g) ==> g.always_holds(),
    ensures
        transition_of(cases, state, input, guards) is Some,
{
    lemma_first_match_wins(cases, state, input, guards);
    assert(applies(cases, index, state, input, guards));
}

/// The index of the case that decides the state and input, if any does.
pub fn select_case(cases: &Vec<MatchCase>, state: &str, input: &str, guards: &Vec<bool>) -> (r:
    Option<usize>)
    ensures
        r.is_some() ==> applies(cases.deep_view(), r.unwrap() as int, state@, input@, guards@),
        r.is_some() ==> forall|j: int|
            0 <= j < r.unwrap() ==> !applies(cases.deep_view(), j, state@, input@, guards@),
        r.is_none() ==> forall|j: int| !applies(cases.deep_view(), j, state@, input@, guards@),
        match r {
            Some(i) => first_match(cases.deep_view(), state@, input@, guards@) == Some(i as int),
            None => first_match(cases.deep_view(), state@, input@, guards@) is None,
        },
{
    let ghost table = cases.deep_view();
    let mut i: usize = 0;
    while i < cases.len()
        invariant
            i <= cases.len(),
            table == cases.deep_view(),
            first_match(table, state@, input@, guards@) == first_match_from(
                table,
                i as int,
                state@,
                input@,
                guards@,
            ),
        decreases cases.len() - i,
    {
        let case = &cases[i];
        assert(case@ == table[i as int]);
        if same_text(case.state.as_str(), state) && same_text(case.input.name.as_str(), input) {
            let open = match &case.guard_expr {
                None => true,
                Some(g) => g.always_holds() || (i < guards.len() && guards[i]),
            };
            if open {
                proof {
                    lemma_first_match_wins(table, state@, input@, guards@);
                }
                return Some(i);
            }
        }
        i += 1;
    }
    proof {
        lemma_first_match_wins(table, state@, input@, guards@);
    }
    None
}

/// The state the machine goes to from `state` on `input`: the target of the
/// first case that applies, or `None` where no case does.
pub fn transition(cases: &Vec<MatchCase>, state: &str, input: &str, guards: &Vec<bool>) -> (r:
    Option<String>)
    ensures
        r.deep_view() == transition_of(cases.deep_view(), state@, input@, guards@),
{
    match select_case(cases, state, input, guards) {
        Some(i) => {
            assert(cases[i as int]@ == cases.deep_view()[i as int]);
            Some(copy_text(cases[i].next_state.as_str()))
        },
        None => None,
    }
}

/// What the machine puts out in `state` on `input`: the output of the case
/// that decides the transition, or `None` where that case has no output or
/// no case applies.
pub fn output(cases: &Vec<MatchCase>, state: &str, input: &str, guards: &Vec<bool>) -> (r:
    Option<OutputSpec>)
    ensures
        r.deep_view() == output_of(cases.deep_view(), state@, input@, guards@),
{
    match select_case(cases, state, input, guards) {
        Some(i) => {
            assert(cases[i as int]@ == cases.deep_view()[i as int]);
            copy_optional_output(&cases[i].output)
        },
        None => None,
    }
}

} // verus!
