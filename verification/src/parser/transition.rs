//! The transitions of one state, and how they become transition cases.

use vstd::prelude::*;
use crate::cursor::{agrees, agrees_on_all, arrow_at, error_at, fail_at, group_at, group_content,
    group_of, is_arrow_at, is_punct_at, name_at, name_of, punct_at, ParseError, ParseErrorKind};
use crate::match_case::{MatchCase, MatchCaseView};
use crate::parser::guard::{parse_guard, Guard, GuardExpr, GuardExprView, GuardView};
use crate::parser::input::{parse_input, InputVariant, InputVariantView};
use crate::parser::match_arm::{parse_target, read_target};
use crate::parser::output::{OutputSpec, OutputSpecView};
use crate::text::copy_text;
use crate::token::{Delimiter, Location, TokenTree, TreeView};

verus! {

/// One entry of a state's transitions: the input, an optional guard, and,
/// unless the guard is a `match` (whose arms name them), the state the
/// machine goes to and what it puts out.
#[derive(Debug, Clone, PartialEq, Eq)]
pub struct TransitionEntry {
    pub input: InputVariant,
    pub guard: Option<Guard>,
    pub final_state: Option<String>,
    pub output: Option<OutputSpec>,
}

/// The mathematical value of a [`TransitionEntry`].
pub struct TransitionEntryView {
    pub input: InputVariantView,
    pub guard: Option<GuardView>,
    pub final_state: Option<Seq<char>>,
    pub output: Option<OutputSpecView>,
}

impl DeepView for TransitionEntry {
    type V = TransitionEntryView;

    open spec fn deep_view(&self) -> TransitionEntryView {
        TransitionEntryView {
            input: self.input.deep_view(),
            guard: self.guard.deep_view(),
            final_state: self.final_state.deep_view(),
            output: self.output.deep_view(),
        }
    }
}

impl View for TransitionEntry {
    type V = TransitionEntryView;

    open spec fn view(&self) -> TransitionEntryView {
        self.deep_view()
    }
}

impl TransitionEntryView {
    /// The entry can be turned into cases: a `match` guard binds one name for
    /// each field of the input, and any other entry names its target state.
    pub open spec fn well_formed(self) -> bool {
        match self.guard {
            Some(GuardView::Binding(b)) => b.bindings.len() == self.input.fields.len(),
            _ => self.final_state is Some,
        }
    }

    /// The cases the entry stands for when it is written under `state`: one
    /// for each arm of a `match` guard, in the arms' order, and one otherwise.
    pub open spec fn cases(self, state: Seq<char>) -> Seq<MatchCaseView> {
        match self.guard {
            Some(GuardView::Binding(b)) => Seq::new(
                b.arms.len(),
                |i: int|
                    MatchCaseView::new(state, self.input, b.arms[i].final_state).with_guard(
                        b.guard_expr_for_arm(self.input.fields, b.arms[i]),
                    ).with_output(b.arms[i].output),
            ),
            Some(GuardView::Closure(expr)) => seq![
                MatchCaseView::new(state, self.input, self.final_state.unwrap()).with_output(
                    self.output,
                ).with_guard(GuardExprView::Closure(expr)),
            ],
            None => seq![
                MatchCaseView::new(state, self.input, self.final_state.unwrap()).with_output(
                    self.output,
                ),
            ],
        }
    }
}

/// An entry as written from position `pos` on: an input, a guard if one
/// follows, and, unless the guard is a `match`, where the entry leads.
pub open spec fn parse_entry(tokens: Seq<TreeView>, pos: int, end: Location) -> Result<
    (TransitionEntryView, int),
    ParseError,
> {
    match parse_input(tokens, pos, end) {
        Err(e) => Err(e),
        Ok((input, after_input)) => match parse_guard(tokens, after_input, end) {
            Err(e) => Err(e),
            Ok((guard, after_guard)) => if guard matches Some(GuardView::Binding(_)) {
                Ok(
                    (
                        TransitionEntryView { input, guard, final_state: None, output: None },
                        after_guard,
                    ),
                )
            } else {
                match parse_target(tokens, after_guard, end) {
                    Err(e) => Err(e),
                    Ok(((state, output), next)) => Ok(
                        (
                            TransitionEntryView { input, guard, final_state: Some(state), output },
                            next,
                        ),
                    ),
                }
            },
        },
    }
}

/// The entries written from position `pos` on to the end, after the entries
/// `done`: one after the other, separated by commas; a comma may follow the
/// last.
pub open spec fn parse_entries(
    tokens: Seq<TreeView>,
    pos: int,
    done: Seq<TransitionEntryView>,
    end: Location,
) -> Result<Seq<TransitionEntryView>, ParseError>
    decreases tokens.len() - pos,
{
    if pos < 0 || pos >= tokens.len() {
        Ok(done)
    } else {
        match parse_entry(tokens, pos, end) {
            Err(e) => Err(e),
            Ok((entry, next)) => if next >= tokens.len() {
                Ok(done.push(entry))
            } else if next >= pos && punct_at(tokens, next, ',') {
                parse_entries(tokens, next + 1, done.push(entry), end)
            } else {
                Err(error_at(ParseErrorKind::ExpectedComma, tokens, next, end))
            },
        }
    }
}

/// The one entry of a state written in the simple form, `(Input) => Target
/// [Output]`, with the parentheses at position `pos`.
pub open spec fn parse_regular_transition(tokens: Seq<TreeView>, pos: int, end: Location) -> Result<
    (Seq<TransitionEntryView>, int),
    ParseError,
> {
    let inner = group_content(tokens, pos);
    match parse_input(inner, 0, tokens[pos].location()) {
        Err(e) => Err(e),
        Ok((input, used)) => if used < inner.len() {
            Err(error_at(ParseErrorKind::UnexpectedToken, inner, used, end))
        } else {
            match parse_target(tokens, pos + 1, end) {
                Err(e) => Err(e),
                Ok(((state, output), next)) => Ok(
                    (
                        seq![
                            TransitionEntryView {
                                input,
                                guard: None,
                                final_state: Some(state),
                                output,
                            },
                        ],
                        next,
                    ),
                ),
            }
        },
    }
}

/// The entries of a state written in the compact form, `=> { entry, ... }`,
/// with the `=>` at position `pos`.
pub open spec fn parse_sub_transitions(tokens: Seq<TreeView>, pos: int, end: Location) -> Result<
    (Seq<TransitionEntryView>, int),
    ParseError,
> {
    if !arrow_at(tokens, pos) {
        Err(error_at(ParseErrorKind::ExpectedArrow, tokens, pos, end))
    } else if !group_at(tokens, pos + 2, Delimiter::Brace) {
        Err(error_at(ParseErrorKind::ExpectedBraces, tokens, pos + 2, end))
    } else {
        match parse_entries(
            group_content(tokens, pos + 2),
            0,
            Seq::empty(),
            tokens[pos + 2].location(),
        ) {
            Err(e) => Err(e),
            Ok(entries) => Ok((entries, pos + 3)),
        }
    }
}

/// The transitions of a state as written from position `pos` on: the state's
/// name, and its entries in the simple or in the compact form. Braces that
/// hold no entry are an error.
pub open spec fn parse_transition_def(tokens: Seq<TreeView>, pos: int, end: Location) -> Result<
    (TransitionDefView, int),
    ParseError,
> {
    match name_at(tokens, pos) {
        None => Err(error_at(ParseErrorKind::ExpectedName, tokens, pos, end)),
        Some(state) => {
            let entries = if group_at(tokens, pos + 1, Delimiter::Parenthesis) {
                parse_regular_transition(tokens, pos + 1, end)
            } else {
                parse_sub_transitions(tokens, pos + 1, end)
            };
            match entries {
                Err(e) => Err(e),
                Ok((transitions, next)) => if transitions.len() == 0 {
                    Err(error_at(ParseErrorKind::EmptyTransitionSet, tokens, pos, end))
                } else {
                    Ok((TransitionDefView { initial_state: state, transitions }, next))
                },
            }
        },
    }
}

/// The states' transitions written from position `pos` on to the end, after
/// those `done`: one state after the other, separated by commas; a comma may
/// follow the last.
pub open spec fn parse_transition_defs(
    tokens: Seq<TreeView>,
    pos: int,
    done: Seq<TransitionDefView>,
    end: Location,
) -> Result<Seq<TransitionDefView>, ParseError>
    decreases tokens.len() - pos,
{
    if pos < 0 || pos >= tokens.len() {
        Ok(done)
    } else {
        match parse_transition_def(tokens, pos, end) {
            Err(e) => Err(e),
            Ok((def, next)) => if next >= tokens.len() {
                Ok(done.push(def))
            } else if next >= pos && punct_at(tokens, next, ',') {
                parse_transition_defs(tokens, next + 1, done.push(def), end)
            } else {
                Err(error_at(ParseErrorKind::ExpectedComma, tokens, next, end))
            },
        }
    }
}

impl TransitionEntry {
    /// Reads an entry from position `pos` on: the input, then either a
    /// `match` guard, whose arms say where the entry leads, or an optional
    /// `if` guard, `=>`, the target state and an optional output. `end` is
    /// the place to report where the tokens run out.
    pub fn parse(tokens: &Vec<TokenTree>, pos: usize, end: Location) -> (r: Result<
        (TransitionEntry, usize),
        ParseError,
    >)
        ensures
            agrees(r, parse_entry(tokens.deep_view(), pos as int, end)),
            r matches Ok((_, next)) ==> pos < next <= tokens.len(),
    {
        let (input, after_input) = match InputVariant::parse(tokens, pos, end) {
            Ok(found) => found,
            Err(e) => { return Err(e); },
        };
        let (guard, after_guard) = match Guard::parse(tokens, after_input, end) {
            Ok(found) => found,
            Err(e) => { return Err(e); },
        };
        let binding = match &guard {
            Some(Guard::Binding(_)) => true,
            _ => false,
        };
        if binding {
            Ok((TransitionEntry { input, guard, final_state: None, output: None }, after_guard))
        } else {
            match read_target(tokens, after_guard, end) {
                Err(e) => Err(e),
                Ok(((state, output), next)) => Ok(
                    (TransitionEntry { input, guard, final_state: Some(state), output }, next),
                ),
            }
        }
    }

    /// Reads the entries of a state in the compact form: all of `tokens`,
    /// entry after entry, separated by commas.
    pub fn parse_all(tokens: &Vec<TokenTree>, end: Location) -> (r: Result<
        Vec<TransitionEntry>,
        ParseError,
    >)
        ensures
            agrees_on_all(r, parse_entries(tokens.deep_view(), 0, Seq::empty(), end)),
    {
        let mut entries: Vec<TransitionEntry> = Vec::new();
        let mut pos: usize = 0;
        assert(entries.deep_view() =~= Seq::<TransitionEntryView>::empty());
        while pos < tokens.len()
            invariant
                parse_entries(tokens.deep_view(), 0, Seq::empty(), end) == parse_entries(
                    tokens.deep_view(),
                    pos as int,
                    entries.deep_view(),
                    end,
                ),
            decreases tokens.len() - pos,
        {
            match TransitionEntry::parse(tokens, pos, end) {
                Err(e) => { return Err(e); },
                Ok((entry, next)) => {
                    let ghost before = entries.deep_view();
                    entries.push(entry);
                    assert(entries.deep_view() =~= before.push(entry@));
                    if next >= tokens.len() {
                        return Ok(entries);
                    }
                    if !is_punct_at(tokens, next, ',') {
                        return Err(fail_at(ParseErrorKind::ExpectedComma, tokens, next, end));
                    }
                    pos = next + 1;
                },
            }
        }
        Ok(entries)
    }

    /// Whether the entry can be turned into cases.
    pub fn is_well_formed(&self) -> (r: bool)
        ensures
            r == self@.well_formed(),
    {
        match &self.guard {
            Some(Guard::Binding(b)) => b.bindings.len() == self.input.fields.len(),
            _ => self.final_state.is_some(),
        }
    }

    /// Appends the entry's cases under `state` to `out`.
    fn push_cases(&self, state: &str, out: &mut Vec<MatchCase>)
        requires
            self@.well_formed(),
        ensures
            final(out).deep_view() == old(out).deep_view() + self@.cases(state@),
    {
        let ghost before = out.deep_view();
        match &self.guard {
            Some(Guard::Binding(b)) => {
                let mut i: usize = 0;
                while i < b.arms.len()
                    invariant
                        i <= b.arms.len(),
                        self.guard == Some(Guard::Binding(*b)),
                        self@.well_formed(),
                        out.deep_view() == before + self@.cases(state@).take(i as int),
                    decreases b.arms.len() - i,
                {
                    let arm = &b.arms[i];
                    let guard_expr = b.guard_expr_for_arm(&self.input.fields, arm);
                    let case = MatchCase::new(
                        state,
                        &self.input,
                        arm.final_state.as_str(),
                    ).with_guard(guard_expr).with_output(arm.output.as_ref());
                    let ghost prior = out.deep_view();
                    out.push(case);
                    proof {
                        let all = self@.cases(state@);
                        assert(case@ == all[i as int]);
                        assert(out.deep_view() =~= prior.push(case@));
                        assert(all.take(i as int + 1) =~= all.take(i as int).push(all[i as int]));
                    }
                    i += 1;
                }
                assert(self@.cases(state@).take(i as int) =~= self@.cases(state@));
            },
            Some(Guard::Closure(expr)) => {
                let case = match &self.final_state {
                    Some(next) => MatchCase::new(state, &self.input, next.as_str()),
                    None => MatchCase::new(state, &self.input, state),
                };
                let case = case.with_output(self.output.as_ref()).with_guard(
                    GuardExpr::Closure(copy_text(expr.as_str())),
                );
                out.push(case);
                assert(out.deep_view() =~= before + self@.cases(state@));
            },
            None => {
                let case = match &self.final_state {
                    Some(next) => MatchCase::new(state, &self.input, next.as_str()),
                    None => MatchCase::new(state, &self.input, state),
                };
                let case = case.with_output(self.output.as_ref());
                out.push(case);
                assert(out.deep_view() =~= before + self@.cases(state@));
            },
        }
    }
}

/// The transitions of one state.
#[derive(Debug, Clone, PartialEq, Eq)]
pub struct TransitionDef {
    pub initial_state: String,
    pub transitions: Vec<TransitionEntry>,
}

/// The mathematical value of a [`TransitionDef`].
pub struct TransitionDefView {
    pub initial_state: Seq<char>,
    pub transitions: Seq<TransitionEntryView>,
}

impl DeepView for TransitionDef {
    type V = TransitionDefView;

    open spec fn deep_view(&self) -> TransitionDefView {
        TransitionDefView {
            initial_state: self.initial_state@,
            transitions: self.transitions.deep_view(),
        }
    }
}

impl View for TransitionDef {
    type V = TransitionDefView;

    open spec fn view(&self) -> TransitionDefView {
        self.deep_view()
    }
}

impl TransitionDefView {
    /// Every entry can be turned into cases.
    pub open spec fn well_formed(self) -> bool {
        forall|i: int| 0 <= i < self.transitions.len() ==> (#[trigger] self.transitions[i]).well_formed()
    }

    /// The cases of the state, entry by entry in the order written.
    pub open spec fn as_match_cases(self) -> Seq<MatchCaseView> {
        self.transitions.flat_map(|e: TransitionEntryView| e.cases(self.initial_state))
    }
}

impl TransitionDef {
    /// Reads the one entry of a state written in the simple form,
    /// `(Input) => Target [Output]`, with the parentheses at position `pos`.
    /// The simple form takes no guard.
    fn as_regular_transition(tokens: &Vec<TokenTree>, pos: usize, end: Location) -> (r: Result<
        (Vec<TransitionEntry>, usize),
        ParseError,
    >)
        requires
            group_at(tokens.deep_view(), pos as int, Delimiter::Parenthesis),
        ensures
            agrees(r, parse_regular_transition(tokens.deep_view(), pos as int, end)),
            r matches Ok((_, next)) ==> pos < next <= tokens.len(),
    {
        let inner = match group_of(tokens, pos, Delimiter::Parenthesis) {
            Some(inner) => inner,
            None => { return Err(fail_at(ParseErrorKind::ExpectedParentheses, tokens, pos, end)); },
        };
        let (input, used) = match InputVariant::parse(inner, 0, tokens[pos].location()) {
            Ok(found) => found,
            Err(e) => { return Err(e); },
        };
        if used < inner.len() {
            return Err(fail_at(ParseErrorKind::UnexpectedToken, inner, used, end));
        }
        match read_target(tokens, pos + 1, end) {
            Err(e) => Err(e),
            Ok(((state, output), next)) => {
                let mut entries: Vec<TransitionEntry> = Vec::new();
                let entry = TransitionEntry { input, guard: None, final_state: Some(state), output };
                entries.push(entry);
                assert(entries.deep_view() =~= seq![entry@]);
                Ok((entries, next))
            },
        }
    }

    /// Reads the entries of a state written in the compact form,
    /// `=> { entry, ... }`, with the `=>` at position `pos`.
    fn as_sub_transions(tokens: &Vec<TokenTree>, pos: usize, end: Location) -> (r: Result<
        (Vec<TransitionEntry>, usize),
        ParseError,
    >)
        ensures
            agrees(r, parse_sub_transitions(tokens.deep_view(), pos as int, end)),
            r matches Ok((_, next)) ==> pos < next <= tokens.len(),
    {
        if !is_arrow_at(tokens, pos) {
            return Err(fail_at(ParseErrorKind::ExpectedArrow, tokens, pos, end));
        }
        match group_of(tokens, pos + 2, Delimiter::Brace) {
            None => Err(fail_at(ParseErrorKind::ExpectedBraces, tokens, pos + 2, end)),
            Some(inner) => match TransitionEntry::parse_all(inner, tokens[pos + 2].location()) {
                Err(e) => Err(e),
                Ok(entries) => Ok((entries, pos + 3)),
            },
        }
    }

    /// Reads the entries that follow a state's name at position `pos - 1`: in
    /// the simple form where a group in parentheses stands at `pos`, in the
    /// compact form otherwise. A state without any entry is an error, which
    /// is reported at the state's name.
    fn parse_transitions(tokens: &Vec<TokenTree>, pos: usize, end: Location) -> (r: Result<
        (Vec<TransitionEntry>, usize),
        ParseError,
    >)
        requires
            0 < pos <= tokens.len(),
        ensures
            match (
                r,
                if group_at(tokens.deep_view(), pos as int, Delimiter::Parenthesis) {
                    parse_regular_transition(tokens.deep_view(), pos as int, end)
                } else {
                    parse_sub_transitions(tokens.deep_view(), pos as int, end)
                },
            ) {
                (Ok((entries, next)), Ok((v, n))) => entries.deep_view() == v && next == n && v.len()
                    > 0,
                (Err(e), Err(f)) => e == f,
                (Err(e), Ok((v, _))) => v.len() == 0 && e == error_at(
                    ParseErrorKind::EmptyTransitionSet,
                    tokens.deep_view(),
                    pos - 1,
                    end,
                ),
                _ => false,
            },
            r matches Ok((_, next)) ==> pos < next <= tokens.len(),
    {
        let found = if group_of(tokens, pos, Delimiter::Parenthesis).is_some() {
            TransitionDef::as_regular_transition(tokens, pos, end)
        } else {
            TransitionDef::as_sub_transions(tokens, pos, end)
        };
        match found {
            Err(e) => Err(e),
            Ok((entries, next)) => if entries.len() == 0 {
                Err(fail_at(ParseErrorKind::EmptyTransitionSet, tokens, pos - 1, end))
            } else {
                Ok((entries, next))
            },
        }
    }

    /// Reads the transitions of one state from position `pos` on: the
    /// state's name and its entries. `end` is the place to report where the
    /// tokens run out.
    pub fn parse(tokens: &Vec<TokenTree>, pos: usize, end: Location) -> (r: Result<
        (TransitionDef, usize),
        ParseError,
    >)
        ensures
            agrees(r, parse_transition_def(tokens.deep_view(), pos as int, end)),
            r matches Ok((_, next)) ==> pos < next <= tokens.len(),
    {
        let initial_state = match name_of(tokens, pos) {
            Some(name) => copy_text(name.as_str()),
            None => { return Err(fail_at(ParseErrorKind::ExpectedName, tokens, pos, end)); },
        };
        match TransitionDef::parse_transitions(tokens, pos + 1, end) {
            Err(e) => Err(e),
            Ok((transitions, next)) => Ok((TransitionDef { initial_state, transitions }, next)),
        }
    }

    /// Reads the transitions of all states from position `pos` on to the end
    /// of `tokens`: state after state, separated by commas.
    pub fn parse_all(tokens: &Vec<TokenTree>, pos: usize, end: Location) -> (r: Result<
        Vec<TransitionDef>,
        ParseError,
    >)
        ensures
            agrees_on_all(r, parse_transition_defs(tokens.deep_view(), pos as int, Seq::empty(), end)),
    {
        let mut defs: Vec<TransitionDef> = Vec::new();
        let mut at: usize = pos;
        assert(defs.deep_view() =~= Seq::<TransitionDefView>::empty());
        while at < tokens.len()
            invariant
                parse_transition_defs(tokens.deep_view(), pos as int, Seq::empty(), end)
                    == parse_transition_defs(tokens.deep_view(), at as int, defs.deep_view(), end),
            decreases tokens.len() - at,
        {
            match TransitionDef::parse(tokens, at, end) {
                Err(e) => { return Err(e); },
                Ok((def, next)) => {
                    let ghost before = defs.deep_view();
                    defs.push(def);
                    assert(defs.deep_view() =~= before.push(def@));
                    if next >= tokens.len() {
                        return Ok(defs);
                    }
                    if !is_punct_at(tokens, next, ',') {
                        return Err(fail_at(ParseErrorKind::ExpectedComma, tokens, next, end));
                    }
                    at = next + 1;
                },
            }
        }
        Ok(defs)
    }

    /// Whether every entry can be turned into cases.
    pub fn is_well_formed(&self) -> (r: bool)
        ensures
            r == self@.well_formed(),
    {
        let mut i: usize = 0;
        while i < self.transitions.len()
            invariant
                i <= self.transitions.len(),
                forall|j: int| 0 <= j < i ==> (#[trigger] self@.transitions[j]).well_formed(),
            decreases self.transitions.len() - i,
        {
            if !self.transitions[i].is_well_formed() {
                assert(!self@.transitions[i as int].well_formed());
                return false;
            }
            i += 1;
        }
        true
    }

    /// Appends the state's cases to `out`.
    pub(crate) fn push_match_cases(&self, out: &mut Vec<MatchCase>)
        requires
            self@.well_formed(),
        ensures
            final(out).deep_view() == old(out).deep_view() + self@.as_match_cases(),
    {
        let ghost before = out.deep_view();
        let ghost each = |e: TransitionEntryView| e.cases(self@.initial_state);
        let mut i: usize = 0;
        assert(self@.transitions.take(0).map_values(each) =~= Seq::<Seq<MatchCaseView>>::empty());
        while i < self.transitions.len()
            invariant
                i <= self.transitions.len(),
                self@.well_formed(),
                each == |e: TransitionEntryView| e.cases(self@.initial_state),
                out.deep_view() == before + self@.transitions.take(i as int).map_values(
                    each,
                ).flatten(),
            decreases self.transitions.len() - i,
        {
            let entry = &self.transitions[i];
            assert(entry@ == self@.transitions[i as int]);
            entry.push_cases(self.initial_state.as_str(), out);
            proof {
                let entries = self@.transitions;
                let done = entries.take(i as int).map_values(each);
                assert(entries.take(i as int + 1).map_values(each) =~= done.push(
                    each(entries[i as int]),
                ));
                done.lemma_flatten_push(each(entries[i as int]));
                assert(out.deep_view() =~= before + done.push(each(entries[i as int])).flatten());
            }
            i += 1;
        }
        assert(self@.transitions.take(i as int) =~= self@.transitions);
    }

    /// The cases of the state: every entry becomes one case, but an entry
    /// with a `match` guard becomes one case for each arm. The order is that
    /// of the entries, and within a `match` that of its arms.
    pub fn as_match_cases(&self) -> (r: Vec<MatchCase>)
        requires
            self@.well_formed(),
        ensures
            r.deep_view() == self@.as_match_cases(),
    {
        let mut out: Vec<MatchCase> = Vec::new();
        assert(out.deep_view() =~= Seq::<MatchCaseView>::empty());
        self.push_match_cases(&mut out);
        assert(out.deep_view() =~= self@.as_match_cases());
        out
    }
}

} // verus!
