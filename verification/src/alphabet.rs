//! The alphabets of a machine: its states, its inputs and its constant
//! outputs, each in the order of the names and without repetition.

use vstd::prelude::*;
use crate::match_case::{MatchCase, MatchCaseView};
use crate::parser::input::{InputVariant, InputVariantView};
use crate::text::{copy_text, lemma_text_lt_asymmetric, lemma_text_lt_irreflexive,
    lemma_text_lt_total, lemma_text_lt_transitive, same_text, text_before, text_lt};

verus! {

/// Each name comes before the next: the names are in order and none occurs
/// twice.
pub open spec fn strictly_sorted(names: Seq<Seq<char>>) -> bool {
    forall|i: int, j: int| 0 <= i < j < names.len() ==> text_lt(#[trigger] names[i], #[trigger] names[j])
}

/// The names of a list of inputs.
pub open spec fn input_names(inputs: Seq<InputVariantView>) -> Seq<Seq<char>> {
    inputs.map_values(|v: InputVariantView| v.name)
}

/// The state is the source or the target of one of the cases, or it is the
/// initial state.
pub open spec fn mentions_state(initial: Seq<char>, cases: Seq<MatchCaseView>, name: Seq<char>) -> bool {
    name == initial || exists|i: int|
        0 <= i < cases.len() && (#[trigger] cases[i].state == name || cases[i].next_state == name)
}

/// One of the cases puts out the constant of this name.
pub open spec fn mentions_output(cases: Seq<MatchCaseView>, name: Seq<char>) -> bool {
    exists|i: int| 0 <= i < cases.len() && (#[trigger] cases[i]).constant_output() == Some(name)
}

/// Case `index` is the first that names this input.
pub open spec fn is_first_occurrence(cases: Seq<MatchCaseView>, index: int, name: Seq<char>) -> bool {
    &&& 0 <= index < cases.len()
    &&& cases[index].input.name == name
    &&& forall|j: int| 0 <= j < index ==> (#[trigger] cases[j]).input.name != name
}

/// The input is that of the first case, among the first `n`, which uses its
/// name.
#[verifier::opaque]
pub open spec fn stems_from_first_use(
    cases: Seq<MatchCaseView>,
    n: int,
    input: InputVariantView,
) -> bool {
    exists|i: int| i < n && is_first_occurrence(cases, i, input.name) && input == cases[i].input
}

/// `inputs` is the input alphabet of the first `n` cases: one entry for each
/// name that one of them uses, with the field types of the first case that
/// uses it, in the order of the names.
pub open spec fn is_input_alphabet_of_prefix(
    cases: Seq<MatchCaseView>,
    n: int,
    inputs: Seq<InputVariantView>,
) -> bool {
    &&& strictly_sorted(input_names(inputs))
    &&& forall|k: int|
        0 <= k < inputs.len() ==> stems_from_first_use(cases, n, #[trigger] inputs[k])
    &&& forall|i: int|
        0 <= i < n && i < cases.len() ==> input_names(inputs).contains(
            (#[trigger] cases[i]).input.name,
        )
}

/// `inputs` is the input alphabet of the cases: one entry for each name that
/// a case uses, with the field types of the first case that uses it, in the
/// order of the names.
pub open spec fn is_input_alphabet(cases: Seq<MatchCaseView>, inputs: Seq<InputVariantView>) -> bool {
    is_input_alphabet_of_prefix(cases, cases.len() as int, inputs)
}

/// Two lists of names in strict order that hold the same names are the same
/// list.
pub proof fn lemma_sorted_names_unique(a: Seq<Seq<char>>, b: Seq<Seq<char>>)
    requires
        strictly_sorted(a),
        strictly_sorted(b),
        forall|t: Seq<char>| a.contains(t) <==> b.contains(t),
    ensures
        a == b,
    decreases a.len(),
{
    if a.len() == 0 {
        if b.len() > 0 {
            assert(b.contains(b[0]));
        }
        assert(a =~= b);
    } else if b.len() == 0 {
        assert(a.contains(a[0]));
    } else {
        // The least name of each list heads it.
        assert(a.contains(a[0]));
        assert(b.contains(b[0]));
        let ia = choose|i: int| 0 <= i < a.len() && a[i] == b[0];
        let ib = choose|i: int| 0 <= i < b.len() && b[i] == a[0];
        if ia > 0 {
            // a[0] < a[ia] == b[0] <= b[ib] == a[0]
            if ib > 0 {
                lemma_text_lt_transitive(a[0], b[0], b[ib]);
            }
            lemma_text_lt_irreflexive(a[0]);
        }
        assert(a[0] == b[0]);
        let ra = a.drop_first();
        let rb = b.drop_first();
        assert forall|t: Seq<char>| ra.contains(t) <==> rb.contains(t) by {
            if ra.contains(t) {
                let i = choose|i: int| 0 <= i < ra.len() && ra[i] == t;
                assert(a[i + 1] == t);
                assert(a.contains(t));
                let j = choose|j: int| 0 <= j < b.len() && b[j] == t;
                if j == 0 {
                    lemma_text_lt_irreflexive(t);
                }
                assert(rb[j - 1] == t);
            }
            if rb.contains(t) {
                let i = choose|i: int| 0 <= i < rb.len() && rb[i] == t;
                assert(b[i + 1] == t);
                assert(b.contains(t));
                let j = choose|j: int| 0 <= j < a.len() && a[j] == t;
                if j == 0 {
                    lemma_text_lt_irreflexive(t);
                }
                assert(ra[j - 1] == t);
            }
        }
        assert(strictly_sorted(ra)) by {
            assert forall|i: int, j: int| 0 <= i < j < ra.len() implies text_lt(ra[i], ra[j]) by {
                assert(ra[i] == a[i + 1] && ra[j] == a[j + 1]);
            }
        }
        assert(strictly_sorted(rb)) by {
            assert forall|i: int, j: int| 0 <= i < j < rb.len() implies text_lt(rb[i], rb[j]) by {
                assert(rb[i] == b[i + 1] && rb[j] == b[j + 1]);
            }
        }
        lemma_sorted_names_unique(ra, rb);
        assert(a =~= seq![a[0]] + ra);
        assert(b =~= seq![b[0]] + rb);
    }
}

/// The names of a set in order: the one list in strict order that holds
/// exactly the members.
pub open spec fn sorted_names(members: Set<Seq<char>>) -> Seq<Seq<char>> {
    choose|names: Seq<Seq<char>>| lists_in_order(names, members)
}

/// `names` lists exactly the members, in strict order.
pub open spec fn lists_in_order(names: Seq<Seq<char>>, members: Set<Seq<char>>) -> bool {
    &&& strictly_sorted(names)
    &&& forall|t: Seq<char>| names.contains(t) <==> members.contains(t)
}

/// A list in strict order of exactly the members is the list of the set.
pub proof fn lemma_sorted_names(names: Seq<Seq<char>>, members: Set<Seq<char>>)
    requires
        lists_in_order(names, members),
    ensures
        names == sorted_names(members),
{
    lemma_sorted_names_unique(names, sorted_names(members));
}

/// Where a name stands, or would stand, in a list of names in strict order.
pub open spec fn is_slot(names: Seq<Seq<char>>, name: Seq<char>, slot: int) -> bool {
    &&& 0 <= slot <= names.len()
    &&& forall|j: int| 0 <= j < slot ==> text_lt(#[trigger] names[j], name)
    &&& slot < names.len() ==> !text_lt(names[slot], name)
}

/// Inserting a name at its slot keeps the list in strict order.
proof fn lemma_insert_keeps_order(names: Seq<Seq<char>>, name: Seq<char>, slot: int)
    requires
        strictly_sorted(names),
        is_slot(names, name, slot),
        slot < names.len() ==> names[slot] != name,
    ensures
        strictly_sorted(names.insert(slot, name)),
        forall|t: Seq<char>| names.insert(slot, name).contains(t) <==> (names.contains(t) || t == name),
{
    let after = names.insert(slot, name);
    if slot < names.len() {
        lemma_text_lt_total(names[slot], name);
    }
    assert forall|i: int, j: int| 0 <= i < j < after.len() implies text_lt(after[i], after[j]) by {
        if j < slot {
            assert(after[i] == names[i] && after[j] == names[j]);
        } else if j == slot {
            assert(after[i] == names[i]);
        } else if i < slot {
            assert(after[i] == names[i] && after[j] == names[j - 1]);
            if j - 1 == i {
                assert(false);
            }
        } else if i == slot {
            assert(after[j] == names[j - 1]);
            if j - 1 > slot {
                lemma_text_lt_transitive(name, names[slot], names[j - 1]);
            }
        } else {
            assert(after[i] == names[i - 1] && after[j] == names[j - 1]);
        }
    }
    assert forall|t: Seq<char>| after.contains(t) <==> (names.contains(t) || t == name) by {
        if after.contains(t) {
            let i = choose|i: int| 0 <= i < after.len() && after[i] == t;
            if i < slot {
                assert(names[i] == t);
            } else if i > slot {
                assert(names[i - 1] == t);
            }
        }
        if names.contains(t) {
            let i = choose|i: int| 0 <= i < names.len() && names[i] == t;
            if i < slot {
                assert(after[i] == t);
            } else {
                assert(after[i + 1] == t);
            }
        }
        if t == name {
            assert(after[slot] == t);
        }
    }
}

/// In a list in strict order a name can stand only at its slot.
proof fn lemma_absent_off_slot(names: Seq<Seq<char>>, name: Seq<char>, slot: int)
    requires
        strictly_sorted(names),
        is_slot(names, name, slot),
        slot < names.len() ==> names[slot] != name,
    ensures
        !names.contains(name),
{
    if names.contains(name) {
        let i = choose|i: int| 0 <= i < names.len() && names[i] == name;
        if i < slot {
            lemma_text_lt_irreflexive(name);
        } else if i > slot {
            lemma_text_lt_asymmetric(names[slot], name);
        }
    }
}

/// The slot of `name` in `names`, and whether the name stands there.
fn find_slot(names: &Vec<String>, name: &str) -> (r: (usize, bool))
    requires
        strictly_sorted(names.deep_view()),
    ensures
        is_slot(names.deep_view(), name@, r.0 as int),
        r.1 == (r.0 < names.len() && names.deep_view()[r.0 as int] == name@),
        r.1 == names.deep_view().contains(name@),
{
    let ghost view = names.deep_view();
    let mut i: usize = 0;
    while i < names.len() && text_before(names[i].as_str(), name)
        invariant
            i <= names.len(),
            view == names.deep_view(),
            forall|j: int| 0 <= j < i ==> text_lt(#[trigger] view[j], name@),
        decreases names.len() - i,
    {
        i += 1;
    }
    let found = i < names.len() && same_text(names[i].as_str(), name);
    proof {
        if found {
            assert(view[i as int] == name@);
        } else {
            lemma_absent_off_slot(view, name@, i as int);
        }
    }
    (i, found)
}

/// Adds a name to a list of names in strict order, unless it is there.
pub(crate) fn insert_name(names: &mut Vec<String>, name: &str)
    requires
        strictly_sorted(old(names).deep_view()),
    ensures
        strictly_sorted(final(names).deep_view()),
        forall|t: Seq<char>|
            final(names).deep_view().contains(t) <==> (old(names).deep_view().contains(t) || t
                == name@),
{
    let ghost before = names.deep_view();
    let (slot, found) = find_slot(names, name);
    if !found {
        names.insert(slot, copy_text(name));
        proof {
            assert(names.deep_view() =~= before.insert(slot as int, name@));
            lemma_insert_keeps_order(before, name@, slot as int);
        }
    }
}

/// The states of a machine: every state that a case starts from or leads
/// to, and the initial state, in the order of their names.
pub fn state_alphabet(initial: &str, cases: &Vec<MatchCase>) -> (r: Vec<String>)
    ensures
        strictly_sorted(r.deep_view()),
        forall|t: Seq<char>|
            r.deep_view().contains(t) <==> mentions_state(initial@, cases.deep_view(), t),
        r.deep_view() == sorted_names(state_set(initial@, cases.deep_view())),
{
    let ghost table = cases.deep_view();
    let mut out: Vec<String> = Vec::new();
    insert_name(&mut out, initial);
    let mut i: usize = 0;
    while i < cases.len()
        invariant
            i <= cases.len(),
            table == cases.deep_view(),
            strictly_sorted(out.deep_view()),
            forall|t: Seq<char>|
                out.deep_view().contains(t) <==> mentions_state(initial@, table.take(i as int), t),
        decreases cases.len() - i,
    {
        let ghost before = out.deep_view();
        assert(cases[i as int]@ == table[i as int]);
        insert_name(&mut out, cases[i].state.as_str());
        insert_name(&mut out, cases[i].next_state.as_str());
        proof {
            let shorter = table.take(i as int);
            let longer = table.take(i as int + 1);
            assert forall|t: Seq<char>|
                out.deep_view().contains(t) <==> mentions_state(initial@, longer, t) by {
                if mentions_state(initial@, longer, t) && t != initial@ {
                    let k = choose|k: int|
                        0 <= k < longer.len() && (#[trigger] longer[k].state == t
                            || longer[k].next_state == t);
                    if k < i {
                        assert(shorter[k].state == t || shorter[k].next_state == t);
                    }
                }
                if mentions_state(initial@, shorter, t) && t != initial@ {
                    let k = choose|k: int|
                        0 <= k < shorter.len() && (#[trigger] shorter[k].state == t
                            || shorter[k].next_state == t);
                    assert(longer[k].state == t || longer[k].next_state == t);
                }
                if t == table[i as int].state || t == table[i as int].next_state {
                    assert(longer[i as int].state == t || longer[i as int].next_state == t);
                }
            }
        }
        i += 1;
    }
    assert(table.take(i as int) =~= table);
    proof {
        lemma_sorted_names(out.deep_view(), state_set(initial@, table));
    }
    out
}

/// The constant outputs of a machine: every constant that a case puts out,
/// in the order of their names. Outputs computed by a call are no members.
pub fn output_alphabet(cases: &Vec<MatchCase>) -> (r: Vec<String>)
    ensures
        strictly_sorted(r.deep_view()),
        forall|t: Seq<char>| r.deep_view().contains(t) <==> mentions_output(cases.deep_view(), t),
        r.deep_view() == sorted_names(output_set(cases.deep_view())),
{
    let ghost table = cases.deep_view();
    let mut out: Vec<String> = Vec::new();
    let mut i: usize = 0;
    while i < cases.len()
        invariant
            i <= cases.len(),
            table == cases.deep_view(),
            strictly_sorted(out.deep_view()),
            forall|t: Seq<char>|
                out.deep_view().contains(t) <==> mentions_output(table.take(i as int), t),
        decreases cases.len() - i,
    {
        let ghost before = out.deep_view();
        assert(cases[i as int]@ == table[i as int]);
        match cases[i].constant_output() {
            Some(name) => {
                insert_name(&mut out, name.as_str());
            },
            None => {},
        }
        proof {
            let shorter = table.take(i as int);
            let longer = table.take(i as int + 1);
            assert forall|t: Seq<char>|
                out.deep_view().contains(t) <==> mentions_output(longer, t) by {
                if mentions_output(longer, t) {
                    let k = choose|k: int|
                        0 <= k < longer.len() && (#[trigger] longer[k]).constant_output() == Some(t);
                    if k < i {
                        assert(shorter[k].constant_output() == Some(t));
                    }
                }
                if mentions_output(shorter, t) {
                    let k = choose|k: int|
                        0 <= k < shorter.len() && (#[trigger] shorter[k]).constant_output() == Some(
                            t,
                        );
                    assert(longer[k].constant_output() == Some(t));
                }
                if table[i as int].constant_output() == Some(t) {
                    assert(longer[i as int].constant_output() == Some(t));
                }
            }
        }
        i += 1;
    }
    assert(table.take(i as int) =~= table);
    proof {
        lemma_sorted_names(out.deep_view(), output_set(table));
    }
    out
}

/// The slot of `name` among the names of `inputs`, and whether an input of
/// that name stands there.
fn find_input_slot(inputs: &Vec<InputVariant>, name: &str) -> (r: (usize, bool))
    requires
        strictly_sorted(input_names(inputs.deep_view())),
    ensures
        is_slot(input_names(inputs.deep_view()), name@, r.0 as int),
        r.1 == (r.0 < inputs.len() && inputs.deep_view()[r.0 as int].name == name@),
        r.1 == input_names(inputs.deep_view()).contains(name@),
{
    let ghost names = input_names(inputs.deep_view());
    let mut i: usize = 0;
    while i < inputs.len() && text_before(inputs[i].name.as_str(), name)
        invariant
            i <= inputs.len(),
            names == input_names(inputs.deep_view()),
            forall|j: int| 0 <= j < i ==> text_lt(#[trigger] names[j], name@),
        decreases inputs.len() - i,
    {
        i += 1;
    }
    let found = i < inputs.len() && same_text(inputs[i].name.as_str(), name);
    proof {
        if found {
            assert(names[i as int] == name@);
        } else {
            lemma_absent_off_slot(names, name@, i as int);
        }
    }
    (i, found)
}

/// What stems from the first use among `n` cases does so among more.
proof fn lemma_first_use_stays(cases: Seq<MatchCaseView>, n: int, input: InputVariantView)
    requires
        stems_from_first_use(cases, n, input),
    ensures
        stems_from_first_use(cases, n + 1, input),
{
    reveal(stems_from_first_use);
    let i = choose|i: int|
        i < n && is_first_occurrence(cases, i, input.name) && input == cases[i].input;
    assert(i < n + 1);
}

/// A case whose input is in the alphabet already adds nothing to it.
proof fn lemma_alphabet_keeps(cases: Seq<MatchCaseView>, n: int, inputs: Seq<InputVariantView>)
    requires
        0 <= n < cases.len(),
        is_input_alphabet_of_prefix(cases, n, inputs),
        input_names(inputs).contains(cases[n].input.name),
    ensures
        is_input_alphabet_of_prefix(cases, n + 1, inputs),
{
    assert forall|k: int| 0 <= k < inputs.len() implies stems_from_first_use(
        cases,
        n + 1,
        #[trigger] inputs[k],
    ) by {
        lemma_first_use_stays(cases, n, inputs[k]);
    }
}

/// A case whose input is new to the alphabet adds it at its slot.
proof fn lemma_alphabet_grows(
    cases: Seq<MatchCaseView>,
    n: int,
    inputs: Seq<InputVariantView>,
    slot: int,
)
    requires
        0 <= n < cases.len(),
        is_input_alphabet_of_prefix(cases, n, inputs),
        is_slot(input_names(inputs), cases[n].input.name, slot),
        !input_names(inputs).contains(cases[n].input.name),
    ensures
        is_input_alphabet_of_prefix(cases, n + 1, inputs.insert(slot, cases[n].input)),
{
    let name = cases[n].input.name;
    let names = input_names(inputs);
    let after = inputs.insert(slot, cases[n].input);
    assert(input_names(after) =~= names.insert(slot, name));
    if slot < inputs.len() {
        assert(names.contains(names[slot]));
    }
    lemma_insert_keeps_order(names, name, slot);
    assert(stems_from_first_use(cases, n + 1, cases[n].input)) by {
        assert forall|j: int| 0 <= j < n implies (#[trigger] cases[j]).input.name != name by {
            assert(names.contains(cases[j].input.name));
        }
        assert(is_first_occurrence(cases, n, name));
        reveal(stems_from_first_use);
    }
    assert forall|k: int| 0 <= k < after.len() implies stems_from_first_use(
        cases,
        n + 1,
        #[trigger] after[k],
    ) by {
        if k != slot {
            let b = if k < slot { k } else { k - 1 };
            assert(after[k] == inputs[b]);
            lemma_first_use_stays(cases, n, inputs[b]);
        }
    }
}

/// The inputs of a machine: one entry for each name that a case uses, in
/// the order of the names. Where several cases use a name, the entry has the
/// field types of the first of them.
pub fn input_alphabet(cases: &Vec<MatchCase>) -> (r: Vec<InputVariant>)
    ensures
        is_input_alphabet(cases.deep_view(), r.deep_view()),
        r.deep_view() == input_alphabet_of(cases.deep_view()),
{
    let ghost table = cases.deep_view();
    let mut out: Vec<InputVariant> = Vec::new();
    let mut i: usize = 0;
    while i < cases.len()
        invariant
            i <= cases.len(),
            table == cases.deep_view(),
            is_input_alphabet_of_prefix(table, i as int, out.deep_view()),
        decreases cases.len() - i,
    {
        let ghost before = out.deep_view();
        let case = &cases[i];
        assert(case@ == table[i as int]);
        let (slot, found) = find_input_slot(&out, case.input.name.as_str());
        if found {
            proof {
                lemma_alphabet_keeps(table, i as int, before);
            }
        } else {
            out.insert(slot, case.input.duplicate());
            proof {
                assert(out.deep_view() =~= before.insert(slot as int, case@.input));
                lemma_alphabet_grows(table, i as int, before, slot as int);
            }
        }
        i += 1;
    }
    proof {
        lemma_input_alphabet(table, out.deep_view());
    }
    out
}

/// The states of a machine as a set.
pub open spec fn state_set(initial: Seq<char>, cases: Seq<MatchCaseView>) -> Set<Seq<char>> {
    Set::new(|t: Seq<char>| mentions_state(initial, cases, t))
}

/// The constant outputs of a machine as a set.
pub open spec fn output_set(cases: Seq<MatchCaseView>) -> Set<Seq<char>> {
    Set::new(|t: Seq<char>| mentions_output(cases, t))
}

/// The input alphabet of the cases.
pub open spec fn input_alphabet_of(cases: Seq<MatchCaseView>) -> Seq<InputVariantView> {
    choose|inputs: Seq<InputVariantView>| is_input_alphabet(cases, inputs)
}

/// The cases have one input alphabet only.
pub proof fn lemma_input_alphabet_unique(
    cases: Seq<MatchCaseView>,
    a: Seq<InputVariantView>,
    b: Seq<InputVariantView>,
)
    requires
        is_input_alphabet(cases, a),
        is_input_alphabet(cases, b),
    ensures
        a == b,
{
    let n = cases.len() as int;
    lemma_same_names(cases, a, b);
    lemma_same_names(cases, b, a);
    lemma_sorted_names_unique(input_names(a), input_names(b));
    assert(a.len() == input_names(a).len());
    assert(b.len() == input_names(b).len());
    assert forall|k: int| 0 <= k < a.len() implies a[k] == b[k] by {
        assert(a[k].name == input_names(a)[k]);
        assert(b[k].name == input_names(b)[k]);
        assert(stems_from_first_use(cases, n, a[k]));
        assert(stems_from_first_use(cases, n, b[k]));
        reveal(stems_from_first_use);
        let i = choose|i: int|
            i < n && is_first_occurrence(cases, i, a[k].name) && a[k] == cases[i].input;
        let j = choose|j: int|
            j < n && is_first_occurrence(cases, j, b[k].name) && b[k] == cases[j].input;
        if i < j {
            assert(cases[i].input.name == a[k].name);
        } else if j < i {
            assert(cases[j].input.name == b[k].name);
        }
    }
    assert(a =~= b);
}

/// A name of one input alphabet of the cases is a name of any other.
proof fn lemma_same_names(
    cases: Seq<MatchCaseView>,
    a: Seq<InputVariantView>,
    b: Seq<InputVariantView>,
)
    requires
        is_input_alphabet(cases, a),
        is_input_alphabet(cases, b),
    ensures
        forall|t: Seq<char>| input_names(a).contains(t) ==> input_names(b).contains(t),
{
    let n = cases.len() as int;
    assert forall|t: Seq<char>| input_names(a).contains(t) implies input_names(b).contains(t) by {
        let k = choose|k: int| 0 <= k < input_names(a).len() && input_names(a)[k] == t;
        assert(a[k].name == t);
        assert(stems_from_first_use(cases, n, a[k]));
        reveal(stems_from_first_use);
        let i = choose|i: int|
            i < n && is_first_occurrence(cases, i, a[k].name) && a[k] == cases[i].input;
        assert(input_names(b).contains(cases[i].input.name));
    }
}

/// What satisfies the conditions of the input alphabet is the input alphabet.
pub proof fn lemma_input_alphabet(cases: Seq<MatchCaseView>, inputs: Seq<InputVariantView>)
    requires
        is_input_alphabet(cases, inputs),
    ensures
        inputs == input_alphabet_of(cases),
{
    lemma_input_alphabet_unique(cases, inputs, input_alphabet_of(cases));
}

} // verus!
