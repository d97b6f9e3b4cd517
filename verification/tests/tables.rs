//! Transition cases, alphabets, dispatch and the arms that cases stand for.

use fsm_dsl::alphabet::{input_alphabet, output_alphabet, state_alphabet};
use fsm_dsl::code_gen::input_param_names;
use fsm_dsl::dispatch::{output, select_case, transition};
use fsm_dsl::machine::{has_arity_conflict, state_machine, StateMachine, TransitionImpossibleError};
use fsm_dsl::match_case::MatchCase;
use fsm_dsl::parser::match_arm::wildcard_pattern;
use fsm_dsl::parser::{
    BindingGuard, Guard, GuardExpr, InputVariant, MatchArm, OutputSpec, TransitionDef, TransitionEntry,
};
use fsm_dsl::syntax::is_reference_type;
use fsm_dsl::text::{same_text, text_before};

fn names(list: &[&str]) -> Vec<String> {
    list.iter().map(|s| s.to_string()).collect()
}

fn case(state: &str, input: &str, next: &str) -> MatchCase {
    MatchCase::new(state, &InputVariant::unit(input), next)
}

#[test]
fn texts_are_ordered_by_their_characters() {
    assert!(text_before("", "a"));
    assert!(text_before("Closed", "Open"));
    assert!(text_before("Open", "Opened"));
    assert!(text_before("Z", "a"));
    assert!(!text_before("a", "a"));
    assert!(!text_before("b", "a"));
    assert!(!text_before("Opened", "Open"));
    assert!(text_before("z", "\u{e9}"));
    assert!(same_text("caf\u{e9}", "caf\u{e9}"));
    assert!(!same_text("a", "ab"));
}

#[test]
fn names_are_kept_in_order_and_once() {
    let cases = vec![
        case("Open", "Key", "Closed"),
        case("Open", "Break", "Broken"),
        case("Closed", "Key", "Open"),
        case("Closed", "Break", "Zed"),
    ];
    assert_eq!(state_alphabet("Open", &cases), names(&["Broken", "Closed", "Open", "Zed"]));
}

#[test]
fn match_guards_become_one_case_for_each_arm() {
    let coin = InputVariant::new("Coin".to_string(), names(&["u32"]));
    let def = TransitionDef {
        initial_state: "Locked".to_string(),
        transitions: vec![
            TransitionEntry {
                input: coin.clone(),
                guard: Some(Guard::Binding(BindingGuard {
                    bindings: names(&["amount"]),
                    arms: vec![
                        MatchArm::new(
                            "0..50".to_string(),
                            "Locked".to_string(),
                            Some(OutputSpec::Constant("Refund".to_string())),
                        ),
                        MatchArm::new("50..".to_string(), "Unlocked".to_string(), None),
                    ],
                })),
                final_state: None,
                output: None,
            },
            TransitionEntry {
                input: InputVariant::unit("Push"),
                guard: Some(Guard::Closure("|| busy()".to_string())),
                final_state: Some("Locked".to_string()),
                output: Some(OutputSpec::Call("|| beep()".to_string())),
            },
            TransitionEntry {
                input: InputVariant::unit("Push"),
                guard: None,
                final_state: Some("Locked".to_string()),
                output: None,
            },
        ],
    };
    assert!(def.is_well_formed());
    let guard = |pattern: &str| GuardExpr::Matches {
        bindings: names(&["amount"]),
        field_types: names(&["u32"]),
        pattern: pattern.to_string(),
    };
    let refund = OutputSpec::Constant("Refund".to_string());
    let beep = OutputSpec::Call("|| beep()".to_string());
    assert_eq!(
        def.as_match_cases(),
        vec![
            MatchCase::new("Locked", &coin, "Locked").with_guard(guard("0..50")).with_output(Some(&refund)),
            MatchCase::new("Locked", &coin, "Unlocked").with_guard(guard("50..")),
            case("Locked", "Push", "Locked")
                .with_output(Some(&beep))
                .with_guard(GuardExpr::Closure("|| busy()".to_string())),
            case("Locked", "Push", "Locked"),
        ]
    );
    assert_eq!(def.as_match_cases()[0].constant_output(), Some(&"Refund".to_string()));
    assert_eq!(def.as_match_cases()[2].constant_output(), None);
    assert_eq!(def.as_match_cases()[3].constant_output(), None);
}

#[test]
fn an_entry_that_cannot_become_cases_is_told_apart() {
    let mut entry = TransitionEntry {
        input: InputVariant::unit("Push"),
        guard: None,
        final_state: None,
        output: None,
    };
    assert!(!entry.is_well_formed());
    entry.final_state = Some("A".to_string());
    assert!(entry.is_well_formed());
    entry.guard = Some(Guard::Binding(BindingGuard { bindings: names(&["x"]), arms: vec![] }));
    assert!(!entry.is_well_formed());
}

#[test]
fn alphabets_are_sorted_and_deduplicated() {
    let refund = OutputSpec::Constant("Refund".to_string());
    let alarm = OutputSpec::Constant("Alarm".to_string());
    let call = OutputSpec::Call("|| now()".to_string());
    let cases = vec![
        MatchCase::new("Locked", &InputVariant::new("Coin".to_string(), names(&["u32"])), "Unlocked"),
        case("Unlocked", "Push", "Locked").with_output(Some(&refund)),
        MatchCase::new("Locked", &InputVariant::new("Coin".to_string(), names(&["u64", "bool"])), "Locked")
            .with_output(Some(&call)),
        case("Locked", "Alarm", "Broken").with_output(Some(&alarm)),
        case("Unlocked", "Push", "Locked").with_output(Some(&refund)),
    ];
    assert_eq!(state_alphabet("Start", &cases), names(&["Broken", "Locked", "Start", "Unlocked"]));
    assert_eq!(state_alphabet("Locked", &cases), names(&["Broken", "Locked", "Unlocked"]));
    assert_eq!(state_alphabet("Only", &vec![]), names(&["Only"]));
    // Constants only, and the field types of the first use of a name.
    assert_eq!(output_alphabet(&cases), names(&["Alarm", "Refund"]));
    assert_eq!(
        input_alphabet(&cases),
        vec![
            InputVariant::unit("Alarm"),
            InputVariant::new("Coin".to_string(), names(&["u32"])),
            InputVariant::unit("Push"),
        ]
    );
    assert!(has_arity_conflict(&cases));
    assert!(!has_arity_conflict(&cases[0..2].to_vec()));
}

#[test]
fn wildcard_patterns() {
    for pattern in ["_", "(_, _)", "(_ , _)", "((_, _), _)", "(_,)"] {
        assert!(wildcard_pattern(pattern), "{pattern}");
    }
    for pattern in ["", "()", "__", "_a", "(_, 0)", "x", "(_, _) | 3", "_ _x"] {
        assert!(!wildcard_pattern(pattern), "{pattern}");
    }
}

#[test]
fn the_first_case_that_applies_decides() {
    let g = |text: &str| GuardExpr::Closure(text.to_string());
    let out = OutputSpec::Constant("Second".to_string());
    let cases = vec![
        case("A", "X", "B").with_guard(g("g0")),
        case("A", "X", "C").with_guard(g("g1")).with_output(Some(&out)),
        case("A", "Y", "D"),
        case("A", "X", "E"),
        case("B", "X", "F"),
    ];
    assert_eq!(select_case(&cases, "A", "X", &vec![true, true]), Some(0));
    assert_eq!(select_case(&cases, "A", "X", &vec![false, true]), Some(1));
    assert_eq!(output(&cases, "A", "X", &vec![false, true]), Some(out));
    assert_eq!(output(&cases, "A", "X", &vec![true, true]), None);
    assert_eq!(select_case(&cases, "A", "X", &vec![false, false]), Some(3));
    // Guards that the caller leaves out count as not holding.
    assert_eq!(select_case(&cases, "A", "X", &vec![]), Some(3));
    assert_eq!(select_case(&cases, "A", "Y", &vec![]), Some(2));
    assert_eq!(select_case(&cases, "B", "X", &vec![]), Some(4));
    assert_eq!(select_case(&cases, "B", "Y", &vec![true; 5]), None);
    assert_eq!(select_case(&cases, "C", "X", &vec![true; 5]), None);
    assert_eq!(transition(&cases, "A", "X", &vec![false, false]), Some("E".to_string()));
    assert_eq!(transition(&vec![], "A", "X", &vec![]), None);
}

#[test]
fn a_catch_all_makes_its_state_and_input_total() {
    let machine = state_machine(
        "m(A)
         A => {
             X(u32, u32) match (a, b) {
                 (0, _) => B,
                 (_, 0) => C,
                 (_, _) => D
             },
             Y(u32) match a {
                 0 => B
             }
         }",
    )
    .unwrap();
    for guards in [vec![], vec![false; 4], vec![true; 4], vec![false, true, false, false]] {
        assert!(transition(&machine.cases, "A", "X", &guards).is_some());
    }
    assert_eq!(transition(&machine.cases, "A", "X", &vec![false, false, false]), Some("D".to_string()));
    assert_eq!(transition(&machine.cases, "A", "X", &vec![false, true, false]), Some("C".to_string()));
    // Without catch-all there are inputs that no arm covers.
    assert_eq!(transition(&machine.cases, "A", "Y", &vec![false; 4]), None);
}

#[test]
fn the_machine_stays_where_no_case_applies() {
    let machine = state_machine("m(A) A(X) => B [Out], B(Y) => A").unwrap();
    let mut run = StateMachine::new(&machine);
    assert_eq!(run.state(), "A");
    assert_eq!(run.consume(&machine, "Y", &vec![]), Err(TransitionImpossibleError));
    assert_eq!(run.state(), "A");
    assert_eq!(run.consume(&machine, "X", &vec![]), Ok(Some(OutputSpec::Constant("Out".to_string()))));
    assert_eq!(run.state(), "B");
    assert_eq!(run.consume(&machine, "Y", &vec![]), Ok(None));
    assert_eq!(run.state(), "A");
    assert_eq!(StateMachine::from_state("B").state(), "B");
}

#[test]
fn field_names_are_numbered() {
    let input = InputVariant::new("Big".to_string(), vec!["u8".to_string(); 12]);
    assert_eq!(
        input_param_names(&input),
        names(&[
            "__arg0", "__arg1", "__arg2", "__arg3", "__arg4", "__arg5", "__arg6", "__arg7", "__arg8",
            "__arg9", "__arg10", "__arg11"
        ])
    );
    assert_eq!(input_param_names(&InputVariant::unit("Push")), Vec::<String>::new());
    assert_eq!(input.arity(), 12);
}

#[test]
fn cases_become_match_arms() {
    let machine = state_machine(
        "turnstile(Locked)
         Locked => {
             Coin(u32, bool) if |amount: &u32, _| *amount >= 50 => Unlocked,
             Coin(u32, bool) match (amount, fake) {
                 (_, true) => Locked [Alarm],
                 _ => Locked [|amount: &u32, _| refund(amount)]
             },
             Push if || jammed() => Locked [|| beep()],
             Push => Locked [AccessDenied]
         },
         Unlocked => {
             Push => Locked,
             Coin(u32, bool) => Unlocked
         }",
    )
    .unwrap();
    let arms: Vec<String> = machine.cases.iter().map(|c| c.code_gen_transition_case()).collect();
    assert_eq!(
        arms,
        vec![
            "(Self::State::Locked, Self::Input::Coin(ref __arg0, ref __arg1)) if (| amount : & u32 , _ | * amount >= 50)(__arg0, __arg1) => Some(Self::State::Unlocked),",
            "(Self::State::Locked, Self::Input::Coin(ref __arg0, ref __arg1)) if (|amount: &u32, fake: &bool| matches!((amount, fake), (_ , true)))(__arg0, __arg1) => Some(Self::State::Locked),",
            "(Self::State::Locked, Self::Input::Coin(ref __arg0, ref __arg1)) if (|amount: &u32, fake: &bool| matches!((amount, fake), _))(__arg0, __arg1) => Some(Self::State::Locked),",
            "(Self::State::Locked, Self::Input::Push) if (|| jammed ())() => Some(Self::State::Locked),",
            "(Self::State::Locked, Self::Input::Push) => Some(Self::State::Locked),",
            "(Self::State::Unlocked, Self::Input::Push) => Some(Self::State::Locked),",
            "(Self::State::Unlocked, Self::Input::Coin(..)) => Some(Self::State::Unlocked),",
        ]
    );
    let outputs: Vec<Option<String>> = machine.cases.iter().map(|c| c.code_gen_output_case()).collect();
    assert_eq!(
        outputs,
        vec![
            None,
            Some("(Self::State::Locked, Self::Input::Coin(ref __arg0, ref __arg1)) if (|amount: &u32, fake: &bool| matches!((amount, fake), (_ , true)))(__arg0, __arg1) => Some(Self::Output::Alarm),".to_string()),
            Some("(Self::State::Locked, Self::Input::Coin(ref __arg0, ref __arg1)) if (|amount: &u32, fake: &bool| matches!((amount, fake), _))(__arg0, __arg1) => Some((| amount : & u32 , _ | refund (amount))(__arg0, __arg1)),".to_string()),
            Some("(Self::State::Locked, Self::Input::Push) if (|| jammed ())() => Some((|| beep ())()),".to_string()),
            Some("(Self::State::Locked, Self::Input::Push) => Some(Self::Output::AccessDenied),".to_string()),
            None,
            None,
        ]
    );
    let variants: Vec<String> = machine.inputs.unwrap().iter().map(|i| i.code_gen()).collect();
    assert_eq!(variants, names(&["Coin(u32, bool)", "Push"]));
}

#[test]
fn reference_types_are_recognised() {
    assert!(is_reference_type("&str"));
    assert!(is_reference_type("& 'static [u8]"));
    assert!(is_reference_type("&mut Vec<u8>"));
    assert!(!is_reference_type("u32"));
    assert!(!is_reference_type("Option<&str>"));
    assert!(!is_reference_type("& &"));
}

#[test]
fn hooks_become_functions() {
    let machine = state_machine(
        "#[state_machine(before_transition(|s, i| log(s, i)))]
         m(A) A(X) => B",
    )
    .unwrap();
    assert_eq!(
        machine.def_attrs.before_transition_to_tokens(),
        "fn before_transition(state: &Self::State, input: &Self::Input) { (| s , i | log (s , i))(state, input) }"
    );
    assert_eq!(machine.def_attrs.after_transition_to_tokens(), "");
    let machine = state_machine(
        "#[state_machine(after_transition(done))]
         m(A) A(X) => B",
    )
    .unwrap();
    assert_eq!(machine.def_attrs.before_transition_to_tokens(), "");
    assert_eq!(
        machine.def_attrs.after_transition_to_tokens(),
        "fn after_transition(pre_state: &Self::State, input: &Self::Input, state: &Self::State, output: Option<&Self::Output>) { (done)(pre_state, input, state, output) }"
    );
}
