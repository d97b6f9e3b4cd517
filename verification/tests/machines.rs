//! Machines without guards, and machines that use types from outside.

use fsm_dsl::cursor::{ParseError, ParseErrorKind};
use fsm_dsl::machine::{
    state_machine, CompileError, CompiledMachine, StateMachine, TransitionImpossibleError,
};
use fsm_dsl::parser::{GuardExpr, OutputSpec};

/// A text without its white space.
fn squeezed(text: &str) -> String {
    text.chars().filter(|c| !c.is_whitespace()).collect()
}

/// The source of a guard: the predicate of an `if`, the pattern of an arm.
fn source(guard: &GuardExpr) -> String {
    match guard {
        GuardExpr::Closure(expr) => squeezed(expr),
        GuardExpr::Matches { pattern, .. } => squeezed(pattern),
    }
}

/// A machine under test.
struct Run {
    machine: CompiledMachine,
    current: StateMachine,
}

impl Run {
    fn new(text: &str) -> Run {
        let machine = state_machine(text).unwrap();
        let current = StateMachine::new(&machine);
        Run { machine, current }
    }

    /// Takes an input; `holds` says of each guard, by its source, whether it
    /// holds of the input.
    fn consume(
        &mut self,
        input: &str,
        holds: &dyn Fn(&str) -> bool,
    ) -> Result<Option<OutputSpec>, TransitionImpossibleError> {
        let guards: Vec<bool> = self
            .machine
            .cases
            .iter()
            .map(|case| match &case.guard_expr {
                Some(guard) if case.input.name == input && !guard.always_holds() => {
                    holds(&source(guard))
                }
                _ => false,
            })
            .collect();
        self.current.consume(&self.machine, input, &guards)
    }

    fn state(&self) -> &str {
        self.current.state()
    }
}

fn constant(name: &str) -> Result<Option<OutputSpec>, TransitionImpossibleError> {
    Ok(Some(OutputSpec::Constant(name.to_string())))
}

fn no_guard(source: &str) -> bool {
    panic!("unexpected guard {source}")
}

const DOOR: &str = r#"
    #[derive(Debug)]
    #[repr(C)]
    door(Open)

    Open(Key) => Closed [OutClosed],
    Closed(Key) => Open,
    Open(Break) => Broken [OutBroken],
    Closed(Break) => Broken,
"#;

#[test]
fn simple() {
    let mut machine = Run::new(DOOR);
    machine.consume("Key", &no_guard).unwrap();
    println!("{:?}", machine.state());
    assert_eq!(machine.state(), "Closed");
    machine.consume("Key", &no_guard).unwrap();
    println!("{:?}", machine.state());
    assert_eq!(machine.state(), "Open");
    machine.consume("Break", &no_guard).unwrap();
    println!("{:?}", machine.state());
    assert_eq!(machine.state(), "Broken");
}

const MY_SM: &str = r#"
    #[derive(Debug)]
    my_sm(Init)

    use super::{COUNT, Ordering};

    // Check simple transitions,
    Init(InputA) => A[OutA],
    A(InputB) => B,
    A(InputC) => C,
    // Check multi transition from B
    B => {
        InputA => A [OutA],
        InputC => C,
        // Check `if` guards with bindings to input.
        InputD(u32, String) if |a: &u32, b: &str| *a >= 42 && !b.is_empty() => D [OutD],
        // Check `if` guard without bindings
        InputB if || COUNT.load(Ordering::Relaxed) > 0 => D,
        // Check `match` guards
        InputE(u32, u32) match (x,y) {
          (0..10, _) => A [OutA],
          (10.., 0..1_000) => B [OutB],
          (10.., 1_000..1_000_000) => C ,
          _ => D,
        }
    }
"#;

const CHECK_GEN_OUTPUT: &str = r#"
    #[derive(Debug)]
    #[state_machine(output(crate::MyOut))]
    check_gen_output(A)

    use super::inc_o2;

    A (E1) => B [ O1 ],
    B (E1) => C,
    B (E2) => C [ || inc_o2() ],
    B (E3(u32, String)) => A [ |a: &u32, b: &str| Self::Output::O3(*a, b.to_string()) ]
"#;

#[test]
fn dsl_syntax() {
    let machine = state_machine(MY_SM).unwrap();
    assert_eq!(machine.name, "my_sm");
    assert_eq!(machine.cases.len(), 11);
    let states: Vec<String> = ["A", "B", "C", "D", "Init"].iter().map(|s| s.to_string()).collect();
    assert_eq!(machine.states, Some(states));
    let outputs: Vec<String> = ["OutA", "OutB", "OutD"].iter().map(|s| s.to_string()).collect();
    assert_eq!(machine.outputs, Some(outputs));

    // The simple form takes no guard: a guarded transition is written in
    // the compact form.
    let guarded = MY_SM.replace(
        "A(InputC) => C,",
        "A(InputC) => C, A(InputD (u32, String)) if |a: &u32, _: &str| *a > 100 => D,",
    );
    assert!(matches!(
        state_machine(&guarded),
        Err(CompileError::Parse(ParseError { kind: ParseErrorKind::ExpectedArrow, .. }))
    ));
    let compact = MY_SM.replace(
        "A(InputC) => C,",
        "A(InputC) => C, A => { InputD (u32, String) if |a: &u32, _: &str| *a > 100 => D },",
    );
    assert_eq!(state_machine(&compact).unwrap().cases.len(), 12);

    let machine = state_machine(CHECK_GEN_OUTPUT).unwrap();
    assert_eq!(machine.cases.len(), 4);
    assert_eq!(machine.outputs, None);
    assert_eq!(machine.cases[3].input.fields, vec!["u32".to_string(), "String".to_string()]);
}

const TURNSTILE: &str = r#"
    turnstile(Locked)

    Locked => {
        Coin(u32) => Unlocked,
        Push => Locked
    },
    Unlocked(Push) => Locked
"#;

const COMPLEX_MACHINE: &str = r#"
    #[allow(unused)]
    complex_machine(Start)

    Start => {
        Data(String, u32, bool) => Processing,
        Skip => End
    },
    Processing => {
        Complete => End,
        Retry(u32) => Processing
    },
    End(Reset) => Start
"#;

#[test]
fn tuple_variant_input() {
    let mut machine = Run::new(TURNSTILE);

    // Initial state should be Locked
    assert!(matches!(machine.state(), "Locked"));

    // Insert coin (tuple variant with u32 value)
    let res = machine.consume("Coin", &no_guard);
    assert!(res.is_ok());
    assert!(matches!(machine.state(), "Unlocked"));

    // Push through (unit variant)
    let res = machine.consume("Push", &no_guard);
    assert!(res.is_ok());
    assert!(matches!(machine.state(), "Locked"));

    // Try to push when locked
    let res = machine.consume("Push", &no_guard);
    assert!(res.is_ok());
    assert!(matches!(machine.state(), "Locked"));

    // Insert different coin amount
    let res = machine.consume("Coin", &no_guard);
    assert!(res.is_ok());
    assert!(matches!(machine.state(), "Unlocked"));
}

#[test]
fn tuple_variant_pattern_matching() {
    // The input alphabet holds the variant with its one field, so that a
    // value of it can carry the amount.
    let machine = state_machine(TURNSTILE).unwrap();
    let inputs = machine.inputs.unwrap();
    let coin_input = inputs.iter().find(|input| input.name == "Coin");

    match coin_input {
        Some(input) => {
            assert_eq!(input.fields, vec!["u32".to_string()]);
            let amount: u32 = 100;
            assert_eq!(amount, 100);
        }
        _ => panic!("Expected Coin variant"),
    }
}

#[test]
fn complex_tuple_variants() {
    let mut machine = Run::new(COMPLEX_MACHINE);

    // Test multi-field tuple variant
    let res = machine.consume("Data", &no_guard);
    assert!(res.is_ok());
    assert!(matches!(machine.state(), "Processing"));

    // Test single-field tuple variant
    let res = machine.consume("Retry", &no_guard);
    assert!(res.is_ok());
    assert!(matches!(machine.state(), "Processing"));

    // Test unit variant
    let res = machine.consume("Complete", &no_guard);
    assert!(res.is_ok());
    assert!(matches!(machine.state(), "End"));

    // Test reset
    let res = machine.consume("Reset", &no_guard);
    assert!(res.is_ok());
    assert!(matches!(machine.state(), "Start"));
}

const CIRCUIT_BREAKER: &str = r#"
    #[state_machine(input(crate::Input), state(crate::State), output(crate::Output))]
    circuit_breaker(Closed)

    Closed(Unsuccessful) => Open [SetupTimer],
    Open(TimerTriggered) => HalfOpen,
    HalfOpen => {
        Successful => Closed,
        Unsuccessful => Open [SetupTimer]
    }
"#;

#[test]
fn circuit_breaker_dsl_custom_types() {
    let mut machine = Run::new(CIRCUIT_BREAKER);
    assert_eq!(machine.machine.states, None);
    assert_eq!(machine.machine.inputs, None);
    assert_eq!(machine.machine.outputs, None);

    // Unsuccessful request
    let res = machine.consume("Unsuccessful", &no_guard).unwrap();
    assert!(matches!(res, Some(OutputSpec::Constant(name)) if name == "SetupTimer"));
    assert!(matches!(machine.state(), "Open"));

    // Try to pass a request when the circuit breaker is still open
    let res = machine.consume("Successful", &no_guard);
    assert!(matches!(res, Err(TransitionImpossibleError)));
    assert!(matches!(machine.state(), "Open"));

    // The timer goes off
    let res = machine.consume("TimerTriggered", &no_guard).unwrap();
    assert!(res.is_none());
    assert!(matches!(machine.state(), "HalfOpen"));

    // Test if the circuit breaker was actually closed
    let res = machine.consume("Successful", &no_guard).unwrap();
    assert!(res.is_none());
    assert!(matches!(machine.state(), "Closed"));
}

#[test]
fn constant_helper_builds_the_expected_result() {
    assert_eq!(constant("X"), Ok(Some(OutputSpec::Constant("X".to_string()))));
    assert_eq!(source(&GuardExpr::Closure("| a | a > 1".to_string())), "|a|a>1");
}
