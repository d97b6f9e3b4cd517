//! Outputs that are computed by a call.

use fsm_dsl::machine::{state_machine, CompiledMachine, StateMachine, TransitionImpossibleError};
use fsm_dsl::parser::{GuardExpr, OutputSpec};

/// A text without its white space.
fn squeezed(text: &str) -> String {
    text.chars().filter(|c| !c.is_whitespace()).collect()
}

/// The source of a guard: the predicate of an `if`, the pattern of an arm.
fn source(guard: &GuardExpr) -> String {
    match guard {
        GuardExpr::Closure(expr) => squeezed(expr),
        GuardExpr::Matches { pattern, .. } => squeezed(pattern),
    }
}

/// A machine under test.
struct Run {
    machine: CompiledMachine,
    current: StateMachine,
}

impl Run {
    fn new(text: &str) -> Run {
        let machine = state_machine(text).unwrap();
        let current = StateMachine::new(&machine);
        Run { machine, current }
    }

    /// Takes an input; `holds` says of each guard, by its source, whether it
    /// holds of the input.
    fn consume(
        &mut self,
        input: &str,
        holds: &dyn Fn(&str) -> bool,
    ) -> Result<Option<OutputSpec>, TransitionImpossibleError> {
        let guards: Vec<bool> = self
            .machine
            .cases
            .iter()
            .map(|case| match &case.guard_expr {
                Some(guard) if case.input.name == input && !guard.always_holds() => {
                    holds(&source(guard))
                }
                _ => false,
            })
            .collect();
        self.current.consume(&self.machine, input, &guards)
    }

    fn state(&self) -> &str {
        self.current.state()
    }
}

fn constant(name: &str) -> Result<Option<OutputSpec>, TransitionImpossibleError> {
    Ok(Some(OutputSpec::Constant(name.to_string())))
}

fn no_guard(source: &str) -> bool {
    panic!("unexpected guard {source}")
}

/// The values that an input carries, for the calls of the tests below.
#[derive(Clone, Debug)]
enum Value {
    Int(i32),
    Text(String),
}

fn number(value: &Value) -> i32 {
    match value {
        Value::Int(n) => *n,
        other => panic!("expected a number, found {other:?}"),
    }
}

fn words(value: &Value) -> String {
    match value {
        Value::Text(s) => s.clone(),
        other => panic!("expected a text, found {other:?}"),
    }
}

// Define a custom output type for the calculator
#[derive(Debug, PartialEq)]
pub enum CalcOutput {
    Result(i32),
    ErrDiv0,
}

const CALCULATOR: &str = r#"
    #[derive(Debug, PartialEq)]
    #[state_machine(output(CalcOutput))]
    calculator(Idle)

    use super::CalcOutput;

    Idle => {
        Add(i32, i32) => Idle [|a: &i32, b: &i32| CalcOutput::Result(a + b)],
        Multiply(i32, i32) => Idle [|x: &i32, y: &i32| CalcOutput::Result(x * y)],
        Reset => Idle
    }
"#;

/// Carries out the output of the calculator.
fn calculated(output: Option<OutputSpec>, args: &[Value]) -> Option<CalcOutput> {
    output.map(|spec| match spec {
        OutputSpec::Constant(name) if name == "ErrDiv0" => CalcOutput::ErrDiv0,
        OutputSpec::Call(expr) => match squeezed(&expr).as_str() {
            "|a:&i32,b:&i32|CalcOutput::Result(a+b)" | "|a:&i32,b:&i32|COutput::Result(a+b)" => {
                (|a: &i32, b: &i32| CalcOutput::Result(a + b))(&number(&args[0]), &number(&args[1]))
            }
            "|x:&i32,y:&i32|CalcOutput::Result(x*y)" | "|x:&i32,y:&i32|COutput::Result(x*y)" => {
                (|x: &i32, y: &i32| CalcOutput::Result(x * y))(&number(&args[0]), &number(&args[1]))
            }
            "|x:&i32,y:&i32|COutput::Result(x/y)" => {
                (|x: &i32, y: &i32| CalcOutput::Result(x / y))(&number(&args[0]), &number(&args[1]))
            }
            other => panic!("unexpected call {other}"),
        },
        other => panic!("unexpected output {other:?}"),
    })
}

#[test]
fn test_calculator_with_closures() {
    let mut machine = Run::new(CALCULATOR);

    // Test addition
    let result = machine.consume("Add", &no_guard).unwrap();
    assert_eq!(calculated(result, &[Value::Int(5), Value::Int(3)]), Some(CalcOutput::Result(8)));
    assert_eq!(machine.state(), "Idle");

    // Test multiplication
    let result = machine.consume("Multiply", &no_guard).unwrap();
    assert_eq!(calculated(result, &[Value::Int(4), Value::Int(7)]), Some(CalcOutput::Result(28)));
    assert_eq!(machine.state(), "Idle");

    // Test reset (no output)
    let result = machine.consume("Reset", &no_guard).unwrap();
    assert!(result.is_none());
}

#[derive(Debug, PartialEq)]
pub enum StringOutput {
    Length(usize),
    Combined(String),
}

const STRING_PROCESSOR: &str = r#"
    #[derive(Debug)]
    #[state_machine(output(StringOutput))]
    string_processor(Ready)

    use super::StringOutput;

    Ready => {
        Process(String) => Ready [|s: &String| StringOutput::Length(s.len())],
        Concat(String, String) => Ready [ |a: &str, b: &str| StringOutput::Combined(format!("{a}{b}"))],
        Clear => Ready
    }
"#;

/// Carries out the output of the string processor.
fn processed(output: Option<OutputSpec>, args: &[Value]) -> Option<StringOutput> {
    output.map(|spec| match spec {
        OutputSpec::Call(expr) => match squeezed(&expr).as_str() {
            "|s:&String|StringOutput::Length(s.len())" => {
                (|s: &String| StringOutput::Length(s.len()))(&words(&args[0]))
            }
            "|a:&str,b:&str|StringOutput::Combined(format!(\"{a}{b}\"))" => {
                (|a: &str, b: &str| StringOutput::Combined(format!("{a}{b}")))(&words(&args[0]), &words(&args[1]))
            }
            other => panic!("unexpected call {other}"),
        },
        other => panic!("unexpected output {other:?}"),
    })
}

fn string_processor_with_closures() {
    let mut machine = Run::new(STRING_PROCESSOR);

    // Test string length
    let result = machine.consume("Process", &no_guard).unwrap();
    assert_eq!(processed(result, &[Value::Text("hello".to_string())]), Some(StringOutput::Length(5)));

    // Test concatenation
    let result = machine.consume("Concat", &no_guard).unwrap();
    assert_eq!(
        processed(result, &[Value::Text("Hello".to_string()), Value::Text("World".to_string())]),
        Some(StringOutput::Combined("HelloWorld".to_string()))
    );
}

#[test]
fn output_with_call_test_string_processor_with_closures() {
    string_processor_with_closures();
}

#[test]
fn output_test_string_processor_with_closures() {
    string_processor_with_closures();
}

const CALCULATOR_WITH_DIVISION: &str = r#"
    #[derive(Clone, Debug, PartialEq)]
    #[state_machine(output(COutput))]
    #[allow(unused)]
    calculator(Idle)

    use super::COutput;

    Idle => {
        Add(i32, i32) => Idle [|a: &i32, b: &i32| COutput::Result(a + b)],
        Multiply(i32, i32) => Idle [|x: &i32, y: &i32| COutput::Result(x * y)],
        Divide(i32, i32) match (a,b) {
            (_, 0) => ErrS [ ErrDiv0 ],
            (__arg0, __arg1) => Idle [ |x: &i32, y: &i32| COutput::Result(x/y)]
        },
    },
    ErrS (Reset) => Idle,
"#;

fn calculate(input: &str, a: i32, b: i32) -> (Option<CalcOutput>, String) {
    let mut machine = Run::new(CALCULATOR_WITH_DIVISION);
    let result = machine
        .consume(input, &|guard| match guard {
            "(_,0)" => matches!((a, b), (_, 0)),
            // A pattern of names alone binds whatever it is matched against.
            "(__arg0,__arg1)" => matches!((a, b), (__arg0, __arg1)),
            other => no_guard(other),
        })
        .unwrap();
    (calculated(result, &[Value::Int(a), Value::Int(b)]), machine.state().to_string())
}

#[test]
fn calculator_adds() {
    assert_eq!(calculate("Add", 5, 3), (Some(CalcOutput::Result(8)), "Idle".to_string()));
}

#[test]
fn calculator_multiplies() {
    assert_eq!(calculate("Multiply", 4, 7), (Some(CalcOutput::Result(28)), "Idle".to_string()));
}

#[test]
fn calculator_divides() {
    assert_eq!(calculate("Divide", 10, 2), (Some(CalcOutput::Result(5)), "Idle".to_string()));
}

#[test]
fn calculator_divides_by_zero() {
    assert_eq!(calculate("Divide", 10, 0), (Some(CalcOutput::ErrDiv0), "ErrS".to_string()));
}

#[derive(Debug, PartialEq)]
pub enum ValidatorOutput {
    Valid,
    Invalid,
}

const VALIDATOR: &str = r#"
    #[derive(Debug)]
    #[state_machine(output(ValidatorOutput))]
    validator(Waiting)

    use super::ValidatorOutput;

    Waiting => {
        CheckRange(i32, i32, i32) => Waiting [|value: &i32, start: &i32, end: &i32| {
            if value >= start && value < end {
                ValidatorOutput::Valid
            } else {
                ValidatorOutput::Invalid
            }
        }],
        Reset => Waiting
    }
"#;

fn closure_captures_complex_logic(value: i32, range: std::ops::Range<i32>) -> ValidatorOutput {
    let mut machine = Run::new(VALIDATOR);
    let output = machine.consume("CheckRange", &no_guard).unwrap().unwrap();
    match output {
        OutputSpec::Call(expr) => {
            assert_eq!(
                squeezed(&expr),
                "|value:&i32,start:&i32,end:&i32|{ifvalue>=start&&value<end{ValidatorOutput::Valid}else{ValidatorOutput::Invalid}}"
            );
            (|value: &i32, start: &i32, end: &i32| {
                if value >= start && value < end {
                    ValidatorOutput::Valid
                } else {
                    ValidatorOutput::Invalid
                }
            })(&value, &range.start, &range.end)
        }
        other => panic!("unexpected output {other:?}"),
    }
}

#[test]
fn test_closure_captures_complex_logic() {
    assert_eq!(closure_captures_complex_logic(50, 0..100), ValidatorOutput::Valid);
    assert_eq!(closure_captures_complex_logic(150, 0..100), ValidatorOutput::Invalid);
    assert_eq!(closure_captures_complex_logic(-10, 0..100), ValidatorOutput::Invalid);
    assert_eq!(closure_captures_complex_logic(0, 0..100), ValidatorOutput::Valid);
    assert_eq!(closure_captures_complex_logic(99, 0..100), ValidatorOutput::Valid);
    assert_eq!(closure_captures_complex_logic(100, 0..100), ValidatorOutput::Invalid);
}
