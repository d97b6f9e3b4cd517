//! Two descriptions to show what machines look like: a circuit breaker, and
//! a calculator whose outputs are computed from the values of its inputs.

use vstd::prelude::*;
use crate::text::same_text;

verus! {

/// What the calculator puts out.
#[derive(Clone, Copy, Debug, PartialEq, Eq, Structural)]
pub enum CalcOutput {
    Result(i32),
    Clear,
}

/// The description of a circuit breaker in the simple and in the compact
/// form.
pub fn circuit_breaker() -> (r: &'static str)
    ensures
        r@ == circuit_breaker_text(),
{
    "/// A dummy implementation of the Circuit Breaker pattern.
pub circuit_breaker(Closed)

Closed(Unsuccessful) => Open [SetupTimer],
Open(TimerTriggered) => HalfOpen,
HalfOpen => {
    Successful => Closed,
    Unsuccessful => Open [SetupTimer]
}"
}

/// The text of the circuit breaker's description.
pub closed spec fn circuit_breaker_text() -> Seq<char> {
    "/// A dummy implementation of the Circuit Breaker pattern.
pub circuit_breaker(Closed)

Closed(Unsuccessful) => Open [SetupTimer],
Open(TimerTriggered) => HalfOpen,
HalfOpen => {
    Successful => Closed,
    Unsuccessful => Open [SetupTimer]
}"@
}

/// The description of a calculator: its inputs carry the operands, and its
/// outputs are computed from them.
pub fn calculator() -> (r: &'static str)
    ensures
        r@ == calculator_text(),
{
    "#[derive(Debug, PartialEq)]
#[state_machine(output(CalcOutput))]
/// A simple calculator that shows arithmetic and error handling.
pub calculator(Idle)

use super::CalcOutput;

Idle => {
    Add(i32, i32) => Idle [|a: &i32, b: &i32| CalcOutput::Result(a + b)],
    Multiply(i32, i32) => Idle [|x: &i32, y: &i32| CalcOutput::Result(x * y)],
    Divide(i32, i32) match (x, y) {
        (_, 0) => ErrDivByZero,
        (_, _) => Idle [|x: &i32, y: &i32| CalcOutput::Result(x / y)]
    }
},
ErrDivByZero(Reset) => Idle [Clear]"
}

/// The text of the calculator's description.
pub closed spec fn calculator_text() -> Seq<char> {
    "#[derive(Debug, PartialEq)]
#[state_machine(output(CalcOutput))]
/// A simple calculator that shows arithmetic and error handling.
pub calculator(Idle)

use super::CalcOutput;

Idle => {
    Add(i32, i32) => Idle [|a: &i32, b: &i32| CalcOutput::Result(a + b)],
    Multiply(i32, i32) => Idle [|x: &i32, y: &i32| CalcOutput::Result(x * y)],
    Divide(i32, i32) match (x, y) {
        (_, 0) => ErrDivByZero,
        (_, _) => Idle [|x: &i32, y: &i32| CalcOutput::Result(x / y)]
    }
},
ErrDivByZero(Reset) => Idle [Clear]"@
}

/// A number without its sign.
pub open spec fn magnitude(x: int) -> int {
    if x >= 0 {
        x
    } else {
        -x
    }
}

/// The quotient of two numbers, rounded towards zero.
pub open spec fn quotient(x: int, y: int) -> int
    recommends
        y != 0,
{
    if (x >= 0) == (y > 0) {
        magnitude(x) / magnitude(y)
    } else {
        -(magnitude(x) / magnitude(y))
    }
}

/// The number is one that an `i32` holds.
pub open spec fn fits(n: int) -> bool {
    i32::MIN <= n <= i32::MAX
}

/// What the calculator computes for an operation on two operands, where the
/// result is a number that an `i32` holds.
pub open spec fn calculated(operation: Seq<char>, a: int, b: int) -> Option<CalcOutput> {
    if operation == "Add"@ && fits(a + b) {
        Some(CalcOutput::Result((a + b) as i32))
    } else if operation == "Multiply"@ && fits(a * b) {
        Some(CalcOutput::Result((a * b) as i32))
    } else if operation == "Divide"@ && b != 0 && fits(quotient(a, b)) {
        Some(CalcOutput::Result(quotient(a, b) as i32))
    } else {
        None
    }
}

/// A number without its sign.
fn magnitude_of(x: i32) -> (m: u32)
    ensures
        m == magnitude(x as int),
{
    if x >= 0 {
        x as u32
    } else {
        (-(x as i64)) as u32
    }
}

/// The quotient of two numbers, rounded towards zero: `None` where the
/// divisor is zero or the quotient is no number that an `i32` holds.
pub fn divide(x: i32, y: i32) -> (r: Option<i32>)
    ensures
        r == if y != 0 && fits(quotient(x as int, y as int)) {
            Some(quotient(x as int, y as int) as i32)
        } else {
            None
        },
{
    if y == 0 {
        return None;
    }
    let m: u32 = magnitude_of(x) / magnitude_of(y);
    if (x >= 0) == (y > 0) {
        if m > 0x7fff_ffff {
            None
        } else {
            Some(m as i32)
        }
    } else {
        Some((-(m as i64)) as i32)
    }
}

/// Carries out the computed output of the calculator for an operation,
/// `Add`, `Multiply` or `Divide`, on two operands: `None` for any other
/// operation, and where the result is no number that an `i32` holds.
pub fn calculate(operation: &str, a: i32, b: i32) -> (r: Option<CalcOutput>)
    ensures
        r == calculated(operation@, a as int, b as int),
{
    proof {
        reveal_strlit("Add");
        reveal_strlit("Multiply");
        reveal_strlit("Divide");
    }
    assert("Add"@.len() == 3 && "Multiply"@.len() == 8 && "Divide"@.len() == 6);
    let result = if same_text(operation, "Add") {
        a.checked_add(b)
    } else if same_text(operation, "Multiply") {
        a.checked_mul(b)
    } else if same_text(operation, "Divide") {
        divide(a, b)
    } else {
        None
    };
    match result {
        Some(n) => Some(CalcOutput::Result(n)),
        None => None,
    }
}

} // verus!
