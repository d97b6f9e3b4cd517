use fsm_dsl::dispatch::{output, select_case, transition};
use fsm_dsl::machine::{state_machine, CompiledMachine};
use fsm_dsl::parser::{GuardExpr, OutputSpec};

fn compiled(text: &str) -> CompiledMachine {
    state_machine(text).unwrap()
}

fn names(list: &[&str]) -> Vec<String> {
    list.iter().map(|s| s.to_string()).collect()
}

#[test]
fn scenario_unguarded_cycle() {
    let machine = compiled(
        "door(Open)
         Open(Key) => Closed,
         Closed(Key) => Open,
         Open(Break) => Broken",
    );
    assert_eq!(machine.states, Some(names(&["Broken", "Closed", "Open"])));
    let guards = vec![];
    assert_eq!(transition(&machine.cases, "Open", "Key", &guards), Some("Closed".to_string()));
    assert_eq!(transition(&machine.cases, "Closed", "Key", &guards), Some("Open".to_string()));
    assert_eq!(transition(&machine.cases, "Open", "Break", &guards), Some("Broken".to_string()));
    assert_eq!(transition(&machine.cases, "Broken", "Key", &guards), None);
    assert_eq!(output(&machine.cases, "Broken", "Key", &guards), None);
}

/// The guards of the retry machine for a given number of attempts, one for
/// each case.
fn retry_guards(attempts: u32) -> Vec<bool> {
    vec![matches!(attempts, 0..3), matches!(attempts, 3..)]
}

#[test]
fn scenario_match_guard_with_numeric_ranges() {
    let machine = compiled(
        "retry(Failed)
         Failed => {
             Retry(u32) match attempts {
                 0..3 => Processing,
                 3.. => Failed [MaxRetriesExceeded]
             }
         }",
    );
    assert_eq!(machine.cases.len(), 2);
    assert_eq!(
        machine.cases[0].guard_expr,
        Some(GuardExpr::Matches {
            bindings: names(&["attempts"]),
            field_types: names(&["u32"]),
            pattern: "0 .. 3".to_string(),
        })
    );
    assert_eq!(transition(&machine.cases, "Failed", "Retry", &retry_guards(2)), Some("Processing".to_string()));
    assert_eq!(output(&machine.cases, "Failed", "Retry", &retry_guards(2)), None);
    assert_eq!(transition(&machine.cases, "Failed", "Retry", &retry_guards(3)), Some("Failed".to_string()));
    assert_eq!(
        output(&machine.cases, "Failed", "Retry", &retry_guards(3)),
        Some(OutputSpec::Constant("MaxRetriesExceeded".to_string()))
    );
    assert_eq!(machine.outputs, Some(names(&["MaxRetriesExceeded"])));
}

#[test]
fn scenario_call_expression_output() {
    let machine = compiled(
        "calculator(Idle)
         Idle => {
             Divide(i32, i32) match (x, y) {
                 (_, 0) => ErrState [ConstOutput],
                 (_, _) => Idle [|x: &i32, y: &i32| x / y]
             }
         }",
    );
    let divide = |x: i32, y: i32| -> (Option<String>, Option<i32>, bool) {
        // Only the first arm needs an answer: the second is a catch-all.
        let guards = vec![matches!((x, y), (_, 0)), false];
        let next = transition(&machine.cases, "Idle", "Divide", &guards);
        let out = output(&machine.cases, "Idle", "Divide", &guards);
        match out {
            Some(OutputSpec::Constant(name)) => {
                assert_eq!(name, "ConstOutput");
                (next, None, true)
            }
            Some(OutputSpec::Call(expr)) => {
                assert_eq!(expr, "| x : & i32 , y : & i32 | x / y");
                (next, Some((|x: &i32, y: &i32| x / y)(&x, &y)), false)
            }
            None => (next, None, false),
        }
    };
    assert_eq!(divide(10, 0), (Some("ErrState".to_string()), None, true));
    assert_eq!(divide(10, 2), (Some("Idle".to_string()), Some(5), false));
    // Call outputs are no members of the output alphabet.
    assert_eq!(machine.outputs, Some(names(&["ConstOutput"])));
}

#[test]
fn scenario_guard_ordering_pitfall() {
    let machine = compiled(
        "orders(Idle)
         Idle => {
             Amount(u32) if |a: &u32| *a > 10 => Large,
             Amount(u32) if |a: &u32| *a > 100 => Huge
         }",
    );
    let guards_for = |a: u32| vec![a > 10, a > 100];
    // Both guards hold of 500; the first declared wins although the second
    // is the more specific.
    assert_eq!(select_case(&machine.cases, "Idle", "Amount", &guards_for(500)), Some(0));
    assert_eq!(transition(&machine.cases, "Idle", "Amount", &guards_for(500)), Some("Large".to_string()));
    assert_eq!(transition(&machine.cases, "Idle", "Amount", &guards_for(50)), Some("Large".to_string()));
    assert_eq!(transition(&machine.cases, "Idle", "Amount", &guards_for(5)), None);
}
