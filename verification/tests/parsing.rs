//! Reading descriptions: what is accepted, and what is reported.

use fsm_dsl::cursor::{ParseError, ParseErrorKind};
use fsm_dsl::lexer::tokenize;
use fsm_dsl::machine::{compile, state_machine, CompileError};
use fsm_dsl::parser::{
    BindingGuard, Guard, InputVariant, MatchArm, OutputSpec, SMDefAttr, StateMachineDef, TransitionDef,
    TransitionEntry,
};
use fsm_dsl::token::{render_range, Location};

fn end() -> Location {
    Location { line: 0, column: 0 }
}

fn parsed(text: &str) -> Result<StateMachineDef, ParseError> {
    StateMachineDef::parse(&tokenize(text).unwrap(), end())
}

fn failure(text: &str) -> (ParseErrorKind, usize, usize) {
    let e = parsed(text).unwrap_err();
    (e.kind, e.at.line, e.at.column)
}

#[test]
fn a_whole_description_is_read() {
    let def = parsed(
        r#"/// A door.
           #[derive(Debug)]
           #[state_machine(output(MyOutput), before_transition(|s, i| log(s, i)))]
           pub(crate) door(Open)

           use super::MyOutput;
           use std::fmt::{self, Debug};

           Open(Key) => Closed [Locked],
           Closed => {
               Key => Open,
               Knock(u32) if |n: &u32| *n > 2 => Open [|n: &u32| n + 1],
               Kick(u32, bool) match (force, _hard) {
                   (0..5, _) => Closed,
                   _ => Broken [Smashed],
               },
           },
        "#,
    )
    .unwrap();
    assert_eq!(def.doc, vec!["# [doc = \" A door.\"]".to_string()]);
    assert_eq!(def.attributes, vec!["# [derive (Debug)]".to_string()]);
    assert_eq!(def.visibility, "pub (crate)");
    assert_eq!(def.name, "door");
    assert_eq!(def.initial_state, "Open");
    assert_eq!(
        def.use_statements,
        vec!["use super :: MyOutput ;".to_string(), "use std :: fmt :: {self , Debug} ;".to_string()]
    );
    assert_eq!(
        def.def_attrs,
        SMDefAttr {
            input_type: None,
            state_type: None,
            output_type: Some("MyOutput".to_string()),
            before_transition: Some("| s , i | log (s , i)".to_string()),
            after_transition: None,
        }
    );
    assert_eq!(
        def.transitions,
        vec![
            TransitionDef {
                initial_state: "Open".to_string(),
                transitions: vec![TransitionEntry {
                    input: InputVariant::unit("Key"),
                    guard: None,
                    final_state: Some("Closed".to_string()),
                    output: Some(OutputSpec::Constant("Locked".to_string())),
                }],
            },
            TransitionDef {
                initial_state: "Closed".to_string(),
                transitions: vec![
                    TransitionEntry {
                        input: InputVariant::unit("Key"),
                        guard: None,
                        final_state: Some("Open".to_string()),
                        output: None,
                    },
                    TransitionEntry {
                        input: InputVariant::new("Knock".to_string(), vec!["u32".to_string()]),
                        guard: Some(Guard::Closure("| n : & u32 | * n > 2".to_string())),
                        final_state: Some("Open".to_string()),
                        output: Some(OutputSpec::Call("| n : & u32 | n + 1".to_string())),
                    },
                    TransitionEntry {
                        input: InputVariant::new(
                            "Kick".to_string(),
                            vec!["u32".to_string(), "bool".to_string()],
                        ),
                        guard: Some(Guard::Binding(BindingGuard {
                            bindings: vec!["force".to_string(), "_hard".to_string()],
                            arms: vec![
                                MatchArm::new("(0 .. 5 , _)".to_string(), "Closed".to_string(), None),
                                MatchArm::new(
                                    "_".to_string(),
                                    "Broken".to_string(),
                                    Some(OutputSpec::Constant("Smashed".to_string())),
                                ),
                            ],
                        })),
                        final_state: None,
                        output: None,
                    },
                ],
            },
        ]
    );
}

#[test]
fn a_wildcard_is_no_name_to_bind() {
    // `_` is reserved: a guard cannot bind it.
    assert_eq!(
        failure("m(A) A => { X(u32) match _ { _ => A } }").0,
        ParseErrorKind::ExpectedName
    );
}

#[test]
fn field_types_may_hold_commas() {
    let def = parsed("m(A) A(Put(HashMap<String, u32>, (u8, u8), &'static str)) => A").unwrap();
    assert_eq!(
        def.transitions[0].transitions[0].input.fields,
        vec!["HashMap < String , u32 >".to_string(), "(u8 , u8)".to_string(), "& 'static str".to_string()]
    );
}

#[test]
fn text_that_is_no_token_sequence_is_a_lex_error() {
    assert!(tokenize("m(A").is_err());
    let e = state_machine("m(A) A(X) => \"unfinished").unwrap_err();
    assert!(matches!(e, CompileError::Parse(ParseError { kind: ParseErrorKind::Lex, .. })));
}

#[test]
fn errors_carry_their_place() {
    assert_eq!(failure("m(A) A(X) B"), (ParseErrorKind::ExpectedArrow, 1, 10));
    assert_eq!(failure("m(A)\nA(X) => B\nC(Y) => D"), (ParseErrorKind::ExpectedComma, 3, 0));
    assert_eq!(failure("m(A) A(X) =>"), (ParseErrorKind::ExpectedName, 0, 0));
    assert_eq!(failure("m(A)\n  A => { }"), (ParseErrorKind::EmptyTransitionSet, 2, 2));
    assert_eq!(failure("m(A)"), (ParseErrorKind::NoTransitions, 1, 0));
    assert_eq!(failure("(A) A(X) => B"), (ParseErrorKind::ExpectedName, 1, 0));
    assert_eq!(failure("m A(X) => B"), (ParseErrorKind::ExpectedParentheses, 1, 2));
    assert_eq!(failure("m(A, B) A(X) => B"), (ParseErrorKind::UnexpectedToken, 1, 3));
    assert_eq!(failure("m(A) A => B"), (ParseErrorKind::ExpectedBraces, 1, 10));
    assert_eq!(failure("m(A) A(if) => B"), (ParseErrorKind::ExpectedName, 1, 7));
    assert_eq!(failure("m(A) A(X Y) => B"), (ParseErrorKind::UnexpectedToken, 1, 9));
    assert_eq!(failure("m(A) A(X(u32,,)) => B"), (ParseErrorKind::InvalidType, 1, 8));
    assert_eq!(failure("m(A) A(X) => B [C D]"), (ParseErrorKind::UnexpectedToken, 1, 18));
    assert_eq!(failure("m(A) A(X) => B [|x| ]"), (ParseErrorKind::InvalidExpression, 1, 16));
    assert_eq!(failure("m(A) A => { X if => B }"), (ParseErrorKind::InvalidExpression, 1, 17));
    assert_eq!(failure("m(A) A => { X if |x| x }"), (ParseErrorKind::ExpectedArrow, 1, 10));
    assert_eq!(failure("m(A) A => { X match a => B }"), (ParseErrorKind::ExpectedBraces, 1, 22));
    assert_eq!(failure("m(A) A => { X match a { 1 + => B } }"), (ParseErrorKind::InvalidExpression, 1, 24));
    assert_eq!(failure("m(A) A => { X match (a b) { _ => B } }"), (ParseErrorKind::ExpectedComma, 1, 23));
    assert_eq!(failure("m(A) use a::b A(X) => B"), (ParseErrorKind::ExpectedSemicolon, 1, 5));
    assert_eq!(failure("m(A) use a::; A(X) => B"), (ParseErrorKind::InvalidUse, 1, 5));
    assert_eq!(failure("#[state_machine(input(a b))] m(A) A(X) => B"), (ParseErrorKind::InvalidPath, 1, 21));
    assert_eq!(failure("#[state_machine(colour(red))] m(A) A(X) => B"), (ParseErrorKind::UnexpectedToken, 1, 23));
    assert_eq!(failure("#[state_machine] m(A) A(X) => B"), (ParseErrorKind::InvalidAttribute, 1, 0));
    assert_eq!(failure("# m(A) A(X) => B"), (ParseErrorKind::InvalidAttribute, 1, 0));
    assert_eq!(failure("pub(in 3) m(A) A(X) => B"), (ParseErrorKind::InvalidVisibility, 1, 3));
    assert_eq!(failure("#[1 + 2] m(A) A(X) => B"), (ParseErrorKind::InvalidAttribute, 1, 0));
    assert_eq!(failure("#[state_machine(input)] m(A) A(X) => B"), (ParseErrorKind::ExpectedParentheses, 1, 15));
    assert_eq!(failure("#[state_machine(3(x))] m(A) A(X) => B"), (ParseErrorKind::ExpectedName, 1, 16));
    assert_eq!(
        failure("#[state_machine(before_transition(let))] m(A) A(X) => B"),
        (ParseErrorKind::InvalidExpression, 1, 33)
    );
    assert_eq!(
        failure("#[state_machine(state(S) input(I))] m(A) A(X) => B"),
        (ParseErrorKind::ExpectedComma, 1, 25)
    );
}

#[test]
fn visibilities() {
    assert_eq!(parsed("m(A) A(X) => B").unwrap().visibility, "");
    assert_eq!(parsed("pub m(A) A(X) => B").unwrap().visibility, "pub");
    assert_eq!(parsed("pub(super) m(A) A(X) => B").unwrap().visibility, "pub (super)");
    assert_eq!(parsed("pub(in crate::machines) m(A) A(X) => B").unwrap().visibility, "pub (in crate :: machines)");
    // Parentheses that hold no restriction belong to what follows.
    assert_eq!(failure("pub(Closed) A(X) => B").0, ParseErrorKind::ExpectedName);
}

#[test]
fn an_unknown_option_without_content_is_passed_over() {
    let def = parsed("#[state_machine(colour(), state(S),)] m(A) A(X) => B").unwrap();
    assert_eq!(def.def_attrs.state_type, Some("S".to_string()));
    assert_eq!(def.def_attrs.input_type, None);
}

#[test]
fn a_later_option_replaces_an_earlier_one() {
    let def = parsed("#[state_machine(state(S))] #[state_machine(state(T), after_transition(done))] m(A) A(X) => B").unwrap();
    assert_eq!(def.def_attrs.state_type, Some("T".to_string()));
    assert_eq!(def.def_attrs.after_transition, Some("done".to_string()));
}

#[test]
fn rendering_joins_tokens_by_blanks_but_for_joint_punctuation() {
    let tokens = tokenize("a=>b::c(&'x d,1..=2)").unwrap();
    assert_eq!(render_range(&tokens, 0, tokens.len()), "a => b :: c (&'x d , 1 ..= 2)");
    assert_eq!(render_range(&tokens, 1, 3), "=>");
    assert_eq!(render_range(&tokens, 2, 2), "");
}

#[test]
fn flaws_of_a_description_are_compile_errors() {
    assert_eq!(
        state_machine("m(A) A => { X(u32) match (a, b) { _ => A } }").unwrap_err(),
        CompileError::BindingArityMismatch
    );
    assert_eq!(
        state_machine("m(A) A => { X(u32) match a { } }").unwrap_err(),
        CompileError::EmptyTransitionSet
    );
    assert_eq!(
        state_machine("m(A) A(X(u32)) => B, B(X) => A").unwrap_err(),
        CompileError::AmbiguousArity
    );
    assert_eq!(
        state_machine("m(A) A => {}").unwrap_err(),
        CompileError::Parse(ParseError {
            kind: ParseErrorKind::EmptyTransitionSet,
            at: Location { line: 1, column: 5 },
        })
    );
    // A description built by hand may lack a target, or transitions.
    let mut def = parsed("m(A) A(X) => B").unwrap();
    def.transitions[0].transitions[0].final_state = None;
    assert_eq!(compile(&def).unwrap_err(), CompileError::MissingTarget);
    def.transitions.clear();
    assert_eq!(compile(&def).unwrap_err(), CompileError::NoTransitions);
}

#[test]
fn the_same_text_compiles_to_the_same_machine() {
    let text = "m(A) A => { X(u32) if |x: &u32| *x > 1 => B [Out], X(u32) => A }, B(Y) => A";
    assert_eq!(state_machine(text).unwrap(), state_machine(text).unwrap());
}
