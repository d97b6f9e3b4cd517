//! A compiler for a small language that describes finite-state machines.
//!
//! A description names the machine and its initial state and lists, state by
//! state, which input leads where, under which guard, and with which output.
//! The library turns such a description into an ordered table of transition
//! cases, derives the alphabets of states, inputs and outputs, answers
//! `transition` and `output` queries by the first case that matches, and
//! renders the machine as a state diagram.

pub mod alphabet;
pub mod code_gen;
pub mod cursor;
pub mod diagram;
pub mod dispatch;
pub mod doc_example;
pub mod label;
pub mod lexer;
pub mod machine;
pub mod match_case;
pub mod parser;
pub mod syntax;
pub mod text;
pub mod token;
