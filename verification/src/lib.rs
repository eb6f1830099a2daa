//! Middle and back end of a compiler for a small rule-definition language
//! that describes cellular-automaton transition logic.
//!
//! A syntax tree is turned into a type-checked, arena-indexed program (a
//! [`ast::UserFunction`]), which the code generator lowers into branch-level
//! code that signals integer overflow, division by zero and other runtime
//! failures through the function's return value.
pub mod ast;
pub mod compiler;
pub mod errors;
pub mod host;
pub mod lexer;
pub mod parser;
pub mod types;
