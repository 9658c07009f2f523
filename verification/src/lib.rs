//! A small scripting language with two interchangeable keyword lexicons:
//! lexer, Pratt parser and tree-walking evaluator, with machine-checked contracts.

pub mod ast;
pub mod constants;
pub mod evaluator;
pub mod lexer;
pub mod parser;
pub mod session;
pub mod text;
pub mod token;
