//! Front end of a small expression language: a lexer, backtracking parser
//! combinators over a token buffer, and a tree-walking evaluator.
pub mod utils;
pub mod ast;
pub mod input;
pub mod lexer;
pub mod parser;
pub mod types;
