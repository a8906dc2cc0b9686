//! The syntax tree and its evaluation.
pub mod context;
pub mod def;
pub mod evaluator;
pub mod expr;
pub mod op;
pub mod stmt;
pub mod text;
pub mod ty;
