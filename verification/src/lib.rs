//! Front end and evaluator for a small dynamically typed scripting language:
//! a scanner that turns source bytes into spanned tokens, a recursive-descent
//! parser that turns tokens into statement trees, and a tree-walking
//! evaluator with a flat mutable variable environment.
pub mod ast;
pub mod ast_printer;
pub mod environment;
pub mod error;
pub mod interpreter;
pub mod laws;
pub mod numbers;
pub mod parser;
pub mod scanner;
pub mod tokens;
