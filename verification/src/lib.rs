//! Core of a small dynamically-typed expression language: an abstract syntax
//! tree, a Pratt parser from a token stream to that tree, a tree-walking
//! evaluator against lexically nested environments, and a pretty-printer.
pub mod ast;
pub mod environment;
pub mod evaluator;
pub mod object;
pub mod parser;
pub mod printer;
mod support;
pub mod token;
