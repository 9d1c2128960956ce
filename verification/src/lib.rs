//! A POSIX-like shell core: tokens, syntax tree, parameter expansion,
//! variable scopes, and a tree-walking evaluator, with verified contracts.

pub mod ast;
pub mod interpreter;
pub mod laws;
pub mod lexer;
pub mod parser;
pub mod semantics;
pub mod string_utils;
pub mod variable_resolver;
