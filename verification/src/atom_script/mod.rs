//! The formula language: source text to tokens, tokens to an expression
//! tree, the tree to bytecode, and bytecode to a number.
pub mod ast;
pub mod chunk;
pub mod compiler;
pub mod evaluation;
pub mod lexer;
pub mod parser;
pub mod precedence;
pub mod semantics;
pub mod vm;
