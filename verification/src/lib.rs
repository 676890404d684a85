//! Core of a small Lisp-family language: a lexer producing spanned tokens,
//! a recursive-descent parser building a span-annotated syntax tree, a
//! tree-walking evaluator with lexical scoping and closures, and a
//! stack-based bytecode virtual machine.

pub mod ast;
pub mod bytecode;
pub mod error;
pub mod eval;
pub mod float;
pub mod lex;
pub mod parse;
pub mod scope;
pub mod span;
pub mod text;
pub mod token;
pub mod unicode;
pub mod value;
pub mod vm;
