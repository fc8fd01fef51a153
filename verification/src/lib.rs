//! Front end of a compiler for a small statically typed language that targets
//! a WebAssembly-like stack machine: lexer, parser, syntax tree and type
//! checker, each with verified contracts.

pub mod annotation;
pub mod ast;
pub mod compile;
pub mod diag;
pub mod grammar;
pub mod input;
pub mod laws;
pub mod lexer;
pub mod names;
pub mod parser;
pub mod rules;
pub mod script;
pub mod slots;
pub mod syntax;
pub mod typecheck;
