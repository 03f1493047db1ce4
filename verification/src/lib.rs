//! Front end of a small programming-language toolchain: a byte-oriented
//! tokenizer and a statement-level parser for variable bindings and
//! return statements.
pub mod ast;
pub mod lexer;
pub mod parser;
pub mod token;
