//! Front end of a small imperative language: a tokenizer and a
//! precedence-climbing parser that turn source text into an abstract
//! syntax tree, together with an in-memory model of the code-generation
//! interface that finished trees are handed to.

pub mod ast;
pub mod error;
pub mod lexer;
pub mod parser;
pub mod printer;
pub mod token;
pub mod vm;
