//! A small JavaScript lexer and parser.
//!
//! `token` holds the token vocabulary, `lexer` turns source text into tokens,
//! `expr` holds the syntax tree, `grammar` states what the parser computes
//! and `parser` builds the tree from tokens. `scope` and `flow` hold the
//! variable frames and the control flags of a running program.

pub mod text;
pub mod token;
pub mod lexer;
pub mod expr;
pub mod grammar;
pub mod parser;
pub mod scope;
pub mod flow;
pub mod utility;
