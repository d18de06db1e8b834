//! Front end and expression evaluator for a line-oriented dialogue scripting
//! language: a lexer with a compound-operator merge pass, a precedence-climbing
//! expression parser over a read-only token cursor, and an evaluator for the
//! resulting tree.
pub mod error;
pub mod token;
pub mod lexer;
pub mod value;
pub mod variables;
pub mod ast;
pub mod parser;
pub mod eval;
pub mod laws;
