//! The front end of a compiler for a small, statically typed systems
//! language: a lexer, a recursive-descent parser and a semantic analyzer,
//! each with a contract over a mathematical model of its data.
//!
//! Source text becomes tokens (`lexer`), tokens become statements
//! (`parser`, `expression`, `statement`, `definitions`), and statements are
//! checked for names and types (`syntax`). `advance` shows that every
//! grammar rule consumes input, `written` and `written_statements` that what
//! a rule gives, written out again, is what it read, and `shapes` that the
//! analyzer can take what the parser gives; `show` and `position` serve
//! diagnostics.

pub mod advance;
pub mod definitions;
pub mod expression;
pub mod lexer;
pub mod parser;
pub mod position;
pub mod shapes;
pub mod show;
pub mod statement;
pub mod syntax;
pub mod text;
pub mod written;
pub mod written_statements;
