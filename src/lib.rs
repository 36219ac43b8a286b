//! An interpreter for a small imperative language: assignments, conditionals
//! and while loops over one integer type.
//!
//! - Integers are `i64`; `+`, `-` and `*` wrap on overflow.
//! - A program is a run of statements followed by the name of its return
//!   variable; its result is that variable's value once the statements have run.
//! - Reading a variable that was never assigned is the one run-time error.
//!
//! [`lexer`] and [`parser`] turn source text into a [`program::Program`];
//! [`program::Program::execute`] runs it. [`semantics`] gives both their
//! meaning, and [`laws`] proves properties of that meaning.
pub mod laws;
pub mod lexer;
pub mod parser;
pub mod program;
pub mod semantics;
pub mod state;
