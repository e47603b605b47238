//! An interpreter for a small imperative pseudocode language: assignment,
//! output, `if` and `loop while` over 64-bit integers.
//!
//! Source text goes through a [`lexer`], a [`parser`] and an [`interpreter`];
//! [`render`] prints a syntax tree instead of running it, [`execution`] runs
//! one in steps, and [`program`] does the whole way from text in one call.
//! What each of them computes is defined in mathematical terms by [`grammar`]
//! and [`semantics`] and by the models in the modules themselves, and proved
//! of the code. [`laws`] holds what follows from the definitions for every
//! program.

pub mod chars;
pub mod decimal;
pub mod lexer;
pub mod ast;
pub mod grammar;
pub mod parser;
pub mod semantics;
pub mod interpreter;
pub mod render;
pub mod execution;
pub mod program;
pub mod shape;
pub mod laws;
