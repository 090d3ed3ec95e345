//! A tree-walking interpreter for the Hezen language: a lexer, a
//! recursive-descent parser, a static resolver and an evaluator, each proved
//! against a mathematical statement of what it computes.
//!
//! The library does no floating-point arithmetic and no input or output of
//! its own. Numbers are held as the bit patterns of double-precision values;
//! their arithmetic, their reading and writing as text, the clock and the
//! output stream belong to a [`host::Host`] that the embedder provides. What
//! the evaluator does is stated for every host: its outcome is a function of
//! the program and of the answers that the host gives.

pub mod text;
pub mod table;
pub mod error;
pub mod report;
pub mod number;
pub mod host;
pub mod token;
pub mod ast;
pub mod lexer;
pub mod grammar;
pub mod parser;
pub mod printer;
pub mod environment;
pub mod function;
pub mod class;
pub mod instance;
pub mod heap;
pub mod resolver;
pub mod semantics;
pub mod interpreter;
pub mod callable;
pub mod runner;
pub mod laws;
pub mod syntax;
pub mod discipline;
pub mod determinism;
pub mod chains;
pub mod loops;

pub use runner::{get_verbosity, run, shell, ShellStep, Verbosity};
