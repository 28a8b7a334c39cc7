//! An interpreter for a small Logo: a lexer, a parser and an evaluator that
//! drives a turtle.
//!
//! A statement is a procedure followed by its operands. How many operands
//! a procedure takes is not written down anywhere in the text: when a
//! procedure runs, it takes what it needs from the rest of the line.
//!
//! The interpreter decides and does not compute: numbers are kept as they
//! were written or as bit patterns, and a host does the arithmetic, the
//! printing and the reading of files that a program asks for. See
//! [`evaluator::Evaluator`] for the interpreter and [`host::Request`] for
//! what it asks.
//!
//! What the interpreter does is laid down in [`machine`], and the
//! evaluator is proved to do exactly that. Three modules hold what follows
//! from it for every program: [`arity`], how a procedure takes its
//! operands; [`balance`], that the stacks are empty when a line is done;
//! [`sound`], that every decimal literal held can be read as a number.
pub mod arity;
pub mod balance;
pub mod builtin;
pub mod evaluator;
pub mod host;
pub mod lexer;
pub mod machine;
pub mod number;
pub mod parser;
pub mod show;
pub mod sound;
pub mod table;
pub mod text;
pub mod turtle;
