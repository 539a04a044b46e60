//! A small stack-based language interpreter in the Forth tradition.
//!
//! The interpreter reads whitespace-delimited tokens and executes them
//! against an operand stack of signed 32-bit integers.  It supports builtin
//! arithmetic, comparison and stack-shuffling operators, user-defined words
//! (named token sequences that expand inline), named constants, and simple
//! string literals for output.
//!
//! Every evaluation step is specified against a mathematical model: the
//! state of a session is mirrored by [`forth::ForthVw`], and the whole
//! token-dispatch loop by the specification function
//! [`interpreter::eval_tokens_spec`].

pub mod forth;
pub mod interpreter;
pub mod laws;
pub mod operators;
pub mod operators_binary;
pub mod tokens;
