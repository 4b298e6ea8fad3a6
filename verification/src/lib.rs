//! A small Lisp: a tokenizer, a reader, an environment of lexical scopes, an
//! evaluator with a handful of special forms, and a library of builtin procedures.
//!
//! A line of text is split into tokens ([`split_cmd_to_vec`]), the tokens are read
//! as a form ([`cvt_to_nested_expression`]), and the form is evaluated in an
//! environment ([`eval`]); [`Eval`] does the three in turn, and [`expr2str`] prints
//! the result. What evaluation means is laid down in [`semantics`], and what holds
//! of it in general in [`laws`], [`bound`] and [`brackets`].
//!
//! Integers are 64 bits wide and wrap around. Binary64 numbers are carried as bit
//! patterns; whatever has to be computed on them is asked of a [`FloatUnit`] that
//! the caller supplies. The contracts of this library say what the unit is asked
//! for and what is done with its answers; of the answers they assume only that a
//! unit gives the same answer to the same question. Nothing is printed: what the
//! interpreter has to say is appended to a list of [`Notice`]s. Evaluation stops
//! where procedure calls nest deeper than a bound that the caller sets.

pub mod text;
pub mod value;
pub mod notice;
pub mod unit;
pub mod env;
pub mod arith;
pub mod compare;
pub mod lists;
pub mod builtins;
pub mod semantics;
pub mod eval;
pub mod lexer;
pub mod number;
pub mod reader;
pub mod printer;
pub mod session;
pub mod laws;
pub mod bound;
pub mod brackets;

pub use crate::arith::{_max, _min, abs, add, div, max, min, minus, mul};
pub use crate::builtins::{apply, call};
pub use crate::compare::{eq, ge, gt, le, lt, neq};
pub use crate::env::Env;
pub use crate::eval::eval;
pub use crate::lexer::split_cmd_to_vec;
pub use crate::lists::{append, begin, car, cdr, cons, list_};
pub use crate::notice::Notice;
pub use crate::number::is_number;
pub use crate::printer::expr2str;
pub use crate::reader::cvt_to_nested_expression;
pub use crate::session::{init_env, Eval};
pub use crate::unit::FloatUnit;
pub use crate::value::{Atomic, Builtin, LispType, Proc};
