//! The error taxonomy of the evaluator. Every failure is reported as a value
//! of [`RuntimeError`]; evaluation never panics.

use vstd::prelude::*;

use crate::value::Value;

verus! {

/// A runtime failure of the evaluator, returned (never thrown) through
/// [`EvalResult`].
#[derive(Debug)]
#[allow(inconsistent_fields)]
pub enum RuntimeError {
    /// Variable lookup exhausted the whole environment chain.
    Undefined { identifier: String },
    /// The callee of an application evaluated to a non-function value.
    NotApplicative,
    /// A procedure was applied to the wrong number of arguments.
    NumArgs { expected: usize, found: usize },
    /// A native procedure rejected the shape of the argument at `argn`.
    TypeMismatch { argn: usize },
    /// No clause of a `match` expression matched the subject value.
    UnmatchedPattern { found: Value },
}

/// A failure of the front end that builds expression trees; the evaluation
/// core itself never produces one.
#[derive(Debug)]
pub enum ParseError {
    LexError,
    EOI,
}

/// What one evaluation step returns: a value, or a runtime error.
pub type EvalResult = Result<Value, RuntimeError>;

} // verus!
