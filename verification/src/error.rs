//! The closed taxonomy of runtime errors.
//!
//! Each case is tied to exactly one primitive operation's precondition and
//! carries the offending value(s).  Every case is recoverable: an enclosing
//! try/catch or optional marker catches it; an uncaught one ends the current
//! document's evaluation and is surfaced to the driver.

use vstd::prelude::*;

use crate::number::Number;
use crate::value::{Value, ValueV};

verus! {

/// Mathematical model of a runtime error.
#[verifier::ext_equal]
pub enum ErrV {
    ObjectIndexByNonString(ValueV),
    ArrayIndexByNonInt(ValueV),
    SliceByNonInt(ValueV),
    IterateOnNonIterable(ValueV),
    IndexOnNonIndexable(ValueV),
    SliceOnNonArrayNorString(ValueV),
    NonIntegralNumber(int),
    UnaryOnNonNumeric(Seq<char>, ValueV),
    IncompatibleBinaryOperator(Seq<char>, ValueV, ValueV),
    StringRepeatByNonUSize(int),
    DivModByZero,
    ObjectNonStringKey(ValueV),
    UndefinedVariable(Seq<char>),
    UndefinedFunction(Seq<char>, nat),
}

/// A runtime evaluation error, carrying the offending value(s).
#[derive(Debug, PartialEq, Eq)]
pub enum QueryExecutionError {
    /// An object was indexed by a non-string value.
    ObjectIndexByNonString(Value),
    /// An array was indexed by a non-integer value.
    ArrayIndexByNonInt(Value),
    /// A slice bound was not an integer.
    SliceByNonInt(Value),
    /// Iteration over a non-iterable (scalar) value.
    IterateOnNonIterable(Value),
    /// Indexing into a non-indexable value other than null.
    IndexOnNonIndexable(Value),
    /// Slicing a value that is neither an array nor a string.
    SliceOnNonArrayNorString(Value),
    /// An integer was expected but the number has a fractional part.
    NonIntegralNumber(Number),
    /// A unary operator was applied to a non-numeric value.
    UnaryOnNonNumeric(&'static str, Value),
    /// A binary operator was applied to an unsupported pair of values.
    IncompatibleBinaryOperator(&'static str, Value, Value),
    /// A string repetition count was not a usable non-negative integer.
    StringRepeatByNonUSize(Number),
    /// Division or modulo by zero.
    DivModByZero,
    /// An object was constructed with a non-string key.
    ObjectNonStringKey(Value),
    /// A variable reference had no binding in scope.
    UndefinedVariable(Vec<char>),
    /// A function call had no definition of that name and arity in scope.
    UndefinedFunction(Vec<char>, usize),
}

impl View for QueryExecutionError {
    type V = ErrV;

    open spec fn view(&self) -> ErrV {
        match self {
            QueryExecutionError::ObjectIndexByNonString(v) => ErrV::ObjectIndexByNonString(v@),
            QueryExecutionError::ArrayIndexByNonInt(v) => ErrV::ArrayIndexByNonInt(v@),
            QueryExecutionError::SliceByNonInt(v) => ErrV::SliceByNonInt(v@),
            QueryExecutionError::IterateOnNonIterable(v) => ErrV::IterateOnNonIterable(v@),
            QueryExecutionError::IndexOnNonIndexable(v) => ErrV::IndexOnNonIndexable(v@),
            QueryExecutionError::SliceOnNonArrayNorString(v) => ErrV::SliceOnNonArrayNorString(
                v@,
            ),
            QueryExecutionError::NonIntegralNumber(n) => ErrV::NonIntegralNumber(n@),
            QueryExecutionError::UnaryOnNonNumeric(op, v) => ErrV::UnaryOnNonNumeric(op@, v@),
            QueryExecutionError::IncompatibleBinaryOperator(op, l, r) => {
                ErrV::IncompatibleBinaryOperator(op@, l@, r@)
            },
            QueryExecutionError::StringRepeatByNonUSize(n) => ErrV::StringRepeatByNonUSize(n@),
            QueryExecutionError::DivModByZero => ErrV::DivModByZero,
            QueryExecutionError::ObjectNonStringKey(v) => ErrV::ObjectNonStringKey(v@),
            QueryExecutionError::UndefinedVariable(n) => ErrV::UndefinedVariable(n@),
            QueryExecutionError::UndefinedFunction(n, a) => ErrV::UndefinedFunction(
                n@,
                *a as nat,
            ),
        }
    }
}

} // verus!
