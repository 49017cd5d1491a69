use vstd::prelude::*;

use crate::diagn::{diagnostic, Message, Report, Span};

verus! {

/// What evaluating an expression produced.
#[derive(Clone, Copy, Debug)]
pub enum Value {
    /// Not computable yet; already diagnosed where that matters.
    Unknown,
    /// A constraint failed during evaluation; already diagnosed.
    FailedConstraint,
    /// The expression produced nothing.
    Void,
    Integer(i128),
    Bool(bool),
}

/// Whether the value is an integer or one of the already-diagnosed sentinels.
pub open spec fn is_error_or_integer(v: Value) -> bool {
    match v {
        Value::Unknown | Value::FailedConstraint | Value::Integer(_) => true,
        _ => false,
    }
}

/// The integer a value stands for during resolution: its own integer, or zero
/// for a sentinel so that resolution can go on without cascading errors.
pub open spec fn integer_or_zero(v: Value) -> i128 {
    match v {
        Value::Integer(x) => x,
        _ => 0,
    }
}

impl Value {
    /// Keeps an integer or a sentinel; reports any other kind at `span` and fails.
    pub fn expect_error_or_bigint(self, report: &mut Report, span: Span) -> (r: Result<Value, ()>)
        ensures
            is_error_or_integer(self) ==> r == Ok::<Value, ()>(self) && final(report)@ == old(report)@,
            !is_error_or_integer(self) ==> r is Err && final(report)@ == old(report)@.push(
                diagnostic(Message::ExpectedInteger, Some(span)),
            ),
    {
        match self {
            Value::Unknown | Value::FailedConstraint | Value::Integer(_) => Ok(self),
            _ => {
                report.error_span(Message::ExpectedInteger, span);
                Err(())
            },
        }
    }

    /// The integer this value stands for; zero for a sentinel.
    pub fn integer_or_zero(&self) -> (r: i128)
        requires
            is_error_or_integer(*self),
        ensures
            r == integer_or_zero(*self),
    {
        match self {
            Value::Integer(x) => *x,
            _ => 0,
        }
    }
}

} // verus!
