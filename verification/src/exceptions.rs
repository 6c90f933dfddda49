//! Errors that running code raises.

use crate::text::{join3, join5};
use vstd::prelude::*;

verus! {

/// The type of a raised exception.
#[derive(Clone, Copy, Debug, PartialEq, Eq, Structural)]
pub enum ExcType {
    AttributeError,
    CancelledError,
    IndexError,
    InvalidStateError,
    KeyError,
    LookupError,
    MemoryError,
    NameError,
    NotImplementedError,
    OverflowError,
    RecursionError,
    RuntimeError,
    StopIteration,
    TimeoutError,
    TypeError,
    UnicodeError,
    ValueError,
}

/// An error that ends a running operation.
#[derive(Debug)]
pub struct RunError {
    /// The type of the exception.
    pub exc_type: ExcType,
    /// Its message, where it has one.
    pub message: Option<String>,
    /// Whether running code can catch it.
    pub catchable: bool,
}

/// An error as a mathematical value.
#[verifier::ext_equal]
pub struct ErrorModel {
    pub exc_type: ExcType,
    pub message: Option<Seq<char>>,
    pub catchable: bool,
}

impl View for RunError {
    type V = ErrorModel;

    open spec fn view(&self) -> ErrorModel {
        ErrorModel {
            exc_type: self.exc_type,
            message: match self.message {
                Some(text) => Some(text@),
                None => None,
            },
            catchable: self.catchable,
        }
    }
}

/// What an operation gives, or the error that ends it.
pub type RunResult<T> = Result<T, RunError>;

/// An error that code can catch, with a message.
pub open spec fn raised(exc_type: ExcType, text: Seq<char>) -> ErrorModel {
    ErrorModel { exc_type, message: Some(text), catchable: true }
}

/// A type error.
pub open spec fn type_error_model(text: Seq<char>) -> ErrorModel {
    raised(ExcType::TypeError, text)
}

/// A value error.
pub open spec fn value_error_model(text: Seq<char>) -> ErrorModel {
    raised(ExcType::ValueError, text)
}

/// An error that code can catch, with a message.
pub fn raise(exc_type: ExcType, text: &str) -> (error: RunError)
    ensures
        error@ == raised(exc_type, text@),
{
    RunError { exc_type, message: Some(text.to_owned()), catchable: true }
}

/// A type error.
pub fn type_error(text: &str) -> (error: RunError)
    ensures
        error@ == type_error_model(text@),
{
    raise(ExcType::TypeError, text)
}

/// A value error.
pub fn value_error(text: &str) -> (error: RunError)
    ensures
        error@ == value_error_model(text@),
{
    raise(ExcType::ValueError, text)
}

/// A copy of an error.
pub fn copy_error(error: &RunError) -> (copy: RunError)
    ensures
        copy@ == error@,
{
    RunError {
        exc_type: error.exc_type,
        message: match &error.message {
            Some(text) => Some(text.clone()),
            None => None,
        },
        catchable: error.catchable,
    }
}

/// An error whose message has two parts.
pub fn raise2(exc_type: ExcType, before: &str, after: &str) -> (error: RunError)
    ensures
        error@ == raised(exc_type, before@ + after@),
{
    let mut text = before.to_owned();
    text.append(after);
    RunError { exc_type, message: Some(text), catchable: true }
}

/// An error whose message has a varying middle part.
pub fn raise3(exc_type: ExcType, before: &str, middle: &str, after: &str) -> (error: RunError)
    ensures
        error@ == raised(exc_type, before@ + middle@ + after@),
{
    RunError { exc_type, message: Some(join3(before, middle, after)), catchable: true }
}

/// An error whose message has two varying parts.
pub fn raise5(exc_type: ExcType, a: &str, b: &str, c: &str, d: &str, e: &str) -> (error: RunError)
    ensures
        error@ == raised(exc_type, a@ + b@ + c@ + d@ + e@),
{
    RunError { exc_type, message: Some(join5(a, b, c, d, e)), catchable: true }
}

} // verus!
