//! Structured errors: every failing stage returns an error value carrying a
//! source span, a message, and the stage it arose in. Reporting the error to
//! the user is the embedder's concern.
use vstd::prelude::*;

use crate::tokens::Span;

verus! {

/// The stage an error arose in: scanning/parsing, or evaluation.
#[derive(Copy, Clone, Debug, PartialEq, Eq, Structural)]
pub enum ErrorType {
    ParseError,
    RuntimeError,
}

/// The mathematical model of an error value.
pub struct ErrorModel {
    pub span: Span,
    pub message: Seq<char>,
    pub error_type: ErrorType,
}

/// The models of a list of recorded errors, in order.
pub open spec fn error_models(errs: Seq<LoxError>) -> Seq<ErrorModel> {
    errs.map_values(|e: LoxError| e@)
}

/// An error value: a span locating the fault, a human-readable message, and
/// the kind of failure.
#[derive(Debug)]
pub struct LoxError {
    span: Span,
    message: String,
    error_type: ErrorType,
}

impl View for LoxError {
    type V = ErrorModel;

    closed spec fn view(&self) -> ErrorModel {
        ErrorModel { span: self.span, message: self.message@, error_type: self.error_type }
    }
}

impl LoxError {
    /// Builds an error value for the given location, message and stage.
    pub fn error(span: Span, message: &str, error_type: ErrorType) -> (e: Self)
        ensures
            e@ == (ErrorModel { span, message: message@, error_type }),
    {
        LoxError { span, message: message.to_owned(), error_type }
    }

    pub fn span(&self) -> (s: Span)
        ensures
            s == self@.span,
    {
        self.span
    }

    pub fn message(&self) -> (m: &String)
        ensures
            m@ == self@.message,
    {
        &self.message
    }

    pub fn error_type(&self) -> (t: ErrorType)
        ensures
            t == self@.error_type,
    {
        self.error_type
    }
}

} // verus!
