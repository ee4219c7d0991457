//! The one error type of the ledger: a stable code for programs and a message for people.
use vstd::prelude::*;

verus! {

/// A failed operation.
#[derive(Debug)]
pub struct AppError {
    pub code: &'static str,
    pub message: String,
}

pub type Result<T> = core::result::Result<T, AppError>;

/// What an [`AppError`] says.
#[verifier::ext_equal]
pub struct ErrorView {
    pub code: Seq<char>,
    pub message: Seq<char>,
}

impl DeepView for AppError {
    type V = ErrorView;

    open spec fn deep_view(&self) -> ErrorView {
        ErrorView { code: self.code@, message: self.message@ }
    }
}

/// What a fallible function answers: the value it returns or the error it reports.
pub open spec fn outcome<T: DeepView>(result: Result<T>) -> core::result::Result<T::V, ErrorView> {
    match result {
        Ok(value) => Ok(value.deep_view()),
        Err(error) => Err(error.deep_view()),
    }
}

/// The error that every rejected input is reported with.
pub open spec fn invalid_input(message: Seq<char>) -> ErrorView {
    ErrorView { code: "INVALID_INPUT"@, message }
}

/// The error for stored data that the ledger itself would not have written.
pub open spec fn damaged(message: Seq<char>) -> ErrorView {
    ErrorView { code: "DATABASE_ERROR"@, message }
}

impl AppError {
    pub fn new(code: &'static str, message: &str) -> (error: AppError)
        ensures
            error.deep_view() == (ErrorView { code: code@, message: message@ }),
    {
        AppError { code, message: message.to_owned() }
    }

    pub fn invalid(message: &str) -> (error: AppError)
        ensures
            error.deep_view() == invalid_input(message@),
    {
        AppError::new("INVALID_INPUT", message)
    }

    pub fn damaged(message: &str) -> (error: AppError)
        ensures
            error.deep_view() == damaged(message@),
    {
        AppError::new("DATABASE_ERROR", message)
    }
}

} // verus!
