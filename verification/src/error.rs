//! The error taxonomy of the billing engine: a caller's bad input is a
//! validation error, a reference to a missing row is a not-found error. Both
//! are surfaced immediately and never retried.

use vstd::prelude::*;

verus! {

#[derive(Debug)]
pub enum PaymentError {
    ValidationError(String),
    StudentNotFound(String),
}

pub type PaymentResult<T> = Result<T, PaymentError>;

impl PaymentError {
    /// A short description of the error, for display by callers.
    pub fn message(&self) -> (s: &str)
        ensures
            match self {
                PaymentError::ValidationError(m) => s@ == m@,
                PaymentError::StudentNotFound(m) => s@ == m@,
            },
    {
        match self {
            PaymentError::ValidationError(m) => m.as_str(),
            PaymentError::StudentNotFound(m) => m.as_str(),
        }
    }
}

} // verus!
