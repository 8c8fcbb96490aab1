//! Errors of the core operations.
use vstd::prelude::*;

use crate::text::to_string;

verus! {

/// `std::io::Error`, carried by `CoreError::Io`.
#[verifier::external_type_specification]
#[verifier::external_body]
pub struct ExIoError(std::io::Error);

/// An error of the core operations: a message, an I/O failure, or a bad argument.
#[derive(Debug)]
pub enum CoreError {
    Msg(String),
    Io(std::io::Error),
    Arg(String),
}

impl CoreError {
    /// An error carrying the message `s`.
    pub fn msg(s: &str) -> (r: CoreError)
        ensures
            r matches CoreError::Msg(m) && m@ == s@,
    {
        CoreError::Msg(to_string(s))
    }

    /// A bad-argument error carrying the message `s`.
    pub fn arg(s: &str) -> (r: CoreError)
        ensures
            r matches CoreError::Arg(m) && m@ == s@,
    {
        CoreError::Arg(to_string(s))
    }
}

/// An error of the tools' own decisions: a message for the user, or a core error.
#[derive(Debug)]
pub enum AppError {
    Msg(String),
    Core(CoreError),
}

impl AppError {
    /// An error carrying the message `s`.
    pub fn msg(s: &str) -> (r: AppError)
        ensures
            r matches AppError::Msg(m) && m@ == s@,
    {
        AppError::Msg(to_string(s))
    }
}

} // verus!
