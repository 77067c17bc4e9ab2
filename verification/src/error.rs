//! The errors that script sees, as DOM exceptions.

use vstd::prelude::*;

verus! {

/// The name of a DOM exception.
#[derive(Clone, Copy, Debug, PartialEq, Eq, Structural)]
pub enum ErrorKind {
    Abort,
    Constraint,
    Data,
    InvalidAccess,
    InvalidState,
    NotFound,
    NotSupported,
    Operation,
    ReadOnly,
    Security,
    Syntax,
    TransactionInactive,
    Type,
    /// An exception is already pending on the JavaScript context.
    JSFailed,
}

/// A DOM exception with the message it carries, if any.
#[derive(Debug)]
pub struct Error {
    pub kind: ErrorKind,
    pub message: Option<String>,
}

/// What an error says.
pub struct ErrorView {
    pub kind: ErrorKind,
    pub message: Option<Seq<char>>,
}

/// What an optional string holds.
pub open spec fn option_text(text: Option<String>) -> Option<Seq<char>> {
    match text {
        Some(text) => Some(text@),
        None => None,
    }
}

impl View for Error {
    type V = ErrorView;

    open spec fn view(&self) -> ErrorView {
        ErrorView { kind: self.kind, message: option_text(self.message) }
    }
}

/// An error of the given kind without a message.
pub open spec fn plain(kind: ErrorKind) -> ErrorView {
    ErrorView { kind, message: None }
}

/// An error of the given kind with a message.
pub open spec fn says(kind: ErrorKind, message: Seq<char>) -> ErrorView {
    ErrorView { kind, message: Some(message) }
}

/// A copy of an optional string.
pub fn copy_option_text(text: &Option<String>) -> (copy: Option<String>)
    ensures
        copy == *text,
{
    match text {
        Some(text) => Some(text.clone()),
        None => None,
    }
}

impl Clone for Error {
    fn clone(&self) -> (copy: Self)
        ensures
            copy == *self,
    {
        Error { kind: self.kind, message: copy_option_text(&self.message) }
    }
}

impl Error {
    /// An error without a message.
    pub fn plain(kind: ErrorKind) -> (error: Self)
        ensures
            error@ == plain(kind),
    {
        Error { kind, message: None }
    }

    /// An error with a message.
    pub fn says(kind: ErrorKind, message: &str) -> (error: Self)
        ensures
            error@ == says(kind, message@),
    {
        Error { kind, message: Some(message.to_owned()) }
    }
}

/// The error that a failed call carries, by what it says.
pub open spec fn failed<T>(result: Result<T, Error>, error: ErrorView) -> bool {
    result matches Err(e) && e@ == error
}

} // verus!
